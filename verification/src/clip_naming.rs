//! Clip file names from templates: `{placeholder}` substitution, the
//! sanitising of the result into one safe path component, and the names a
//! saved clip is renamed to.
use vstd::prelude::*;
use crate::text::{strip_end_char, strip_start_char, chars_eq_str, chars_of, decimal, decimal_string, first_index_of, is_control, is_control_char, is_whitespace, is_ws, is_digit, lemma_first_index_of, lemma_first_index_of_none, owned, push_decimal, strip_char, strip_char_chars, string_of, sub_chars};

verus! {

/// A placeholder that templates may use.
#[derive(Debug, Clone, Copy, PartialEq, Eq)]
pub struct PlaceholderSpec {
    pub token: &'static str,
    pub example: &'static str,
    pub description: &'static str,
}

/// The tokens of the supported placeholders, in the order they are listed.
pub open spec fn placeholder_tokens() -> Seq<Seq<char>> {
    seq![
        "{timestamp}"@,
        "{source}"@,
        "{profile}"@,
        "{rule}"@,
        "{character}"@,
        "{server}"@,
        "{continent}"@,
        "{base}"@,
        "{score}"@,
        "{duration}"@,
    ]
}

/// The placeholders a template may use, with an example value and a
/// description of each.
pub fn supported_placeholders() -> (r: Vec<PlaceholderSpec>)
    ensures
        r@.len() == placeholder_tokens().len(),
        forall|i: int| 0 <= i < r@.len() ==> (#[trigger] r@[i]).token@ == placeholder_tokens()[i],
{
    let mut r: Vec<PlaceholderSpec> = Vec::new();
    r.push(PlaceholderSpec { token: "{timestamp}", example: "2024-03-09_11-20-00", description: "Clip trigger time in local time." });
    r.push(PlaceholderSpec { token: "{source}", example: "manual", description: "Clip origin such as manual or rule." });
    r.push(PlaceholderSpec { token: "{profile}", example: "Default", description: "Active rule profile ID." });
    r.push(PlaceholderSpec { token: "{rule}", example: "manual_clip", description: "Rule ID or manual clip marker." });
    r.push(PlaceholderSpec { token: "{character}", example: "Example", description: "Tracked character name." });
    r.push(PlaceholderSpec { token: "{server}", example: "Emerald", description: "Resolved world name." });
    r.push(PlaceholderSpec { token: "{continent}", example: "Indar", description: "Resolved zone or continent name." });
    r.push(PlaceholderSpec { token: "{base}", example: "The Crown", description: "Resolved facility or base name." });
    r.push(PlaceholderSpec { token: "{score}", example: "12", description: "Trigger score saved with the clip." });
    r.push(PlaceholderSpec { token: "{duration}", example: "30", description: "Clip duration in seconds." });
    r
}

/// What a clip's name is made from. `timestamp` is the trigger time in
/// seconds since the Unix epoch.
#[derive(Debug)]
pub struct ClipNamingContext {
    pub timestamp: i64,
    pub source: String,
    pub profile: String,
    pub rule: String,
    pub character: String,
    pub server: String,
    pub continent: String,
    pub base: String,
    pub score: u32,
    pub duration_secs: u32,
}

/// The values a template is rendered from.
pub struct NamingView {
    pub timestamp: i64,
    pub source: Seq<char>,
    pub profile: Seq<char>,
    pub rule: Seq<char>,
    pub character: Seq<char>,
    pub server: Seq<char>,
    pub continent: Seq<char>,
    pub base: Seq<char>,
    pub score: nat,
    pub duration_secs: nat,
}

impl View for ClipNamingContext {
    type V = NamingView;

    open spec fn view(&self) -> NamingView {
        NamingView {
            timestamp: self.timestamp,
            source: self.source@,
            profile: self.profile@,
            rule: self.rule@,
            character: self.character@,
            server: self.server@,
            continent: self.continent@,
            base: self.base@,
            score: self.score as nat,
            duration_secs: self.duration_secs as nat,
        }
    }
}

/// The example values that templates are checked and previewed with.
pub open spec fn sample_values() -> NamingView {
    NamingView {
        timestamp: SAMPLE_TIMESTAMP,
        source: "manual"@,
        profile: "Default"@,
        rule: "Manual Clip"@,
        character: "Example"@,
        server: "Emerald"@,
        continent: "Indar"@,
        base: "The Crown"@,
        score: 12,
        duration_secs: 30,
    }
}

/// The trigger time of the example context that previews render.
pub const SAMPLE_TIMESTAMP: i64 = 1_710_000_000;

/// The example context that templates are checked and previewed with.
pub fn sample_context() -> (r: ClipNamingContext)
    ensures
        r@ == sample_values(),
{
    ClipNamingContext {
        timestamp: SAMPLE_TIMESTAMP,
        source: owned("manual"),
        profile: owned("Default"),
        rule: owned("Manual Clip"),
        character: owned("Example"),
        server: owned("Emerald"),
        continent: owned("Indar"),
        base: owned("The Crown"),
        score: 12,
        duration_secs: 30,
    }
}

/// The text a placeholder named `name` stands for, `ts` being the rendered
/// trigger time; `None` for a name that is not a placeholder.
pub open spec fn placeholder_value(name: Seq<char>, ctx: NamingView, ts: Seq<char>) -> Option<Seq<char>> {
    if name == "timestamp"@ {
        Some(ts)
    } else if name == "source"@ {
        Some(ctx.source)
    } else if name == "profile"@ {
        Some(ctx.profile)
    } else if name == "rule"@ {
        Some(ctx.rule)
    } else if name == "character"@ {
        Some(ctx.character)
    } else if name == "server"@ {
        Some(ctx.server)
    } else if name == "continent"@ {
        Some(ctx.continent)
    } else if name == "base"@ {
        Some(ctx.base)
    } else if name == "score"@ {
        Some(decimal(ctx.score))
    } else if name == "duration"@ {
        Some(decimal(ctx.duration_secs))
    } else {
        None
    }
}

pub open spec fn empty_placeholder_message() -> Seq<char> {
    "clip naming template contains an empty placeholder"@
}

pub open spec fn unknown_placeholder_message(name: Seq<char>) -> Seq<char> {
    "clip naming template uses an unknown placeholder: {"@ + name + "}"@
}

/// `r` with `p` in front of its text, errors passed through.
pub open spec fn prepend(p: Seq<char>, r: Result<Seq<char>, Seq<char>>) -> Result<Seq<char>, Seq<char>> {
    match r {
        Ok(x) => Ok(p + x),
        Err(e) => Err(e),
    }
}

/// The name of the placeholder that `rest` (what follows a `{`) opens: the
/// characters up to the first `}`, or all of them when none closes it.
pub open spec fn placeholder_name(rest: Seq<char>) -> Seq<char> {
    match first_index_of(rest, '}') {
        Some(k) => if 0 <= k < rest.len() {
            rest.take(k)
        } else {
            rest
        },
        None => rest,
    }
}

/// What follows the placeholder that `rest` opens.
pub open spec fn after_placeholder(rest: Seq<char>) -> Seq<char> {
    match first_index_of(rest, '}') {
        Some(k) => if 0 <= k < rest.len() {
            rest.skip(k + 1)
        } else {
            seq![]
        },
        None => seq![],
    }
}

/// A template rendered left to right: text is copied, each `{name}` is
/// replaced by its value; the first empty or unknown placeholder is the
/// error.
pub open spec fn render(t: Seq<char>, ctx: NamingView, ts: Seq<char>) -> Result<Seq<char>, Seq<char>>
    decreases t.len(),
{
    if t.len() == 0 {
        Ok(seq![])
    } else if t[0] != '{' {
        prepend(seq![t[0]], render(t.drop_first(), ctx, ts))
    } else {
        let rest = t.drop_first();
        let name = placeholder_name(rest);
        if name.len() == 0 {
            Err(empty_placeholder_message())
        } else {
            match placeholder_value(name, ctx, ts) {
                None => Err(unknown_placeholder_message(name)),
                Some(v) => prepend(v, render(after_placeholder(rest), ctx, ts)),
            }
        }
    }
}

/// The value of the placeholder `name`, if it is one.
fn lookup_placeholder(name: &Vec<char>, context: &ClipNamingContext, timestamp_text: &str) -> (r: Option<String>)
    ensures
        match (r, placeholder_value(name@, context@, timestamp_text@)) {
            (Some(x), Some(y)) => x@ == y,
            (None, None) => true,
            _ => false,
        },
{
    if chars_eq_str(name, "timestamp") {
        Some(owned(timestamp_text))
    } else if chars_eq_str(name, "source") {
        Some(owned(context.source.as_str()))
    } else if chars_eq_str(name, "profile") {
        Some(owned(context.profile.as_str()))
    } else if chars_eq_str(name, "rule") {
        Some(owned(context.rule.as_str()))
    } else if chars_eq_str(name, "character") {
        Some(owned(context.character.as_str()))
    } else if chars_eq_str(name, "server") {
        Some(owned(context.server.as_str()))
    } else if chars_eq_str(name, "continent") {
        Some(owned(context.continent.as_str()))
    } else if chars_eq_str(name, "base") {
        Some(owned(context.base.as_str()))
    } else if chars_eq_str(name, "score") {
        Some(decimal_string(context.score as u64))
    } else if chars_eq_str(name, "duration") {
        Some(decimal_string(context.duration_secs as u64))
    } else {
        None
    }
}

proof fn lemma_prepend_assoc(a: Seq<char>, b: Seq<char>, r: Result<Seq<char>, Seq<char>>)
    ensures
        prepend(a, prepend(b, r)) == prepend(a + b, r),
{
    match r {
        Ok(x) => {
            assert(a + (b + x) =~= (a + b) + x);
        },
        Err(e) => {},
    }
}

/// Renders `template` with the values of `context`, `timestamp_text` standing
/// for the trigger time.
pub fn render_with_timestamp(template: &str, context: &ClipNamingContext, timestamp_text: &str) -> (r: Result<String, String>)
    ensures
        match (r, render(template@, context@, timestamp_text@)) {
            (Ok(x), Ok(y)) => x@ == y,
            (Err(x), Err(y)) => x@ == y,
            _ => false,
        },
{
    let v = chars_of(template);
    let n = v.len();
    let ghost ctx = context@;
    let ghost ts = timestamp_text@;
    let mut out = String::new();
    let mut i: usize = 0;
    assert(v@.skip(0) =~= v@);
    assert(out@ =~= seq![]);
    assert(prepend(seq![], render(v@, ctx, ts)) == render(v@, ctx, ts)) by {
        match render(v@, ctx, ts) {
            Ok(x) => { assert(seq![] + x =~= x); },
            Err(e) => {},
        }
    }
    while i < n
        invariant
            i <= n == v.len(),
            v@ == template@,
            ctx == context@,
            ts == timestamp_text@,
            render(v@, ctx, ts) == prepend(out@, render(v@.skip(i as int), ctx, ts)),
        decreases n - i,
    {
        let c = v[i];
        let ghost s = v@.skip(i as int);
        assert(s[0] == c);
        assert(s.drop_first() =~= v@.skip(i + 1));
        if c != '{' {
            proof {
                assert(render(s, ctx, ts) == prepend(seq![c], render(v@.skip(i + 1), ctx, ts)));
                lemma_prepend_assoc(out@, seq![c], render(v@.skip(i + 1), ctx, ts));
            }
            let ghost before = out@;
            out.push(c);
            assert(out@ =~= before + seq![c]);
            i = i + 1;
        } else {
            let mut j: usize = i + 1;
            while j < n && v[j] != '}'
                invariant
                    i < j <= n == v.len(),
                    forall|k: int| i < k < j ==> v@[k] != '}',
                decreases n - j,
            {
                j = j + 1;
            }
            let ghost rest = v@.skip(i + 1);
            let name = sub_chars(&v, i + 1, j);
            let next: usize = if j < n { j + 1 } else { n };
            proof {
                if j < n {
                    assert(rest[j - i - 1] == '}');
                    assert forall|k: int| 0 <= k < j - i - 1 implies rest[k] != '}' by {
                        assert(rest[k] == v@[i + 1 + k]);
                    }
                    lemma_first_index_of(rest, '}', j - i - 1);
                    assert(name@ =~= rest.take(j - i - 1));
                    assert(rest.skip(j - i) =~= v@.skip(j + 1));
                } else {
                    assert forall|k: int| 0 <= k < rest.len() implies rest[k] != '}' by {
                        assert(rest[k] == v@[i + 1 + k]);
                    }
                    lemma_first_index_of_none(rest, '}');
                    assert(name@ =~= rest);
                    assert(v@.skip(n as int) =~= seq![]);
                }
                assert(placeholder_name(rest) == name@);
                assert(after_placeholder(rest) == v@.skip(next as int));
            }
            if name.len() == 0 {
                return Err(owned("clip naming template contains an empty placeholder"));
            }
            match lookup_placeholder(&name, context, timestamp_text) {
                None => {
                    let mut e = owned("clip naming template uses an unknown placeholder: {");
                    let nm = string_of(&name);
                    e.push_str(nm.as_str());
                    e.push_str("}");
                    return Err(e);
                },
                Some(val) => {
                    proof {
                        assert(s.drop_first() == rest);
                        assert(placeholder_value(name@, ctx, ts) == Some(val@));
                        assert(render(s, ctx, ts) == prepend(val@, render(v@.skip(next as int), ctx, ts)));
                        lemma_prepend_assoc(out@, val@, render(v@.skip(next as int), ctx, ts));
                    }
                    out.push_str(val.as_str());
                    i = next;
                },
            }
        }
    }
    assert(v@.skip(n as int) =~= seq![]);
    assert(out@ + seq![] =~= out@);
    Ok(out)
}

/// Whether `t` is laid out as `%Y-%m-%d_%H-%M-%S` writes a date of the
/// years 1 to 9999: four digits, `-`, two digits, `-`, two, `_`, two, `-`,
/// two, `-`, two.
pub open spec fn timestamp_shaped(t: Seq<char>) -> bool {
    &&& t.len() == 19
    &&& t[4] == '-' && t[7] == '-' && t[10] == '_' && t[13] == '-' && t[16] == '-'
    &&& forall|i: int|
        0 <= i < 19 && i != 4 && i != 7 && i != 10 && i != 13 && i != 16 ==> is_digit(#[trigger] t[i])
}

/// Whether the time `secs` falls, in every time zone, on a date of the
/// years 1 to 9999: from a day after 0001-01-01 UTC to a day before the end
/// of 9999 (a local offset is less than a day).
pub open spec fn local_date_in_common_era(secs: int) -> bool {
    -62_135_510_400 <= secs <= 253_402_214_399
}

/// The trigger time `secs` written in local time as `%Y-%m-%d_%H-%M-%S`.
/// Which date and time the text gives depends on the machine's time zone
/// and is left unsaid; the contract claims that a time of this era can be
/// written, and that a time whose local date has a four-digit year comes
/// out in the format's layout (chrono pads `%Y` to four digits and the
/// other fields to two).
#[verifier::external_body]
fn local_timestamp_text(secs: i64) -> (r: Option<String>)
    ensures
        -1_099_511_627_776 <= secs <= 1_099_511_627_776 ==> r is Some,
        local_date_in_common_era(secs as int) ==> r is Some && timestamp_shaped(r.unwrap()@),
{
    chrono::DateTime::<chrono::Utc>::from_timestamp(secs, 0)
        .map(|t| t.with_timezone(&chrono::Local).format("%Y-%m-%d_%H-%M-%S").to_string())
}

/// Renders `template` with the values of `context`, the trigger time written
/// in local time. Whatever text the time comes out as, the result is the
/// rendering with that text, laid out as the timestamp format when the
/// local date falls in the years 1 to 9999; a time beyond what can be
/// written is an error.
pub fn render_template(template: &str, context: &ClipNamingContext) -> (r: Result<String, String>)
    ensures
        -1_099_511_627_776 <= context.timestamp <= 1_099_511_627_776 ==> exists|ts: Seq<char>|
            match (r, #[trigger] render(template@, context@, ts)) {
                (Ok(x), Ok(y)) => x@ == y,
                (Err(x), Err(y)) => x@ == y,
                _ => false,
            },
        local_date_in_common_era(context.timestamp as int) ==> exists|ts: Seq<char>|
            timestamp_shaped(ts) && match (r, #[trigger] render(template@, context@, ts)) {
                (Ok(x), Ok(y)) => x@ == y,
                (Err(x), Err(y)) => x@ == y,
                _ => false,
            },
{
    match local_timestamp_text(context.timestamp) {
        Some(ts) => render_with_timestamp(template, context, ts.as_str()),
        None => Err(owned("clip naming timestamp is out of range")),
    }
}

/// Whether a rendering succeeds never depends on the values substituted.
pub proof fn lemma_render_errors_ignore_values(t: Seq<char>, c1: NamingView, t1: Seq<char>, c2: NamingView, t2: Seq<char>)
    ensures
        render(t, c1, t1) is Ok <==> render(t, c2, t2) is Ok,
        render(t, c1, t1) is Err ==> render(t, c1, t1) == render(t, c2, t2),
    decreases t.len(),
{
    if t.len() > 0 {
        if t[0] != '{' {
            lemma_render_errors_ignore_values(t.drop_first(), c1, t1, c2, t2);
        } else {
            let rest = t.drop_first();
            let after = after_placeholder(rest);
            if after.len() < t.len() {
                lemma_render_errors_ignore_values(after, c1, t1, c2, t2);
            }
        }
    }
}

/// Characters that may not stand in a file name, and control characters.
pub open spec fn unsafe_in_file_name(c: char) -> bool {
    c == '/' || c == '\\' || c == ':' || c == '*' || c == '?' || c == '"' || c == '<' || c == '>'
        || c == '|' || is_control(c)
}

pub open spec fn mask_char(c: char) -> char {
    if unsafe_in_file_name(c) {
        '_'
    } else {
        c
    }
}

/// `s` with every character that may not stand in a file name made `_`.
pub open spec fn masked(s: Seq<char>) -> Seq<char> {
    s.map_values(|c: char| mask_char(c))
}

/// The words of `s` (its maximal runs of non-whitespace) joined by `_`:
/// `pending` says that a run of whitespace separates what was written from
/// what follows, `started` that a word was written.
pub open spec fn join_words(s: Seq<char>, pending: bool, started: bool) -> Seq<char>
    decreases s.len(),
{
    if s.len() == 0 {
        seq![]
    } else if is_ws(s[0]) {
        join_words(s.drop_first(), started, started)
    } else {
        (if pending {
            seq!['_']
        } else {
            seq![]
        }) + seq![s[0]] + join_words(s.drop_first(), false, true)
    }
}

/// One safe path component from `s`: unsafe characters become `_`, the
/// words are joined by `_`, and `_` is trimmed from both ends.
pub open spec fn sanitized(s: Seq<char>) -> Seq<char> {
    strip_char(join_words(masked(s), false, false), '_')
}

/// Makes `value` safe to stand as one path component.
pub fn sanitize_component(value: &str) -> (out: String)
    ensures
        out@ == sanitized(value@),
{
    let v = chars_of(value);
    let ghost m = masked(v@);
    let mut joined: Vec<char> = Vec::new();
    let mut pending = false;
    let mut started = false;
    let mut i: usize = 0;
    assert(m.skip(0) =~= m);
    assert(joined@ + join_words(m, false, false) =~= join_words(m, false, false));
    while i < v.len()
        invariant
            i <= v.len(),
            m == masked(v@),
            m.len() == v@.len(),
            join_words(m, false, false) == joined@ + join_words(m.skip(i as int), pending, started),
        decreases v.len() - i,
    {
        let c = v[i];
        let mc = if c == '/' || c == '\\' || c == ':' || c == '*' || c == '?' || c == '"' || c
            == '<' || c == '>' || c == '|' || is_control_char(c) {
            '_'
        } else {
            c
        };
        let ghost s = m.skip(i as int);
        assert(m[i as int] == mask_char(v@[i as int]));
        assert(s[0] == mc);
        assert(s.drop_first() =~= m.skip(i + 1));
        if is_whitespace(mc) {
            pending = started;
        } else {
            let ghost before = joined@;
            let ghost was_pending = pending;
            if pending {
                joined.push('_');
            }
            joined.push(mc);
            proof {
                let sep: Seq<char> = if was_pending {
                    seq!['_']
                } else {
                    seq![]
                };
                let tail = join_words(m.skip(i + 1), false, true);
                assert(joined@ =~= before + sep + seq![mc]);
                assert(join_words(s, was_pending, started) == sep + seq![mc] + tail);
                assert(before + (sep + seq![mc] + tail) =~= joined@ + tail);
            }
            pending = false;
            started = true;
        }
        i = i + 1;
    }
    assert(m.skip(v.len() as int) =~= seq![]);
    assert(joined@ + seq![] =~= joined@);
    let stripped = strip_char_chars(&joined, '_');
    string_of(&stripped)
}

/// What `join_words` writes is `_` or a non-space character of its input.
proof fn lemma_join_words_chars(s: Seq<char>, pending: bool, started: bool)
    ensures
        forall|i: int| 0 <= i < join_words(s, pending, started).len() ==> {
            let c = #[trigger] join_words(s, pending, started)[i];
            c == '_' || (s.contains(c) && !is_ws(c))
        },
    decreases s.len(),
{
    if s.len() > 0 {
        let t = s.drop_first();
        if is_ws(s[0]) {
            lemma_join_words_chars(t, started, started);
            assert forall|i: int| 0 <= i < join_words(s, pending, started).len() implies {
                let c = #[trigger] join_words(s, pending, started)[i];
                c == '_' || (s.contains(c) && !is_ws(c))
            } by {
                assert(join_words(s, pending, started) == join_words(t, started, started));
                let c = join_words(t, started, started)[i];
                if c != '_' {
                    assert(t.contains(c));
                    let k = choose|k: int| 0 <= k < t.len() && t[k] == c;
                    assert(s[k + 1] == c);
                }
            }
        } else {
            lemma_join_words_chars(t, false, true);
            let sep: Seq<char> = if pending { seq!['_'] } else { seq![] };
            let rest = join_words(t, false, true);
            assert(join_words(s, pending, started) == sep + seq![s[0]] + rest);
            assert forall|i: int| 0 <= i < join_words(s, pending, started).len() implies {
                let c = #[trigger] join_words(s, pending, started)[i];
                c == '_' || (s.contains(c) && !is_ws(c))
            } by {
                let c = join_words(s, pending, started)[i];
                if i < sep.len() {
                } else if i == sep.len() {
                    assert(c == s[0]);
                } else {
                    assert(c == rest[i - sep.len() - 1]);
                    if c != '_' {
                        assert(t.contains(c));
                        let k = choose|k: int| 0 <= k < t.len() && t[k] == c;
                        assert(s[k + 1] == c);
                    }
                }
            }
        }
    }
}

/// Taking copies of a character off the front leaves a tail of `s`.
proof fn lemma_strip_start_is_tail(s: Seq<char>, c: char)
    ensures
        exists|k: int| 0 <= k <= s.len() && strip_start_char(s, c) == #[trigger] s.skip(k),
    decreases s.len(),
{
    if s.len() > 0 && s[0] == c {
        lemma_strip_start_is_tail(s.drop_first(), c);
        let k = choose|k: int| 0 <= k <= s.drop_first().len() && strip_start_char(s.drop_first(), c) == #[trigger] s.drop_first().skip(k);
        assert(s.drop_first().skip(k) =~= s.skip(k + 1));
    } else {
        assert(s.skip(0) =~= s);
    }
}

/// Taking copies of a character off the end leaves a head of `s`.
proof fn lemma_strip_end_is_head(s: Seq<char>, c: char)
    ensures
        exists|k: int| 0 <= k <= s.len() && strip_end_char(s, c) == #[trigger] s.take(k),
    decreases s.len(),
{
    if s.len() > 0 && s.last() == c {
        lemma_strip_end_is_head(s.drop_last(), c);
        let k = choose|k: int| 0 <= k <= s.drop_last().len() && strip_end_char(s.drop_last(), c) == #[trigger] s.drop_last().take(k);
        assert(s.drop_last().take(k) =~= s.take(k));
    } else {
        assert(s.take(s.len() as int) =~= s);
    }
}

/// A sanitised name holds no character that a file name may not hold and
/// no whitespace: whatever the input, it can stand as one path component.
pub proof fn lemma_sanitized_is_safe(s: Seq<char>)
    ensures
        forall|i: int| 0 <= i < sanitized(s).len() ==> {
            let c = #[trigger] sanitized(s)[i];
            !unsafe_in_file_name(c) && !is_ws(c)
        },
{
    let m = masked(s);
    let j = join_words(m, false, false);
    lemma_join_words_chars(m, false, false);
    lemma_strip_start_is_tail(j, '_');
    let a = strip_start_char(j, '_');
    let k1 = choose|k: int| 0 <= k <= j.len() && a == #[trigger] j.skip(k);
    lemma_strip_end_is_head(a, '_');
    let k2 = choose|k: int| 0 <= k <= a.len() && strip_end_char(a, '_') == #[trigger] a.take(k);
    let r = sanitized(s);
    assert(r == a.take(k2));
    assert forall|i: int| 0 <= i < r.len() implies {
        let c = #[trigger] r[i];
        !unsafe_in_file_name(c) && !is_ws(c)
    } by {
        let c = r[i];
        assert(c == j[i + k1]);
        if c != '_' {
            let n = choose|n: int| 0 <= n < m.len() && m[n] == c;
            assert(m[n] == mask_char(s[n]));
        }
    }
}

/// Checks that every placeholder of `template` is known and none is empty.
pub fn validate_template(template: &str) -> (r: Result<(), String>)
    ensures
        forall|ctx: NamingView, ts: Seq<char>|
            match (r, #[trigger] render(template@, ctx, ts)) {
                (Ok(_), Ok(_)) => true,
                (Err(x), Err(y)) => x@ == y,
                _ => false,
            },
{
    let ctx = sample_context();
    let r = render_with_timestamp(template, &ctx, "");
    proof {
        assert forall|c: NamingView, ts: Seq<char>|
            match (r, #[trigger] render(template@, c, ts)) {
                (Ok(_), Ok(_)) => true,
                (Err(x), Err(y)) => x@ == y,
                _ => false,
            } by {
            lemma_render_errors_ignore_values(template@, ctx@, ""@, c, ts);
        }
    }
    match r {
        Ok(_) => Ok(()),
        Err(e) => Err(e),
    }
}

/// The file stem a rendered name becomes: sanitised, or `clip` when nothing
/// is left.
pub open spec fn final_stem(rendered: Seq<char>) -> Seq<char> {
    if sanitized(rendered).len() == 0 {
        "clip"@
    } else {
        sanitized(rendered)
    }
}

pub fn file_stem(rendered: &str) -> (out: String)
    ensures
        out@ == final_stem(rendered@),
{
    let s = sanitize_component(rendered);
    if s.as_str().is_empty() {
        owned("clip")
    } else {
        s
    }
}

/// What a preview shows for `template`, `ts` being the sample time as
/// written.
pub open spec fn preview_of(template: Seq<char>, ts: Seq<char>) -> Result<Seq<char>, Seq<char>> {
    match render(template, sample_values(), ts) {
        Ok(x) => Ok(final_stem(x)),
        Err(e) => Err(e),
    }
}

/// The preview of `template`, `timestamp_text` standing for the sample time.
pub fn preview_with_timestamp(template: &str, timestamp_text: &str) -> (r: Result<String, String>)
    ensures
        match (r, preview_of(template@, timestamp_text@)) {
            (Ok(x), Ok(y)) => x@ == y,
            (Err(x), Err(y)) => x@ == y,
            _ => false,
        },
{
    let ctx = sample_context();
    match render_with_timestamp(template, &ctx, timestamp_text) {
        Ok(rendered) => Ok(file_stem(rendered.as_str())),
        Err(e) => Err(e),
    }
}

/// The file name `template` gives the sample clip, the sample time written
/// in local time; whatever that text is, the result is the preview with it.
pub fn preview_template(template: &str) -> (r: Result<String, String>)
    ensures
        exists|ts: Seq<char>|
            timestamp_shaped(ts) && match (r, #[trigger] preview_of(template@, ts)) {
                (Ok(x), Ok(y)) => x@ == y,
                (Err(x), Err(y)) => x@ == y,
                _ => false,
            },
{
    let ts = local_timestamp_text(SAMPLE_TIMESTAMP);
    match ts {
        Some(t) => preview_with_timestamp(template, t.as_str()),
        None => {
            let r = preview_with_timestamp(template, "");
            r
        },
    }
}

/// The stem a saved clip is renamed to: `template` rendered with `context`,
/// made into one safe path component.
pub fn renamed_clip_stem(template: &str, context: &ClipNamingContext) -> (r: Result<String, String>)
    ensures
        -1_099_511_627_776 <= context.timestamp <= 1_099_511_627_776 ==> exists|ts: Seq<char>|
            match (r, #[trigger] render(template@, context@, ts)) {
                (Ok(x), Ok(y)) => x@ == final_stem(y),
                (Err(x), Err(y)) => x@ == y,
                _ => false,
            },
        local_date_in_common_era(context.timestamp as int) ==> exists|ts: Seq<char>|
            timestamp_shaped(ts) && match (r, #[trigger] render(template@, context@, ts)) {
                (Ok(x), Ok(y)) => x@ == final_stem(y),
                (Err(x), Err(y)) => x@ == y,
                _ => false,
            },
{
    match render_template(template, context) {
        Ok(rendered) => Ok(file_stem(rendered.as_str())),
        Err(e) => Err(e),
    }
}

/// The file name for `stem`: `-N` added for the N-th candidate after a
/// collision, then `.` and the extension when there is one.
pub open spec fn clip_file_name_of(stem: Seq<char>, extension: Option<Seq<char>>, collision: Option<u32>) -> Seq<char> {
    stem + (match collision {
        Some(n) => "-"@ + decimal(n as nat),
        None => seq![],
    }) + (match extension {
        Some(e) => "."@ + e,
        None => seq![],
    })
}

pub fn clip_file_name(stem: &str, extension: Option<&str>, collision: Option<u32>) -> (out: String)
    ensures
        out@ == clip_file_name_of(stem@, match extension {
            Some(e) => Some(e@),
            None => None,
        }, collision),
{
    let mut out = owned(stem);
    let ghost a = out@;
    match collision {
        Some(n) => {
            out.push_str("-");
            push_decimal(&mut out, n as u64);
        },
        None => {},
    }
    let ghost b = out@;
    match extension {
        Some(e) => {
            out.push_str(".");
            out.push_str(e);
        },
        None => {},
    }
    proof {
        let ev = match extension {
            Some(e) => Some(e@),
            None => None,
        };
        assert(out@ =~= clip_file_name_of(stem@, ev, collision));
    }
    out
}

/// A template made of one placeholder `{name}` renders to that
/// placeholder's value, or fails as an unknown placeholder.
proof fn lemma_render_one_placeholder(name: Seq<char>, ctx: NamingView, ts: Seq<char>)
    requires
        name.len() > 0,
        forall|k: int| 0 <= k < name.len() ==> name[k] != '}',
    ensures
        render(seq!['{'] + name + seq!['}'], ctx, ts) == match placeholder_value(name, ctx, ts) {
            Some(v) => Ok(v),
            None => Err(unknown_placeholder_message(name)),
        },
{
    let t = seq!['{'] + name + seq!['}'];
    let rest = t.drop_first();
    assert(rest =~= name + seq!['}']);
    assert(rest[name.len() as int] == '}');
    assert forall|k: int| 0 <= k < name.len() implies rest[k] != '}' by {
        assert(rest[k] == name[k]);
    }
    lemma_first_index_of(rest, '}', name.len() as int);
    assert(rest.take(name.len() as int) =~= name);
    assert(rest.skip(name.len() as int + 1) =~= Seq::<char>::empty());
    assert(t[0] == '{');
    assert(placeholder_name(rest) == name);
    assert(after_placeholder(rest) == Seq::<char>::empty());
    let e = Seq::<char>::empty();
    assert(render(e, ctx, ts) == Ok::<Seq<char>, Seq<char>>(seq![]));
    assert(seq![] =~= e);
    match placeholder_value(name, ctx, ts) {
        Some(v) => {
            assert(v + Seq::<char>::empty() =~= v);
        },
        None => {},
    }
}

/// The value of each placeholder name.
proof fn lemma_placeholder_values(ctx: NamingView, ts: Seq<char>)
    ensures
        placeholder_value("server"@, ctx, ts) == Some(ctx.server),
        placeholder_value("continent"@, ctx, ts) == Some(ctx.continent),
        placeholder_value("base"@, ctx, ts) == Some(ctx.base),
        placeholder_value("character"@, ctx, ts) == Some(ctx.character),
        placeholder_value("source"@, ctx, ts) == Some(ctx.source),
        placeholder_value("profile"@, ctx, ts) == Some(ctx.profile),
        placeholder_value("rule"@, ctx, ts) == Some(ctx.rule),
        placeholder_value("timestamp"@, ctx, ts) == Some(ts),
        placeholder_value("score"@, ctx, ts) == Some(decimal(ctx.score)),
        placeholder_value("duration"@, ctx, ts) == Some(decimal(ctx.duration_secs)),
{
    reveal_strlit("server");
    reveal_strlit("continent");
    reveal_strlit("base");
    reveal_strlit("character");
    reveal_strlit("source");
    reveal_strlit("profile");
    reveal_strlit("rule");
    reveal_strlit("timestamp");
    reveal_strlit("score");
    reveal_strlit("duration");
    assert("timestamp"@.len() != "source"@.len());
    assert("timestamp"@.len() != "profile"@.len());
    assert("timestamp"@.len() != "rule"@.len());
    assert("timestamp"@.len() != "server"@.len());
    assert("timestamp"@.len() != "base"@.len());
    assert("timestamp"@.len() != "score"@.len());
    assert("timestamp"@.len() != "duration"@.len());
    assert("source"@.len() != "profile"@.len());
    assert("source"@.len() != "rule"@.len());
    assert("source"@.len() != "character"@.len());
    assert("source"@.len() != "continent"@.len());
    assert("source"@.len() != "base"@.len());
    assert("source"@.len() != "score"@.len());
    assert("source"@.len() != "duration"@.len());
    assert("profile"@.len() != "rule"@.len());
    assert("profile"@.len() != "character"@.len());
    assert("profile"@.len() != "server"@.len());
    assert("profile"@.len() != "continent"@.len());
    assert("profile"@.len() != "base"@.len());
    assert("profile"@.len() != "score"@.len());
    assert("profile"@.len() != "duration"@.len());
    assert("rule"@.len() != "character"@.len());
    assert("rule"@.len() != "server"@.len());
    assert("rule"@.len() != "continent"@.len());
    assert("rule"@.len() != "score"@.len());
    assert("rule"@.len() != "duration"@.len());
    assert("character"@.len() != "server"@.len());
    assert("character"@.len() != "base"@.len());
    assert("character"@.len() != "score"@.len());
    assert("character"@.len() != "duration"@.len());
    assert("server"@.len() != "continent"@.len());
    assert("server"@.len() != "base"@.len());
    assert("server"@.len() != "score"@.len());
    assert("server"@.len() != "duration"@.len());
    assert("continent"@.len() != "base"@.len());
    assert("continent"@.len() != "score"@.len());
    assert("continent"@.len() != "duration"@.len());
    assert("base"@.len() != "score"@.len());
    assert("base"@.len() != "duration"@.len());
    assert("score"@.len() != "duration"@.len());
    assert("timestamp"@[0] != "character"@[0]);
    assert("timestamp"@[0] != "continent"@[0]);
    assert("source"@[1] != "server"@[1]);
    assert("rule"@[0] != "base"@[0]);
    assert("character"@[1] != "continent"@[1]);
}

proof fn lemma_render_server(ctx: NamingView, ts: Seq<char>)
    ensures
        render("{server}"@, ctx, ts) == Ok::<Seq<char>, Seq<char>>(ctx.server),
{
    lemma_placeholder_values(ctx, ts);
    reveal_strlit("{server}");
    reveal_strlit("server");
    assert("{server}"@ =~= seq!['{'] + "server"@ + seq!['}']);
    lemma_render_one_placeholder("server"@, ctx, ts);
}

proof fn lemma_render_continent(ctx: NamingView, ts: Seq<char>)
    ensures
        render("{continent}"@, ctx, ts) == Ok::<Seq<char>, Seq<char>>(ctx.continent),
{
    lemma_placeholder_values(ctx, ts);
    reveal_strlit("{continent}");
    reveal_strlit("continent");
    assert("{continent}"@ =~= seq!['{'] + "continent"@ + seq!['}']);
    lemma_render_one_placeholder("continent"@, ctx, ts);
}

proof fn lemma_render_base(ctx: NamingView, ts: Seq<char>)
    ensures
        render("{base}"@, ctx, ts) == Ok::<Seq<char>, Seq<char>>(ctx.base),
{
    lemma_placeholder_values(ctx, ts);
    reveal_strlit("{base}");
    reveal_strlit("base");
    assert("{base}"@ =~= seq!['{'] + "base"@ + seq!['}']);
    lemma_render_one_placeholder("base"@, ctx, ts);
}

proof fn lemma_render_character(ctx: NamingView, ts: Seq<char>)
    ensures
        render("{character}"@, ctx, ts) == Ok::<Seq<char>, Seq<char>>(ctx.character),
{
    lemma_placeholder_values(ctx, ts);
    reveal_strlit("{character}");
    reveal_strlit("character");
    assert("{character}"@ =~= seq!['{'] + "character"@ + seq!['}']);
    lemma_render_one_placeholder("character"@, ctx, ts);
}

proof fn lemma_render_source(ctx: NamingView, ts: Seq<char>)
    ensures
        render("{source}"@, ctx, ts) == Ok::<Seq<char>, Seq<char>>(ctx.source),
{
    lemma_placeholder_values(ctx, ts);
    reveal_strlit("{source}");
    reveal_strlit("source");
    assert("{source}"@ =~= seq!['{'] + "source"@ + seq!['}']);
    lemma_render_one_placeholder("source"@, ctx, ts);
}

proof fn lemma_render_profile(ctx: NamingView, ts: Seq<char>)
    ensures
        render("{profile}"@, ctx, ts) == Ok::<Seq<char>, Seq<char>>(ctx.profile),
{
    lemma_placeholder_values(ctx, ts);
    reveal_strlit("{profile}");
    reveal_strlit("profile");
    assert("{profile}"@ =~= seq!['{'] + "profile"@ + seq!['}']);
    lemma_render_one_placeholder("profile"@, ctx, ts);
}

proof fn lemma_render_rule(ctx: NamingView, ts: Seq<char>)
    ensures
        render("{rule}"@, ctx, ts) == Ok::<Seq<char>, Seq<char>>(ctx.rule),
{
    lemma_placeholder_values(ctx, ts);
    reveal_strlit("{rule}");
    reveal_strlit("rule");
    assert("{rule}"@ =~= seq!['{'] + "rule"@ + seq!['}']);
    lemma_render_one_placeholder("rule"@, ctx, ts);
}

proof fn lemma_render_timestamp(ctx: NamingView, ts: Seq<char>)
    ensures
        render("{timestamp}"@, ctx, ts) == Ok::<Seq<char>, Seq<char>>(ts),
{
    lemma_placeholder_values(ctx, ts);
    reveal_strlit("{timestamp}");
    reveal_strlit("timestamp");
    assert("{timestamp}"@ =~= seq!['{'] + "timestamp"@ + seq!['}']);
    lemma_render_one_placeholder("timestamp"@, ctx, ts);
}

proof fn lemma_render_score(ctx: NamingView, ts: Seq<char>)
    ensures
        render("{score}"@, ctx, ts) == Ok::<Seq<char>, Seq<char>>(decimal(ctx.score)),
{
    lemma_placeholder_values(ctx, ts);
    reveal_strlit("{score}");
    reveal_strlit("score");
    assert("{score}"@ =~= seq!['{'] + "score"@ + seq!['}']);
    lemma_render_one_placeholder("score"@, ctx, ts);
}

proof fn lemma_render_duration(ctx: NamingView, ts: Seq<char>)
    ensures
        render("{duration}"@, ctx, ts) == Ok::<Seq<char>, Seq<char>>(decimal(ctx.duration_secs)),
{
    lemma_placeholder_values(ctx, ts);
    reveal_strlit("{duration}");
    reveal_strlit("duration");
    assert("{duration}"@ =~= seq!['{'] + "duration"@ + seq!['}']);
    lemma_render_one_placeholder("duration"@, ctx, ts);
}

/// Each placeholder stands for the context value of its name: a template
/// that is just `{server}` renders to the context's server (world) name,
/// `{continent}` to its continent, `{base}` to its base, `{character}`,
/// `{source}`, `{profile}` and `{rule}` to those values, `{timestamp}` to the
/// timestamp text, and `{score}` and `{duration}` to the score and the
/// clip length in seconds written in decimal.
pub proof fn lemma_placeholders_stand_for_their_fields(ctx: NamingView, ts: Seq<char>)
    ensures
        render("{server}"@, ctx, ts) == Ok::<Seq<char>, Seq<char>>(ctx.server),
        render("{continent}"@, ctx, ts) == Ok::<Seq<char>, Seq<char>>(ctx.continent),
        render("{base}"@, ctx, ts) == Ok::<Seq<char>, Seq<char>>(ctx.base),
        render("{character}"@, ctx, ts) == Ok::<Seq<char>, Seq<char>>(ctx.character),
        render("{source}"@, ctx, ts) == Ok::<Seq<char>, Seq<char>>(ctx.source),
        render("{profile}"@, ctx, ts) == Ok::<Seq<char>, Seq<char>>(ctx.profile),
        render("{rule}"@, ctx, ts) == Ok::<Seq<char>, Seq<char>>(ctx.rule),
        render("{timestamp}"@, ctx, ts) == Ok::<Seq<char>, Seq<char>>(ts),
        render("{score}"@, ctx, ts) == Ok::<Seq<char>, Seq<char>>(decimal(ctx.score)),
        render("{duration}"@, ctx, ts) == Ok::<Seq<char>, Seq<char>>(decimal(ctx.duration_secs)),
{
    lemma_render_server(ctx, ts);
    lemma_render_continent(ctx, ts);
    lemma_render_base(ctx, ts);
    lemma_render_character(ctx, ts);
    lemma_render_source(ctx, ts);
    lemma_render_profile(ctx, ts);
    lemma_render_rule(ctx, ts);
    lemma_render_timestamp(ctx, ts);
    lemma_render_score(ctx, ts);
    lemma_render_duration(ctx, ts);
}

} // verus!
