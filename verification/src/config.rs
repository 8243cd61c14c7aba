//! The settings model: audio sources and their text forms, the capture
//! backend choice, and the normalisation that every section of the settings
//! goes through after it is loaded or edited.
use vstd::prelude::*;
use crate::platform::Platform;
use sha2::{Digest, Sha256};
use crate::dirs::{user_dirs, video_dir};
use crate::gsr::{join_path, join_unix_path};
use crate::text::{is_ws, lemma_lower_of_trimmed, lemma_trim_idempotent, lemma_trim_of_trimmed, split_on, chars_eq_ignore_case, chars_eq_str, chars_has, chars_of, eq_ignore_case, find_char, first_index_of, has_char, is_prefix, lemma_first_index_of, lemma_first_index_of_none, lower, lower_chars, owned, string_of, strip_end_char, strip_prefix, sub_chars, trim, trim_chars, trim_str};

verus! {

/// Where an audio track comes from.
#[derive(Debug)]
pub enum AudioSourceKind {
    DefaultOutput,
    DefaultInput,
    Device { name: String },
    Application { name: String },
    ApplicationInverse { names: Vec<String> },
    Merged { entries: Vec<AudioSourceKind> },
    Raw { backend_id: String, value: String },
}

/// An audio source as plain values.
pub enum KindView {
    DefaultOutput,
    DefaultInput,
    Device(Seq<char>),
    Application(Seq<char>),
    ApplicationInverse(Seq<Seq<char>>),
    Merged(Seq<KindView>),
    Raw(Seq<char>, Seq<char>),
}

pub open spec fn strings_view(v: Seq<String>) -> Seq<Seq<char>> {
    v.map_values(|s: String| s@)
}

pub open spec fn kind_view(k: AudioSourceKind) -> KindView
    decreases k,
{
    match k {
        AudioSourceKind::DefaultOutput => KindView::DefaultOutput,
        AudioSourceKind::DefaultInput => KindView::DefaultInput,
        AudioSourceKind::Device { name } => KindView::Device(name@),
        AudioSourceKind::Application { name } => KindView::Application(name@),
        AudioSourceKind::ApplicationInverse { names } => KindView::ApplicationInverse(strings_view(names@)),
        AudioSourceKind::Merged { entries } => KindView::Merged(kinds_view(entries@)),
        AudioSourceKind::Raw { backend_id, value } => KindView::Raw(backend_id@, value@),
    }
}

pub open spec fn kinds_view(s: Seq<AudioSourceKind>) -> Seq<KindView>
    decreases s,
{
    if s.len() == 0 {
        seq![]
    } else {
        seq![kind_view(s[0])] + kinds_view(s.drop_first())
    }
}

impl View for AudioSourceKind {
    type V = KindView;

    open spec fn view(&self) -> KindView {
        kind_view(*self)
    }
}

/// Whether an audio source names something: a non-blank device or
/// application, at least one excluded application or merged entry, a raw
/// source with both a backend and a value.
pub open spec fn valid_view(k: KindView) -> bool {
    match k {
        KindView::DefaultOutput | KindView::DefaultInput => true,
        KindView::Device(n) | KindView::Application(n) => trim(n).len() > 0,
        KindView::ApplicationInverse(ns) => ns.len() > 0,
        KindView::Merged(es) => es.len() > 0,
        KindView::Raw(b, v) => trim(b).len() > 0 && trim(v).len() > 0,
    }
}

/// Whether `t` is, up to ASCII case, one of `acc`.
pub open spec fn has_name_ignore_case(acc: Seq<Seq<char>>, t: Seq<char>) -> bool {
    exists|i: int| 0 <= i < acc.len() && eq_ignore_case(#[trigger] acc[i], t)
}

/// The names of an application-inverse source, trimmed, without blanks and
/// without repeats up to ASCII case; the first spelling is kept.
pub open spec fn dedupe_names(acc: Seq<Seq<char>>, names: Seq<Seq<char>>) -> Seq<Seq<char>>
    decreases names.len(),
{
    if names.len() == 0 {
        acc
    } else {
        let t = trim(names[0]);
        if t.len() == 0 || has_name_ignore_case(acc, t) {
            dedupe_names(acc, names.drop_first())
        } else {
            dedupe_names(acc.push(t), names.drop_first())
        }
    }
}

/// An audio source after normalisation: names trimmed, raw backends
/// trimmed and lower-cased, merged entries normalised with the invalid ones
/// dropped.
pub open spec fn normalize_view(k: KindView) -> KindView
    decreases k,
{
    match k {
        KindView::DefaultOutput => KindView::DefaultOutput,
        KindView::DefaultInput => KindView::DefaultInput,
        KindView::Device(n) => KindView::Device(trim(n)),
        KindView::Application(n) => KindView::Application(trim(n)),
        KindView::ApplicationInverse(ns) => KindView::ApplicationInverse(dedupe_names(seq![], ns)),
        KindView::Merged(es) => KindView::Merged(normalize_all(es)),
        KindView::Raw(b, v) => KindView::Raw(lower(trim(b)), trim(v)),
    }
}

pub open spec fn normalize_all(es: Seq<KindView>) -> Seq<KindView>
    decreases es,
{
    if es.len() == 0 {
        seq![]
    } else {
        let n = normalize_view(es[0]);
        if valid_view(n) {
            seq![n] + normalize_all(es.drop_first())
        } else {
            normalize_all(es.drop_first())
        }
    }
}

fn copy_strings(v: &Vec<String>) -> (r: Vec<String>)
    ensures
        strings_view(r@) == strings_view(v@),
{
    let mut r: Vec<String> = Vec::new();
    let mut i: usize = 0;
    while i < v.len()
        invariant
            i <= v.len(),
            r@.len() == i,
            forall|k: int| 0 <= k < i ==> (#[trigger] r@[k])@ == v@[k]@,
        decreases v.len() - i,
    {
        r.push(owned(v[i].as_str()));
        i = i + 1;
    }
    assert(strings_view(r@) =~= strings_view(v@));
    r
}

proof fn lemma_kinds_view_take(s: Seq<AudioSourceKind>, i: int)
    requires
        0 <= i < s.len(),
    ensures
        kinds_view(s.take(i + 1)) == kinds_view(s.take(i)) + seq![kind_view(s[i])],
    decreases i,
{
    if i > 0 {
        lemma_kinds_view_take(s.drop_first(), i - 1);
        assert(s.take(i + 1).drop_first() =~= s.drop_first().take(i));
        assert(s.take(i).drop_first() =~= s.drop_first().take(i - 1));
        assert(kinds_view(s.take(i + 1)) =~= seq![kind_view(s[0])] + kinds_view(s.drop_first().take(i)));
        assert(kinds_view(s.take(i)) =~= seq![kind_view(s[0])] + kinds_view(s.drop_first().take(i - 1)));
    } else {
        assert(s.take(1).drop_first() =~= seq![]);
        assert(s.take(0) =~= seq![]);
    }
}

proof fn lemma_normalize_all_snoc(es: Seq<KindView>, e: KindView)
    ensures
        normalize_all(es.push(e)) == normalize_all(es) + (if valid_view(normalize_view(e)) {
            seq![normalize_view(e)]
        } else {
            seq![]
        }),
    decreases es.len(),
{
    if es.len() == 0 {
        assert(es.push(e).drop_first() =~= seq![]);
        assert(normalize_all(seq![]) == Seq::<KindView>::empty());
    } else {
        assert(es.push(e).drop_first() =~= es.drop_first().push(e));
        lemma_normalize_all_snoc(es.drop_first(), e);
        let n = normalize_view(es[0]);
        let tail = if valid_view(normalize_view(e)) {
            seq![normalize_view(e)]
        } else {
            seq![]
        };
        if valid_view(n) {
            assert(seq![n] + (normalize_all(es.drop_first()) + tail) =~= (seq![n] + normalize_all(es.drop_first())) + tail);
        }
    }
}

/// Names that are trimmed, non-blank and distinct up to ASCII case.
pub open spec fn clean_names(ns: Seq<Seq<char>>) -> bool {
    &&& forall|i: int| 0 <= i < ns.len() ==> trim(#[trigger] ns[i]) == ns[i] && ns[i].len() > 0
    &&& forall|i: int, j: int| 0 <= i < j < ns.len() ==> !eq_ignore_case(#[trigger] ns[i], #[trigger] ns[j])
}

proof fn lemma_dedupe_clean(acc: Seq<Seq<char>>, names: Seq<Seq<char>>)
    requires
        clean_names(acc),
    ensures
        clean_names(dedupe_names(acc, names)),
    decreases names.len(),
{
    if names.len() > 0 {
        let t = trim(names[0]);
        lemma_trim_idempotent(names[0]);
        if t.len() == 0 || has_name_ignore_case(acc, t) {
            lemma_dedupe_clean(acc, names.drop_first());
        } else {
            let a = acc.push(t);
            assert forall|i: int, j: int| 0 <= i < j < a.len() implies !eq_ignore_case(#[trigger] a[i], #[trigger] a[j]) by {
                if j == acc.len() {
                    assert(a[i] == acc[i]);
                    assert(!eq_ignore_case(acc[i], t));
                } else {
                    assert(a[i] == acc[i] && a[j] == acc[j]);
                }
            }
            lemma_dedupe_clean(a, names.drop_first());
        }
    }
}

proof fn lemma_dedupe_of_clean(acc: Seq<Seq<char>>, names: Seq<Seq<char>>)
    requires
        clean_names(acc + names),
    ensures
        dedupe_names(acc, names) == acc + names,
    decreases names.len(),
{
    let all = acc + names;
    if names.len() == 0 {
        assert(all =~= acc);
    } else {
        assert(all[acc.len() as int] == names[0]);
        let t = trim(names[0]);
        assert(t == names[0]);
        assert(!has_name_ignore_case(acc, t)) by {
            assert forall|i: int| 0 <= i < acc.len() implies !eq_ignore_case(#[trigger] acc[i], t) by {
                assert(all[i] == acc[i]);
            }
        }
        assert(acc.push(t) + names.drop_first() =~= all);
        lemma_dedupe_of_clean(acc.push(t), names.drop_first());
    }
}

/// Normalising an audio source twice gives what normalising it once gives.
pub proof fn lemma_normalize_idempotent(k: KindView)
    ensures
        normalize_view(normalize_view(k)) == normalize_view(k),
    decreases k,
{
    match k {
        KindView::Device(n) | KindView::Application(n) => {
            lemma_trim_idempotent(n);
        },
        KindView::ApplicationInverse(ns) => {
            let d = dedupe_names(seq![], ns);
            lemma_dedupe_clean(seq![], ns);
            assert(Seq::<Seq<char>>::empty() + d =~= d);
            lemma_dedupe_of_clean(seq![], d);
        },
        KindView::Merged(es) => {
            lemma_normalize_all_idempotent(es);
        },
        KindView::Raw(b, v) => {
            lemma_trim_idempotent(b);
            lemma_trim_idempotent(v);
            lemma_lower_of_trimmed(trim(b));
        },
        _ => {},
    }
}

/// Normalising a list of audio sources twice gives what normalising it
/// once gives.
pub proof fn lemma_normalize_all_idempotent(es: Seq<KindView>)
    ensures
        normalize_all(normalize_all(es)) == normalize_all(es),
    decreases es,
{
    if es.len() > 0 {
        lemma_normalize_idempotent(es[0]);
        lemma_normalize_all_idempotent(es.drop_first());
        let n = normalize_view(es[0]);
        let rest = normalize_all(es.drop_first());
        if valid_view(n) {
            assert((seq![n] + rest)[0] == n);
            assert((seq![n] + rest).drop_first() =~= rest);
        }
    }
}

impl AudioSourceKind {
    /// A copy of this audio source.
    pub fn copy(&self) -> (r: AudioSourceKind)
        ensures
            r@ == self@,
        decreases self,
    {
        match self {
            AudioSourceKind::DefaultOutput => AudioSourceKind::DefaultOutput,
            AudioSourceKind::DefaultInput => AudioSourceKind::DefaultInput,
            AudioSourceKind::Device { name } => AudioSourceKind::Device { name: owned(name.as_str()) },
            AudioSourceKind::Application { name } => AudioSourceKind::Application { name: owned(name.as_str()) },
            AudioSourceKind::ApplicationInverse { names } => AudioSourceKind::ApplicationInverse { names: copy_strings(names) },
            AudioSourceKind::Merged { entries } => {
                let mut out: Vec<AudioSourceKind> = Vec::new();
                let mut i: usize = 0;
                while i < entries.len()
                    invariant
                        i <= entries.len(),
                        *self == (AudioSourceKind::Merged { entries: *entries }),
                        kinds_view(out@) == kinds_view(entries@.take(i as int)),
                    decreases entries.len() - i,
                {
                    proof {
                        assert(decreases_to!(*self => self->entries));
                        assert(self->entries == *entries);
                        assert(decreases_to!(*entries => entries@));
                        assert(decreases_to!(entries@ => entries@[i as int]));
                    }
                    let e = entries[i].copy();
                    proof {
                        lemma_kinds_view_take(out@.push(e), out@.len() as int);
                        lemma_kinds_view_take(entries@, i as int);
                        assert(out@.push(e).take(out@.len() as int) =~= out@);
                        assert(out@.push(e).take(out@.len() as int + 1) =~= out@.push(e));
                    }
                    out.push(e);
                    i = i + 1;
                }
                assert(entries@.take(entries.len() as int) =~= entries@);
                AudioSourceKind::Merged { entries: out }
            },
            AudioSourceKind::Raw { backend_id, value } => AudioSourceKind::Raw {
                backend_id: owned(backend_id.as_str()),
                value: owned(value.as_str()),
            },
        }
    }

    /// Whether this source names something that can be captured.
    pub fn is_valid(&self) -> (r: bool)
        ensures
            r == valid_view(self@),
    {
        match self {
            AudioSourceKind::DefaultOutput | AudioSourceKind::DefaultInput => true,
            AudioSourceKind::Device { name } | AudioSourceKind::Application { name } => {
                let t = trim_str(name.as_str());
                !t.as_str().is_empty()
            },
            AudioSourceKind::ApplicationInverse { names } => names.len() > 0,
            AudioSourceKind::Merged { entries } => entries.len() > 0,
            AudioSourceKind::Raw { backend_id, value } => {
                let b = trim_str(backend_id.as_str());
                let v = trim_str(value.as_str());
                !b.as_str().is_empty() && !v.as_str().is_empty()
            },
        }
    }

    /// This source normalised.
    pub fn normalized(&self) -> (r: AudioSourceKind)
        ensures
            r@ == normalize_view(self@),
        decreases self,
    {
        match self {
            AudioSourceKind::DefaultOutput => AudioSourceKind::DefaultOutput,
            AudioSourceKind::DefaultInput => AudioSourceKind::DefaultInput,
            AudioSourceKind::Device { name } => AudioSourceKind::Device { name: trim_str(name.as_str()) },
            AudioSourceKind::Application { name } => AudioSourceKind::Application { name: trim_str(name.as_str()) },
            AudioSourceKind::ApplicationInverse { names } => AudioSourceKind::ApplicationInverse { names: dedupe_inverse_names(names) },
            AudioSourceKind::Merged { entries } => {
                let mut out: Vec<AudioSourceKind> = Vec::new();
                let mut i: usize = 0;
                while i < entries.len()
                    invariant
                        i <= entries.len(),
                        *self == (AudioSourceKind::Merged { entries: *entries }),
                        kinds_view(out@) == normalize_all(kinds_view(entries@.take(i as int))),
                    decreases entries.len() - i,
                {
                    proof {
                        assert(decreases_to!(*self => self->entries));
                        assert(self->entries == *entries);
                        assert(decreases_to!(*entries => entries@));
                        assert(decreases_to!(entries@ => entries@[i as int]));
                    }
                    let n = entries[i].normalized();
                    proof {
                        lemma_kinds_view_take(entries@, i as int);
                        lemma_normalize_all_snoc(kinds_view(entries@.take(i as int)), kind_view(entries@[i as int]));
                        assert(kinds_view(entries@.take(i as int)).push(kind_view(entries@[i as int])) =~= kinds_view(entries@.take(i + 1)));
                    }
                    if n.is_valid() {
                        proof {
                            lemma_kinds_view_take(out@.push(n), out@.len() as int);
                            assert(out@.push(n).take(out@.len() as int) =~= out@);
                            assert(out@.push(n).take(out@.len() as int + 1) =~= out@.push(n));
                        }
                        out.push(n);
                    }
                    i = i + 1;
                }
                assert(entries@.take(entries.len() as int) =~= entries@);
                AudioSourceKind::Merged { entries: out }
            },
            AudioSourceKind::Raw { backend_id, value } => {
                let b = chars_of(backend_id.as_str());
                let bt = trim_chars(&b);
                let bl = lower_chars(&bt);
                AudioSourceKind::Raw { backend_id: string_of(&bl), value: trim_str(value.as_str()) }
            },
        }
    }

    /// Normalises this source in place.
    pub fn normalize(&mut self)
        ensures
            final(self)@ == normalize_view(old(self)@),
    {
        let n = self.normalized();
        *self = n;
    }
}

/// The names of an application-inverse source, trimmed and deduplicated.
fn dedupe_inverse_names(names: &Vec<String>) -> (r: Vec<String>)
    ensures
        strings_view(r@) == dedupe_names(seq![], strings_view(names@)),
{
    let mut out: Vec<String> = Vec::new();
    let mut i: usize = 0;
    assert(strings_view(names@).skip(0) =~= strings_view(names@));
    assert(strings_view(out@) =~= seq![]);
    while i < names.len()
        invariant
            i <= names.len(),
            dedupe_names(seq![], strings_view(names@)) == dedupe_names(strings_view(out@), strings_view(names@).skip(i as int)),
        decreases names.len() - i,
    {
        let ghost rest = strings_view(names@).skip(i as int);
        assert(rest[0] == names@[i as int]@);
        assert(rest.drop_first() =~= strings_view(names@).skip(i + 1));
        let nv = chars_of(names[i].as_str());
        let t = trim_chars(&nv);
        let mut seen = false;
        let mut j: usize = 0;
        while j < out.len()
            invariant
                j <= out.len(),
                seen <==> exists|k: int| 0 <= k < j && eq_ignore_case(#[trigger] strings_view(out@)[k], t@),
            decreases out.len() - j,
        {
            let ov = chars_of(out[j].as_str());
            if chars_eq_ignore_case(&ov, &t) {
                assert(eq_ignore_case(strings_view(out@)[j as int], t@));
                seen = true;
            }
            j = j + 1;
        }
        let ghost before = out@;
        assert(t@ == trim(rest[0]));
        assert(seen == has_name_ignore_case(strings_view(before), t@));
        if t.len() > 0 && !seen {
            let s = string_of(&t);
            out.push(s);
            assert(strings_view(out@) =~= strings_view(before).push(t@));
        }
        i = i + 1;
    }
    assert(strings_view(names@).skip(names.len() as int) =~= seq![]);
    out
}


/// How an audio source is written in the settings' text form.
pub open spec fn display_view(k: KindView) -> Seq<char>
    decreases k,
{
    match k {
        KindView::DefaultOutput => "default_output"@,
        KindView::DefaultInput => "default_input"@,
        KindView::Device(n) => "device:"@ + trim(n),
        KindView::Application(n) => "app:"@ + trim(n),
        KindView::ApplicationInverse(ns) => if ns.len() > 0 {
            "app-inverse:"@ + trim(ns[0])
        } else {
            seq![]
        },
        KindView::Merged(es) => display_all(es),
        KindView::Raw(_, v) => trim(v),
    }
}

/// The text forms of `es` joined by `|`.
pub open spec fn display_all(es: Seq<KindView>) -> Seq<char>
    decreases es,
{
    if es.len() == 0 {
        seq![]
    } else if es.len() == 1 {
        display_view(es[0])
    } else {
        display_all(es.drop_last()) + "|"@ + display_view(es.last())
    }
}

/// The label an audio source gets when none is given.
pub open spec fn label_view(k: KindView) -> Seq<char>
    decreases k,
{
    match k {
        KindView::DefaultOutput => "Default output"@,
        KindView::DefaultInput => "Default input"@,
        KindView::Device(n) => trim(n),
        KindView::Application(n) => trim(n),
        KindView::ApplicationInverse(ns) => if ns.len() > 0 {
            "Everything except "@ + trim(ns[0])
        } else {
            "Application inverse"@
        },
        KindView::Merged(es) => label_all(es),
        KindView::Raw(_, v) => trim(v),
    }
}

/// The labels of `es` joined by ` + `.
pub open spec fn label_all(es: Seq<KindView>) -> Seq<char>
    decreases es,
{
    if es.len() == 0 {
        seq![]
    } else if es.len() == 1 {
        label_view(es[0])
    } else {
        label_all(es.drop_last()) + " + "@ + label_view(es.last())
    }
}

impl AudioSourceKind {
    /// The text form of this source.
    pub fn config_display_value(&self) -> (r: String)
        ensures
            r@ == display_view(self@),
        decreases self,
    {
        match self {
            AudioSourceKind::DefaultOutput => owned("default_output"),
            AudioSourceKind::DefaultInput => owned("default_input"),
            AudioSourceKind::Device { name } => {
                let mut r = owned("device:");
                let t = trim_str(name.as_str());
                r.push_str(t.as_str());
                r
            },
            AudioSourceKind::Application { name } => {
                let mut r = owned("app:");
                let t = trim_str(name.as_str());
                r.push_str(t.as_str());
                r
            },
            AudioSourceKind::ApplicationInverse { names } => {
                if names.len() > 0 {
                    let mut r = owned("app-inverse:");
                    let t = trim_str(names[0].as_str());
                    r.push_str(t.as_str());
                    r
                } else {
                    String::new()
                }
            },
            AudioSourceKind::Merged { entries } => {
                let mut r = String::new();
                let mut i: usize = 0;
                while i < entries.len()
                    invariant
                        i <= entries.len(),
                        *self == (AudioSourceKind::Merged { entries: *entries }),
                        r@ == display_all(kinds_view(entries@.take(i as int))),
                    decreases entries.len() - i,
                {
                    proof {
                        assert(decreases_to!(*self => self->entries));
                        assert(self->entries == *entries);
                        assert(decreases_to!(*entries => entries@));
                        assert(decreases_to!(entries@ => entries@[i as int]));
                        lemma_kinds_view_take(entries@, i as int);
                    }
                    let d = entries[i].config_display_value();
                    let ghost before = r@;
                    if i > 0 {
                        r.push_str("|");
                    }
                    r.push_str(d.as_str());
                    proof {
                        let pre = kinds_view(entries@.take(i as int));
                        let cur = kinds_view(entries@.take(i + 1));
                        assert(cur.drop_last() =~= pre);
                        assert(cur.last() == kind_view(entries@[i as int]));
                        if i == 0 {
                            assert(pre.len() == 0);
                            assert(before == Seq::<char>::empty());
                            assert(r@ =~= display_view(cur[0]));
                        }
                    }
                    i = i + 1;
                }
                assert(entries@.take(entries.len() as int) =~= entries@);
                r
            },
            AudioSourceKind::Raw { value, .. } => trim_str(value.as_str()),
        }
    }

    /// The label this source gets when none is given.
    pub fn default_label(&self) -> (r: String)
        ensures
            r@ == label_view(self@),
        decreases self,
    {
        match self {
            AudioSourceKind::DefaultOutput => owned("Default output"),
            AudioSourceKind::DefaultInput => owned("Default input"),
            AudioSourceKind::Device { name } => trim_str(name.as_str()),
            AudioSourceKind::Application { name } => trim_str(name.as_str()),
            AudioSourceKind::ApplicationInverse { names } => {
                if names.len() > 0 {
                    let mut r = owned("Everything except ");
                    let t = trim_str(names[0].as_str());
                    r.push_str(t.as_str());
                    r
                } else {
                    owned("Application inverse")
                }
            },
            AudioSourceKind::Merged { entries } => {
                let mut r = String::new();
                let mut i: usize = 0;
                while i < entries.len()
                    invariant
                        i <= entries.len(),
                        *self == (AudioSourceKind::Merged { entries: *entries }),
                        r@ == label_all(kinds_view(entries@.take(i as int))),
                    decreases entries.len() - i,
                {
                    proof {
                        assert(decreases_to!(*self => self->entries));
                        assert(self->entries == *entries);
                        assert(decreases_to!(*entries => entries@));
                        assert(decreases_to!(entries@ => entries@[i as int]));
                        lemma_kinds_view_take(entries@, i as int);
                    }
                    let d = entries[i].default_label();
                    let ghost before = r@;
                    if i > 0 {
                        r.push_str(" + ");
                    }
                    r.push_str(d.as_str());
                    proof {
                        let pre = kinds_view(entries@.take(i as int));
                        let cur = kinds_view(entries@.take(i + 1));
                        assert(cur.drop_last() =~= pre);
                        assert(cur.last() == kind_view(entries@[i as int]));
                        if i == 0 {
                            assert(pre.len() == 0);
                            assert(before == Seq::<char>::empty());
                            assert(r@ =~= label_view(cur[0]));
                        }
                    }
                    i = i + 1;
                }
                assert(entries@.take(entries.len() as int) =~= entries@);
                r
            },
            AudioSourceKind::Raw { value, .. } => trim_str(value.as_str()),
        }
    }
}

/// The kind and label an audio source keeps after normalisation: the kind
/// normalised, the label trimmed or, when blank, the kind's own label; none
/// when the normalised kind names nothing, and the source is dropped.
pub open spec fn kept_source(kind: KindView, label: Seq<char>) -> Option<(KindView, Seq<char>)> {
    let k = normalize_view(kind);
    if !valid_view(k) {
        None
    } else {
        Some((k, if trim(label).len() == 0 { label_view(k) } else { trim(label) }))
    }
}

/// Normalises an audio source given by its kind and label; none when it is
/// dropped. Its gain is clamped where the source is stored.
pub fn normalized_audio_source(kind: &AudioSourceKind, label: &str) -> (r: Option<(AudioSourceKind, String)>)
    ensures
        match (r, kept_source(kind@, label@)) {
            (Some((k, l)), Some((kv, lv))) => k@ == kv && l@ == lv,
            (None, None) => true,
            _ => false,
        },
{
    let k = kind.normalized();
    if !k.is_valid() {
        return None;
    }
    let t = trim_str(label);
    let l = if t.as_str().is_empty() {
        k.default_label()
    } else {
        t
    };
    Some((k, l))
}

proof fn lemma_normalize_all_len(es: Seq<KindView>)
    ensures
        normalize_all(es).len() <= es.len(),
    decreases es.len(),
{
    if es.len() > 0 {
        lemma_normalize_all_len(es.drop_first());
    }
}

/// A list that normalisation leaves as it is holds only valid, normalised
/// sources.
proof fn lemma_fixed_entries(es: Seq<KindView>)
    requires
        normalize_all(es) == es,
    ensures
        forall|i: int| 0 <= i < es.len() ==> valid_view(#[trigger] es[i]) && normalize_view(es[i]) == es[i],
    decreases es.len(),
{
    if es.len() > 0 {
        let n = normalize_view(es[0]);
        let rest = normalize_all(es.drop_first());
        lemma_normalize_all_len(es.drop_first());
        if !valid_view(n) {
            assert(normalize_all(es).len() < es.len());
        } else {
            assert(normalize_all(es) == seq![n] + rest);
            assert((seq![n] + rest)[0] == n);
            assert((seq![n] + rest).drop_first() =~= rest);
            assert(es.drop_first() =~= normalize_all(es).drop_first());
            lemma_fixed_entries(es.drop_first());
            assert forall|i: int| 0 <= i < es.len() implies valid_view(#[trigger] es[i]) && normalize_view(es[i]) == es[i] by {
                if i > 0 {
                    assert(es[i] == es.drop_first()[i - 1]);
                }
            }
        }
    }
}

/// Whether `s` is a non-blank text with no whitespace at either end.
pub open spec fn clean_text(s: Seq<char>) -> bool {
    s.len() > 0 && !is_ws(s[0]) && !is_ws(s.last())
}

/// The own label of a valid, normalised source is non-blank and has no
/// whitespace at either end.
proof fn lemma_label_clean(k: KindView)
    requires
        valid_view(k),
        normalize_view(k) == k,
    ensures
        clean_text(label_view(k)),
    decreases k,
{
    match k {
        KindView::DefaultOutput => {
            reveal_strlit("Default output");
        },
        KindView::DefaultInput => {
            reveal_strlit("Default input");
        },
        KindView::Device(n) | KindView::Application(n) => {
            lemma_trim_idempotent(n);
        },
        KindView::ApplicationInverse(ns) => {
            reveal_strlit("Everything except ");
            lemma_dedupe_clean(seq![], ns);
            assert(dedupe_names(seq![], ns) == ns);
            assert(trim(ns[0]) == ns[0] && ns[0].len() > 0);
            lemma_trim_idempotent(ns[0]);
            let l = "Everything except "@ + trim(ns[0]);
            assert(l[0] == 'E');
            assert(l.last() == trim(ns[0]).last());
        },
        KindView::Merged(es) => {
            lemma_fixed_entries(es);
            lemma_label_all_clean(es);
        },
        KindView::Raw(_, v) => {
            lemma_trim_idempotent(v);
        },
    }
}

proof fn lemma_label_all_clean(es: Seq<KindView>)
    requires
        es.len() > 0,
        forall|i: int| 0 <= i < es.len() ==> valid_view(#[trigger] es[i]) && normalize_view(es[i]) == es[i],
    ensures
        clean_text(label_all(es)),
    decreases es,
{
    assert(valid_view(es.last()) && normalize_view(es.last()) == es.last()) by {
        assert(es.last() == es[es.len() - 1]);
    }
    lemma_label_clean(es.last());
    if es.len() == 1 {
        assert(es[0] == es.last());
    } else {
        let d = es.drop_last();
        assert forall|i: int| 0 <= i < d.len() implies valid_view(#[trigger] d[i]) && normalize_view(d[i]) == d[i] by {
            assert(d[i] == es[i]);
        }
        lemma_label_all_clean(d);
        let l = label_all(d) + " + "@ + label_view(es.last());
        assert(l[0] == label_all(d)[0]);
        assert(l.last() == label_view(es.last()).last());
    }
}

/// Normalising an audio source's kind and label a second time changes
/// nothing: what the first pass keeps, the second keeps as it is.
pub proof fn lemma_kept_source_idempotent(kind: KindView, label: Seq<char>)
    ensures
        match kept_source(kind, label) {
            Some((k, l)) => kept_source(k, l) == Some((k, l)),
            None => true,
        },
{
    let k = normalize_view(kind);
    lemma_normalize_idempotent(kind);
    lemma_trim_idempotent(label);
    if valid_view(k) && trim(label).len() == 0 {
        lemma_label_clean(k);
        lemma_trim_of_trimmed(label_view(k));
    }
}

/// The capture backend that records clips.
#[derive(Debug, Clone, Copy, PartialEq, Eq, Structural)]
pub enum CaptureBackend {
    Gsr,
    Obs,
}

/// The backend a platform records with unless told otherwise: OBS on
/// Windows, gpu-screen-recorder elsewhere.
pub open spec fn platform_default_backend(platform: Platform) -> CaptureBackend {
    match platform {
        Platform::Windows => CaptureBackend::Obs,
        _ => CaptureBackend::Gsr,
    }
}

pub fn default_capture_backend(platform: Platform) -> (r: CaptureBackend)
    ensures
        r == platform_default_backend(platform),
{
    match platform {
        Platform::Windows => CaptureBackend::Obs,
        _ => CaptureBackend::Gsr,
    }
}

pub open spec fn backend_name(b: CaptureBackend) -> Seq<char> {
    match b {
        CaptureBackend::Gsr => "gsr"@,
        CaptureBackend::Obs => "obs"@,
    }
}

/// The backend a settings value names, read without regard to case or
/// surrounding whitespace; a blank value means gpu-screen-recorder on Linux,
/// and anything unknown the platform's default.
pub open spec fn backend_from_value(value: Seq<char>, platform: Platform) -> CaptureBackend {
    let v = lower(trim(value));
    if v == "obs"@ {
        CaptureBackend::Obs
    } else if v == "gsr"@ || (platform == Platform::Linux && v.len() == 0) {
        CaptureBackend::Gsr
    } else {
        platform_default_backend(platform)
    }
}

impl CaptureBackend {
    pub fn as_str(self) -> (r: &'static str)
        ensures
            r@ == backend_name(self),
    {
        match self {
            CaptureBackend::Gsr => "gsr",
            CaptureBackend::Obs => "obs",
        }
    }

    pub fn from_config_value(value: &str, platform: Platform) -> (r: CaptureBackend)
        ensures
            r == backend_from_value(value@, platform),
    {
        let v = chars_of(value);
        let t = trim_chars(&v);
        let l = lower_chars(&t);
        if chars_eq_str(&l, "obs") {
            CaptureBackend::Obs
        } else if chars_eq_str(&l, "gsr") || (platform == Platform::Linux && l.len() == 0) {
            CaptureBackend::Gsr
        } else {
            default_capture_backend(platform)
        }
    }
}

/// An audio source from one legacy `source` entry without `|`, already
/// trimmed; anything unrecognised is a raw source of `backend`.
pub open spec fn parse_simple(s: Seq<char>, backend: Seq<char>) -> KindView {
    if eq_ignore_case(s, "default_output"@) {
        KindView::DefaultOutput
    } else if eq_ignore_case(s, "default_input"@) {
        KindView::DefaultInput
    } else if is_prefix("device:"@, s) {
        KindView::Device(trim(s.skip("device:"@.len() as int)))
    } else if is_prefix("app:"@, s) {
        KindView::Application(trim(s.skip("app:"@.len() as int)))
    } else if is_prefix("app-inverse:"@, s) {
        let n = trim(s.skip("app-inverse:"@.len() as int));
        KindView::ApplicationInverse(if n.len() == 0 {
            seq![]
        } else {
            seq![n]
        })
    } else {
        KindView::Raw(backend, s)
    }
}

/// The entries of a legacy `a|b|c` source: each piece trimmed, blank ones
/// dropped.
pub open spec fn parse_entries(pieces: Seq<Seq<char>>, backend: Seq<char>) -> Seq<KindView>
    decreases pieces.len(),
{
    if pieces.len() == 0 {
        seq![]
    } else {
        let t = trim(pieces[0]);
        (if t.len() == 0 {
            seq![]
        } else {
            seq![parse_simple(t, backend)]
        }) + parse_entries(pieces.drop_first(), backend)
    }
}

/// The audio source a legacy `source` string stands for.
pub open spec fn parse_legacy(source: Seq<char>, backend: Seq<char>) -> KindView {
    let s = trim(source);
    if has_char(s, '|') {
        KindView::Merged(parse_entries(split_on(s, '|'), backend))
    } else {
        parse_simple(s, backend)
    }
}

/// A name a source's text form can carry and give back: non-blank, trimmed,
/// and without the `|` that separates merged entries.
pub open spec fn clean_name(n: Seq<char>) -> bool {
    n.len() > 0 && trim(n) == n && !has_char(n, '|')
}

proof fn lemma_prefixed_name(p: Seq<char>, n: Seq<char>)
    requires
        clean_name(n),
        p.len() > 0,
        !is_ws(p[0]),
        !has_char(p, '|'),
    ensures
        trim(p + n) == p + n,
        !has_char(p + n, '|'),
        (p + n).skip(p.len() as int) == n,
        is_prefix(p, p + n),
{
    let s = p + n;
    lemma_trim_idempotent(n);
    assert(s[0] == p[0]);
    assert(s.last() == n.last());
    lemma_trim_of_trimmed(s);
    assert(!has_char(s, '|')) by {
        if has_char(s, '|') {
            let i = choose|i: int| 0 <= i < s.len() && s[i] == '|';
            if i < p.len() {
                assert(p[i] == '|');
            } else {
                assert(n[i - p.len()] == '|');
            }
        }
    }
    assert(s.skip(p.len() as int) =~= n);
    assert(s.take(p.len() as int) =~= p);
}

proof fn lemma_literal_clean(s: Seq<char>)
    requires
        forall|i: int| 0 <= i < s.len() ==> ('a' <= #[trigger] s[i] <= 'z' || s[i] == '_' || s[i] == ':' || s[i] == '-'),
    ensures
        !has_char(s, '|'),
        s.len() > 0 ==> !is_ws(s[0]) && !is_ws(s.last()),
{
    if s.len() > 0 {
        assert(s.last() == s[s.len() - 1]);
    }
}

/// Reading back the text form of a default source, a device, an
/// application, or the inverse of one application, each with a clean name,
/// gives the source back, whatever backend unrecognised text would go to.
pub proof fn lemma_legacy_round_trip(k: KindView, backend: Seq<char>)
    requires
        match k {
            KindView::DefaultOutput | KindView::DefaultInput => true,
            KindView::Device(n) | KindView::Application(n) => clean_name(n),
            KindView::ApplicationInverse(ns) => ns.len() == 1 && clean_name(ns[0]),
            _ => false,
        },
    ensures
        parse_legacy(display_view(k), backend) == k,
{
    reveal_strlit("default_output");
    reveal_strlit("default_input");
    reveal_strlit("device:");
    reveal_strlit("app:");
    reveal_strlit("app-inverse:");
    let d_out = "default_output"@;
    let d_in = "default_input"@;
    lemma_literal_clean(d_out);
    lemma_literal_clean(d_in);
    lemma_literal_clean("device:"@);
    lemma_literal_clean("app:"@);
    lemma_literal_clean("app-inverse:"@);
    match k {
        KindView::DefaultOutput => {
            lemma_trim_of_trimmed(d_out);
        },
        KindView::DefaultInput => {
            lemma_trim_of_trimmed(d_in);
            assert(lower(d_in).len() != lower(d_out).len());
        },
        KindView::Device(n) => {
            let s = "device:"@ + n;
            lemma_prefixed_name("device:"@, n);
            assert(lower(s)[2] == 'v' && lower(d_out)[2] == 'f' && lower(d_in)[2] == 'f');
        },
        KindView::Application(n) => {
            let s = "app:"@ + n;
            lemma_prefixed_name("app:"@, n);
            assert(lower(s)[0] == 'a' && lower(d_out)[0] == 'd' && lower(d_in)[0] == 'd');
            assert(!is_prefix("device:"@, s)) by {
                if s.len() >= 7 {
                    assert(s.take(7)[0] == 'a');
                }
            }
        },
        KindView::ApplicationInverse(ns) => {
            let n = ns[0];
            let s = "app-inverse:"@ + n;
            lemma_prefixed_name("app-inverse:"@, n);
            assert(lower(s)[0] == 'a' && lower(d_out)[0] == 'd' && lower(d_in)[0] == 'd');
            assert(!is_prefix("device:"@, s)) by {
                assert(s.take(7)[0] == 'a');
            }
            assert(!is_prefix("app:"@, s)) by {
                assert(s.take(4)[3] == '-');
            }
            assert(seq![n] =~= ns);
        },
        _ => {},
    }
}

fn parse_simple_kind(s: &Vec<char>, backend: &str) -> (r: AudioSourceKind)
    ensures
        r@ == parse_simple(s@, backend@),
{
    let d_out = chars_of("default_output");
    let d_in = chars_of("default_input");
    if chars_eq_ignore_case(s, &d_out) {
        return AudioSourceKind::DefaultOutput;
    }
    if chars_eq_ignore_case(s, &d_in) {
        return AudioSourceKind::DefaultInput;
    }
    if let Some(rest) = strip_prefix(s, "device:") {
        let t = trim_chars(&rest);
        return AudioSourceKind::Device { name: string_of(&t) };
    }
    if let Some(rest) = strip_prefix(s, "app:") {
        let t = trim_chars(&rest);
        return AudioSourceKind::Application { name: string_of(&t) };
    }
    if let Some(rest) = strip_prefix(s, "app-inverse:") {
        let t = trim_chars(&rest);
        let mut names: Vec<String> = Vec::new();
        if t.len() > 0 {
            names.push(string_of(&t));
        }
        proof {
            if t.len() > 0 {
                assert(strings_view(names@) =~= seq![t@]);
            } else {
                assert(strings_view(names@) =~= seq![]);
            }
        }
        return AudioSourceKind::ApplicationInverse { names };
    }
    AudioSourceKind::Raw { backend_id: owned(backend), value: string_of(s) }
}

/// The audio source that a legacy `source` string stands for; an
/// unrecognised string is a raw source of the platform's default backend.
pub fn legacy_audio_source_kind_from_value(source: &str, platform: Platform) -> (r: AudioSourceKind)
    ensures
        r@ == parse_legacy(source@, backend_name(platform_default_backend(platform))),
{
    let backend = default_capture_backend(platform).as_str();
    let v = chars_of(source);
    let s = trim_chars(&v);
    if !chars_has(&s, '|') {
        return parse_simple_kind(&s, backend);
    }
    let ghost pieces = split_on(s@, '|');
    let mut entries: Vec<AudioSourceKind> = Vec::new();
    let mut start: usize = 0;
    let mut j: usize = 0;
    assert(s@.skip(0) =~= s@);
    assert(kinds_view(entries@) =~= seq![]);
    while j < s.len()
        invariant
            start <= j <= s.len(),
            backend@ == backend_name(platform_default_backend(platform)),
            pieces == split_on(s@, '|'),
            forall|k: int| start <= k < j ==> s@[k] != '|',
            parse_entries(pieces, backend@) == kinds_view(entries@) + parse_entries(split_on(s@.skip(start as int), '|'), backend@),
        decreases s.len() - j,
    {
        if s[j] == '|' {
            let ghost rest = s@.skip(start as int);
            proof {
                assert(rest[j - start] == '|');
                assert forall|k: int| 0 <= k < j - start implies rest[k] != '|' by {
                    assert(rest[k] == s@[start + k]);
                }
                lemma_first_index_of(rest, '|', j - start);
                assert(rest.take(j - start) =~= s@.subrange(start as int, j as int));
                assert(rest.skip(j - start + 1) =~= s@.skip(j + 1));
                assert(split_on(rest, '|') == seq![rest.take(j - start)] + split_on(s@.skip(j + 1), '|'));
            }
            let piece = sub_chars(&s, start, j);
            let t = trim_chars(&piece);
            let ghost before = entries@;
            let ghost tail = split_on(s@.skip(j + 1), '|');
            proof {
                let ps = seq![rest.take(j - start)] + tail;
                assert(ps[0] == piece@);
                assert(ps.drop_first() =~= tail);
            }
            if t.len() > 0 {
                let k = parse_simple_kind(&t, backend);
                proof {
                    lemma_kinds_view_take(before.push(k), before.len() as int);
                    assert(before.push(k).take(before.len() as int) =~= before);
                    assert(before.push(k).take(before.len() as int + 1) =~= before.push(k));
                }
                entries.push(k);
                assert(kinds_view(entries@) + parse_entries(tail, backend@) =~= kinds_view(before) + (seq![parse_simple(t@, backend@)] + parse_entries(tail, backend@)));
            } else {
                assert(kinds_view(before) + (seq![] + parse_entries(tail, backend@)) =~= kinds_view(entries@) + parse_entries(tail, backend@));
            }
            start = j + 1;
        }
        j = j + 1;
    }
    let ghost rest = s@.skip(start as int);
    proof {
        assert forall|k: int| 0 <= k < rest.len() implies rest[k] != '|' by {
            assert(rest[k] == s@[start + k]);
        }
        lemma_first_index_of_none(rest, '|');
        assert(split_on(rest, '|') == seq![rest]);
    }
    let last = sub_chars(&s, start, s.len());
    assert(last@ =~= rest);
    let t = trim_chars(&last);
    let ghost before = entries@;
    proof {
        let ps = seq![rest];
        assert(ps[0] == last@);
        assert(ps.drop_first() =~= Seq::<Seq<char>>::empty());
        assert(parse_entries(Seq::<Seq<char>>::empty(), backend@) == Seq::<KindView>::empty());
    }
    if t.len() > 0 {
        let k = parse_simple_kind(&t, backend);
        proof {
            lemma_kinds_view_take(before.push(k), before.len() as int);
            assert(before.push(k).take(before.len() as int) =~= before);
            assert(before.push(k).take(before.len() as int + 1) =~= before.push(k));
        }
        entries.push(k);
        assert(kinds_view(entries@) =~= kinds_view(before) + (seq![parse_simple(t@, backend@)] + Seq::<KindView>::empty()));
    } else {
        assert(kinds_view(before) =~= kinds_view(before) + (Seq::<KindView>::empty() + Seq::<KindView>::empty()));
    }
    AudioSourceKind::Merged { entries }
}

/// `value` trimmed, or `default` when that leaves nothing.
pub open spec fn setting_or(value: Seq<char>, default: Seq<char>) -> Seq<char> {
    if trim(value).len() == 0 {
        default
    } else {
        trim(value)
    }
}

/// A URL-like setting: trimmed, trailing `/` removed, or `default` when
/// that leaves nothing.
pub open spec fn urlish_or(value: Seq<char>, default: Seq<char>) -> Seq<char> {
    let t = strip_end_char(trim(value), '/');
    if t.len() == 0 {
        default
    } else {
        t
    }
}

/// An optional text setting: trimmed, `None` when blank.
pub open spec fn trimmed_opt(value: Option<Seq<char>>) -> Option<Seq<char>> {
    match value {
        Some(v) => if trim(v).len() == 0 {
            None
        } else {
            Some(trim(v))
        },
        None => None,
    }
}

pub open spec fn opt_view(o: Option<String>) -> Option<Seq<char>> {
    match o {
        Some(s) => Some(s@),
        None => None,
    }
}

pub fn normalize_string_setting(value: &str, default: &str) -> (r: String)
    ensures
        r@ == setting_or(value@, default@),
{
    let t = trim_str(value);
    if t.as_str().is_empty() {
        owned(default)
    } else {
        t
    }
}

/// `v` without the `c` it ends with.
fn strip_end_chars(v: &Vec<char>, c: char) -> (out: Vec<char>)
    ensures
        out@ == strip_end_char(v@, c),
{
    let mut j: usize = v.len();
    assert(v@.subrange(0, j as int) =~= v@);
    while j > 0 && v[j - 1] == c
        invariant
            j <= v.len(),
            strip_end_char(v@, c) == strip_end_char(v@.subrange(0, j as int), c),
        decreases j,
    {
        proof {
            let w = v@.subrange(0, j as int);
            assert(w.last() == v@[j - 1]);
            assert(w.drop_last() =~= v@.subrange(0, j - 1));
        }
        j = j - 1;
    }
    proof {
        if j > 0 {
            assert(v@.subrange(0, j as int).last() == v@[j - 1]);
        }
    }
    sub_chars(v, 0, j)
}

pub fn normalize_urlish(value: &str, default: &str) -> (r: String)
    ensures
        r@ == urlish_or(value@, default@),
{
    let v = chars_of(value);
    let t = trim_chars(&v);
    let u = strip_end_chars(&t, '/');
    if u.len() == 0 {
        owned(default)
    } else {
        string_of(&u)
    }
}

fn trim_optional(value: &Option<String>) -> (r: Option<String>)
    ensures
        opt_view(r) == trimmed_opt(opt_view(*value)),
{
    match value {
        Some(v) => {
            let t = trim_str(v.as_str());
            if t.as_str().is_empty() {
                None
            } else {
                Some(t)
            }
        },
        None => None,
    }
}

/// A tracked character.
#[derive(Debug)]
pub struct CharacterConfig {
    pub name: String,
    pub character_id: Option<u64>,
    pub world_id: Option<u32>,
    pub faction_id: Option<u32>,
}

/// Settings of the gpu-screen-recorder backend.
#[derive(Debug)]
pub struct GsrBackendConfig {
    pub capture_source: String,
    pub framerate: u32,
    pub codec: String,
    pub container: String,
    pub quality: String,
}

impl Default for GsrBackendConfig {
    fn default() -> (r: Self)
        ensures
            r.capture_source@ == "planetside2"@,
            r.framerate == 60,
            r.codec@ == "h264"@,
            r.container@ == "mkv"@,
            r.quality@ == "40000"@,
    {
        GsrBackendConfig {
            capture_source: owned("planetside2"),
            framerate: 60,
            codec: owned("h264"),
            container: owned("mkv"),
            quality: owned("40000"),
        }
    }
}

impl GsrBackendConfig {
    /// A blank or `screen` capture source becomes `planetside2`; codec,
    /// container and quality are trimmed, blank ones reset to their
    /// defaults.
    pub fn normalize(&mut self)
        ensures
            final(self).capture_source@ == (if trim(old(self).capture_source@).len() == 0
                || old(self).capture_source@ == "screen"@ {
                "planetside2"@
            } else {
                old(self).capture_source@
            }),
            final(self).framerate == old(self).framerate,
            final(self).codec@ == setting_or(old(self).codec@, "h264"@),
            final(self).container@ == setting_or(old(self).container@, "mkv"@),
            final(self).quality@ == setting_or(old(self).quality@, "40000"@),
    {
        let t = trim_str(self.capture_source.as_str());
        let cs = chars_of(self.capture_source.as_str());
        if t.as_str().is_empty() || chars_eq_str(&cs, "screen") {
            self.capture_source = owned("planetside2");
        }
        self.codec = normalize_string_setting(self.codec.as_str(), "h264");
        self.container = normalize_string_setting(self.container.as_str(), "mkv");
        self.quality = normalize_string_setting(self.quality.as_str(), "40000");
    }
}

/// How much of OBS the recorder manages.
#[derive(Debug, Clone, Copy, PartialEq, Eq, Structural)]
pub enum ObsManagementMode {
    BringYourOwn,
    ManagedRecording,
    FullManagement,
}

impl Default for ObsManagementMode {
    fn default() -> (r: Self)
        ensures
            r == ObsManagementMode::ManagedRecording,
    {
        ObsManagementMode::ManagedRecording
    }
}

/// Settings of the OBS backend.
#[derive(Debug)]
pub struct ObsBackendConfig {
    pub websocket_url: String,
    pub management_mode: ObsManagementMode,
    pub websocket_password: Option<String>,
}

impl Default for ObsBackendConfig {
    fn default() -> (r: Self)
        ensures
            r.websocket_url@ == "ws://127.0.0.1:4455"@,
            r.management_mode == ObsManagementMode::ManagedRecording,
            r.websocket_password is None,
    {
        ObsBackendConfig {
            websocket_url: owned("ws://127.0.0.1:4455"),
            management_mode: ObsManagementMode::ManagedRecording,
            websocket_password: None,
        }
    }
}

impl ObsBackendConfig {
    /// The URL is trimmed of whitespace and trailing `/`, reset when blank;
    /// the password is trimmed, dropped when blank.
    pub fn normalize(&mut self)
        ensures
            final(self).websocket_url@ == urlish_or(old(self).websocket_url@, "ws://127.0.0.1:4455"@),
            final(self).management_mode == old(self).management_mode,
            opt_view(final(self).websocket_password) == trimmed_opt(opt_view(old(self).websocket_password)),
    {
        self.websocket_url = normalize_urlish(self.websocket_url.as_str(), "ws://127.0.0.1:4455");
        self.websocket_password = trim_optional(&self.websocket_password);
    }
}

/// The settings of each capture backend.
#[derive(Debug)]
pub struct BackendConfigs {
    pub gsr: GsrBackendConfig,
    pub obs: ObsBackendConfig,
}

impl Default for BackendConfigs {
    fn default() -> (r: Self)
        ensures
            r.gsr.capture_source@ == "planetside2"@,
            r.obs.websocket_url@ == "ws://127.0.0.1:4455"@,
            r.obs.management_mode == ObsManagementMode::ManagedRecording,
    {
        BackendConfigs { gsr: GsrBackendConfig::default(), obs: ObsBackendConfig::default() }
    }
}

impl BackendConfigs {
    /// Normalises the settings of both backends.
    pub fn normalize(&mut self)
        ensures
            final(self).gsr.capture_source@ == (if trim(old(self).gsr.capture_source@).len() == 0
                || old(self).gsr.capture_source@ == "screen"@ {
                "planetside2"@
            } else {
                old(self).gsr.capture_source@
            }),
            final(self).gsr.framerate == old(self).gsr.framerate,
            final(self).gsr.codec@ == setting_or(old(self).gsr.codec@, "h264"@),
            final(self).gsr.container@ == setting_or(old(self).gsr.container@, "mkv"@),
            final(self).gsr.quality@ == setting_or(old(self).gsr.quality@, "40000"@),
            final(self).obs.websocket_url@ == urlish_or(old(self).obs.websocket_url@, "ws://127.0.0.1:4455"@),
            final(self).obs.management_mode == old(self).obs.management_mode,
            opt_view(final(self).obs.websocket_password) == trimmed_opt(opt_view(old(self).obs.websocket_password)),
    {
        self.gsr.normalize();
        self.obs.normalize();
    }
}

/// The audio codec of post-processed clips.
#[derive(Debug, Clone, Copy, PartialEq, Eq, Structural)]
pub enum PostProcessAudioCodec {
    Aac,
    Opus,
}

/// Where the pre-mixed track goes among the tracks of a clip.
#[derive(Debug, Clone, Copy, PartialEq, Eq, Structural)]
pub enum PremixPlacement {
    First,
    Last,
}

/// Which input decides the length of the pre-mixed track.
#[derive(Debug, Clone, Copy, PartialEq, Eq, Structural)]
pub enum PremixDurationMode {
    Longest,
    First,
    Shortest,
}

/// The hotkey clip.
#[derive(Debug)]
pub struct ManualClipConfig {
    pub enabled: bool,
    pub hotkey: String,
    pub duration_secs: u32,
}

pub open spec fn clamp(v: int, lo: int, hi: int) -> int {
    if v < lo {
        lo
    } else if v > hi {
        hi
    } else {
        v
    }
}

pub fn clamp_u32(v: u32, lo: u32, hi: u32) -> (r: u32)
    requires
        lo <= hi,
    ensures
        r == clamp(v as int, lo as int, hi as int),
{
    if v < lo {
        lo
    } else if v > hi {
        hi
    } else {
        v
    }
}

impl Default for ManualClipConfig {
    fn default() -> (r: Self)
        ensures
            !r.enabled,
            r.hotkey@ == "Ctrl+Shift+F8"@,
            r.duration_secs == 30,
    {
        ManualClipConfig { enabled: false, hotkey: owned("Ctrl+Shift+F8"), duration_secs: 30 }
    }
}

impl ManualClipConfig {
    /// A blank hotkey is reset; the length is held between 5 and 300 seconds.
    pub fn normalize(&mut self)
        ensures
            final(self).enabled == old(self).enabled,
            final(self).hotkey@ == (if trim(old(self).hotkey@).len() == 0 {
                "Ctrl+Shift+F8"@
            } else {
                old(self).hotkey@
            }),
            final(self).duration_secs == clamp(old(self).duration_secs as int, 5, 300),
    {
        let t = trim_str(self.hotkey.as_str());
        if t.as_str().is_empty() {
            self.hotkey = owned("Ctrl+Shift+F8");
        }
        self.duration_secs = clamp_u32(self.duration_secs, 5, 300);
    }
}

/// Moving old, low-scoring clips to a second directory.
#[derive(Debug)]
pub struct StorageTieringConfig {
    pub enabled: bool,
    pub tier_directory: String,
    pub min_age_days: u32,
    pub max_score: u32,
}

/// A directory that may serve as the default save directory: `nanite-clip`
/// inside some video directory, or `~/Videos/nanite-clip`.
pub open spec fn is_default_save_dir(d: Seq<char>) -> bool {
    d == "~/Videos/nanite-clip"@ || exists|v: Seq<char>| d == #[trigger] join_path(v, "nanite-clip"@)
}

/// The default save directory: `nanite-clip` inside the user's video
/// directory, or `~/Videos/nanite-clip` where there is none.
pub fn default_save_directory() -> (r: String)
    ensures
        is_default_save_dir(r@),
{
    let found = match user_dirs() {
        Some(d) => video_dir(&d),
        None => None,
    };
    match found {
        Some(v) => {
            let r = join_unix_path(v.as_str(), "nanite-clip");
            assert(r@ == join_path(v@, "nanite-clip"@));
            r
        },
        None => owned("~/Videos/nanite-clip"),
    }
}

/// `archive` inside the default save directory.
pub fn default_storage_tiering_directory() -> (r: String)
    ensures
        exists|d: Seq<char>| is_default_save_dir(d) && r@ == #[trigger] join_path(d, "archive"@),
{
    let d = default_save_directory();
    let r = join_unix_path(d.as_str(), "archive");
    assert(r@ == join_path(d@, "archive"@));
    r
}

impl Default for StorageTieringConfig {
    /// Off, archiving into `archive` inside the default save directory
    /// clips older than a week that scored under 50.
    fn default() -> (r: Self)
        ensures
            !r.enabled,
            exists|d: Seq<char>| is_default_save_dir(d) && r.tier_directory@ == #[trigger] join_path(d, "archive"@),
            r.min_age_days == 7,
            r.max_score == 50,
    {
        StorageTieringConfig {
            enabled: false,
            tier_directory: default_storage_tiering_directory(),
            min_age_days: 7,
            max_score: 50,
        }
    }
}

impl StorageTieringConfig {
    /// An empty tier directory becomes `default_dir`; the minimum age is held
    /// between 1 and 3650 days and the score limit between 1 and 10000.
    pub fn normalize_with_default(&mut self, default_dir: String)
        ensures
            final(self).enabled == old(self).enabled,
            final(self).tier_directory@ == (if old(self).tier_directory@.len() == 0 {
                default_dir@
            } else {
                old(self).tier_directory@
            }),
            final(self).min_age_days == clamp(old(self).min_age_days as int, 1, 3650),
            final(self).max_score == clamp(old(self).max_score as int, 1, 10_000),
    {
        if self.tier_directory.as_str().is_empty() {
            self.tier_directory = default_dir;
        }
        self.min_age_days = clamp_u32(self.min_age_days, 1, 3650);
        self.max_score = clamp_u32(self.max_score, 1, 10_000);
    }

    /// As `normalize_with_default`, an empty tier directory becoming the
    /// `archive` directory inside the default save directory.
    pub fn normalize(&mut self)
        ensures
            final(self).enabled == old(self).enabled,
            old(self).tier_directory@.len() != 0 ==> final(self).tier_directory@ == old(self).tier_directory@,
            old(self).tier_directory@.len() == 0 ==> exists|d: Seq<char>|
                is_default_save_dir(d) && final(self).tier_directory@ == #[trigger] join_path(d, "archive"@),
            final(self).min_age_days == clamp(old(self).min_age_days as int, 1, 3650),
            final(self).max_score == clamp(old(self).max_score as int, 1, 10_000),
    {
        let d = if self.tier_directory.as_str().is_empty() {
            default_storage_tiering_directory()
        } else {
            String::new()
        };
        self.normalize_with_default(d);
    }
}

/// Where copyparty uploads go.
#[derive(Debug)]
pub struct CopypartyUploadConfig {
    pub enabled: bool,
    pub upload_url: String,
    pub public_base_url: String,
    pub username: String,
}

impl Default for CopypartyUploadConfig {
    fn default() -> (r: Self)
        ensures
            !r.enabled,
            r.upload_url@ == Seq::<char>::empty(),
            r.public_base_url@ == Seq::<char>::empty(),
            r.username@ == Seq::<char>::empty(),
    {
        CopypartyUploadConfig { enabled: false, upload_url: String::new(), public_base_url: String::new(), username: String::new() }
    }
}

impl CopypartyUploadConfig {
    /// URLs trimmed of whitespace and trailing `/`; the user name trimmed.
    pub fn normalize(&mut self)
        ensures
            final(self).enabled == old(self).enabled,
            final(self).upload_url@ == urlish_or(old(self).upload_url@, Seq::<char>::empty()),
            final(self).public_base_url@ == urlish_or(old(self).public_base_url@, Seq::<char>::empty()),
            final(self).username@ == trim(old(self).username@),
    {
        self.upload_url = normalize_urlish(self.upload_url.as_str(), "");
        self.public_base_url = normalize_urlish(self.public_base_url.as_str(), "");
        self.username = trim_str(self.username.as_str());
        proof {
            reveal_strlit("");
        }
    }
}

/// Who can see a YouTube upload.
#[derive(Debug, Clone, Copy, PartialEq, Eq, Structural)]
pub enum YouTubePrivacyStatus {
    Public,
    Unlisted,
    Private,
}

impl YouTubePrivacyStatus {
    pub fn label(self) -> (r: &'static str)
        ensures
            r@ == (match self {
                YouTubePrivacyStatus::Public => "Public"@,
                YouTubePrivacyStatus::Unlisted => "Unlisted"@,
                YouTubePrivacyStatus::Private => "Private"@,
            }),
    {
        match self {
            YouTubePrivacyStatus::Public => "Public",
            YouTubePrivacyStatus::Unlisted => "Unlisted",
            YouTubePrivacyStatus::Private => "Private",
        }
    }
}

impl Default for YouTubePrivacyStatus {
    fn default() -> (r: Self)
        ensures
            r == YouTubePrivacyStatus::Unlisted,
    {
        YouTubePrivacyStatus::Unlisted
    }
}

/// YouTube uploads.
#[derive(Debug)]
pub struct YouTubeUploadConfig {
    pub enabled: bool,
    pub client_id: String,
    pub privacy_status: YouTubePrivacyStatus,
}

impl Default for YouTubeUploadConfig {
    fn default() -> (r: Self)
        ensures
            !r.enabled,
            r.client_id@ == Seq::<char>::empty(),
            r.privacy_status == YouTubePrivacyStatus::Unlisted,
    {
        YouTubeUploadConfig { enabled: false, client_id: String::new(), privacy_status: YouTubePrivacyStatus::Unlisted }
    }
}

impl YouTubeUploadConfig {
    /// The client id trimmed.
    pub fn normalize(&mut self)
        ensures
            final(self).enabled == old(self).enabled,
            final(self).client_id@ == trim(old(self).client_id@),
            final(self).privacy_status == old(self).privacy_status,
    {
        self.client_id = trim_str(self.client_id.as_str());
    }
}

/// The upload destinations.
#[derive(Debug)]
pub struct UploadsConfig {
    pub copyparty: CopypartyUploadConfig,
    pub youtube: YouTubeUploadConfig,
}

impl UploadsConfig {
    /// Normalises both destinations.
    pub fn normalize(&mut self)
        ensures
            final(self).copyparty.enabled == old(self).copyparty.enabled,
            final(self).copyparty.upload_url@ == urlish_or(old(self).copyparty.upload_url@, Seq::<char>::empty()),
            final(self).copyparty.public_base_url@ == urlish_or(old(self).copyparty.public_base_url@, Seq::<char>::empty()),
            final(self).copyparty.username@ == trim(old(self).copyparty.username@),
            final(self).youtube.enabled == old(self).youtube.enabled,
            final(self).youtube.client_id@ == trim(old(self).youtube.client_id@),
            final(self).youtube.privacy_status == old(self).youtube.privacy_status,
    {
        self.copyparty.normalize();
        self.youtube.normalize();
    }
}

/// Posting clips to a Discord webhook.
#[derive(Debug)]
pub struct DiscordWebhookConfig {
    pub enabled: bool,
    pub min_score: u32,
    pub include_thumbnail: bool,
}

impl Default for DiscordWebhookConfig {
    fn default() -> (r: Self)
        ensures
            !r.enabled,
            r.min_score == 100,
            !r.include_thumbnail,
    {
        DiscordWebhookConfig { enabled: false, min_score: 100, include_thumbnail: false }
    }
}

impl DiscordWebhookConfig {
    /// The score threshold is held between 1 and 10000.
    pub fn normalize(&mut self)
        ensures
            final(self).enabled == old(self).enabled,
            final(self).min_score == clamp(old(self).min_score as int, 1, 10_000),
            final(self).include_thumbnail == old(self).include_thumbnail,
    {
        self.min_score = clamp_u32(self.min_score, 1, 10_000);
    }
}

/// How the app is started at login.
#[derive(Debug, Clone, Copy, PartialEq, Eq, Structural)]
pub enum LaunchAtLoginProvider {
    Auto,
    XdgAutostart,
    SystemdUser,
    WindowsStartupFolder,
    WindowsRegistryRun,
}

impl Default for LaunchAtLoginProvider {
    fn default() -> (r: Self)
        ensures
            r == LaunchAtLoginProvider::Auto,
    {
        LaunchAtLoginProvider::Auto
    }
}

/// Starting the app at login.
#[derive(Debug, Clone, Copy, PartialEq, Eq, Structural)]
pub struct LaunchAtLoginConfig {
    pub enabled: bool,
    pub provider: LaunchAtLoginProvider,
}

impl Default for LaunchAtLoginConfig {
    fn default() -> (r: Self)
        ensures
            !r.enabled,
            r.provider == LaunchAtLoginProvider::Auto,
    {
        LaunchAtLoginConfig { enabled: false, provider: LaunchAtLoginProvider::Auto }
    }
}

impl LaunchAtLoginConfig {
    /// The settings that an old settings file's plain on/off flag stands
    /// for: that flag, and the provider chosen for the platform.
    pub fn from_legacy_enabled(enabled: bool) -> (r: Self)
        ensures
            r.enabled == enabled,
            r.provider == LaunchAtLoginProvider::Auto,
    {
        LaunchAtLoginConfig { enabled, provider: LaunchAtLoginProvider::Auto }
    }

    /// Every combination of settings is valid: nothing changes.
    pub fn normalize(&mut self)
        ensures
            *final(self) == *old(self),
    {
    }
}

/// Which releases the updater follows.
#[derive(Debug, Clone, Copy, PartialEq, Eq, Structural)]
pub enum UpdateChannel {
    Stable,
    Beta,
}

impl UpdateChannel {
    pub fn label(self) -> (r: &'static str)
        ensures
            r@ == (match self {
                UpdateChannel::Stable => "Stable"@,
                UpdateChannel::Beta => "Beta"@,
            }),
    {
        match self {
            UpdateChannel::Stable => "Stable",
            UpdateChannel::Beta => "Beta",
        }
    }
}

impl Default for UpdateChannel {
    fn default() -> (r: Self)
        ensures
            r == UpdateChannel::Stable,
    {
        UpdateChannel::Stable
    }
}

/// How many earlier installed versions the update settings remember.
pub const VERSION_HISTORY_LIMIT: usize = 10;

/// The updater's settings. Times are seconds since the Unix epoch.
#[derive(Debug)]
pub struct AppUpdateConfig {
    pub auto_check: bool,
    pub channel: UpdateChannel,
    pub skipped_version: Option<String>,
    pub remind_later_version: Option<String>,
    pub remind_later_until_utc: Option<i64>,
    pub last_check_utc: Option<i64>,
    pub install_id: Option<String>,
    pub current_version: Option<String>,
    pub installed_version_history: Vec<String>,
}

impl Default for AppUpdateConfig {
    fn default() -> (r: Self)
        ensures
            r.auto_check,
            r.channel == UpdateChannel::Stable,
            r.skipped_version is None,
            r.remind_later_version is None,
            r.remind_later_until_utc is None,
            r.last_check_utc is None,
            r.install_id is None,
            r.current_version is None,
            r.installed_version_history@.len() == 0,
    {
        AppUpdateConfig {
            auto_check: true,
            channel: UpdateChannel::Stable,
            skipped_version: None,
            remind_later_version: None,
            remind_later_until_utc: None,
            last_check_utc: None,
            install_id: None,
            current_version: None,
            installed_version_history: Vec::new(),
        }
    }
}

/// The earlier versions kept from `h`, in order: each trimmed, blanks and the
/// current version left out, each kept once.
pub open spec fn kept_versions(h: Seq<Seq<char>>, current: Option<Seq<char>>) -> Seq<Seq<char>>
    decreases h.len(),
{
    if h.len() == 0 {
        seq![]
    } else {
        let prev = kept_versions(h.drop_last(), current);
        let t = trim(h.last());
        if t.len() == 0 || current == Some(t) || prev.contains(t) {
            prev
        } else {
            prev.push(t)
        }
    }
}

/// The version history that normalisation leaves: the kept versions, at
/// most the limit of them.
pub open spec fn version_history(h: Seq<Seq<char>>, current: Option<Seq<char>>) -> Seq<Seq<char>> {
    let k = kept_versions(h, current);
    if k.len() > VERSION_HISTORY_LIMIT {
        k.take(VERSION_HISTORY_LIMIT as int)
    } else {
        k
    }
}

/// Every version `kept_versions` keeps is non-blank, is not the current
/// version, is some entry of the history trimmed, and appears once.
proof fn lemma_kept_versions_clean(h: Seq<Seq<char>>, current: Option<Seq<char>>)
    ensures
        forall|i: int| 0 <= i < kept_versions(h, current).len() ==> {
            let v = #[trigger] kept_versions(h, current)[i];
            &&& v.len() > 0
            &&& current != Some(v)
            &&& exists|k: int| 0 <= k < h.len() && v == trim(h[k])
        },
        forall|i: int, j: int|
            0 <= i < j < kept_versions(h, current).len() ==> kept_versions(h, current)[i]
                != kept_versions(h, current)[j],
    decreases h.len(),
{
    if h.len() > 0 {
        let prev = kept_versions(h.drop_last(), current);
        lemma_kept_versions_clean(h.drop_last(), current);
        let r = kept_versions(h, current);
        assert forall|i: int| 0 <= i < r.len() implies {
            let v = #[trigger] r[i];
            &&& v.len() > 0
            &&& current != Some(v)
            &&& exists|k: int| 0 <= k < h.len() && v == trim(h[k])
        } by {
            if i < prev.len() {
                assert(r[i] == prev[i]);
                let k = choose|k: int| 0 <= k < h.drop_last().len() && prev[i] == trim(h.drop_last()[k]);
                assert(h.drop_last()[k] == h[k]);
            } else {
                assert(r[i] == trim(h.last()));
                assert(h.last() == h[h.len() - 1]);
            }
        }
        assert forall|i: int, j: int| 0 <= i < j < r.len() implies r[i] != r[j] by {
            if j < prev.len() {
                assert(r[i] == prev[i] && r[j] == prev[j]);
            } else {
                assert(r[i] == prev[i]);
                assert(!prev.contains(r[j]));
            }
        }
    }
}

/// Normalising the update settings leaves a clean version history: at most
/// the limit of entries, each non-blank, none the current version, each a
/// trimmed entry of the old history, and no entry twice.
pub proof fn lemma_version_history_clean(h: Seq<Seq<char>>, current: Option<Seq<char>>)
    ensures
        version_history(h, current).len() <= VERSION_HISTORY_LIMIT,
        forall|i: int| 0 <= i < version_history(h, current).len() ==> {
            let v = #[trigger] version_history(h, current)[i];
            &&& v.len() > 0
            &&& current != Some(v)
            &&& exists|k: int| 0 <= k < h.len() && v == trim(h[k])
        },
        forall|i: int, j: int|
            0 <= i < j < version_history(h, current).len() ==> version_history(h, current)[i]
                != version_history(h, current)[j],
{
    lemma_kept_versions_clean(h, current);
    let k = kept_versions(h, current);
    let r = version_history(h, current);
    assert forall|i: int| 0 <= i < r.len() implies r[i] == k[i] by {}
    assert forall|i: int| 0 <= i < r.len() implies {
        let v = #[trigger] r[i];
        &&& v.len() > 0
        &&& current != Some(v)
        &&& exists|m: int| 0 <= m < h.len() && v == trim(h[m])
    } by {
        assert(r[i] == k[i]);
    }
    assert forall|i: int, j: int| 0 <= i < j < r.len() implies r[i] != r[j] by {
        assert(r[i] == k[i] && r[j] == k[j]);
    }
}

/// Whether `v` holds a string with the characters `s`.
pub(crate) fn strings_contain(v: &Vec<String>, s: &str) -> (r: bool)
    ensures
        r == strings_view(v@).contains(s@),
{
    let mut i: usize = 0;
    while i < v.len()
        invariant
            i <= v@.len(),
            forall|k: int| 0 <= k < i ==> #[trigger] strings_view(v@)[k] != s@,
        decreases v.len() - i,
    {
        if crate::text::str_eq(v[i].as_str(), s) {
            assert(strings_view(v@)[i as int] == s@);
            return true;
        }
        i = i + 1;
    }
    false
}

/// A lowercase hexadecimal digit.
pub open spec fn is_lower_hex_digit(c: char) -> bool {
    ('0' <= c && c <= '9') || ('a' <= c && c <= 'f')
}

/// The SHA-256 digest of a text's UTF-8 bytes, in lowercase hexadecimal.
pub uninterp spec fn sha256_lower_hex(text: Seq<char>) -> Seq<char>;

/// Hashes the UTF-8 bytes of `text` with `sha2::Sha256::digest` and writes
/// the digest with `{:x}`, which generic-array's `LowerHex` renders as two
/// lowercase hexadecimal digits per byte. The contract claims the named
/// digest of the text, 64 such digits long.
#[verifier::external_body]
fn sha256_hex(text: &str) -> (r: String)
    ensures
        r@ == sha256_lower_hex(text@),
        r@.len() == 64,
        forall|i: int| 0 <= i < r@.len() ==> is_lower_hex_digit(#[trigger] r@[i]),
{
    format!("{:x}", Sha256::digest(text.as_bytes()))
}

impl AppUpdateConfig {
    /// Trims the optional texts (a blank becomes absent), rebuilds the
    /// version history, and forgets a reminder whose time has come by `now`.
    pub fn normalize(&mut self, now: i64)
        ensures
            final(self).auto_check == old(self).auto_check,
            final(self).channel == old(self).channel,
            final(self).last_check_utc == old(self).last_check_utc,
            opt_view(final(self).skipped_version) == trimmed_opt(opt_view(old(self).skipped_version)),
            opt_view(final(self).install_id) == trimmed_opt(opt_view(old(self).install_id)),
            opt_view(final(self).current_version) == trimmed_opt(opt_view(old(self).current_version)),
            strings_view(final(self).installed_version_history@) == version_history(
                strings_view(old(self).installed_version_history@),
                trimmed_opt(opt_view(old(self).current_version)),
            ),
            match old(self).remind_later_until_utc {
                Some(until) if until <= now => {
                    &&& final(self).remind_later_until_utc is None
                    &&& final(self).remind_later_version is None
                },
                _ => {
                    &&& final(self).remind_later_until_utc == old(self).remind_later_until_utc
                    &&& opt_view(final(self).remind_later_version) == trimmed_opt(
                        opt_view(old(self).remind_later_version),
                    )
                },
            },
    {
        self.skipped_version = trim_optional(&self.skipped_version);
        self.install_id = trim_optional(&self.install_id);
        self.current_version = trim_optional(&self.current_version);
        self.remind_later_version = trim_optional(&self.remind_later_version);
        let ghost h = strings_view(old(self).installed_version_history@);
        let ghost current = opt_view(self.current_version);
        let mut kept: Vec<String> = Vec::new();
        let mut i: usize = 0;
        while i < self.installed_version_history.len()
            invariant
                i <= self.installed_version_history@.len(),
                self.installed_version_history@ == old(self).installed_version_history@,
                h == strings_view(self.installed_version_history@),
                current == opt_view(self.current_version),
                strings_view(kept@) == kept_versions(h.take(i as int), current),
            decreases self.installed_version_history.len() - i,
        {
            let ghost before = kept@;
            assert(h.take(i + 1).drop_last() =~= h.take(i as int));
            assert(h.take(i + 1).last() == self.installed_version_history@[i as int]@);
            let t = trim_str(self.installed_version_history[i].as_str());
            let is_current = match &self.current_version {
                Some(c) => crate::text::str_eq(c.as_str(), t.as_str()),
                None => false,
            };
            if !t.as_str().is_empty() && !is_current && !strings_contain(&kept, t.as_str()) {
                kept.push(t);
                assert(strings_view(kept@) =~= strings_view(before).push(kept@.last()@));
            }
            i = i + 1;
        }
        assert(h.take(i as int) =~= h);
        if kept.len() > VERSION_HISTORY_LIMIT {
            kept.truncate(VERSION_HISTORY_LIMIT);
        }
        assert(strings_view(kept@) =~= version_history(h, current));
        self.installed_version_history = kept;
        match self.remind_later_until_utc {
            Some(until) => {
                if until <= now {
                    self.remind_later_until_utc = None;
                    self.remind_later_version = None;
                }
            },
            None => {},
        }
    }

    /// Gives the settings an install id when they have none (or only a
    /// blank one): the SHA-256 digest of `seed` in hexadecimal. Says whether
    /// it did; an existing id is kept. Afterwards the id is never blank, so
    /// the id is made once and later calls keep it.
    pub fn ensure_install_id(&mut self, seed: &str) -> (created: bool)
        ensures
            created == (match old(self).install_id {
                Some(v) => trim(v@).len() == 0,
                None => true,
            }),
            created ==> opt_view(final(self).install_id) == Some(sha256_lower_hex(seed@)),
            created ==> (final(self).install_id matches Some(v) && v@.len() == 64 && forall|i: int|
                0 <= i < 64 ==> is_lower_hex_digit(#[trigger] v@[i])),
            !created ==> final(self).install_id == old(self).install_id,
            final(self).install_id matches Some(v) && trim(v@).len() > 0,
            final(self).auto_check == old(self).auto_check,
            final(self).channel == old(self).channel,
            final(self).skipped_version == old(self).skipped_version,
            final(self).remind_later_version == old(self).remind_later_version,
            final(self).remind_later_until_utc == old(self).remind_later_until_utc,
            final(self).last_check_utc == old(self).last_check_utc,
            final(self).current_version == old(self).current_version,
            final(self).installed_version_history == old(self).installed_version_history,
    {
        let has_id = match &self.install_id {
            Some(v) => !crate::text::is_blank(v.as_str()),
            None => false,
        };
        if has_id {
            return false;
        }
        let id = sha256_hex(seed);
        proof {
            assert(!is_ws(id@[0]) && !is_ws(id@.last())) by {
                assert(is_lower_hex_digit(id@[0]));
                assert(is_lower_hex_digit(id@[id@.len() - 1]));
            }
            lemma_trim_of_trimmed(id@);
        }
        self.install_id = Some(id);
        true
    }
}

fn strings_same(a: &Vec<String>, b: &Vec<String>) -> (r: bool)
    ensures
        r == (strings_view(a@) == strings_view(b@)),
{
    if a.len() != b.len() {
        proof {
            if strings_view(a@) == strings_view(b@) {
                assert(strings_view(a@).len() == a@.len());
            }
        }
        return false;
    }
    let mut i: usize = 0;
    while i < a.len()
        invariant
            i <= a.len() == b.len(),
            forall|k: int| 0 <= k < i ==> a@[k]@ == b@[k]@,
        decreases a.len() - i,
    {
        let x = chars_of(a[i].as_str());
        let y = chars_of(b[i].as_str());
        if !crate::text::chars_eq(&x, &y) {
            proof {
                assert(strings_view(a@)[i as int] != strings_view(b@)[i as int]);
            }
            return false;
        }
        i = i + 1;
    }
    assert(strings_view(a@) =~= strings_view(b@));
    true
}

proof fn lemma_kinds_view_len(s: Seq<AudioSourceKind>)
    ensures
        kinds_view(s).len() == s.len(),
        forall|k: int| 0 <= k < s.len() ==> #[trigger] kinds_view(s)[k] == kind_view(s[k]),
    decreases s.len(),
{
    if s.len() > 0 {
        lemma_kinds_view_len(s.drop_first());
        assert forall|k: int| 0 <= k < s.len() implies #[trigger] kinds_view(s)[k] == kind_view(s[k]) by {
            if k > 0 {
                assert(kinds_view(s)[k] == kinds_view(s.drop_first())[k - 1]);
            }
        }
    }
}

impl AudioSourceKind {
    /// Whether two sources are the same, field for field.
    pub fn same_kind(&self, other: &AudioSourceKind) -> (r: bool)
        ensures
            r == (self@ == other@),
        decreases self,
    {
        match (self, other) {
            (AudioSourceKind::DefaultOutput, AudioSourceKind::DefaultOutput) => true,
            (AudioSourceKind::DefaultInput, AudioSourceKind::DefaultInput) => true,
            (AudioSourceKind::Device { name: a }, AudioSourceKind::Device { name: b }) => {
                let x = chars_of(a.as_str());
                let y = chars_of(b.as_str());
                crate::text::chars_eq(&x, &y)
            },
            (AudioSourceKind::Application { name: a }, AudioSourceKind::Application { name: b }) => {
                let x = chars_of(a.as_str());
                let y = chars_of(b.as_str());
                crate::text::chars_eq(&x, &y)
            },
            (AudioSourceKind::ApplicationInverse { names: a }, AudioSourceKind::ApplicationInverse { names: b }) => strings_same(a, b),
            (AudioSourceKind::Merged { entries: a }, AudioSourceKind::Merged { entries: b }) => {
                proof {
                    lemma_kinds_view_len(a@);
                    lemma_kinds_view_len(b@);
                }
                if a.len() != b.len() {
                    assert(self@ == KindView::Merged(kinds_view(a@)));
                    assert(other@ == KindView::Merged(kinds_view(b@)));
                    return false;
                }
                let mut i: usize = 0;
                while i < a.len()
                    invariant
                        i <= a.len() == b.len(),
                        *self == (AudioSourceKind::Merged { entries: *a }),
                        *other == (AudioSourceKind::Merged { entries: *b }),
                        kinds_view(a@).len() == a@.len(),
                        kinds_view(b@).len() == b@.len(),
                        forall|k: int| 0 <= k < a@.len() ==> #[trigger] kinds_view(a@)[k] == kind_view(a@[k]),
                        forall|k: int| 0 <= k < b@.len() ==> #[trigger] kinds_view(b@)[k] == kind_view(b@[k]),
                        forall|k: int| 0 <= k < i ==> kind_view(a@[k]) == kind_view(b@[k]),
                    decreases a.len() - i,
                {
                    proof {
                        assert(decreases_to!(*self => self->entries));
                        assert(self->entries == *a);
                        assert(decreases_to!(*a => a@));
                        assert(decreases_to!(a@ => a@[i as int]));
                    }
                    if !a[i].same_kind(&b[i]) {
                        proof {
                            assert(kinds_view(a@)[i as int] != kinds_view(b@)[i as int]);
                            assert(kind_view(*self) == KindView::Merged(kinds_view(a@)));
                        }
                        return false;
                    }
                    i = i + 1;
                }
                assert(kinds_view(a@) =~= kinds_view(b@));
                true
            },
            (AudioSourceKind::Raw { backend_id: a1, value: a2 }, AudioSourceKind::Raw { backend_id: b1, value: b2 }) => {
                let x1 = chars_of(a1.as_str());
                let y1 = chars_of(b1.as_str());
                let x2 = chars_of(a2.as_str());
                let y2 = chars_of(b2.as_str());
                crate::text::chars_eq(&x1, &y1) && crate::text::chars_eq(&x2, &y2)
            },
            _ => false,
        }
    }
}

/// The file-name template clips get unless the user picks another.
pub open spec fn default_naming_template() -> Seq<char> {
    "{timestamp}_{source}_{character}_{rule}_{score}"@
}

pub fn default_clip_naming_template() -> (r: String)
    ensures
        r@ == default_naming_template(),
{
    owned("{timestamp}_{source}_{character}_{rule}_{score}")
}

/// The clip-name template that normalisation keeps: a blank one becomes
/// the default, any other stays as written.
pub fn normalized_clip_naming_template(template: &str) -> (r: String)
    ensures
        r@ == if trim(template@).len() == 0 {
            default_naming_template()
        } else {
            template@
        },
{
    let t = trim_str(template);
    if t.as_str().is_empty() {
        default_clip_naming_template()
    } else {
        owned(template)
    }
}

/// The active profile that normalisation keeps: the active one while a
/// profile has its id, else the first profile, else none (empty).
pub fn normalized_active_profile_id(profile_ids: &Vec<String>, active_profile_id: &str) -> (r: String)
    ensures
        r@ == if strings_view(profile_ids@).contains(active_profile_id@) {
            active_profile_id@
        } else if profile_ids@.len() > 0 {
            profile_ids@[0]@
        } else {
            Seq::<char>::empty()
        },
{
    if strings_contain(profile_ids, active_profile_id) {
        owned(active_profile_id)
    } else if profile_ids.len() > 0 {
        owned(profile_ids[0].as_str())
    } else {
        String::new()
    }
}

/// The rule ids a profile keeps after normalisation: those naming a rule
/// that exists, in their order.
pub fn retained_rule_ids(enabled_rule_ids: &Vec<String>, rule_ids: &Vec<String>) -> (r: Vec<String>)
    ensures
        strings_view(r@) == strings_view(enabled_rule_ids@).filter(|id: Seq<char>| strings_view(rule_ids@).contains(id)),
{
    let ghost known = strings_view(rule_ids@);
    let ghost ev = strings_view(enabled_rule_ids@);
    let mut r: Vec<String> = Vec::new();
    let mut i: usize = 0;
    while i < enabled_rule_ids.len()
        invariant
            i <= enabled_rule_ids.len(),
            known == strings_view(rule_ids@),
            ev == strings_view(enabled_rule_ids@),
            strings_view(r@) == ev.take(i as int).filter(|id: Seq<char>| known.contains(id)),
        decreases enabled_rule_ids.len() - i,
    {
        let keep = strings_contain(rule_ids, enabled_rule_ids[i].as_str());
        let ghost before = strings_view(r@);
        proof {
            reveal(Seq::filter);
            assert(ev.take(i + 1).drop_last() =~= ev.take(i as int));
            assert(ev.take(i + 1).last() == enabled_rule_ids@[i as int]@);
        }
        if keep {
            r.push(owned(enabled_rule_ids[i].as_str()));
            assert(strings_view(r@) =~= before.push(enabled_rule_ids@[i as int]@));
        }
        i = i + 1;
    }
    assert(ev.take(ev.len() as int) =~= ev);
    r
}

/// The merge window a rule keeps: never zero seconds.
pub fn normalized_window_secs(window_secs: u32) -> (r: u32)
    ensures
        r == if window_secs == 0 { 1 } else { window_secs },
{
    if window_secs == 0 {
        1
    } else {
        window_secs
    }
}

/// The title the mixed audio track keeps: trimmed, `Mixed` when blank.
pub fn normalized_premix_track_title(track_title: &str) -> (r: String)
    ensures
        r@ == if trim(track_title@).len() == 0 {
            "Mixed"@
        } else {
            trim(track_title@)
        },
{
    let t = trim_str(track_title);
    if t.as_str().is_empty() {
        owned("Mixed")
    } else {
        t
    }
}

/// The bitrate post-processing encodes audio at, in kbit/s: between 32
/// and 512.
pub fn normalized_post_process_bitrate(bitrate_kbps: u32) -> (r: u32)
    ensures
        r == clamp(bitrate_kbps as int, 32, 512),
{
    clamp_u32(bitrate_kbps, 32, 512)
}

/// The kind and label of an audio source as stored settings give it: its
/// kind when one is written; else the kind a legacy `source` string stands
/// for, labelled by that string (trimmed) unless a label is written; else an
/// empty raw source of the platform's default backend.
pub open spec fn stored_source(kind: Option<KindView>, source: Option<Seq<char>>, label: Seq<char>, platform: Platform) -> (KindView, Seq<char>) {
    match (kind, source) {
        (Some(k), _) => (k, label),
        (None, Some(s)) => (
            parse_legacy(trim(s), backend_name(platform_default_backend(platform))),
            if trim(label).len() == 0 {
                trim(s)
            } else {
                label
            },
        ),
        (None, None) => (KindView::Raw(backend_name(platform_default_backend(platform)), Seq::<char>::empty()), label),
    }
}

/// Reads an audio source from stored settings, old or new.
pub fn stored_audio_source(kind: Option<AudioSourceKind>, source: Option<&str>, label: &str, platform: Platform) -> (r: (AudioSourceKind, String))
    ensures
        r.0@ == stored_source(
            match kind {
                Some(k) => Some(k@),
                None => None,
            },
            match source {
                Some(s) => Some(s@),
                None => None,
            },
            label@,
            platform,
        ).0,
        r.1@ == stored_source(
            match kind {
                Some(k) => Some(k@),
                None => None,
            },
            match source {
                Some(s) => Some(s@),
                None => None,
            },
            label@,
            platform,
        ).1,
{
    match kind {
        Some(k) => (k, owned(label)),
        None => match source {
            Some(s) => {
                let trimmed = trim_str(s);
                let kind = legacy_audio_source_kind_from_value(trimmed.as_str(), platform);
                let label = if trim_str(label).as_str().is_empty() {
                    trimmed
                } else {
                    owned(label)
                };
                (kind, label)
            },
            None => (AudioSourceKind::Raw { backend_id: owned(default_capture_backend(platform).as_str()), value: String::new() }, owned(label)),
        },
    }
}

impl PartialEq for AudioSourceKind {
    fn eq(&self, other: &Self) -> (r: bool) {
        self.same_kind(other)
    }
}

impl vstd::std_specs::cmp::PartialEqSpecImpl for AudioSourceKind {
    open spec fn obeys_eq_spec() -> bool {
        true
    }

    open spec fn eq_spec(&self, other: &Self) -> bool {
        self@ == other@
    }
}

} // verus!
