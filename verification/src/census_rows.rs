//! What the Census answers are read for: JSON rows as plain values, fields
//! found by dotted paths, and the characters, outfits, vehicles, weapons and
//! online statuses that the rows describe.
use vstd::prelude::*;
use crate::census::{to_lowercase, unicode_lowercase, to_uppercase, unicode_uppercase, CensusError, CensusLookupResult, OutfitLookupResult};
use crate::config::opt_view;
use crate::text::{lemma_text_lt_irrefl, lemma_text_lt_trans, text_less, text_lt, chars_eq, string_of, strip_end_char_chars, strip_start_char_chars, trim_chars, decimal, digits_value, all_digits, owned, push_decimal, strip_end_char, strip_start_char, chars_of, find_char, first_index_of, has_char, lemma_first_index_of, lemma_first_index_of_none, parse_u64, parse_u64_str, sub_chars, trim, trim_str};

verus! {

/// A JSON value as the Census service sends it. Numbers keep their text;
/// an object keeps its members in order, `keys[i]` naming `values[i]`.
#[derive(Debug)]
pub enum JsonValue {
    Null,
    Bool(bool),
    Number(String),
    Text(String),
    Array(Vec<JsonValue>),
    Object { keys: Vec<String>, values: Vec<JsonValue> },
}

/// The first position of `key` among `keys`.
pub open spec fn first_key(keys: Seq<String>, key: Seq<char>) -> Option<int> {
    if exists|i: int| 0 <= i < keys.len() && #[trigger] keys[i]@ == key {
        Some(
            choose|i: int|
                0 <= i < keys.len() && #[trigger] keys[i]@ == key && forall|k: int|
                    0 <= k < i ==> keys[k]@ != key,
        )
    } else {
        None
    }
}

/// The member `key` of an object; nothing for other values.
pub open spec fn json_member(v: JsonValue, key: Seq<char>) -> Option<JsonValue> {
    match v {
        JsonValue::Object { keys, values } => match first_key(keys@, key) {
            Some(i) => if i < values@.len() {
                Some(values@[i])
            } else {
                None
            },
            None => None,
        },
        _ => None,
    }
}

/// The value a dotted path leads to: each segment between dots names a
/// member of the value reached so far.
pub open spec fn json_at_path(v: JsonValue, path: Seq<char>) -> Option<JsonValue>
    decreases path.len(),
{
    match first_index_of(path, '.') {
        Some(i) => if 0 <= i < path.len() {
            match json_member(v, path.take(i)) {
                Some(c) => json_at_path(c, path.skip(i + 1)),
                None => None,
            }
        } else {
            None
        },
        None => json_member(v, path),
    }
}

/// The text a value holds, if it is a string.
pub open spec fn json_text(v: Option<JsonValue>) -> Option<Seq<char>> {
    match v {
        Some(JsonValue::Text(s)) => Some(s@),
        _ => None,
    }
}

/// The text at a dotted path.
pub open spec fn text_at(v: JsonValue, path: Seq<char>) -> Option<Seq<char>> {
    json_text(json_at_path(v, path))
}

/// The text of the first candidate path that leads to a string.
pub open spec fn first_text(v: JsonValue, candidates: Seq<Seq<char>>) -> Option<Seq<char>>
    decreases candidates.len(),
{
    if candidates.len() == 0 {
        None
    } else {
        match text_at(v, candidates[0]) {
            Some(s) => Some(s),
            None => first_text(v, candidates.drop_first()),
        }
    }
}

/// The first candidate's text, trimmed; nothing when that is blank.
pub open spec fn first_trimmed_text(v: JsonValue, candidates: Seq<Seq<char>>) -> Option<Seq<char>> {
    match first_text(v, candidates) {
        Some(s) => if trim(s).len() > 0 {
            Some(trim(s))
        } else {
            None
        },
        None => None,
    }
}

/// What `str::parse::<u32>` gives.
pub open spec fn parse_u32(s: Seq<char>) -> Option<u32> {
    match parse_u64(s) {
        Some(n) => if n <= u32::MAX {
            Some(n as u32)
        } else {
            None
        },
        None => None,
    }
}

/// The first candidate's text read as a non-zero number.
pub open spec fn first_non_zero_u32(v: JsonValue, candidates: Seq<Seq<char>>) -> Option<u32> {
    match first_text(v, candidates) {
        Some(s) => match parse_u32(s) {
            Some(n) => if n != 0 {
                Some(n)
            } else {
                None
            },
            None => None,
        },
        None => None,
    }
}

pub open spec fn strs_view(s: Seq<&str>) -> Seq<Seq<char>> {
    s.map_values(|x: &str| x@)
}

/// The first position of `key` among `keys`.
fn key_index(keys: &Vec<String>, key: &Vec<char>) -> (r: Option<usize>)
    ensures
        match r {
            Some(i) => first_key(keys@, key@) == Some(i as int) && i < keys@.len(),
            None => first_key(keys@, key@) is None,
        },
{
    let mut i: usize = 0;
    while i < keys.len()
        invariant
            i <= keys@.len(),
            forall|k: int| 0 <= k < i ==> #[trigger] keys@[k]@ != key@,
        decreases keys.len() - i,
    {
        let kv = chars_of(keys[i].as_str());
        if crate::text::chars_eq(&kv, key) {
            proof {
                assert(keys@[i as int]@ == key@);
                let c = choose|c: int|
                    0 <= c < keys@.len() && #[trigger] keys@[c]@ == key@ && forall|k: int|
                        0 <= k < c ==> keys@[k]@ != key@;
                if c < i {
                    assert(keys@[c]@ != key@);
                } else if c > i {
                    assert(keys@[i as int]@ != key@);
                }
            }
            return Some(i);
        }
        i = i + 1;
    }
    None
}

/// The member `key` of `value`, when `value` is an object that has one.
pub fn json_get<'a>(value: &'a JsonValue, key: &Vec<char>) -> (r: Option<&'a JsonValue>)
    ensures
        match r {
            Some(x) => json_member(*value, key@) == Some(*x),
            None => json_member(*value, key@) is None,
        },
{
    match value {
        JsonValue::Object { keys, values } => match key_index(keys, key) {
            Some(i) => if i < values.len() {
                Some(&values[i])
            } else {
                None
            },
            None => None,
        },
        _ => None,
    }
}

/// The value that the dotted `path` leads to from `value`.
pub fn json_path<'a>(value: &'a JsonValue, path: &str) -> (r: Option<&'a JsonValue>)
    ensures
        match r {
            Some(x) => json_at_path(*value, path@) == Some(*x),
            None => json_at_path(*value, path@) is None,
        },
{
    let mut rest = chars_of(path);
    let mut current = value;
    loop
        invariant
            json_at_path(*value, path@) == json_at_path(*current, rest@),
        decreases rest.len(),
    {
        match find_char(&rest, '.') {
            Some(i) => {
                proof {
                    lemma_first_index_of(rest@, '.', i as int);
                }
                let segment = sub_chars(&rest, 0, i);
                assert(segment@ =~= rest@.take(i as int));
                match json_get(current, &segment) {
                    Some(next) => {
                        let tail = sub_chars(&rest, i + 1, rest.len());
                        assert(tail@ =~= rest@.skip(i + 1));
                        current = next;
                        rest = tail;
                    },
                    None => {
                        return None;
                    },
                }
            },
            None => {
                proof {
                    lemma_first_index_of_none(rest@, '.');
                }
                return json_get(current, &rest);
            },
        }
    }
}

/// The text at the dotted `path`, when a string is there.
pub fn string_field<'a>(value: &'a JsonValue, path: &str) -> (r: Option<&'a str>)
    ensures
        match r {
            Some(s) => text_at(*value, path@) == Some(s@),
            None => text_at(*value, path@) is None,
        },
{
    match json_path(value, path) {
        Some(JsonValue::Text(s)) => Some(s.as_str()),
        _ => None,
    }
}

/// The text of the first candidate path that holds one.
fn first_text_of(item: &JsonValue, candidates: &[&str]) -> (r: Option<String>)
    ensures
        opt_view(r) == first_text(*item, strs_view(candidates@)),
{
    let ghost all = strs_view(candidates@);
    assert(all.skip(0) =~= all);
    let mut i: usize = 0;
    while i < candidates.len()
        invariant
            i <= candidates@.len(),
            all == strs_view(candidates@),
            first_text(*item, all) == first_text(*item, all.skip(i as int)),
        decreases candidates.len() - i,
    {
        let ghost rest = all.skip(i as int);
        assert(rest[0] == candidates@[i as int]@);
        assert(rest.drop_first() =~= all.skip(i + 1));
        match string_field(item, candidates[i]) {
            Some(s) => {
                return Some(crate::text::owned(s));
            },
            None => {},
        }
        i = i + 1;
    }
    assert(all.skip(i as int).len() == 0);
    None
}

/// The first candidate path's text, trimmed; nothing when it is blank or
/// when no candidate holds text.
pub fn first_string_field(item: &JsonValue, candidates: &[&str]) -> (r: Option<String>)
    ensures
        opt_view(r) == first_trimmed_text(*item, strs_view(candidates@)),
{
    match first_text_of(item, candidates) {
        Some(s) => {
            let t = trim_str(s.as_str());
            if t.as_str().is_empty() {
                None
            } else {
                Some(t)
            }
        },
        None => None,
    }
}

/// What `str::parse::<u32>` gives for `s`.
pub fn parse_u32_str(s: &str) -> (r: Option<u32>)
    ensures
        r == parse_u32(s@),
{
    match parse_u64_str(s) {
        Some(n) => if n <= 0xffff_ffff {
            Some(n as u32)
        } else {
            None
        },
        None => None,
    }
}

/// The first candidate path's text read as a number, when that is not zero.
pub fn parse_non_zero_u32_field(item: &JsonValue, candidates: &[&str]) -> (r: Option<u32>)
    ensures
        r == first_non_zero_u32(*item, strs_view(candidates@)),
{
    match first_text_of(item, candidates) {
        Some(s) => match parse_u32_str(s.as_str()) {
            Some(n) => if n != 0 {
                Some(n)
            } else {
                None
            },
            None => None,
        },
        None => None,
    }
}

// ---------------------------------------------------------------------
// Numbers, factions and worlds
// ---------------------------------------------------------------------

/// What `str::parse` reads as a signed integer: an optional `+` or `-`, then
/// one or more decimal digits.
pub open spec fn parse_int(s: Seq<char>) -> Option<int> {
    let negative = s.len() > 0 && s[0] == '-';
    let body = if s.len() > 0 && (s[0] == '+' || s[0] == '-') {
        s.drop_first()
    } else {
        s
    };
    if body.len() > 0 && all_digits(body) {
        Some(if negative {
            -(digits_value(body) as int)
        } else {
            digits_value(body) as int
        })
    } else {
        None
    }
}

/// What `str::parse::<i64>` gives.
pub open spec fn parse_i64(s: Seq<char>) -> Option<i64> {
    match parse_int(s) {
        Some(n) => if i64::MIN <= n <= i64::MAX {
            Some(n as i64)
        } else {
            None
        },
        None => None,
    }
}

/// What `str::parse::<i16>` gives.
pub open spec fn parse_i16(s: Seq<char>) -> Option<i16> {
    match parse_int(s) {
        Some(n) => if i16::MIN <= n <= i16::MAX {
            Some(n as i16)
        } else {
            None
        },
        None => None,
    }
}

/// Reads `s` with `str::parse::<i64>`. Its documentation gives the accepted
/// form (an optional sign, then digits, within range), which the contract
/// states; the error's text, which the `Err` carries, is left unsaid.
#[verifier::external_body]
fn parse_i64_text(s: &str) -> (r: Result<i64, String>)
    ensures
        match r {
            Ok(n) => parse_i64(s@) == Some(n),
            Err(_) => parse_i64(s@) is None,
        },
{
    match s.parse::<i64>() {
        Ok(n) => Ok(n),
        Err(e) => Err(e.to_string()),
    }
}

/// A PlanetSide 2 faction, as the Census service numbers them.
#[derive(Debug, Clone, Copy, PartialEq, Eq, Structural)]
pub enum Faction {
    Unknown,
    VS,
    NC,
    TR,
    NS,
}

/// The faction a number stands for.
pub open spec fn faction_of_number(n: int) -> Option<Faction> {
    if n == 0 {
        Some(Faction::Unknown)
    } else if n == 1 {
        Some(Faction::VS)
    } else if n == 2 {
        Some(Faction::NC)
    } else if n == 3 {
        Some(Faction::TR)
    } else if n == 4 {
        Some(Faction::NS)
    } else {
        None
    }
}

/// `auraxis::Faction::try_from` on a number. The contract gives the
/// crate's numbering (`Unknown = 0`, `VS = 1`, `NC = 2`, `TR = 3`,
/// `NS = 4`), which its `TryFromPrimitive` derive follows.
#[verifier::external_body]
fn faction_from_number(n: i16) -> (r: Option<Faction>)
    ensures
        r == faction_of_number(n as int),
{
    match auraxis::Faction::try_from(n) {
        Ok(auraxis::Faction::Unknown) => Some(Faction::Unknown),
        Ok(auraxis::Faction::VS) => Some(Faction::VS),
        Ok(auraxis::Faction::NC) => Some(Faction::NC),
        Ok(auraxis::Faction::TR) => Some(Faction::TR),
        Ok(auraxis::Faction::NS) => Some(Faction::NS),
        Err(_) => None,
    }
}

/// `str::parse::<auraxis::Faction>`: the crate's `FromStr` reads an `i16`
/// and then converts it as `try_from` does, which the contract states.
#[verifier::external_body]
fn parse_faction(s: &str) -> (r: Option<Faction>)
    ensures
        r == (match parse_i16(s@) {
            Some(n) => faction_of_number(n as int),
            None => None,
        }),
{
    match s.parse::<auraxis::Faction>() {
        Ok(auraxis::Faction::Unknown) => Some(Faction::Unknown),
        Ok(auraxis::Faction::VS) => Some(Faction::VS),
        Ok(auraxis::Faction::NC) => Some(Faction::NC),
        Ok(auraxis::Faction::TR) => Some(Faction::TR),
        Ok(auraxis::Faction::NS) => Some(Faction::NS),
        Err(_) => None,
    }
}

/// A game server.
#[derive(Debug, Clone, Copy, PartialEq, Eq, Structural)]
pub enum World {
    Jaeger,
    Briggs,
    Miller,
    Cobalt,
    Connery,
    Emerald,
    Soltech,
}

/// The world a number stands for.
pub open spec fn world_of_number(n: int) -> Option<World> {
    if n == 19 {
        Some(World::Jaeger)
    } else if n == 25 {
        Some(World::Briggs)
    } else if n == 10 {
        Some(World::Miller)
    } else if n == 13 {
        Some(World::Cobalt)
    } else if n == 1 {
        Some(World::Connery)
    } else if n == 17 {
        Some(World::Emerald)
    } else if n == 40 {
        Some(World::Soltech)
    } else {
        None
    }
}

/// The name a world displays as.
pub open spec fn world_label(w: World) -> Seq<char> {
    match w {
        World::Jaeger => "Jaeger"@,
        World::Briggs => "Briggs"@,
        World::Miller => "Miller"@,
        World::Cobalt => "Cobalt"@,
        World::Connery => "Connery"@,
        World::Emerald => "Emerald"@,
        World::Soltech => "Soltech"@,
    }
}

/// `auraxis::WorldID::try_from` on a number; the contract gives the crate's
/// numbering of its worlds.
#[verifier::external_body]
fn world_from_number(n: i16) -> (r: Option<World>)
    ensures
        r == world_of_number(n as int),
{
    match auraxis::WorldID::try_from(n) {
        Ok(auraxis::WorldID::Jaeger) => Some(World::Jaeger),
        Ok(auraxis::WorldID::Briggs) => Some(World::Briggs),
        Ok(auraxis::WorldID::Miller) => Some(World::Miller),
        Ok(auraxis::WorldID::Cobalt) => Some(World::Cobalt),
        Ok(auraxis::WorldID::Connery) => Some(World::Connery),
        Ok(auraxis::WorldID::Emerald) => Some(World::Emerald),
        Ok(auraxis::WorldID::Soltech) => Some(World::Soltech),
        Err(_) => None,
    }
}

/// `auraxis::WorldID`'s `Display`: the contract gives the names the crate
/// writes for its worlds.
#[verifier::external_body]
fn world_display(w: World) -> (r: String)
    ensures
        r@ == world_label(w),
{
    let id = match w {
        World::Jaeger => auraxis::WorldID::Jaeger,
        World::Briggs => auraxis::WorldID::Briggs,
        World::Miller => auraxis::WorldID::Miller,
        World::Cobalt => auraxis::WorldID::Cobalt,
        World::Connery => auraxis::WorldID::Connery,
        World::Emerald => auraxis::WorldID::Emerald,
        World::Soltech => auraxis::WorldID::Soltech,
    };
    id.to_string()
}

/// The name shown for a world: the server's own name (Connery plays as
/// Osprey and Miller as Wainwright), or `World #n` for an unknown number.
/// The number is read as the 16-bit value the service uses.
pub open spec fn world_name_text(world_id: u32) -> Seq<char> {
    match world_of_number((world_id as i16) as int) {
        Some(World::Connery) => "Osprey"@,
        Some(World::Miller) => "Wainwright"@,
        Some(w) => world_label(w),
        None => "World #"@ + decimal(world_id as nat),
    }
}

pub fn world_name(world_id: u32) -> (r: String)
    ensures
        r@ == world_name_text(world_id),
{
    let short = world_id as i16;
    match world_from_number(short) {
        Some(World::Connery) => owned("Osprey"),
        Some(World::Miller) => owned("Wainwright"),
        Some(w) => world_display(w),
        None => {
            let mut r = owned("World #");
            push_decimal(&mut r, world_id as u64);
            r
        },
    }
}

/// The short name of a faction, or `Faction #n` for an unknown or unnamed
/// one. The number is read as the 16-bit value the service uses.
pub open spec fn faction_name_text(faction_id: u32) -> Seq<char> {
    match faction_of_number((faction_id as i16) as int) {
        Some(Faction::VS) => "VS"@,
        Some(Faction::NC) => "NC"@,
        Some(Faction::TR) => "TR"@,
        Some(Faction::NS) => "NS"@,
        _ => "Faction #"@ + decimal(faction_id as nat),
    }
}

pub fn faction_name(faction_id: u32) -> (r: String)
    ensures
        r@ == faction_name_text(faction_id),
{
    let short = faction_id as i16;
    match faction_from_number(short) {
        Some(Faction::VS) => owned("VS"),
        Some(Faction::NC) => owned("NC"),
        Some(Faction::TR) => owned("TR"),
        Some(Faction::NS) => owned("NS"),
        _ => {
            let mut r = owned("Faction #");
            push_decimal(&mut r, faction_id as u64);
            r
        },
    }
}


// ---------------------------------------------------------------------
// Rows
// ---------------------------------------------------------------------

/// The text of the member `key` of a row.
fn member_text<'a>(item: &'a JsonValue, key: &str) -> (r: Option<&'a str>)
    ensures
        match r {
            Some(s) => json_text(json_member(*item, key@)) == Some(s@),
            None => json_text(json_member(*item, key@)) is None,
        },
{
    let k = chars_of(key);
    match json_get(item, &k) {
        Some(JsonValue::Text(s)) => Some(s.as_str()),
        _ => None,
    }
}

/// How reading the id in the member `key` of a row turns out: nothing when
/// there is no text there, else what parsing the text gives.
pub open spec fn row_id_outcome(item: JsonValue, key: Seq<char>) -> Option<Option<i64>> {
    match json_text(json_member(item, key)) {
        Some(t) => Some(parse_i64(t)),
        None => None,
    }
}

/// The id in the member `key` of a row; an API error that says
/// `missing_message` when the member holds no text, or that carries the
/// parse failure when the text is not a number.
fn row_id(item: &JsonValue, key: &str, missing_message: &str) -> (r: Result<i64, CensusError>)
    ensures
        match row_id_outcome(*item, key@) {
            None => r matches Err(CensusError::Api(m)) && m@ == missing_message@,
            Some(None) => r matches Err(CensusError::Api(_)),
            Some(Some(n)) => r matches Ok(x) && x == n,
        },
{
    match member_text(item, key) {
        None => Err(CensusError::Api(owned(missing_message))),
        Some(t) => match parse_i64_text(t) {
            Ok(n) => Ok(n),
            Err(e) => Err(CensusError::Api(e)),
        },
    }
}

/// The character that the first row of a name search describes: its id
/// (required), its name (the name searched for, trimmed, when the row has
/// none), its world and its faction. No rows, no character.
#[verifier::rlimit(40)]
pub fn character_reference_from_items(items: &Vec<JsonValue>, name: &str) -> (r: Result<
    Option<CensusLookupResult>,
    CensusError,
>)
    ensures
        items@.len() == 0 ==> r matches Ok(None),
        items@.len() > 0 ==> match row_id_outcome(items@[0], "character_id"@) {
            None => r matches Err(CensusError::Api(m)) && m@ == "missing character_id in response"@,
            Some(None) => r matches Err(CensusError::Api(_)),
            Some(Some(id)) => r matches Ok(Some(x)) && x.id == id && x.display_name@ == (match first_trimmed_text(
                items@[0],
                seq!["name.first"@, "name.first_lower"@],
            ) {
                Some(d) => d,
                None => trim(name@),
            }) && x.world_id == first_non_zero_u32(items@[0], seq!["characters_world.world_id"@, "world_id"@])
                && x.faction_id == first_non_zero_u32(items@[0], seq!["faction_id"@]),
        },
{
    if items.len() == 0 {
        return Ok(None);
    }
    let item = &items[0];
    let id = match row_id(item, "character_id", "missing character_id in response") {
        Ok(n) => n,
        Err(e) => return Err(e),
    };
    let name_fields: [&str; 2] = ["name.first", "name.first_lower"];
    assert(strs_view(name_fields@) =~= seq!["name.first"@, "name.first_lower"@]);
    let display_name = match first_string_field(item, &name_fields) {
        Some(d) => d,
        None => trim_str(name),
    };
    let world_fields: [&str; 2] = ["characters_world.world_id", "world_id"];
    assert(strs_view(world_fields@) =~= seq!["characters_world.world_id"@, "world_id"@]);
    let faction_fields: [&str; 1] = ["faction_id"];
    assert(strs_view(faction_fields@) =~= seq!["faction_id"@]);
    let world_id = parse_non_zero_u32_field(item, &world_fields);
    let faction_id = parse_non_zero_u32_field(item, &faction_fields);
    Ok(Some(CensusLookupResult { id, display_name, world_id, faction_id }))
}

/// A character as the rest of the application knows it.
#[derive(Debug)]
pub struct ResolvedCharacter {
    pub id: u64,
    pub display_name: String,
    pub world_id: Option<u32>,
    pub faction_id: Option<u32>,
}

/// The character a name search resolved to; not found, naming the name
/// searched for, when it gave nothing. The id keeps its 64 bits, read as
/// unsigned.
pub fn resolved_character(lookup: Option<CensusLookupResult>, name: &str) -> (r: Result<
    ResolvedCharacter,
    CensusError,
>)
    ensures
        match lookup {
            None => r matches Err(CensusError::CharacterNotFound(n)) && n@ == name@,
            Some(l) => r matches Ok(c) && c.id == l.id as u64 && c.display_name == l.display_name
                && c.world_id == l.world_id && c.faction_id == l.faction_id,
        },
{
    match lookup {
        None => Err(CensusError::CharacterNotFound(owned(name))),
        Some(l) => Ok(
            ResolvedCharacter {
                id: l.id as u64,
                display_name: l.display_name,
                world_id: l.world_id,
                faction_id: l.faction_id,
            },
        ),
    }
}

/// An outfit tag as searched for: trimmed, without the brackets it may be
/// written in.
pub open spec fn outfit_tag_text(tag: Seq<char>) -> Seq<char> {
    strip_end_char(strip_start_char(trim(tag), '['), ']')
}

/// The tag to search for; nothing when it is blank.
pub fn normalize_outfit_tag(tag: &str) -> (r: Option<String>)
    ensures
        match r {
            Some(t) => outfit_tag_text(tag@).len() > 0 && t@ == outfit_tag_text(tag@),
            None => outfit_tag_text(tag@).len() == 0,
        },
{
    let v = chars_of(tag);
    let t = trim_chars(&v);
    let a = strip_start_char_chars(&t, '[');
    let b = strip_end_char_chars(&a, ']');
    if b.len() == 0 {
        None
    } else {
        Some(string_of(&b))
    }
}

/// The outfit that the first row of a tag search describes: its id
/// (required), its tag (the searched tag in upper case when the row has no
/// alias) and its name (the alias, else the name, else the tag). No rows,
/// no outfit.
pub fn outfit_reference_from_items(items: &Vec<JsonValue>, normalized_tag: &str) -> (r: Result<
    Option<OutfitLookupResult>,
    CensusError,
>)
    ensures
        items@.len() == 0 ==> r matches Ok(None),
        items@.len() > 0 ==> match row_id_outcome(items@[0], "outfit_id"@) {
            None => r matches Err(CensusError::Api(m)) && m@ == "missing outfit_id in response"@,
            Some(None) => r matches Err(CensusError::Api(_)),
            Some(Some(id)) => {
                let tag = match first_trimmed_text(items@[0], seq!["alias"@]) {
                    Some(t) => t,
                    None => unicode_uppercase(normalized_tag@),
                };
                r matches Ok(Some(x)) && x.id == id && x.tag@ == tag && x.display_name@ == (
                match first_trimmed_text(items@[0], seq!["alias"@, "name"@]) {
                    Some(d) => d,
                    None => tag,
                })
            },
        },
{
    if items.len() == 0 {
        return Ok(None);
    }
    let item = &items[0];
    let id = match row_id(item, "outfit_id", "missing outfit_id in response") {
        Ok(n) => n,
        Err(e) => return Err(e),
    };
    let tag_fields: [&str; 1] = ["alias"];
    assert(strs_view(tag_fields@) =~= seq!["alias"@]);
    let name_fields: [&str; 2] = ["alias", "name"];
    assert(strs_view(name_fields@) =~= seq!["alias"@, "name"@]);
    let tag = match first_string_field(item, &tag_fields) {
        Some(t) => t,
        None => to_uppercase(normalized_tag),
    };
    let display_name = match first_string_field(item, &name_fields) {
        Some(d) => d,
        None => owned(tag.as_str()),
    };
    Ok(Some(OutfitLookupResult { id, tag, display_name }))
}

/// A signed number in decimal.
pub open spec fn signed_decimal(n: int) -> Seq<char> {
    if n < 0 {
        "-"@ + decimal((-n) as nat)
    } else {
        decimal(n as nat)
    }
}

/// Appends `n` in decimal, with a `-` when it is negative.
pub fn push_signed_decimal(out: &mut String, n: i64)
    ensures
        final(out)@ == old(out)@ + signed_decimal(n as int),
{
    if n < 0 {
        out.push_str("-");
        let magnitude: u64 = if n == i64::MIN {
            0x8000_0000_0000_0000
        } else {
            (-n) as u64
        };
        push_decimal(out, magnitude);
        assert(final(out)@ =~= old(out)@ + signed_decimal(n as int));
    } else {
        push_decimal(out, n as u64);
    }
}

/// The outfit a character belongs to, from the first row of a membership
/// search: its id (required), no tag, and `Outfit #id` as its name. No
/// rows, no outfit.
pub fn character_outfit_from_items(items: &Vec<JsonValue>) -> (r: Result<Option<OutfitLookupResult>, CensusError>)
    ensures
        items@.len() == 0 ==> r matches Ok(None),
        items@.len() > 0 ==> match row_id_outcome(items@[0], "outfit_id"@) {
            None => r matches Err(CensusError::Api(m)) && m@ == "missing outfit_id in response"@,
            Some(None) => r matches Err(CensusError::Api(_)),
            Some(Some(id)) => r matches Ok(Some(x)) && x.id == id && x.tag@.len() == 0
                && x.display_name@ == "Outfit #"@ + signed_decimal(id as int),
        },
{
    if items.len() == 0 {
        return Ok(None);
    }
    let id = match row_id(&items[0], "outfit_id", "missing outfit_id in response") {
        Ok(n) => n,
        Err(e) => return Err(e),
    };
    let mut display_name = owned("Outfit #");
    push_signed_decimal(&mut display_name, id);
    Ok(Some(OutfitLookupResult { id, tag: String::new(), display_name }))
}

/// The name that the first row of a lookup gives in the first of
/// `name_fields` that holds one; nothing without rows.
pub fn name_from_items(items: &Vec<JsonValue>, name_fields: &[&str]) -> (r: Option<String>)
    ensures
        opt_view(r) == (if items@.len() == 0 {
            None
        } else {
            first_trimmed_text(items@[0], strs_view(name_fields@))
        }),
{
    if items.len() == 0 {
        None
    } else {
        first_string_field(&items[0], name_fields)
    }
}

/// Whether a status row says its character is online: both members hold
/// text, the id reads as a number and the status is not `0`.
pub open spec fn online_id(item: JsonValue) -> Option<u64> {
    match json_text(json_member(item, "character_id"@)) {
        Some(t) => match parse_u64(t) {
            Some(id) => match json_text(json_member(item, "online_status"@)) {
                Some(status) => if status != "0"@ {
                    Some(id)
                } else {
                    None
                },
                None => None,
            },
            None => None,
        },
        None => None,
    }
}

/// The ids of the online characters among status rows, in row order.
pub open spec fn online_ids(items: Seq<JsonValue>) -> Seq<u64>
    decreases items.len(),
{
    if items.len() == 0 {
        seq![]
    } else {
        let prev = online_ids(items.drop_last());
        match online_id(items.last()) {
            Some(id) => prev.push(id),
            None => prev,
        }
    }
}

/// The characters that status rows report online (the status is the world
/// a character is on, `0` when it is offline); rows that cannot be read are
/// passed over.
pub fn online_character_ids(items: &Vec<JsonValue>) -> (r: Vec<u64>)
    ensures
        r@ == online_ids(items@),
{
    let mut out: Vec<u64> = Vec::new();
    let mut i: usize = 0;
    while i < items.len()
        invariant
            i <= items@.len(),
            out@ == online_ids(items@.take(i as int)),
        decreases items.len() - i,
    {
        assert(items@.take(i + 1).drop_last() =~= items@.take(i as int));
        assert(items@.take(i + 1).last() == items@[i as int]);
        let item = &items[i];
        match member_text(item, "character_id") {
            Some(t) => match parse_u64_str(t) {
                Some(id) => match member_text(item, "online_status") {
                    Some(status) => {
                        if !crate::text::str_eq(status, "0") {
                            out.push(id);
                        }
                    },
                    None => {},
                },
                None => {},
            },
            None => {},
        }
        i = i + 1;
    }
    assert(items@.take(i as int) =~= items@);
    out
}

// ---------------------------------------------------------------------
// Sorting reference lists
// ---------------------------------------------------------------------

/// Where `x` goes among the sorted `s`: before the first element that sorts
/// after it, so that equal elements keep their order.
pub open spec fn insert_position<T>(s: Seq<T>, x: T, after: spec_fn(T, T) -> bool) -> int
    decreases s.len(),
{
    if s.len() == 0 {
        0
    } else if after(s[0], x) {
        0
    } else {
        1 + insert_position(s.drop_first(), x, after)
    }
}

/// `s` in the order `after` gives, equal elements in their first order: what
/// a stable sort such as `slice::sort_by` produces.
pub open spec fn stable_sorted<T>(s: Seq<T>, after: spec_fn(T, T) -> bool) -> Seq<T>
    decreases s.len(),
{
    if s.len() == 0 {
        s
    } else {
        let sorted = stable_sorted(s.drop_last(), after);
        sorted.insert(insert_position(sorted, s.last(), after), s.last())
    }
}

/// `s` without the elements that `same` matches with the element kept just
/// before them: what `Vec::dedup_by` leaves.
pub open spec fn deduped<T>(s: Seq<T>, same: spec_fn(T, T) -> bool) -> Seq<T>
    decreases s.len(),
{
    if s.len() == 0 {
        s
    } else {
        let kept = deduped(s.drop_last(), same);
        if kept.len() > 0 && same(s.last(), kept.last()) {
            kept
        } else {
            kept.push(s.last())
        }
    }
}

/// The insertion point is the first position whose element sorts after `x`.
pub proof fn lemma_insert_position<T>(s: Seq<T>, x: T, after: spec_fn(T, T) -> bool, j: int)
    requires
        0 <= j <= s.len(),
        forall|k: int| 0 <= k < j ==> !after(#[trigger] s[k], x),
        j == s.len() || after(s[j], x),
    ensures
        insert_position(s, x, after) == j,
    decreases j,
{
    if j > 0 {
        let t = s.drop_first();
        assert forall|k: int| 0 <= k < j - 1 implies !after(#[trigger] t[k], x) by {
            assert(t[k] == s[k + 1]);
        }
        if j < s.len() {
            assert(t[j - 1] == s[j]);
        }
        assert(!after(s[0], x));
        lemma_insert_position(t, x, after, j - 1);
    }
}

/// No element of `s` sorts after a later one.
pub open spec fn sorted_by<T>(s: Seq<T>, after: spec_fn(T, T) -> bool) -> bool {
    forall|i: int, j: int| 0 <= i < j < s.len() ==> !after(#[trigger] s[i], #[trigger] s[j])
}

/// `after` is a strict order: irreflexive and transitive.
pub open spec fn strict_order<T>(after: spec_fn(T, T) -> bool) -> bool {
    &&& forall|a: T| !#[trigger] after(a, a)
    &&& forall|a: T, b: T, c: T| #[trigger] after(a, b) && #[trigger] after(b, c) ==> after(a, c)
}

/// The insertion point lies within `s`, after every element that does not
/// sort after `x`, at one that does unless it is the end.
proof fn lemma_insert_position_facts<T>(s: Seq<T>, x: T, after: spec_fn(T, T) -> bool)
    ensures
        0 <= insert_position(s, x, after) <= s.len(),
        forall|k: int| 0 <= k < insert_position(s, x, after) ==> !after(#[trigger] s[k], x),
        insert_position(s, x, after) < s.len() ==> after(s[insert_position(s, x, after)], x),
    decreases s.len(),
{
    if s.len() > 0 && !after(s[0], x) {
        let t = s.drop_first();
        lemma_insert_position_facts(t, x, after);
        assert forall|k: int| 0 <= k < insert_position(s, x, after) implies !after(#[trigger] s[k], x) by {
            if k > 0 {
                assert(s[k] == t[k - 1]);
            }
        }
        if insert_position(s, x, after) < s.len() {
            assert(s[insert_position(s, x, after)] == t[insert_position(t, x, after)]);
        }
    }
}

/// A stable sort by a strict order gives a sorted sequence.
pub proof fn lemma_stable_sorted_is_sorted<T>(s: Seq<T>, after: spec_fn(T, T) -> bool)
    requires
        strict_order(after),
    ensures
        sorted_by(stable_sorted(s, after), after),
        stable_sorted(s, after).len() == s.len(),
    decreases s.len(),
{
    if s.len() > 0 {
        let sorted = stable_sorted(s.drop_last(), after);
        lemma_stable_sorted_is_sorted(s.drop_last(), after);
        let x = s.last();
        let p = insert_position(sorted, x, after);
        lemma_insert_position_facts(sorted, x, after);
        let r = sorted.insert(p, x);
        assert(r == stable_sorted(s, after));
        assert forall|i: int, j: int| 0 <= i < j < r.len() implies !after(#[trigger] r[i], #[trigger] r[j]) by {
            if j < p {
                assert(r[i] == sorted[i] && r[j] == sorted[j]);
            } else if j == p {
                assert(r[i] == sorted[i] && r[j] == x);
            } else if i < p {
                assert(r[i] == sorted[i] && r[j] == sorted[j - 1]);
            } else if i == p {
                assert(r[i] == x && r[j] == sorted[j - 1]);
                if after(x, sorted[j - 1]) {
                    assert(after(sorted[p], x));
                    assert(after(sorted[p], sorted[j - 1]));
                    if j - 1 == p {
                        assert(!after(sorted[p], sorted[p]));
                    }
                }
            } else {
                assert(r[i] == sorted[i - 1] && r[j] == sorted[j - 1]);
            }
        }
    }
}

/// What `deduped` keeps comes from `s` in order, no two neighbours match,
/// and a sorted sequence stays sorted.
pub proof fn lemma_deduped_facts<T>(s: Seq<T>, same: spec_fn(T, T) -> bool, after: spec_fn(T, T) -> bool)
    ensures
        forall|i: int| 0 <= i < deduped(s, same).len() ==> exists|k: int| 0 <= k < s.len() && #[trigger] deduped(s, same)[i] == s[k],
        forall|i: int| 0 < i < deduped(s, same).len() ==> !same(#[trigger] deduped(s, same)[i], deduped(s, same)[i - 1]),
        sorted_by(s, after) ==> sorted_by(deduped(s, same), after),
    decreases s.len(),
{
    if s.len() > 0 {
        let prev = s.drop_last();
        let kept = deduped(prev, same);
        lemma_deduped_facts(prev, same, after);
        let r = deduped(s, same);
        assert forall|i: int| 0 <= i < r.len() implies exists|k: int| 0 <= k < s.len() && #[trigger] r[i] == s[k] by {
            if i < kept.len() {
                assert(r[i] == kept[i]);
                let k = choose|k: int| 0 <= k < prev.len() && kept[i] == prev[k];
                assert(prev[k] == s[k]);
            } else {
                assert(r[i] == s[s.len() - 1]);
            }
        }
        if sorted_by(s, after) {
            assert(sorted_by(prev, after)) by {
                assert forall|i: int, j: int| 0 <= i < j < prev.len() implies !after(#[trigger] prev[i], #[trigger] prev[j]) by {
                    assert(prev[i] == s[i] && prev[j] == s[j]);
                }
            }
            assert forall|i: int, j: int| 0 <= i < j < r.len() implies !after(#[trigger] r[i], #[trigger] r[j]) by {
                if j < kept.len() {
                    assert(r[i] == kept[i] && r[j] == kept[j]);
                } else {
                    assert(r[i] == kept[i]);
                    assert(r[j] == s.last());
                    let k = choose|k: int| 0 <= k < prev.len() && kept[i] == prev[k];
                    assert(prev[k] == s[k]);
                    assert(s.last() == s[s.len() - 1]);
                }
            }
        }
    }
}

/// A lookup result as plain values.
pub struct LookupView {
    pub id: i64,
    pub display_name: Seq<char>,
    pub world_id: Option<u32>,
    pub faction_id: Option<u32>,
}

pub open spec fn lookup_view(r: CensusLookupResult) -> LookupView {
    LookupView { id: r.id, display_name: r.display_name@, world_id: r.world_id, faction_id: r.faction_id }
}

pub open spec fn lookups_view(s: Seq<CensusLookupResult>) -> Seq<LookupView> {
    s.map_values(|r: CensusLookupResult| lookup_view(r))
}

/// Whether vehicle `a` sorts after vehicle `b`: by lower-cased name, then by
/// id.
pub open spec fn vehicle_after(a: LookupView, b: LookupView) -> bool {
    let la = unicode_lowercase(a.display_name);
    let lb = unicode_lowercase(b.display_name);
    text_lt(lb, la) || (la == lb && a.id > b.id)
}

/// Whether two references share their id.
pub open spec fn same_vehicle(a: LookupView, b: LookupView) -> bool {
    a.id == b.id
}

/// The vehicle a row describes: its id and the first of its names that
/// holds text; nothing when either is missing.
pub open spec fn vehicle_row(item: JsonValue) -> Option<LookupView> {
    match row_id_outcome(item, "vehicle_id"@) {
        Some(Some(id)) => match first_trimmed_text(item, seq!["name.en"@, "name"@, "description.en"@]) {
            Some(name) => Some(LookupView { id, display_name: name, world_id: None, faction_id: None }),
            None => None,
        },
        _ => None,
    }
}

pub open spec fn vehicle_rows(items: Seq<JsonValue>) -> Seq<LookupView>
    decreases items.len(),
{
    if items.len() == 0 {
        seq![]
    } else {
        let prev = vehicle_rows(items.drop_last());
        match vehicle_row(items.last()) {
            Some(v) => prev.push(v),
            None => prev,
        }
    }
}

/// The vehicle list: the readable rows, sorted by lower-cased name and id,
/// each id once.
pub open spec fn vehicle_list(items: Seq<JsonValue>) -> Seq<LookupView> {
    deduped(
        stable_sorted(vehicle_rows(items), |a: LookupView, b: LookupView| vehicle_after(a, b)),
        |a: LookupView, b: LookupView| same_vehicle(a, b),
    )
}

/// Sorting vehicles by lower-cased name and id is a strict order.
proof fn lemma_vehicle_order_strict()
    ensures
        strict_order(|a: LookupView, b: LookupView| vehicle_after(a, b)),
{
    let f = |a: LookupView, b: LookupView| vehicle_after(a, b);
    assert forall|a: LookupView| !#[trigger] f(a, a) by {
        lemma_text_lt_irrefl(unicode_lowercase(a.display_name));
    }
    assert forall|a: LookupView, b: LookupView, c: LookupView| #[trigger] f(a, b) && #[trigger] f(b, c) implies f(a, c) by {
        let la = unicode_lowercase(a.display_name);
        let lb = unicode_lowercase(b.display_name);
        let lc = unicode_lowercase(c.display_name);
        if text_lt(lb, la) && text_lt(lc, lb) {
            lemma_text_lt_trans(lc, lb, la);
        }
    }
}

/// The vehicle list is sorted by lower-cased name and then id, and no two
/// neighbours in it share an id.
pub proof fn lemma_vehicle_list_sorted(items: Seq<JsonValue>)
    ensures
        sorted_by(vehicle_list(items), |a: LookupView, b: LookupView| vehicle_after(a, b)),
        forall|i: int| 0 < i < vehicle_list(items).len() ==> #[trigger] vehicle_list(items)[i].id != vehicle_list(items)[i - 1].id,
{
    let after = |a: LookupView, b: LookupView| vehicle_after(a, b);
    let same = |a: LookupView, b: LookupView| same_vehicle(a, b);
    lemma_vehicle_order_strict();
    lemma_stable_sorted_is_sorted(vehicle_rows(items), after);
    lemma_deduped_facts(stable_sorted(vehicle_rows(items), after), same, after);
    let r = vehicle_list(items);
    assert forall|i: int| 0 < i < r.len() implies #[trigger] r[i].id != r[i - 1].id by {
        assert(!same(r[i], r[i - 1]));
    }
}

fn vehicle_from_row(item: &JsonValue) -> (r: Option<CensusLookupResult>)
    ensures
        match r {
            Some(x) => vehicle_row(*item) == Some(lookup_view(x)),
            None => vehicle_row(*item) is None,
        },
{
    let id = match member_text(item, "vehicle_id") {
        Some(t) => match parse_i64_text(t) {
            Ok(n) => n,
            Err(_) => return None,
        },
        None => return None,
    };
    let fields: [&str; 3] = ["name.en", "name", "description.en"];
    assert(strs_view(fields@) =~= seq!["name.en"@, "name"@, "description.en"@]);
    match first_string_field(item, &fields) {
        Some(display_name) => Some(CensusLookupResult { id, display_name, world_id: None, faction_id: None }),
        None => None,
    }
}

/// The lower-cased name of a lookup result, as characters.
fn lowered(name: &String) -> (r: Vec<char>)
    ensures
        r@ == unicode_lowercase(name@),
{
    let l = to_lowercase(name.as_str());
    chars_of(l.as_str())
}

fn sort_vehicles(v: Vec<CensusLookupResult>) -> (r: Vec<CensusLookupResult>)
    ensures
        lookups_view(r@) == stable_sorted(lookups_view(v@), |a: LookupView, b: LookupView| vehicle_after(a, b)),
{
    let ghost after = |a: LookupView, b: LookupView| vehicle_after(a, b);
    let ghost all = lookups_view(v@);
    let mut input = v;
    let mut out: Vec<CensusLookupResult> = Vec::new();
    let mut keys: Vec<Vec<char>> = Vec::new();
    let ghost mut k: int = 0;
    assert(all.take(0) =~= seq![]);
    assert(lookups_view(input@) =~= all.skip(0));
    while input.len() > 0
        invariant
            0 <= k <= all.len(),
            lookups_view(input@) == all.skip(k),
            lookups_view(out@) == stable_sorted(all.take(k), after),
            keys@.len() == out@.len(),
            forall|m: int| 0 <= m < out@.len() ==> #[trigger] keys@[m]@ == unicode_lowercase(out@[m].display_name@),
            after == (|a: LookupView, b: LookupView| vehicle_after(a, b)),
        decreases input.len(),
    {
        let x = input.remove(0);
        assert(lookups_view(input@) =~= all.skip(k + 1)) by {
            assert(all.skip(k).drop_first() =~= all.skip(k + 1));
        }
        assert(lookup_view(x) == all[k]) by {
            assert(all.skip(k)[0] == all[k]);
        }
        let lx = lowered(&x.display_name);
        let mut j: usize = 0;
        let mut found = false;
        let ghost sorted = lookups_view(out@);
        while !found && j < out.len()
            invariant
                j <= out@.len(),
                keys@.len() == out@.len(),
                sorted == lookups_view(out@),
                forall|m: int| 0 <= m < out@.len() ==> #[trigger] keys@[m]@ == unicode_lowercase(out@[m].display_name@),
                lx@ == unicode_lowercase(x.display_name@),
                forall|m: int| 0 <= m < j ==> !vehicle_after(#[trigger] sorted[m], lookup_view(x)),
                found ==> j < out@.len() && vehicle_after(sorted[j as int], lookup_view(x)),
            decreases out@.len() - j + (if found { 0int } else { 1int }),
        {
            assert(sorted[j as int] == lookup_view(out@[j as int]));
            let key_j = &keys[j];
            let later = text_less(&lx, key_j) || (chars_eq(key_j, &lx) && out[j].id > x.id);
            if later {
                found = true;
            } else {
                j = j + 1;
            }
        }
        proof {
            lemma_insert_position(sorted, lookup_view(x), after, j as int);
            assert(all.take(k + 1).drop_last() =~= all.take(k));
            assert(all.take(k + 1).last() == all[k]);
        }
        let ghost before = out@;
        out.insert(j, x);
        keys.insert(j, lx);
        proof {
            assert(lookups_view(out@) =~= sorted.insert(j as int, lookup_view(before.insert(j as int, x)[j as int])));
            assert forall|m: int| 0 <= m < out@.len() implies #[trigger] keys@[m]@ == unicode_lowercase(out@[m].display_name@) by {
                if m < j {
                } else if m > j {
                    assert(out@[m] == before[m - 1]);
                }
            }
            k = k + 1;
        }
    }
    assert(all.take(k) =~= all);
    out
}

fn dedup_vehicles(v: Vec<CensusLookupResult>) -> (r: Vec<CensusLookupResult>)
    ensures
        lookups_view(r@) == deduped(lookups_view(v@), |a: LookupView, b: LookupView| same_vehicle(a, b)),
{
    let ghost same = |a: LookupView, b: LookupView| same_vehicle(a, b);
    let ghost all = lookups_view(v@);
    let mut input = v;
    let mut out: Vec<CensusLookupResult> = Vec::new();
    let ghost mut k: int = 0;
    assert(all.take(0) =~= seq![]);
    assert(lookups_view(input@) =~= all.skip(0));
    while input.len() > 0
        invariant
            0 <= k <= all.len(),
            lookups_view(input@) == all.skip(k),
            lookups_view(out@) == deduped(all.take(k), same),
            same == (|a: LookupView, b: LookupView| same_vehicle(a, b)),
        decreases input.len(),
    {
        let x = input.remove(0);
        assert(lookups_view(input@) =~= all.skip(k + 1)) by {
            assert(all.skip(k).drop_first() =~= all.skip(k + 1));
        }
        assert(lookup_view(x) == all[k]) by {
            assert(all.skip(k)[0] == all[k]);
        }
        assert(all.take(k + 1).drop_last() =~= all.take(k));
        assert(all.take(k + 1).last() == all[k]);
        let ghost before = out@;
        let n = out.len();
        if n > 0 && out[n - 1].id == x.id {
            assert(lookups_view(before).last() == lookup_view(before[n - 1]));
        } else {
            out.push(x);
            assert(lookups_view(out@) =~= lookups_view(before).push(lookup_view(x)));
        }
        proof {
            k = k + 1;
        }
    }
    assert(all.take(k) =~= all);
    out
}

/// The vehicles that a reference query's rows list: the readable rows,
/// sorted by lower-cased name and then id, each id kept once.
pub fn vehicle_references_from_items(items: &Vec<JsonValue>) -> (r: Vec<CensusLookupResult>)
    ensures
        lookups_view(r@) == vehicle_list(items@),
{
    let mut parsed: Vec<CensusLookupResult> = Vec::new();
    let mut i: usize = 0;
    while i < items.len()
        invariant
            i <= items@.len(),
            lookups_view(parsed@) == vehicle_rows(items@.take(i as int)),
        decreases items.len() - i,
    {
        assert(items@.take(i + 1).drop_last() =~= items@.take(i as int));
        assert(items@.take(i + 1).last() == items@[i as int]);
        let ghost before = parsed@;
        match vehicle_from_row(&items[i]) {
            Some(x) => {
                parsed.push(x);
                assert(lookups_view(parsed@) =~= lookups_view(before).push(lookup_view(x)));
            },
            None => {},
        }
        i = i + 1;
    }
    assert(items@.take(i as int) =~= items@);
    let sorted = sort_vehicles(parsed);
    dedup_vehicles(sorted)
}

// ---------------------------------------------------------------------
// Weapons
// ---------------------------------------------------------------------

/// A weapon the Census item list names.
#[derive(Debug, PartialEq, Eq)]
pub struct WeaponReference {
    pub item_id: i64,
    pub weapon_id: i64,
    pub display_name: String,
    pub category_label: String,
    pub faction: Option<Faction>,
    pub weapon_group_id: Option<i64>,
}

/// A weapon reference as plain values.
pub struct WeaponView {
    pub item_id: i64,
    pub weapon_id: i64,
    pub display_name: Seq<char>,
    pub category_label: Seq<char>,
    pub faction: Option<Faction>,
    pub weapon_group_id: Option<i64>,
}

pub open spec fn weapon_view(w: WeaponReference) -> WeaponView {
    WeaponView {
        item_id: w.item_id,
        weapon_id: w.weapon_id,
        display_name: w.display_name@,
        category_label: w.category_label@,
        faction: w.faction,
        weapon_group_id: w.weapon_group_id,
    }
}

pub open spec fn weapons_view(s: Seq<WeaponReference>) -> Seq<WeaponView> {
    s.map_values(|w: WeaponReference| weapon_view(w))
}

/// The paths a weapon's name may be found at, in order of preference.
pub open spec fn weapon_name_paths() -> Seq<Seq<char>> {
    seq!["item.name.en"@, "item.name"@, "item.item_name.en"@, "item.item_name"@, "weapon.name.en"@, "weapon.name"@]
}

/// A weapon row's name: the first of its name paths that holds text.
pub open spec fn weapon_name(item: JsonValue) -> Option<Seq<char>> {
    first_trimmed_text(item, weapon_name_paths())
}

/// A row's id in the member `key`, when it holds text that reads as one.
pub open spec fn row_id_value(item: JsonValue, key: Seq<char>) -> Option<i64> {
    match row_id_outcome(item, key) {
        Some(Some(n)) => Some(n),
        _ => None,
    }
}

/// A weapon row's category name, `Other` when it has none.
pub open spec fn weapon_category(item: JsonValue) -> Seq<char> {
    match first_trimmed_text(item, seq!["item.category.name.en"@, "item.category.name"@]) {
        Some(c) => c,
        None => "Other"@,
    }
}

/// A weapon row's faction, where its item's faction number reads as one.
pub open spec fn weapon_faction(item: JsonValue) -> Option<Faction> {
    match text_at(item, "item.faction_id"@) {
        Some(t) => match parse_i16(t) {
            Some(n) => faction_of_number(n as int),
            None => None,
        },
        None => None,
    }
}

/// A weapon row's weapon group, where it reads as a number.
pub open spec fn weapon_group(item: JsonValue) -> Option<i64> {
    match text_at(item, "weapon.weapon_group_id"@) {
        Some(t) => parse_i64(t),
        None => None,
    }
}

/// The weapon a joined item row describes: its item and weapon ids and its
/// name are required; its category defaults to `Other`; its faction and
/// weapon group are read where they can be.
pub open spec fn weapon_row(item: JsonValue) -> Option<WeaponView> {
    match (row_id_value(item, "item_id"@), row_id_value(item, "weapon_id"@), weapon_name(item)) {
        (Some(item_id), Some(weapon_id), Some(name)) => Some(WeaponView {
            item_id,
            weapon_id,
            display_name: name,
            category_label: weapon_category(item),
            faction: weapon_faction(item),
            weapon_group_id: weapon_group(item),
        }),
        _ => None,
    }
}

pub open spec fn weapon_rows(items: Seq<JsonValue>) -> Seq<WeaponView>
    decreases items.len(),
{
    if items.len() == 0 {
        seq![]
    } else {
        let prev = weapon_rows(items.drop_last());
        match weapon_row(items.last()) {
            Some(w) => prev.push(w),
            None => prev,
        }
    }
}

/// Whether weapon `a` sorts after weapon `b`: by lower-cased name, then
/// lower-cased category, weapon id and item id.
pub open spec fn weapon_after(a: WeaponView, b: WeaponView) -> bool {
    let na = unicode_lowercase(a.display_name);
    let nb = unicode_lowercase(b.display_name);
    let ca = unicode_lowercase(a.category_label);
    let cb = unicode_lowercase(b.category_label);
    ||| text_lt(nb, na)
    ||| (na == nb && text_lt(cb, ca))
    ||| (na == nb && ca == cb && a.weapon_id > b.weapon_id)
    ||| (na == nb && ca == cb && a.weapon_id == b.weapon_id && a.item_id > b.item_id)
}

pub open spec fn same_item(a: WeaponView, b: WeaponView) -> bool {
    a.item_id == b.item_id
}

/// The weapon list: the readable rows, sorted, each item once.
pub open spec fn weapon_list(items: Seq<JsonValue>) -> Seq<WeaponView> {
    deduped(
        stable_sorted(weapon_rows(items), |a: WeaponView, b: WeaponView| weapon_after(a, b)),
        |a: WeaponView, b: WeaponView| same_item(a, b),
    )
}

/// The id in the member `key` of a row, when it reads as one.
fn row_id_if_any(item: &JsonValue, key: &str) -> (r: Option<i64>)
    ensures
        r == row_id_value(*item, key@),
{
    match member_text(item, key) {
        Some(t) => match parse_i64_text(t) {
            Ok(n) => Some(n),
            Err(_) => None,
        },
        None => None,
    }
}

fn weapon_name_of(item: &JsonValue) -> (r: Option<String>)
    ensures
        opt_view(r) == weapon_name(*item),
{
    let fields: [&str; 6] = ["item.name.en", "item.name", "item.item_name.en", "item.item_name", "weapon.name.en", "weapon.name"];
    assert(strs_view(fields@) =~= weapon_name_paths());
    first_string_field(item, &fields)
}

fn weapon_category_of(item: &JsonValue) -> (r: String)
    ensures
        r@ == weapon_category(*item),
{
    let fields: [&str; 2] = ["item.category.name.en", "item.category.name"];
    assert(strs_view(fields@) =~= seq!["item.category.name.en"@, "item.category.name"@]);
    match first_string_field(item, &fields) {
        Some(c) => c,
        None => owned("Other"),
    }
}

fn weapon_faction_of(item: &JsonValue) -> (r: Option<Faction>)
    ensures
        r == weapon_faction(*item),
{
    match string_field(item, "item.faction_id") {
        Some(t) => parse_faction(t),
        None => None,
    }
}

fn weapon_group_of(item: &JsonValue) -> (r: Option<i64>)
    ensures
        r == weapon_group(*item),
{
    match string_field(item, "weapon.weapon_group_id") {
        Some(t) => match parse_i64_text(t) {
            Ok(n) => Some(n),
            Err(_) => None,
        },
        None => None,
    }
}

/// The weapon that a joined item row describes, when its ids and name can
/// be read.
pub fn parse_weapon_reference_row(item: &JsonValue) -> (r: Option<WeaponReference>)
    ensures
        match r {
            Some(w) => weapon_row(*item) == Some(weapon_view(w)),
            None => weapon_row(*item) is None,
        },
{
    let item_id = row_id_if_any(item, "item_id");
    let weapon_id = row_id_if_any(item, "weapon_id");
    let display_name = weapon_name_of(item);
    match (item_id, weapon_id, display_name) {
        (Some(item_id), Some(weapon_id), Some(display_name)) => Some(
            WeaponReference {
                item_id,
                weapon_id,
                display_name,
                category_label: weapon_category_of(item),
                faction: weapon_faction_of(item),
                weapon_group_id: weapon_group_of(item),
            },
        ),
        _ => None,
    }
}

/// Sorting weapons by lower-cased name and category, weapon id and item id
/// is a strict order.
proof fn lemma_weapon_order_strict()
    ensures
        strict_order(|a: WeaponView, b: WeaponView| weapon_after(a, b)),
{
    let f = |a: WeaponView, b: WeaponView| weapon_after(a, b);
    assert forall|a: WeaponView| !#[trigger] f(a, a) by {
        lemma_text_lt_irrefl(unicode_lowercase(a.display_name));
        lemma_text_lt_irrefl(unicode_lowercase(a.category_label));
    }
    assert forall|a: WeaponView, b: WeaponView, c: WeaponView| #[trigger] f(a, b) && #[trigger] f(b, c) implies f(a, c) by {
        let na = unicode_lowercase(a.display_name);
        let nb = unicode_lowercase(b.display_name);
        let nc = unicode_lowercase(c.display_name);
        let ca = unicode_lowercase(a.category_label);
        let cb = unicode_lowercase(b.category_label);
        let cc = unicode_lowercase(c.category_label);
        if text_lt(nb, na) && text_lt(nc, nb) {
            lemma_text_lt_trans(nc, nb, na);
        }
        if text_lt(cb, ca) && text_lt(cc, cb) {
            lemma_text_lt_trans(cc, cb, ca);
        }
    }
}

/// The weapon list is sorted by lower-cased name and category, weapon id and
/// item id, and no two neighbours in it share an item id.
pub proof fn lemma_weapon_list_sorted(items: Seq<JsonValue>)
    ensures
        sorted_by(weapon_list(items), |a: WeaponView, b: WeaponView| weapon_after(a, b)),
        forall|i: int| 0 < i < weapon_list(items).len() ==> #[trigger] weapon_list(items)[i].item_id != weapon_list(items)[i - 1].item_id,
{
    let after = |a: WeaponView, b: WeaponView| weapon_after(a, b);
    let same = |a: WeaponView, b: WeaponView| same_item(a, b);
    lemma_weapon_order_strict();
    lemma_stable_sorted_is_sorted(weapon_rows(items), after);
    lemma_deduped_facts(stable_sorted(weapon_rows(items), after), same, after);
    let r = weapon_list(items);
    assert forall|i: int| 0 < i < r.len() implies #[trigger] r[i].item_id != r[i - 1].item_id by {
        assert(!same(r[i], r[i - 1]));
    }
}

/// Whether weapon `a` (its lower-cased name and category given) sorts after
/// weapon `b`.
fn weapon_sorts_after(
    a: &WeaponReference,
    a_name: &Vec<char>,
    a_category: &Vec<char>,
    b: &WeaponReference,
    b_name: &Vec<char>,
    b_category: &Vec<char>,
) -> (r: bool)
    requires
        a_name@ == unicode_lowercase(a.display_name@),
        a_category@ == unicode_lowercase(a.category_label@),
        b_name@ == unicode_lowercase(b.display_name@),
        b_category@ == unicode_lowercase(b.category_label@),
    ensures
        r == weapon_after(weapon_view(*a), weapon_view(*b)),
{
    if text_less(b_name, a_name) {
        return true;
    }
    if !chars_eq(a_name, b_name) {
        return false;
    }
    if text_less(b_category, a_category) {
        return true;
    }
    if !chars_eq(a_category, b_category) {
        return false;
    }
    a.weapon_id > b.weapon_id || (a.weapon_id == b.weapon_id && a.item_id > b.item_id)
}

fn sort_weapons(v: Vec<WeaponReference>) -> (r: Vec<WeaponReference>)
    ensures
        weapons_view(r@) == stable_sorted(weapons_view(v@), |a: WeaponView, b: WeaponView| weapon_after(a, b)),
{
    let ghost after = |a: WeaponView, b: WeaponView| weapon_after(a, b);
    let ghost all = weapons_view(v@);
    let mut input = v;
    let mut out: Vec<WeaponReference> = Vec::new();
    let mut names: Vec<Vec<char>> = Vec::new();
    let mut categories: Vec<Vec<char>> = Vec::new();
    let ghost mut k: int = 0;
    assert(all.take(0) =~= seq![]);
    assert(weapons_view(input@) =~= all.skip(0));
    while input.len() > 0
        invariant
            0 <= k <= all.len(),
            weapons_view(input@) == all.skip(k),
            weapons_view(out@) == stable_sorted(all.take(k), after),
            names@.len() == out@.len(),
            categories@.len() == out@.len(),
            forall|m: int| 0 <= m < out@.len() ==> #[trigger] names@[m]@ == unicode_lowercase(out@[m].display_name@),
            forall|m: int| 0 <= m < out@.len() ==> #[trigger] categories@[m]@ == unicode_lowercase(out@[m].category_label@),
            after == (|a: WeaponView, b: WeaponView| weapon_after(a, b)),
        decreases input.len(),
    {
        let x = input.remove(0);
        assert(weapons_view(input@) =~= all.skip(k + 1)) by {
            assert(all.skip(k).drop_first() =~= all.skip(k + 1));
        }
        assert(weapon_view(x) == all[k]) by {
            assert(all.skip(k)[0] == all[k]);
        }
        let xn = lowered(&x.display_name);
        let xc = lowered(&x.category_label);
        let mut j: usize = 0;
        let mut found = false;
        let ghost sorted = weapons_view(out@);
        while !found && j < out.len()
            invariant
                j <= out@.len(),
                names@.len() == out@.len(),
                categories@.len() == out@.len(),
                sorted == weapons_view(out@),
                forall|m: int| 0 <= m < out@.len() ==> #[trigger] names@[m]@ == unicode_lowercase(out@[m].display_name@),
                forall|m: int| 0 <= m < out@.len() ==> #[trigger] categories@[m]@ == unicode_lowercase(out@[m].category_label@),
                xn@ == unicode_lowercase(x.display_name@),
                xc@ == unicode_lowercase(x.category_label@),
                forall|m: int| 0 <= m < j ==> !weapon_after(#[trigger] sorted[m], weapon_view(x)),
                found ==> j < out@.len() && weapon_after(sorted[j as int], weapon_view(x)),
            decreases out@.len() - j + (if found { 0int } else { 1int }),
        {
            assert(sorted[j as int] == weapon_view(out@[j as int]));
            assert(names@[j as int]@ == unicode_lowercase(out@[j as int].display_name@));
            assert(categories@[j as int]@ == unicode_lowercase(out@[j as int].category_label@));
            if weapon_sorts_after(&out[j], &names[j], &categories[j], &x, &xn, &xc) {
                found = true;
            } else {
                j = j + 1;
            }
        }
        proof {
            lemma_insert_position(sorted, weapon_view(x), after, j as int);
            assert(all.take(k + 1).drop_last() =~= all.take(k));
            assert(all.take(k + 1).last() == all[k]);
        }
        let ghost before = out@;
        out.insert(j, x);
        names.insert(j, xn);
        categories.insert(j, xc);
        proof {
            assert(weapons_view(out@) =~= sorted.insert(j as int, weapon_view(before.insert(j as int, x)[j as int])));
            assert forall|m: int| 0 <= m < out@.len() implies #[trigger] names@[m]@ == unicode_lowercase(out@[m].display_name@) by {
                if m > j {
                    assert(out@[m] == before[m - 1]);
                }
            }
            assert forall|m: int| 0 <= m < out@.len() implies #[trigger] categories@[m]@ == unicode_lowercase(out@[m].category_label@) by {
                if m > j {
                    assert(out@[m] == before[m - 1]);
                }
            }
            k = k + 1;
        }
    }
    assert(all.take(k) =~= all);
    out
}

fn dedup_weapons(v: Vec<WeaponReference>) -> (r: Vec<WeaponReference>)
    ensures
        weapons_view(r@) == deduped(weapons_view(v@), |a: WeaponView, b: WeaponView| same_item(a, b)),
{
    let ghost same = |a: WeaponView, b: WeaponView| same_item(a, b);
    let ghost all = weapons_view(v@);
    let mut input = v;
    let mut out: Vec<WeaponReference> = Vec::new();
    let ghost mut k: int = 0;
    assert(all.take(0) =~= seq![]);
    assert(weapons_view(input@) =~= all.skip(0));
    while input.len() > 0
        invariant
            0 <= k <= all.len(),
            weapons_view(input@) == all.skip(k),
            weapons_view(out@) == deduped(all.take(k), same),
            same == (|a: WeaponView, b: WeaponView| same_item(a, b)),
        decreases input.len(),
    {
        let x = input.remove(0);
        assert(weapons_view(input@) =~= all.skip(k + 1)) by {
            assert(all.skip(k).drop_first() =~= all.skip(k + 1));
        }
        assert(weapon_view(x) == all[k]) by {
            assert(all.skip(k)[0] == all[k]);
        }
        assert(all.take(k + 1).drop_last() =~= all.take(k));
        assert(all.take(k + 1).last() == all[k]);
        let ghost before = out@;
        let n = out.len();
        if n > 0 && out[n - 1].item_id == x.item_id {
            assert(weapons_view(before).last() == weapon_view(before[n - 1]));
        } else {
            out.push(x);
            assert(weapons_view(out@) =~= weapons_view(before).push(weapon_view(x)));
        }
        proof {
            k = k + 1;
        }
    }
    assert(all.take(k) =~= all);
    out
}

/// The weapons that a joined item-to-weapon response lists: the readable
/// rows of its `item_to_weapon_list`, sorted by lower-cased name and
/// category, weapon id and item id, each item once. An API error when the
/// response has no such list.
pub fn weapon_references_from_response(response: &JsonValue) -> (r: Result<Vec<WeaponReference>, CensusError>)
    ensures
        match json_member(*response, "item_to_weapon_list"@) {
            Some(JsonValue::Array(items)) => r matches Ok(v) && weapons_view(v@) == weapon_list(items@),
            _ => r matches Err(CensusError::Api(m)) && m@ == "missing item_to_weapon_list in weapon reference response"@,
        },
{
    let key = chars_of("item_to_weapon_list");
    let items = match json_get(response, &key) {
        Some(JsonValue::Array(items)) => items,
        _ => return Err(CensusError::Api(owned("missing item_to_weapon_list in weapon reference response"))),
    };
    let mut parsed: Vec<WeaponReference> = Vec::new();
    let mut i: usize = 0;
    while i < items.len()
        invariant
            i <= items@.len(),
            weapons_view(parsed@) == weapon_rows(items@.take(i as int)),
        decreases items.len() - i,
    {
        assert(items@.take(i + 1).drop_last() =~= items@.take(i as int));
        assert(items@.take(i + 1).last() == items@[i as int]);
        let ghost before = parsed@;
        match parse_weapon_reference_row(&items[i]) {
            Some(x) => {
                parsed.push(x);
                assert(weapons_view(parsed@) =~= weapons_view(before).push(weapon_view(x)));
            },
            None => {},
        }
        i = i + 1;
    }
    assert(items@.take(i as int) =~= items@);
    let sorted = sort_weapons(parsed);
    Ok(dedup_weapons(sorted))
}

} // verus!
