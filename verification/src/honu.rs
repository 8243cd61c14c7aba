//! Honu (wt.honu.pw) character sessions: which session a character is in.
use vstd::prelude::*;
use crate::config::opt_view;
use crate::text::{decimal, owned, push_decimal};

verus! {

/// A play session of a character as Honu reports it; `end` is missing while
/// the session lasts.
#[derive(Debug)]
pub struct Session {
    pub id: i64,
    pub character_id: String,
    pub start: String,
    pub end: Option<String>,
}

/// Why asking Honu failed.
#[derive(Debug)]
pub enum HonuError {
    Request(String),
}

impl HonuError {
    pub fn message(&self) -> (r: String)
        ensures
            match self {
                HonuError::Request(s) => r@ == "Honu API request failed: "@ + s@,
            },
    {
        match self {
            HonuError::Request(s) => {
                let mut r = owned("Honu API request failed: ");
                r.push_str(s.as_str());
                r
            },
        }
    }
}

/// The address of a character's most recent sessions.
pub fn sessions_url(character_id: u64) -> (r: String)
    ensures
        r@ == "https://wt.honu.pw/api/character/"@ + decimal(character_id as nat) + "/sessions"@,
{
    let mut r = owned("https://wt.honu.pw/api/character/");
    push_decimal(&mut r, character_id);
    r.push_str("/sessions");
    r
}

/// The first session that has not ended.
pub open spec fn active_session(sessions: Seq<Session>) -> Option<i64>
    decreases sessions.len(),
{
    if sessions.len() == 0 {
        None
    } else if sessions[0].end is None {
        Some(sessions[0].id)
    } else {
        active_session(sessions.drop_first())
    }
}

/// The session still in progress, if one of `sessions` is.
pub fn active_session_id(sessions: &Vec<Session>) -> (r: Option<i64>)
    ensures
        r == active_session(sessions@),
{
    let mut i: usize = 0;
    assert(sessions@.skip(0) =~= sessions@);
    while i < sessions.len()
        invariant
            i <= sessions.len(),
            active_session(sessions@) == active_session(sessions@.skip(i as int)),
        decreases sessions.len() - i,
    {
        proof {
            let s = sessions@.skip(i as int);
            assert(s[0] == sessions@[i as int]);
            assert(s.drop_first() =~= sessions@.skip(i + 1));
        }
        if sessions[i].end.is_none() {
            return Some(sessions[i].id);
        }
        i = i + 1;
    }
    None
}

} // verus!
