//! Saved sessions: their listing and how their age is told. (The sqlite
//! store runs in the front end.)

use vstd::prelude::*;
use crate::text::{chars_of, count_matches, count_matches_exec, decimal, decimal_exec, push_all, push_str, string_of};

verus! {

/// A saved session as listed.
#[derive(Debug)]
pub struct SessionMeta {
    pub id: i64,
    pub workspace: String,
    pub updated_at: i64,
    pub turns: i64,
}

/// How long ago, in the largest whole unit: seconds under a minute, then
/// minutes, hours, days. (A time in the future counts as now.)
pub open spec fn age_text(d: int) -> Seq<char> {
    let d = if d < 0 { 0 } else { d };
    if d < 60 {
        decimal(d as nat) + "s ago"@
    } else if d < 3600 {
        decimal((d / 60) as nat) + "m ago"@
    } else if d < 86400 {
        decimal((d / 3600) as nat) + "h ago"@
    } else {
        decimal((d / 86400) as nat) + "d ago"@
    }
}

/// How long before `now` a session was saved at `ts` (both Unix seconds).
pub fn ago(now: i64, ts: i64) -> (r: String)
    requires
        i64::MIN <= now - ts <= i64::MAX,
    ensures
        r@ == age_text(now - ts),
{
    let d0 = now - ts;
    let d: i64 = if d0 < 0 { 0 } else { d0 };
    let (n, unit) = if d < 60 {
        (d, "s ago")
    } else if d < 3600 {
        (d / 60, "m ago")
    } else if d < 86400 {
        (d / 3600, "h ago")
    } else {
        (d / 86400, "d ago")
    };
    let mut t = decimal_exec(n as u128);
    push_str(&mut t, unit);
    string_of(&t)
}

/// The pattern that marks a user message in a saved history.
pub open spec fn user_marker() -> Seq<char> {
    "\"role\":\"user\""@
}

/// The number of user turns in a saved history (its JSON text): how often
/// a user role occurs in it.
pub fn user_turns(messages_json: &str) -> (r: i64)
    ensures
        r == #[verifier::truncate] (count_matches(messages_json@, user_marker()) as i64),
{
    let t = chars_of(messages_json);
    let m = chars_of("\"role\":\"user\"");
    proof {
        reveal_strlit("\"role\":\"user\"");
    }
    let n = count_matches_exec(&t, &m);
    #[verifier::truncate]
    (n as i64)
}

} // verus!
