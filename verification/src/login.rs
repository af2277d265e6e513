//! Answers to login requests.
use vstd::prelude::*;
use vstd::string::*;
use crate::decimal::{nat_digits, u64_to_decimal};
use crate::session::SESSION_LIFETIME_SECS;

verus! {

/// How long a failed login takes in all, in milliseconds: every failure is
/// answered after the same time, whatever failed.
pub const FAILED_LOGIN_MILLIS: i64 = 10000;

/// The wait before answering a failed login that has taken `elapsed_millis`
/// so far: the rest of the fixed time, or nothing.
pub open spec fn failed_login_delay_spec(elapsed_millis: int) -> int {
    if FAILED_LOGIN_MILLIS - elapsed_millis > 0 {
        FAILED_LOGIN_MILLIS - elapsed_millis
    } else {
        0
    }
}

/// How long to wait before answering a failed login that has taken
/// `elapsed_millis` so far: the rest of the fixed time, or nothing.
pub fn failed_login_delay(elapsed_millis: i64) -> (res: u64)
    requires
        elapsed_millis >= FAILED_LOGIN_MILLIS - i64::MAX,
    ensures
        res == failed_login_delay_spec(elapsed_millis as int),
{
    let rest = FAILED_LOGIN_MILLIS - elapsed_millis;
    if rest > 0 {
        rest as u64
    } else {
        0
    }
}

/// Every failed login is answered after the same time: one that took at
/// most the fixed time so far waits exactly for the rest of it, and one
/// that took longer does not wait.
pub proof fn lemma_failed_logins_take_fixed_time(elapsed_millis: int)
    ensures
        0 <= elapsed_millis <= FAILED_LOGIN_MILLIS ==> elapsed_millis + failed_login_delay_spec(elapsed_millis)
            == FAILED_LOGIN_MILLIS,
        elapsed_millis > FAILED_LOGIN_MILLIS ==> failed_login_delay_spec(elapsed_millis) == 0,
        failed_login_delay_spec(elapsed_millis) >= 0,
{
}


/// The `Set-Cookie` value that hands a session id to the browser.
pub open spec fn session_cookie_spec(session_id: Seq<char>) -> Seq<char> {
    "SID="@ + session_id + "; Max-Age="@ + nat_digits(SESSION_LIFETIME_SECS as nat) + "; Path=/; SameSite=Strict"@
}

/// The `Set-Cookie` value for a new session: it lives as long as the session.
pub fn session_cookie(session_id: &str) -> (res: String)
    ensures
        res@ == session_cookie_spec(session_id@),
{
    let mut res = String::from_str("SID=");
    res.append(session_id);
    res.append("; Max-Age=");
    res.append(u64_to_decimal(SESSION_LIFETIME_SECS as u64).as_str());
    res.append("; Path=/; SameSite=Strict");
    res
}

} // verus!
