use filebox::session::{new_session_id, Instant, LoginSessions, Session, SESSION_LIFETIME_SECS};

fn at(secs: i64) -> Instant {
    Instant { secs, nanos: 0 }
}

#[test]
fn a_session_is_found_until_it_expires() {
    let mut sessions = LoginSessions::new();
    let id = sessions.login_at(7, at(1000), "abc".to_string());
    assert_eq!(id, "abc");
    let expected = Session { user_id: 7, login_at: at(1000), expires_at: at(1000 + SESSION_LIFETIME_SECS) };
    assert_eq!(sessions.active_session_at("abc", at(1000)), Some(expected));
    assert_eq!(sessions.active_session_at("abc", Instant { secs: 1000 + SESSION_LIFETIME_SECS - 1, nanos: 999_999_999 }), Some(expected));
    assert_eq!(sessions.active_session_at("abc", at(1000 + SESSION_LIFETIME_SECS)), None);
    assert_eq!(sessions.active_session_at("abc", at(1000)), None);
}

#[test]
fn unknown_ids_find_nothing() {
    let mut sessions = LoginSessions::new();
    sessions.login_at(1, at(0), "x".to_string());
    assert_eq!(sessions.active_session_at("y", at(1)), None);
    assert!(sessions.active_session_at("x", at(1)).is_some());
}

#[test]
fn login_drops_expired_sessions_only() {
    let mut sessions = LoginSessions::new();
    sessions.login_at(1, at(0), "old".to_string());
    sessions.login_at(2, at(100), "recent".to_string());
    sessions.login_at(3, at(SESSION_LIFETIME_SECS + 1), "new".to_string());
    assert_eq!(sessions.active_session_at("old", at(0)), None);
    assert_eq!(sessions.active_session_at("recent", at(SESSION_LIFETIME_SECS + 1)).map(|s| s.user_id), Some(2));
    assert_eq!(sessions.active_session_at("new", at(SESSION_LIFETIME_SECS + 1)).map(|s| s.user_id), Some(3));
}

#[test]
fn bearer_token_comes_before_cookie() {
    let mut sessions = LoginSessions::new();
    sessions.login_at(1, at(0), "token".to_string());
    sessions.login_at(2, at(0), "cookie".to_string());
    assert_eq!(sessions.request_session_at(Some("token"), Some("cookie"), at(1)).map(|s| s.user_id), Some(1));
    assert_eq!(sessions.request_session_at(Some("nope"), Some("cookie"), at(1)).map(|s| s.user_id), Some(2));
    assert_eq!(sessions.request_session_at(None, Some("cookie"), at(1)).map(|s| s.user_id), Some(2));
    assert_eq!(sessions.request_session_at(Some("nope"), None, at(1)), None);
    assert_eq!(sessions.request_session_at(None, None, at(1)), None);
}

#[test]
fn login_now_makes_a_usable_session() {
    let mut sessions = LoginSessions::new();
    let id = sessions.login(42).unwrap();
    assert_eq!(id.len(), 43);
    assert!(id.chars().all(|c| c.is_ascii_alphanumeric() || c == '-' || c == '_'));
    assert_eq!(sessions.active_session(&id).map(|s| s.user_id), Some(42));
    assert_eq!(sessions.request_session(None, Some(&id)).map(|s| s.user_id), Some(42));
    let s = sessions.active_session(&id).unwrap();
    assert_eq!(s.expires_at.secs, s.login_at.secs + 43200);
}

#[test]
fn session_ids_are_fresh() {
    let a = new_session_id();
    let b = new_session_id();
    assert_eq!(a.len(), 43);
    assert_ne!(a, b);
}

#[test]
fn logins_too_close_to_the_end_of_time_are_refused() {
    let max = 8_210_266_876_799i64;
    let mut sessions = LoginSessions::new();
    let late = Instant { secs: max - SESSION_LIFETIME_SECS + 1, nanos: 0 };
    assert_eq!(sessions.login_with(3, late, "x".to_string()), Err(late));
    assert_eq!(sessions.active_session_at("x", at(0)), None);
    let last = Instant { secs: max - SESSION_LIFETIME_SECS, nanos: 999_999_999 };
    assert_eq!(sessions.login_with(3, last, "y".to_string()), Ok("y".to_string()));
    let expected = Session { user_id: 3, login_at: last, expires_at: Instant { secs: max, nanos: 999_999_999 } };
    assert_eq!(sessions.active_session_at("y", last), Some(expected));
}
