use filebox::login::{failed_login_delay, session_cookie};

#[test]
fn failed_logins_take_ten_seconds() {
    assert_eq!(failed_login_delay(0), 10000);
    assert_eq!(failed_login_delay(2500), 7500);
    assert_eq!(failed_login_delay(10000), 0);
    assert_eq!(failed_login_delay(12000), 0);
}

#[test]
fn the_session_cookie_lives_twelve_hours() {
    assert_eq!(session_cookie("abc"), "SID=abc; Max-Age=43200; Path=/; SameSite=Strict");
}
