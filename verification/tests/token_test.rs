use okra::auth::{
    auth_cookie, auth_cookie_at, get_auth_str, get_auth_str_at, grant, AuthFailure, AuthKey,
    LoginInfo,
};
use okra::clock::{clamp_millis, count_reading, epoch_millis};
use okra::token::{read_token, session_expiry, write_token, SESSION_MILLIS};

fn bob() -> LoginInfo<'static> {
    LoginInfo {
        username: "bob",
        password: "x",
    }
}

#[test]
fn a_session_lasts_seven_days() {
    assert_eq!(SESSION_MILLIS, 7 * 24 * 60 * 60 * 1000);
    assert_eq!(session_expiry(0), 604_800_000);
    assert_eq!(session_expiry(1_000), 604_801_000);
}

#[test]
fn the_expiry_does_not_wrap_round() {
    assert_eq!(session_expiry(u128::MAX), u128::MAX);
    assert_eq!(session_expiry(u128::MAX - 5), u128::MAX);
    assert_eq!(session_expiry(u128::MAX - 604_800_000), u128::MAX);
    assert_eq!(session_expiry(u128::MAX - 604_800_001), u128::MAX - 1);
}

#[test]
fn writes_expiry_space_name() {
    assert_eq!(write_token(123, "bob"), "123 bob");
    assert_eq!(write_token(0, ""), "0 ");
    assert_eq!(get_auth_str_at(&bob(), 5), "604800005 bob");
}

#[test]
fn reads_the_two_fields() {
    assert_eq!(read_token("123 bob"), Some((123, "bob".to_string())));
    assert_eq!(read_token("+7 alice"), Some((7, "alice".to_string())));
    assert_eq!(read_token("9 "), Some((9, "".to_string())));
}

#[test]
fn the_name_is_all_that_follows_the_first_space() {
    assert_eq!(
        read_token("123 bob smith"),
        Some((123, "bob smith".to_string()))
    );
    assert_eq!(read_token("123  bob"), Some((123, " bob".to_string())));
}

#[test]
fn refuses_what_is_no_token() {
    assert_eq!(read_token("garbage"), None);
    assert_eq!(read_token(""), None);
    assert_eq!(read_token(" bob"), None);
    assert_eq!(read_token("12x bob"), None);
    assert_eq!(read_token("-12 bob"), None);
    assert_eq!(
        read_token("340282366920938463463374607431768211456 bob"),
        None
    );
}

#[test]
fn garbage_is_malformed() {
    let e = auth_cookie_at("garbage", 5).unwrap_err();
    assert_eq!(e.kind, AuthFailure::Malformed);
    assert_eq!(e.msg, "invalid auth cookie: 'garbage'");
    let e = auth_cookie("garbage").unwrap_err();
    assert_eq!(e.kind, AuthFailure::Malformed);
}

#[test]
fn a_past_expiry_is_expired() {
    let e = auth_cookie_at("123 bob", 124).unwrap_err();
    assert_eq!(e.kind, AuthFailure::Expired);
    assert_eq!(e.msg, "expired auth cookie: '123 bob'");
    let e = auth_cookie("123 bob").unwrap_err();
    assert_eq!(e.kind, AuthFailure::Expired);
}

#[test]
fn the_expiry_itself_is_expired() {
    assert_eq!(
        auth_cookie_at("123 bob", 123).unwrap_err().kind,
        AuthFailure::Expired
    );
    assert_eq!(auth_cookie_at("123 bob", 122).unwrap(), "bob");
}

#[test]
fn a_granted_token_names_its_user_until_it_expires() {
    for name in ["bob", "", "bob smith", " x ", "7 8", "ñandú"] {
        let login = LoginInfo {
            username: name,
            password: "x",
        };
        let token = get_auth_str_at(&login, 1_000);
        assert_eq!(auth_cookie_at(&token, 1_000).unwrap(), name);
        assert_eq!(auth_cookie_at(&token, 604_800_999).unwrap(), name);
        assert_eq!(
            auth_cookie_at(&token, 604_801_000).unwrap_err().kind,
            AuthFailure::Expired
        );
        assert_eq!(
            auth_cookie_at(&token, u128::MAX).unwrap_err().kind,
            AuthFailure::Expired
        );
    }
}

#[test]
fn a_token_granted_now_is_valid_now() {
    let token = get_auth_str(&bob());
    assert_eq!(auth_cookie(&token).unwrap(), "bob");
    let (expiry, name) = read_token(&token).unwrap();
    assert_eq!(name, "bob");
    let now = epoch_millis();
    assert!(expiry > now);
    assert!(expiry <= now + SESSION_MILLIS);
}

#[test]
fn a_key_is_the_name_in_a_valid_token() {
    assert_eq!(AuthKey::from_cookie_at("500 carol", 499).unwrap().0, "carol");
    assert_eq!(
        AuthKey::from_cookie_at("500 carol", 500).unwrap_err().kind,
        AuthFailure::Expired
    );
    assert_eq!(
        AuthKey::from_cookie_at("carol", 1).unwrap_err().kind,
        AuthFailure::Malformed
    );
    let token = get_auth_str(&bob());
    assert_eq!(AuthKey::from_cookie(&token).unwrap().0, "bob");
    assert_eq!(
        AuthKey::from_cookie("1 bob").unwrap_err().kind,
        AuthFailure::Expired
    );
}

#[test]
fn the_guard_refuses_under_its_own_messages() {
    let e = AuthKey::from_cookie_at("500 carol", 500).unwrap_err();
    assert_eq!(e.kind, AuthFailure::Expired);
    assert_eq!(e.msg, "Expired");
    let e = AuthKey::from_cookie_at("500 carol", u128::MAX).unwrap_err();
    assert_eq!(e.msg, "Expired");
    for text in ["carol", "", "x9 carol", "-1 carol", " carol"] {
        let e = AuthKey::from_cookie_at(text, 1).unwrap_err();
        assert_eq!(e.kind, AuthFailure::Malformed);
        assert_eq!(e.msg, "InvalidAuth");
    }
    let e = AuthKey::from_cookie("1 bob").unwrap_err();
    assert_eq!(e.kind, AuthFailure::Expired);
    assert_eq!(e.msg, "Expired");
    let e = AuthKey::from_cookie("abc").unwrap_err();
    assert_eq!(e.kind, AuthFailure::Malformed);
    assert_eq!(e.msg, "InvalidAuth");
}

#[test]
fn the_guard_does_not_take_a_malformed_token_for_an_expired_one() {
    let e = AuthKey::from_cookie_at("x 1", u128::MAX).unwrap_err();
    assert_eq!(e.kind, AuthFailure::Malformed);
    assert_eq!(e.msg, "InvalidAuth");
    let e = AuthKey::from_cookie_at("0 bob", 0).unwrap_err();
    assert_eq!(e.kind, AuthFailure::Expired);
    assert_eq!(e.msg, "Expired");
}

#[test]
fn a_password_check_decides_the_grant() {
    assert_eq!(grant(&bob(), Some(true), 5).unwrap(), "604800005 bob");
    let e = grant(&bob(), Some(false), 5).unwrap_err();
    assert_eq!(e.kind, AuthFailure::InvalidCredentials);
    assert_eq!(e.msg, "invalid password");
    let e = grant(&bob(), None, 5).unwrap_err();
    assert_eq!(e.kind, AuthFailure::Hashing);
    assert_eq!(e.msg, "cannot hash for user: bob");
}

#[test]
fn the_clock_reads_a_time_of_this_century() {
    let now = epoch_millis();
    assert!(now > 1_600_000_000_000);
    assert!(now < 4_102_444_800_000);
    let later = epoch_millis();
    assert!(later >= now);
}

#[test]
fn a_reading_before_the_epoch_counts_as_the_epoch() {
    assert_eq!(count_reading(None), 0);
    assert_eq!(count_reading(Some(0)), 0);
    assert_eq!(count_reading(Some(1_700_000_000_000)), 1_700_000_000_000);
    assert_eq!(count_reading(Some(u128::MAX)), u128::MAX);
}

#[test]
fn readings_are_brought_into_range() {
    assert_eq!(clamp_millis(0), 0);
    assert_eq!(clamp_millis(1_700_000_000_000), 1_700_000_000_000);
    assert_eq!(clamp_millis(i64::MAX as u128), i64::MAX);
    assert_eq!(clamp_millis(i64::MAX as u128 + 1), i64::MAX);
    assert_eq!(clamp_millis(u128::MAX), i64::MAX);
}
