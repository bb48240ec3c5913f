use okra::auth::{
    login, login_at, logout, welcome, Auth, AuthError, AuthFailure, LoginInfo, SqliteAuth,
    AUTH_COOKIE,
};

fn info<'a>(username: &'a str, password: &'a str) -> LoginInfo<'a> {
    LoginInfo { username, password }
}

#[test]
fn enrolls_once_and_logs_in_with_the_right_password() {
    let mut auth = SqliteAuth::new(":memory:");
    assert_eq!(auth.add_user(&info("bob", "x")).unwrap(), true);
    let e = auth.add_user(&info("bob", "y")).unwrap_err();
    assert_eq!(e.kind, AuthFailure::DuplicateUser);
    assert_eq!(e.msg, "cannot add user: bob");
    let e = auth.auth_user(&info("bob", "wrong")).unwrap_err();
    assert_eq!(e.kind, AuthFailure::InvalidCredentials);
    assert!(auth.auth_user(&info("bob", "x")).is_ok());
    let e = auth.auth_user(&info("bob", "y")).unwrap_err();
    assert_eq!(e.kind, AuthFailure::InvalidCredentials);
}

#[test]
fn an_unknown_user_is_told_apart_from_a_wrong_password() {
    let mut auth = SqliteAuth::new(":memory:");
    auth.add_user(&info("bob", "x")).unwrap();
    let e = auth.auth_user_at(&info("alice", "x"), 10).unwrap_err();
    assert_eq!(e.kind, AuthFailure::UnknownUser);
    assert_eq!(e.msg, "no user: alice");
    let e = auth.auth_user_at(&info("bob", "X"), 10).unwrap_err();
    assert_eq!(e.kind, AuthFailure::InvalidCredentials);
    assert_eq!(e.msg, "invalid password");
}

#[test]
fn logging_in_at_a_moment_grants_seven_days() {
    let mut auth = SqliteAuth::new(":memory:");
    auth.add_user(&info("bob", "x")).unwrap();
    assert_eq!(auth.auth_user_at(&info("bob", "x"), 10).unwrap(), "604800010 bob");
    assert_eq!(auth.auth_user_at(&info("bob", "x"), 0).unwrap(), "604800000 bob");
}

#[test]
fn the_password_is_stored_as_a_salted_hash() {
    let mut auth = SqliteAuth::new(":memory:");
    auth.add_user(&info("bob", "secret")).unwrap();
    auth.add_user(&info("carol", "secret")).unwrap();
    let bob = auth.secret("bob").unwrap();
    let carol = auth.secret("carol").unwrap();
    assert_ne!(bob, "secret");
    assert_eq!(bob.len(), 60);
    assert!(bob.starts_with("$2b$12$"));
    assert_ne!(bob, carol);
    assert!(bcrypt::verify("secret", &bob).unwrap());
    assert!(!bcrypt::verify("Secret", &bob).unwrap());
    assert_eq!(auth.secret("dave"), None);
}

#[test]
fn a_stored_hash_is_taken_as_it_is() {
    let mut auth = SqliteAuth::new("data/users.sqlite");
    assert_eq!(auth.path(), "data/users.sqlite");
    let hash = "$2b$04$EGdrhbKUv8Oc9vGiXX0HQOxSg445d458Muh7DAHskb6QbtCvdxcie";
    assert_eq!(auth.add_hashed("ann", hash.to_string()).unwrap(), true);
    assert_eq!(auth.secret("ann").unwrap(), hash);
    let e = auth.add_hashed("ann", hash.to_string()).unwrap_err();
    assert_eq!(e.kind, AuthFailure::DuplicateUser);
    assert_eq!(
        auth.auth_user_at(&info("ann", "correctbatteryhorsestapler"), 1)
            .unwrap(),
        "604800001 ann"
    );
    assert_eq!(
        auth.auth_user_at(&info("ann", "wrong"), 1).unwrap_err().kind,
        AuthFailure::InvalidCredentials
    );
}

#[test]
fn a_stored_secret_that_is_no_hash_cannot_be_checked() {
    let mut auth = SqliteAuth::new(":memory:");
    auth.add_hashed("eve", "plaintext".to_string()).unwrap();
    let e = auth.auth_user_at(&info("eve", "plaintext"), 1).unwrap_err();
    assert_eq!(e.kind, AuthFailure::Hashing);
    assert_eq!(e.msg, "cannot hash for user: eve");
}

#[test]
fn names_are_told_apart_letter_by_letter() {
    let mut auth = SqliteAuth::new(":memory:");
    auth.add_hashed("bob", "a".to_string()).unwrap();
    auth.add_hashed("Bob", "b".to_string()).unwrap();
    auth.add_hashed("bob ", "c".to_string()).unwrap();
    auth.add_hashed("", "d".to_string()).unwrap();
    assert_eq!(auth.secret("bob").unwrap(), "a");
    assert_eq!(auth.secret("Bob").unwrap(), "b");
    assert_eq!(auth.secret("bob ").unwrap(), "c");
    assert_eq!(auth.secret("").unwrap(), "d");
    assert!(auth.add_hashed("", "e".to_string()).is_err());
    assert_eq!(auth.secret("").unwrap(), "d");
}

#[test]
fn a_login_sets_the_cookie_and_greets() {
    let mut auth = SqliteAuth::new(":memory:");
    auth.add_user(&info("bob", "x")).unwrap();
    let w = login_at(&auth, &info("bob", "x"), 7).unwrap();
    assert_eq!(w.cookie, "auth");
    assert_eq!(w.cookie, AUTH_COOKIE);
    assert_eq!(w.token, "604800007 bob");
    assert_eq!(w.greeting, "hello bob");
    assert!(login_at(&auth, &info("bob", "y"), 7).is_none());
    assert!(login_at(&auth, &info("rob", "x"), 7).is_none());
    let w = login(&auth, &info("bob", "x")).unwrap();
    assert_eq!(w.greeting, "hello bob");
    assert_eq!(auth.auth_cookie(&w.token).unwrap(), "bob");
    assert!(login(&auth, &info("bob", "")).is_none());
}

#[test]
fn a_reply_is_made_from_the_outcome() {
    let w = welcome(Ok("9 al".to_string()), "al").unwrap();
    assert_eq!(w.token, "9 al");
    assert_eq!(w.greeting, "hello al");
    assert!(welcome(Err(AuthError::new(AuthFailure::UnknownUser, "al")), "al").is_none());
}

#[test]
fn a_logout_removes_the_cookie_and_says_ok() {
    let f = logout();
    assert_eq!(f.cookie, "auth");
    assert_eq!(f.reply, "OK");
}

#[test]
fn every_failure_has_its_message() {
    assert_eq!(
        AuthError::new(AuthFailure::DuplicateUser, "bob").msg,
        "cannot add user: bob"
    );
    assert_eq!(AuthError::new(AuthFailure::UnknownUser, "bob").msg, "no user: bob");
    assert_eq!(
        AuthError::new(AuthFailure::InvalidCredentials, "bob").msg,
        "invalid password"
    );
    assert_eq!(
        AuthError::new(AuthFailure::Malformed, "abc").msg,
        "invalid auth cookie: 'abc'"
    );
    assert_eq!(
        AuthError::new(AuthFailure::Expired, "1 bob").msg,
        "expired auth cookie: '1 bob'"
    );
    assert_eq!(
        AuthError::new(AuthFailure::Hashing, "bob").msg,
        "cannot hash for user: bob"
    );
    assert_eq!(
        AuthError::new(AuthFailure::Expired, "1 bob").kind,
        AuthFailure::Expired
    );
}
