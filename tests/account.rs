use store_lib::account::{Credentials, LoginError, Signup, User, UserError, UserStore};
use store_lib::credential::{hash, verify, CredentialError};
use store_lib::session::SessionStore;

fn signup(email: &str, password: &str, username: &str) -> Signup {
    Signup {
        email: email.to_string(),
        password: password.to_string(),
        username: username.to_string(),
    }
}

fn creds(email: &str, password: &str) -> Credentials {
    Credentials { email: email.to_string(), password: password.to_string() }
}

#[test]
fn password_round_trip_with_fresh_salts() {
    let a = hash("hunter42").unwrap();
    let b = hash("hunter42").unwrap();
    assert_ne!(a, b);
    assert_eq!(verify("hunter42", &a), Ok(true));
    assert_eq!(verify("hunter42", &b), Ok(true));
    assert_eq!(verify("hunter43", &a), Ok(false));
}

#[test]
fn digest_is_an_argon2_phc_string() {
    let d = hash("hunter42").unwrap();
    assert_eq!(d.len(), 97);
    assert!(d.starts_with("$argon2id$v=19$m=19456,t=2,p=1$"));
    assert_ne!(d, "hunter42");
    assert!(hash("").is_ok());
}

#[test]
fn new_user_keeps_only_the_digest() {
    let u = User::new("alice".to_string(), "a@example.com".to_string(), "pw").unwrap();
    assert_eq!(u.username, "alice");
    assert_eq!(u.email, "a@example.com");
    assert_ne!(u.password, "pw");
    assert_eq!(u.authenticate("pw"), Ok(()));
    assert_eq!(u.authenticate("px"), Err(UserError::Unauthorized));
}

#[test]
fn insert_user_refuses_taken_email_and_id() {
    let a = User::new("alice".to_string(), "a@example.com".to_string(), "pw").unwrap();
    let mut users = UserStore::new();
    assert_eq!(users.insert_user(a.clone()), Ok(()));
    assert_eq!(users.insert_user(a.clone()), Err(UserError::DuplicateEmail));
    let mut same_id = a.clone();
    same_id.email = "b@example.com".to_string();
    assert_eq!(users.insert_user(same_id), Err(UserError::IdCollision));
    let mut fresh = a.clone();
    fresh.email = "c@example.com".to_string();
    fresh.id = a.id.wrapping_add(1);
    assert_eq!(users.insert_user(fresh), Ok(()));
    assert_eq!(users.find_by_email("c@example.com").unwrap().id, a.id.wrapping_add(1));
}

#[test]
fn malformed_digest_is_an_error() {
    assert_eq!(verify("hunter42", "not a digest"), Err(CredentialError::HashingFailed));
}

#[test]
fn signup_then_authenticate() {
    let mut users = UserStore::new();
    users.add(signup("a@example.com", "pw-a", "alice")).unwrap();
    users.add(signup("b@example.com", "pw-b", "bob")).unwrap();
    let a = users.authenticate(creds("a@example.com", "pw-a")).unwrap().unwrap();
    assert_eq!(a.username, "alice");
    assert_eq!(a.email, "a@example.com");
    assert_ne!(a.password, "pw-a");
    let r = users.authenticate(creds("b@example.com", "pw-a"));
    assert!(matches!(r, Err(UserError::Unauthorized)));
    let r = users.authenticate(creds("c@example.com", "pw-a"));
    assert!(matches!(r, Err(UserError::NotFound)));
}

#[test]
fn duplicate_email_is_refused() {
    let mut users = UserStore::new();
    users.add(signup("a@example.com", "pw-a", "alice")).unwrap();
    let r = users.add(signup("a@example.com", "other", "mallory"));
    assert_eq!(r, Err(UserError::DuplicateEmail));
    let a = users.find_by_email("a@example.com").unwrap();
    assert_eq!(a.username, "alice");
}

#[test]
fn lookups_by_email_and_id() {
    let mut users = UserStore::new();
    users.add(signup("a@example.com", "pw", "alice")).unwrap();
    let a = users.find_by_email("a@example.com").unwrap();
    let same = users.find_by_id(a.id).unwrap();
    assert_eq!(same.email, "a@example.com");
    assert_eq!(same.session_auth_hash(), a.password);
    assert!(users.find_by_email("z@example.com").is_none());
    assert!(users.find_by_id(a.id.wrapping_add(1)).is_none());
}

#[test]
fn validate_checks_the_digest() {
    let mut users = UserStore::new();
    users.add(signup("a@example.com", "pw", "alice")).unwrap();
    assert_eq!(users.validate("a@example.com".to_string(), "pw".to_string()), Ok(()));
    assert_eq!(
        users.validate("a@example.com".to_string(), "nope".to_string()),
        Err(LoginError::InvalidPassword)
    );
    assert_eq!(
        users.validate("x@example.com".to_string(), "pw".to_string()),
        Err(LoginError::InvalidUsername)
    );
}

#[test]
fn credentials_from_signup() {
    let c: Credentials = signup("a@example.com", "pw", "alice").into();
    assert_eq!(c.email, "a@example.com");
    assert_eq!(c.password, "pw");
}

#[test]
fn logout_invalidates_the_token() {
    let mut users = UserStore::new();
    users.add(signup("a@example.com", "pw", "alice")).unwrap();
    let mut sessions = SessionStore::new();
    let token: u128 = 42;
    assert!(sessions.current_identity(token, &users).is_none());
    let u = sessions.authenticate(token, &users, creds("a@example.com", "pw")).unwrap().unwrap();
    let current = sessions.current_identity(token, &users).unwrap();
    assert_eq!(current.id, u.id);
    assert!(sessions.current_identity(43, &users).is_none());
    sessions.logout(token);
    assert!(sessions.current_identity(token, &users).is_none());
}

#[test]
fn failed_login_binds_nothing() {
    let mut users = UserStore::new();
    users.add(signup("a@example.com", "pw", "alice")).unwrap();
    let mut sessions = SessionStore::new();
    let r = sessions.authenticate(1, &users, creds("a@example.com", "wrong"));
    assert!(matches!(r, Err(UserError::Unauthorized)));
    assert!(sessions.current_identity(1, &users).is_none());
}

#[test]
fn session_of_an_unknown_identity_resolves_to_none() {
    let mut users = UserStore::new();
    users.add(signup("a@example.com", "pw", "alice")).unwrap();
    let alice = users.find_by_email("a@example.com").unwrap();
    let mut sessions = SessionStore::new();
    sessions.login(5, &alice);
    let empty = UserStore::new();
    assert!(sessions.current_identity(5, &empty).is_none());
    assert_eq!(sessions.current_identity(5, &users).unwrap().username, "alice");
}
