use ping0::auth::{AdminAccount, AdminAuth, AuthError, SALT_LENGTH, TOKEN_LENGTH};
use ping0::digest::hash_with_salt;

#[test]
fn nobody_is_authorized_at_first() {
    let auth = AdminAuth::new();
    assert!(auth.admin_account().is_none());
    assert_eq!(auth.session_count(), 0);
    assert!(!auth.authorize(None));
    assert!(!auth.authorize(Some("")));
    assert!(!auth.authorize(Some("token")));
    assert!(!auth.authenticate("alice", "secret1"));
}

#[test]
fn admin_bootstrap() {
    let mut auth = AdminAuth::new();
    let first = auth.login("alice", "secret1", 100).unwrap();
    let account = auth.admin_account().unwrap();
    assert_eq!(account.username, "alice");
    assert_eq!(account.salt.chars().count(), SALT_LENGTH);
    assert_eq!(account.password_hash, hash_with_salt("secret1", &account.salt));
    assert_ne!(account.password_hash, "secret1");
    let (hash, salt) = (account.password_hash.clone(), account.salt.clone());

    assert_eq!(auth.login("alice", "wrongpass", 101).unwrap_err(), AuthError::InvalidCredentials);
    let account = auth.admin_account().unwrap();
    assert_eq!(account.username, "alice");
    assert_eq!(account.password_hash, hash);
    assert_eq!(account.salt, salt);
    assert_eq!(auth.session_count(), 1);

    let third = auth.login("alice", "secret1", 102).unwrap();
    assert_ne!(first, third);
    assert!(auth.authorize(Some(&first)));
    assert!(auth.authorize(Some(&third)));
    assert_eq!(auth.session_count(), 2);
}

#[test]
fn other_user_cannot_take_over() {
    let mut auth = AdminAuth::new();
    auth.login("alice", "secret1", 1).unwrap();
    assert_eq!(auth.login("bob", "secret1", 2).unwrap_err(), AuthError::InvalidCredentials);
    assert_eq!(auth.login("bob", "hunter2", 2).unwrap_err(), AuthError::InvalidCredentials);
    assert_eq!(auth.login("Alice", "secret1", 2).unwrap_err(), AuthError::InvalidCredentials);
    assert_eq!(auth.login("", "", 2).unwrap_err(), AuthError::InvalidCredentials);
    assert_eq!(auth.admin_account().unwrap().username, "alice");
    assert_eq!(auth.session_count(), 1);
}

#[test]
fn tokens_are_long_and_opaque() {
    let mut auth = AdminAuth::new();
    let token = auth.login("alice", "secret1", 1).unwrap();
    assert_eq!(token.chars().count(), TOKEN_LENGTH);
    assert!(TOKEN_LENGTH >= 48);
    assert!(token.chars().all(|c| c.is_ascii_alphanumeric()));
    assert!(!auth.authorize(Some(&token[..47])));
    assert!(!auth.authorize(Some(&token.to_lowercase())) || token == token.to_lowercase());
}

#[test]
fn login_with_given_salt_and_token() {
    let mut auth = AdminAuth::new();
    assert_eq!(auth.login_with("alice", "secret1", "salt", "tok1", 5), Ok(()));
    let account = auth.admin_account().unwrap();
    assert_eq!(account.username, "alice");
    assert_eq!(account.salt, "salt");
    assert_eq!(account.password_hash, hash_with_salt("secret1", "salt"));
    assert!(auth.authorize(Some("tok1")));
    assert_eq!(
        auth.login_with("alice", "nope", "salt2", "tok2", 6),
        Err(AuthError::InvalidCredentials)
    );
    assert!(!auth.authorize(Some("tok2")));
    assert_eq!(auth.login_with("alice", "secret1", "salt2", "tok2", 7), Ok(()));
    assert_eq!(auth.admin_account().unwrap().salt, "salt");
    assert!(auth.authorize(Some("tok2")));
    assert_eq!(auth.login_with("alice", "secret1", "salt3", "tok2", 8), Ok(()));
    assert_eq!(auth.session_count(), 2);
}

#[test]
fn logout_is_idempotent() {
    let mut auth = AdminAuth::new();
    let a = auth.login("alice", "secret1", 1).unwrap();
    let b = auth.login("alice", "secret1", 2).unwrap();
    auth.logout(Some(&a));
    assert!(!auth.authorize(Some(&a)));
    assert!(auth.authorize(Some(&b)));
    auth.logout(Some(&a));
    auth.logout(Some("never issued"));
    auth.logout(None);
    assert!(auth.authorize(Some(&b)));
    assert_eq!(auth.session_count(), 1);
    auth.logout(Some(&b));
    assert_eq!(auth.session_count(), 0);
    assert!(auth.admin_account().is_some());
    assert!(auth.login("alice", "secret1", 3).is_ok());
}

#[test]
fn restored_account_is_checked_like_a_new_one() {
    let account = AdminAccount {
        username: "alice".to_string(),
        password_hash: hash_with_salt("secret1", "pepper"),
        salt: "pepper".to_string(),
    };
    let mut auth = AdminAuth::with_account(Some(account));
    assert!(auth.authenticate("alice", "secret1"));
    assert!(!auth.authenticate("alice", "secret2"));
    assert!(!auth.authenticate("bob", "secret1"));
    auth.open_session("restored", 9);
    auth.open_session("restored", 10);
    assert_eq!(auth.session_count(), 1);
    assert!(auth.authorize(Some("restored")));
    assert!(AdminAuth::with_account(None).admin_account().is_none());
}

#[test]
fn requests_without_an_open_session_are_refused() {
    let mut auth = AdminAuth::new();
    assert_eq!(auth.check_session(None), Err(AuthError::InvalidSession));
    assert_eq!(auth.check_session(Some("forged")), Err(AuthError::InvalidSession));
    let token = auth.login("alice", "secret1", 1).unwrap();
    assert_eq!(auth.check_session(Some(&token)), Ok(()));
    auth.logout(Some(&token));
    assert_eq!(auth.check_session(Some(&token)), Err(AuthError::InvalidSession));
}
