use direct_chat::auth::{login, login_decision, LoginError};
use direct_chat::models::{Claims, User};

fn account(password: &str) -> User {
    User {
        id: 12,
        username: "ann".to_string(),
        password: bcrypt::hash(password, 4).unwrap(),
        created_at: 0,
    }
}

#[test]
fn decision_without_account() {
    assert_eq!(login_decision(None, true, 100).err(), Some(LoginError::UserNotFound));
}

#[test]
fn decision_with_wrong_password() {
    assert_eq!(login_decision(Some(3), false, 100).err(), Some(LoginError::InvalidPassword));
}

#[test]
fn decision_issues_a_day_long_token() {
    assert_eq!(login_decision(Some(3), true, 100).ok(), Some(Claims { sub: 3, exp: 86_500 }));
    assert_eq!(login_decision(Some(3), true, -5).err(), Some(LoginError::TokenUnavailable));
}

#[test]
fn login_checks_the_hash() {
    let user = Some(account("secret"));
    assert_eq!(login(&user, "secret", 10).ok(), Some(Claims { sub: 12, exp: 86_410 }));
    assert_eq!(login(&user, "wrong", 10).err(), Some(LoginError::InvalidPassword));
}

#[test]
fn login_with_unparsable_hash_fails() {
    let user = Some(User { id: 1, username: "b".to_string(), password: "secret".to_string(), created_at: 0 });
    assert_eq!(login(&user, "secret", 10).err(), Some(LoginError::InvalidPassword));
    assert_eq!(login(&None, "secret", 10).err(), Some(LoginError::UserNotFound));
}

#[test]
fn login_reasons() {
    assert_eq!(LoginError::UserNotFound.reason(), "User not found");
    assert_eq!(LoginError::InvalidPassword.reason(), "Invalid password");
}
