use api::accounts::{new_account, DbUser};
use api::{AppError, User};

fn account(hash: String) -> DbUser {
    DbUser {
        id: "u1".to_string(),
        username: "karl".to_string(),
        selected_skin_id: Some("s1".to_string()),
        selected_cape_id: None,
        selected_elytra_id: None,
        password_hash: hash,
        created: Some("2024-01-01".to_string()),
    }
}

#[test]
fn new_account_verifies_its_password() {
    let user = User {
        id: "u7".to_string(),
        username: "karl".to_string(),
        selected_cape_id: Some("c".to_string()),
        ..User::default()
    };
    let a = new_account(&user, "geheim");
    assert!(a.password_hash.starts_with("$argon2id$v=19$m=19456,t=2,p=1$"));
    assert_eq!(a.id, "u7");
    assert_eq!(a.username, "karl");
    assert_eq!(a.selected_cape_id.as_deref(), Some("c"));
    assert_eq!(a.verify_password("geheim".to_string()), Ok(()));
    assert_eq!(a.verify_password("falsch".to_string()), Err(AppError::WrongPassword));
    // Two accounts for the same password get different salts.
    let b = new_account(&user, "geheim");
    assert_ne!(a.password_hash, b.password_hash);
    assert_eq!(account(b.password_hash).verify_password("geheim".to_string()), Ok(()));
}

#[test]
fn malformed_hash_is_another_error() {
    let a = account("not a hash".to_string());
    assert!(matches!(a.verify_password("x".to_string()), Err(AppError::Other(_))));
}

#[test]
fn account_becomes_user_without_rights() {
    let u = account("x".to_string()).into_user();
    assert_eq!(u.id, "u1");
    assert_eq!(u.username, "karl");
    assert_eq!(u.selected_skin_id.as_deref(), Some("s1"));
    assert!(u.permissions.is_empty());
    assert_eq!(u.created.as_deref(), Some("2024-01-01"));
}
