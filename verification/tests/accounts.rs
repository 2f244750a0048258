//! User management and the password-change flow, with the admin
//! invariant around deletion.

use serigen::errors::{CreateUserError, DeleteUserError, PasswordChangeError};
use serigen::forms::ChangePasswordSchema;
use serigen::models::User;
use serigen::store::Store;

fn store_with_admin() -> Store {
    let mut store = Store::new();
    serigen::store::create_user(&mut store, "Admin".to_string(), "pass".to_string(), true).unwrap();
    store
}

fn form(old: &str, new: &str, retype: &str) -> ChangePasswordSchema {
    ChangePasswordSchema {
        old_password: old.to_string(),
        new_password: new.to_string(),
        retype_password: retype.to_string(),
    }
}

#[test]
fn duplicate_name_is_refused() {
    let mut store = store_with_admin();
    let result =
        serigen::store::create_user(&mut store, "Admin".to_string(), "other".to_string(), false);
    assert!(matches!(result, Err(CreateUserError::DbError)));
    assert_eq!(store.users.len(), 1);
}

#[test]
fn created_user_can_log_in() {
    let mut store = store_with_admin();
    serigen::store::create_user(&mut store, "User".to_string(), "secret".to_string(), false)
        .unwrap();
    let found =
        serigen::store::check_email_password("User".to_string(), "secret".to_string(), &store)
            .unwrap();
    assert_eq!(found.id, 2);
    assert!(!found.is_admin);
}

#[test]
fn deleting_a_missing_user_changes_nothing() {
    let mut store = store_with_admin();
    assert!(serigen::store::delete_user(&mut store, 69).is_ok());
    assert_eq!(store.users.len(), 1);
}

#[test]
fn delete_removes_exactly_one_row() {
    let mut store = store_with_admin();
    serigen::store::create_user(&mut store, "User".to_string(), "pass".to_string(), false)
        .unwrap();
    assert_eq!(store.users.len(), 2);
    assert!(serigen::store::delete_user(&mut store, 2).is_ok());
    assert_eq!(store.users.len(), 1);
    assert_eq!(store.users[0].name, "Admin");
}

#[test]
fn last_admin_survives_even_among_other_users() {
    let mut store = store_with_admin();
    serigen::store::create_user(&mut store, "User".to_string(), "pass".to_string(), false)
        .unwrap();
    let result = serigen::store::delete_user(&mut store, 1);
    assert!(matches!(result, Err(DeleteUserError::CantDeleteLastAdmin)));
    assert_eq!(store.users.len(), 2);
}

#[test]
fn second_admin_makes_the_first_deletable() {
    let mut store = store_with_admin();
    serigen::store::create_user(&mut store, "Other".to_string(), "pass".to_string(), true)
        .unwrap();
    assert!(serigen::store::delete_user(&mut store, 1).is_ok());
    assert_eq!(store.users.len(), 1);
    assert_eq!(store.users[0].name, "Other");
}

#[test]
fn password_change_requires_the_old_password() {
    let mut store = store_with_admin();
    let user = User { id: 1, name: "Admin".to_string(), is_admin: true };
    let result =
        serigen::store::apply_password_change(&mut store, &user, &form("wrong", "new", "new"));
    assert!(matches!(result, Err(PasswordChangeError::OldPasswordIsIncorrect)));
}

#[test]
fn password_change_rejects_reusing_the_old_password() {
    let mut store = store_with_admin();
    let user = User { id: 1, name: "Admin".to_string(), is_admin: true };
    let result =
        serigen::store::apply_password_change(&mut store, &user, &form("pass", "pass", "pass"));
    assert!(matches!(result, Err(PasswordChangeError::PasswordIsSameAsOld)));
}

#[test]
fn password_change_rejects_a_mismatched_retype() {
    let mut store = store_with_admin();
    let user = User { id: 1, name: "Admin".to_string(), is_admin: true };
    let result =
        serigen::store::apply_password_change(&mut store, &user, &form("pass", "new", "other"));
    assert!(matches!(result, Err(PasswordChangeError::PasswordsDontMatch)));
}

#[test]
fn password_change_takes_effect() {
    let mut store = store_with_admin();
    let user = User { id: 1, name: "Admin".to_string(), is_admin: true };
    serigen::store::apply_password_change(&mut store, &user, &form("pass", "next", "next"))
        .unwrap();
    assert!(
        serigen::store::check_email_password("Admin".to_string(), "pass".to_string(), &store)
            .is_err()
    );
    let found =
        serigen::store::check_email_password("Admin".to_string(), "next".to_string(), &store)
            .unwrap();
    assert_eq!(found.id, 1);
}

#[test]
fn login_form_rejects_empty_fields() {
    let empty_name = serigen::forms::LoginUserSchema {
        username: "".to_string(),
        password: "pass".to_string(),
    };
    assert!(!serigen::forms::validate_login(&empty_name));
    let empty_password = serigen::forms::LoginUserSchema {
        username: "Admin".to_string(),
        password: "".to_string(),
    };
    assert!(!serigen::forms::validate_login(&empty_password));
    let both = serigen::forms::LoginUserSchema {
        username: "Admin".to_string(),
        password: "pass".to_string(),
    };
    assert!(serigen::forms::validate_login(&both));
}
