//! The store operations against a fixture: the admin user and ten
//! codes over two daily buckets.

use serigen::errors::{CheckUserPasswordError, DeleteUserError};
use serigen::models::Timestamp;
use serigen::store::Store;

fn at(day: u64, hour: u64, minute: u64) -> Timestamp {
    Timestamp { year: 2024, month: 1, day, hour, minute, second: 0 }
}

fn today() -> Timestamp {
    at(7, 12, 0)
}

/// One admin named Admin with the password "pass", and codes
/// `V20240101.1` to `.3` and `V20240106.1` to `.7`, oldest first.
fn fixture() -> Store {
    let mut store = Store::new();
    let admin =
        serigen::store::create_user(&mut store, "Admin".to_string(), "pass".to_string(), true)
            .unwrap();
    assert_eq!(admin.id, 1);
    for n in 1..4u64 {
        let code = format!("V20240101.{}", n);
        serigen::store::insert_code(&mut store, code, at(1, 8, n), 1).unwrap();
    }
    for n in 1..8u64 {
        let code = format!("V20240106.{}", n);
        serigen::store::insert_code(&mut store, code, at(6, 9, n), 1).unwrap();
    }
    store
}

/// The fixture plus a second, non-administrator user.
fn fixture_extra_users() -> Store {
    let mut store = fixture();
    let user =
        serigen::store::create_user(&mut store, "User".to_string(), "pass".to_string(), false)
            .unwrap();
    assert_eq!(user.id, 2);
    store
}

#[test]
fn read_last_ten() {
    let store = fixture();
    let codes = serigen::store::read_last_ten(&store, today());

    assert_eq!(codes.len(), 10);
}

#[test]
fn read_code() {
    let store = fixture();
    let code = serigen::store::read_code(&store, 1, today());

    assert!(code.is_some());

    assert_eq!(code.unwrap().code, "V20240101.1");

    let code = serigen::store::read_code(&store, 2, today());

    assert!(code.is_some());

    assert_eq!(code.unwrap().code, "V20240101.2");
}

#[test]
fn read_code_neg() {
    let store = fixture();
    let code = serigen::store::read_code(&store, 69, today());

    assert!(code.is_none());
}

#[test]
fn read_latest_today() {
    let store = fixture();
    let code = serigen::store::read_latest_today(&store, "V20240101");

    assert!(code.is_some());

    assert_eq!(code.unwrap().code, "V20240101.3");
}

#[test]
fn read_latest_today_with_spaces() {
    let store = fixture();
    let code = serigen::store::read_latest_today(&store, "V20240106");

    assert!(code.is_some());

    assert_eq!(code.unwrap().code, "V20240106.7");
}

#[test]
fn read_latest_today_neg() {
    let store = fixture();
    let code = serigen::store::read_latest_today(&store, "V20240107");

    assert!(code.is_none());
}

#[test]
fn create_number() {
    let mut store = fixture();
    let now = at(6, 10, 0);
    let code = serigen::store::create_code(&mut store, "V20240106", "1", now).unwrap();

    assert_eq!(code.code, "V20240106.08");
    assert_eq!(code.user_name, "Admin");

    let code = serigen::store::create_code(&mut store, "V20240106", "1", now).unwrap();

    assert_eq!(code.code, "V20240106.09");
    assert_eq!(code.user_name, "Admin");

    let code = serigen::store::create_code(&mut store, "V20240106", "1", now).unwrap();

    assert_eq!(code.code, "V20240106.10");
    assert_eq!(code.user_name, "Admin");

    let code = serigen::store::create_code(&mut store, "V20240106", "1", now).unwrap();

    assert_eq!(code.code, "V20240106.11");
    assert_eq!(code.user_name, "Admin");
}

#[test]
fn read_user_by_id() {
    let store = fixture();
    let user = serigen::store::read_user_by_id(&store, "1");

    assert!(user.is_ok());

    let user = user.unwrap();

    assert_eq!(user.id, 1);
    assert_eq!(user.name, "Admin");
}

#[test]
fn read_user_by_id_neg() {
    let store = fixture();
    let user = serigen::store::read_user_by_id(&store, "69");

    assert!(user.is_err());
}

#[test]
fn check_email_password() {
    let store = fixture();
    let user = serigen::store::check_email_password("Admin".to_string(), "pass".to_string(), &store);

    assert!(user.is_ok());

    let user = user.unwrap();

    assert_eq!(user.id, 1);
    assert_eq!(user.name, "Admin");
}

#[test]
fn check_email_password_neg() {
    let store = fixture();
    let user =
        serigen::store::check_email_password("Admin".to_string(), "pass1".to_string(), &store);

    match user {
        Err(CheckUserPasswordError::NotValid) => assert!(true),
        _ => assert!(false),
    }
}

#[test]
fn change_password() {
    let mut store = fixture();
    let user = serigen::store::change_password(&mut store, 1, "new_pass");

    assert!(user.is_ok());
}

#[test]
fn delete_user() {
    let mut store = fixture_extra_users();
    let user = serigen::store::delete_user(&mut store, 2);

    assert!(user.is_ok());
}

#[test]
fn delete_user_last_admin() {
    let mut store = fixture();
    let user = serigen::store::delete_user(&mut store, 1);

    match user {
        Err(DeleteUserError::CantDeleteLastAdmin) => assert!(true),
        _ => assert!(false),
    }
}

#[test]
fn read_all_users() {
    let store = fixture();
    let users = serigen::store::read_all_users(&store);

    assert!(users.is_ok());

    let users = users.unwrap();

    assert_eq!(users.len(), 1);
}

#[test]
fn create_user() {
    let mut store = fixture();
    let user = serigen::store::create_user(&mut store, "User".to_string(), "pass".to_string(), false);

    assert!(user.is_ok());

    let user = user.unwrap();

    assert_eq!(user.name, "User");
}
