//! Rendering and mapping for display: dates, error statuses and texts,
//! and the entity conversions the pages rely on.

use serigen::errors::{
    AddNumberError, CheckUserPasswordError, CreateUserError, DeleteUserError, PasswordChangeError,
    ReadUserError,
};
use serigen::models::{CodeValue, CodeValueEntity, Timestamp, User, UserEntity};

fn instant(day: u64) -> Timestamp {
    Timestamp { year: 2024, month: 1, day, hour: 9, minute: 3, second: 5 }
}

#[test]
fn same_day_renders_time_only() {
    assert_eq!(serigen::models::format_date(instant(6), instant(6)), "09:03:05");
}

#[test]
fn another_day_renders_date_and_time() {
    assert_eq!(serigen::models::format_date(instant(6), instant(7)), "2024-01-06 09:03:05");
}

#[test]
fn add_number_error_statuses() {
    assert_eq!(AddNumberError::ParseSuffixError("V.x".to_string()).status_code(), 400);
    assert_eq!(AddNumberError::DuplicateCode("V.01".to_string()).status_code(), 409);
    assert_eq!(AddNumberError::DbError.status_code(), 500);
    assert_eq!(
        AddNumberError::ParseSuffixError("V.x".to_string()).message(),
        "Failed to parse suffix: V.x"
    );
    assert_eq!(
        AddNumberError::DuplicateCode("V.01".to_string()).message(),
        "Failed to create a new number"
    );
}

#[test]
fn read_user_error_statuses() {
    assert_eq!(ReadUserError::UserNotFound("7".to_string()).status_code(), 404);
    assert_eq!(ReadUserError::DbError.status_code(), 500);
    assert_eq!(
        ReadUserError::UserNotFound("7".to_string()).message(),
        "User with ID: 7 does not exist"
    );
    assert_eq!(
        ReadUserError::UserNotFound("7".to_string()).describe(),
        "User with ID: '7' not found"
    );
}

#[test]
fn credential_error_statuses() {
    assert_eq!(CheckUserPasswordError::NotValid.status_code(), 401);
    assert_eq!(CheckUserPasswordError::NotValid.message(), "User does not exist");
    assert_eq!(CheckUserPasswordError::DbError.status_code(), 500);
}

#[test]
fn password_change_error_statuses() {
    assert_eq!(PasswordChangeError::OldPasswordIsIncorrect.status_code(), 401);
    assert_eq!(PasswordChangeError::PasswordIsSameAsOld.status_code(), 400);
    assert_eq!(PasswordChangeError::PasswordsDontMatch.status_code(), 400);
    assert_eq!(PasswordChangeError::DbError.status_code(), 500);
    assert_eq!(
        PasswordChangeError::PasswordIsSameAsOld.message(),
        "Old and new password cannot be the same"
    );
    assert_eq!(
        PasswordChangeError::PasswordsDontMatch.message(),
        "New password and retype password do not match"
    );
}

#[test]
fn user_management_error_statuses() {
    assert_eq!(DeleteUserError::CantDeleteLastAdmin.status_code(), 400);
    assert_eq!(DeleteUserError::CantDeleteLastAdmin.message(), "Can't delete last admin");
    assert_eq!(DeleteUserError::DbError.status_code(), 500);
    assert_eq!(DeleteUserError::DbError.message(), "Failed to delete user");
    assert_eq!(CreateUserError::CantRead.status_code(), 500);
    assert_eq!(CreateUserError::DbError.status_code(), 500);
    assert_eq!(CreateUserError::CantRead.message(), "Failed to create user");
}

#[test]
fn user_from_entity_reads_the_admin_flag() {
    let entity = UserEntity {
        id: 3,
        name: "Someone".to_string(),
        password: "hash".to_string(),
        is_admin: 1,
    };
    let user = User::from(entity);
    assert_eq!(user.id, 3);
    assert_eq!(user.name, "Someone");
    assert!(user.is_admin);

    let entity = UserEntity {
        id: 4,
        name: "Other".to_string(),
        password: "hash".to_string(),
        is_admin: 0,
    };
    assert!(!User::from(entity).is_admin);
}

#[test]
fn code_value_from_entity_keeps_the_code() {
    let value = CodeValue::from(CodeValueEntity { code: "V20240101.1".to_string() });
    assert_eq!(value.code, "V20240101.1");
}

#[test]
fn code_from_entity_renders_its_instant() {
    let entity = serigen::models::CodeEntity {
        id: 1,
        code: "V20240106.01".to_string(),
        created_at: instant(6),
        user_id: 1,
        user_name: "Admin".to_string(),
    };
    let code = serigen::models::Code::from_entity(entity, instant(6));
    assert_eq!(code.code, "V20240106.01");
    assert_eq!(code.created_at, "09:03:05");
    assert_eq!(code.user_name, "Admin");
}
