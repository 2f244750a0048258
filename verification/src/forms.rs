//! The form payloads the pages submit, and their validation.

use vstd::prelude::*;

use crate::errors::PasswordChangeError;

verus! {

/// The login form.
#[derive(Debug, Clone)]
pub struct LoginUserSchema {
    pub username: String,
    pub password: String,
}

/// The change-password form.
#[derive(Debug, Clone)]
pub struct ChangePasswordSchema {
    pub old_password: String,
    pub new_password: String,
    pub retype_password: String,
}

/// The create-user form.
#[derive(Debug, Clone)]
pub struct CreateUserSchema {
    pub name: String,
    pub password: String,
    pub is_admin: bool,
}

/// The login form check: neither field may be empty.
pub fn validate_login(form: &LoginUserSchema) -> (ok: bool)
    ensures
        ok == (form.username@.len() > 0 && form.password@.len() > 0),
{
    !form.username.as_str().is_empty() && !form.password.as_str().is_empty()
}

/// The password-change checks, in submission order: the old password
/// must have authenticated the user, the new password must differ from
/// the old one, and the retyped copy must match the new one.
pub fn validate_password_change(old_password_valid: bool, form: &ChangePasswordSchema) -> (r:
    Result<(), PasswordChangeError>)
    ensures
        match r {
            Ok(_) => old_password_valid && form.old_password@ != form.new_password@
                && form.new_password@ == form.retype_password@,
            Err(e) => match e {
                PasswordChangeError::OldPasswordIsIncorrect => !old_password_valid,
                PasswordChangeError::PasswordIsSameAsOld => old_password_valid
                    && form.old_password@ == form.new_password@,
                PasswordChangeError::PasswordsDontMatch => old_password_valid
                    && form.old_password@ != form.new_password@ && form.new_password@
                    != form.retype_password@,
                PasswordChangeError::DbError => false,
            },
        },
{
    if !old_password_valid {
        return Err(PasswordChangeError::OldPasswordIsIncorrect);
    }
    if form.old_password == form.new_password {
        return Err(PasswordChangeError::PasswordIsSameAsOld);
    }
    if !(form.new_password == form.retype_password) {
        return Err(PasswordChangeError::PasswordsDontMatch);
    }
    Ok(())
}

} // verus!
