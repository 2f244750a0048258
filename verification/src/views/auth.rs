//! View models of the login and password-change pages.

use vstd::prelude::*;

use crate::views::WithLayout;

verus! {

/// The login page.
pub struct LoginPageTemplate {
    pub from_protected: bool,
    pub is_admin: bool,
    pub username: String,
    pub password: String,
    pub error: Option<String>,
}

impl WithLayout for LoginPageTemplate {

}

/// The login form section, re-rendered on a rejected submission.
pub struct LoginSectionTemplate {
    pub username: String,
    pub password: String,
    pub error: Option<String>,
}

/// The password-change page.
pub struct ChangePasswordPageTemplate {
    pub from_protected: bool,
    pub is_admin: bool,
    pub error: Option<String>,
}

impl WithLayout for ChangePasswordPageTemplate {

}

/// The password-change form section, re-rendered on a rejected
/// submission.
pub struct ChangePasswordSectionTemplate {
    pub error: Option<String>,
}

/// The confirmation shown after a password change.
pub struct ChangePasswordSuccessTemplate {
    pub is_admin: bool,
    pub from_protected: bool,
}

impl WithLayout for ChangePasswordSuccessTemplate {

}

} // verus!
