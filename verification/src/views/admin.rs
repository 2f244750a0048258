//! View models of the user-management pages.

use vstd::prelude::*;

use crate::models::User;
use crate::views::WithLayout;

verus! {

/// The user-management page: every user, for an administrator.
pub struct UserManagementTemplate {
    pub from_protected: bool,
    pub is_admin: bool,
    pub logged_user: Option<String>,
    pub users: Vec<User>,
}

impl WithLayout for UserManagementTemplate {

}

/// One user row of the management page.
pub struct UserTemplate {
    pub user: User,
}

} // verus!
