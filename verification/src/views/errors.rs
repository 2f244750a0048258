//! View models of the error pages.

use vstd::prelude::*;

use crate::views::WithLayout;

verus! {

/// The authentication-failure page.
pub struct Error401Template {
    pub reason: String,
    pub from_protected: bool,
    pub is_admin: bool,
}

impl WithLayout for Error401Template {

}

/// The server-failure page.
pub struct Error500Template {
    pub reason: String,
    pub from_protected: bool,
    pub is_admin: bool,
}

impl WithLayout for Error500Template {

}

} // verus!
