//! Typed view models: the data each page renders, with no rendering in
//! them — the template engine is an outside collaborator, and the
//! response plumbing around these lives outside the library.

use vstd::prelude::*;

use crate::models::Code;

pub mod admin;
pub mod auth;
pub mod codes;
pub mod errors;

verus! {

/// The dashboard: the most recent codes.
pub struct IndexTemplate {
    pub codes: Vec<Code>,
    pub from_protected: bool,
}

/// The login page.
pub struct LoginTemplate {
    pub from_protected: bool,
}

/// One freshly allocated code.
pub struct NumberTemplate {
    pub code: Code,
}

/// The authentication-failure page.
pub struct Error401Template {
    pub reason: String,
    pub from_protected: bool,
}

/// The login form as a page model carries it.
#[derive(Debug, Clone)]
pub struct LoginUserSchema {
    pub username: String,
    pub password: String,
}

/// Every page wrapped in the shared layout reports the version it was
/// rendered by.
pub trait WithLayout {
    /// The crate version the layout shows.
    fn version(&self) -> &'static str {
        "0.1.0"
    }
}

impl WithLayout for IndexTemplate {

}

impl WithLayout for LoginTemplate {

}

impl WithLayout for Error401Template {

}

} // verus!
