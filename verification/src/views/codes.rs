//! View models of the dashboard pages.

use vstd::prelude::*;

use crate::models::Code;
use crate::views::WithLayout;

verus! {

/// The dashboard page: the most recent codes, for a logged-in user.
pub struct IndexPageTemplate {
    pub codes: Vec<Code>,
    pub from_protected: bool,
    pub logged_user: Option<String>,
    pub is_admin: bool,
}

impl WithLayout for IndexPageTemplate {

}

/// The code-list section of the dashboard.
pub struct IndexSectionTemplate {
    pub codes: Vec<Code>,
}

/// One freshly allocated code as the dashboard appends it.
pub struct CodeItemTemplate {
    pub code: Code,
}

} // verus!
