//! Error taxonomy: each operation's failures as a distinct outcome,
//! with the HTTP status and text each one maps to.

use vstd::prelude::*;

use vstd::string::StringExecFns;

verus! {

/// Failures of the code sequence engine.
#[derive(Debug, Clone)]
pub enum AddNumberError {
    /// The most recent code under the prefix carries a suffix that is
    /// not a plain decimal number; holds the offending code string.
    ParseSuffixError(String),
    /// The computed code string is already persisted: the race-detection
    /// outcome of two concurrent allocations; holds the candidate code.
    DuplicateCode(String),
    /// Any other failure of the persistence layer.
    DbError,
}

impl AddNumberError {
    /// The HTTP status this failure maps to.
    pub fn status_code(&self) -> (s: u16)
        ensures
            s == match self {
                AddNumberError::ParseSuffixError(_) => 400u16,
                AddNumberError::DuplicateCode(_) => 409u16,
                AddNumberError::DbError => 500u16,
            },
    {
        match self {
            AddNumberError::ParseSuffixError(_) => 400,
            AddNumberError::DuplicateCode(_) => 409,
            AddNumberError::DbError => 500,
        }
    }

    /// The body text this failure maps to.
    pub fn message(&self) -> (m: String)
        ensures
            m@ == match self {
                AddNumberError::ParseSuffixError(msg) => "Failed to parse suffix: "@ + msg@,
                AddNumberError::DuplicateCode(_) => "Failed to create a new number"@,
                AddNumberError::DbError => "Error communicating with database"@,
            },
    {
        match self {
            AddNumberError::ParseSuffixError(msg) => {
                let mut m = String::from_str("Failed to parse suffix: ");
                m.append(msg.as_str());
                m
            },
            AddNumberError::DuplicateCode(_) => String::from_str("Failed to create a new number"),
            AddNumberError::DbError => String::from_str("Error communicating with database"),
        }
    }
}

/// Failures of looking a user up by id.
#[derive(Debug, Clone)]
pub enum ReadUserError {
    /// No user carries the id; holds the id as it was given.
    UserNotFound(String),
    /// Any other failure of the persistence layer.
    DbError,
}

impl ReadUserError {
    /// The HTTP status this failure maps to.
    pub fn status_code(&self) -> (s: u16)
        ensures
            s == match self {
                ReadUserError::UserNotFound(_) => 404u16,
                ReadUserError::DbError => 500u16,
            },
    {
        match self {
            ReadUserError::UserNotFound(_) => 404,
            ReadUserError::DbError => 500,
        }
    }

    /// The body text this failure maps to.
    pub fn message(&self) -> (m: String)
        ensures
            m@ == match self {
                ReadUserError::UserNotFound(id) => "User with ID: "@ + id@ + " does not exist"@,
                ReadUserError::DbError => "Error communicating with database"@,
            },
    {
        match self {
            ReadUserError::UserNotFound(id) => {
                let mut m = String::from_str("User with ID: ");
                m.append(id.as_str());
                m.append(" does not exist");
                m
            },
            ReadUserError::DbError => String::from_str("Error communicating with database"),
        }
    }

    /// This failure described in words, as the rejection reason a page
    /// renders.
    pub fn describe(&self) -> (m: String)
        ensures
            m@ == match self {
                ReadUserError::UserNotFound(id) => "User with ID: '"@ + id@ + "' not found"@,
                ReadUserError::DbError => "Error communicating with database"@,
            },
    {
        match self {
            ReadUserError::UserNotFound(id) => {
                let mut m = String::from_str("User with ID: '");
                m.append(id.as_str());
                m.append("' not found");
                m
            },
            ReadUserError::DbError => String::from_str("Error communicating with database"),
        }
    }
}

/// Failures of checking a name and password pair. A missing user and a
/// wrong password are indistinguishable, on purpose.
#[derive(Debug, Clone)]
pub enum CheckUserPasswordError {
    /// No user of that name carries that password.
    NotValid,
    /// Any other failure of the persistence layer.
    DbError,
}

impl CheckUserPasswordError {
    /// The HTTP status this failure maps to.
    pub fn status_code(&self) -> (s: u16)
        ensures
            s == match self {
                CheckUserPasswordError::NotValid => 401u16,
                CheckUserPasswordError::DbError => 500u16,
            },
    {
        match self {
            CheckUserPasswordError::NotValid => 401,
            CheckUserPasswordError::DbError => 500,
        }
    }

    /// The body text this failure maps to.
    pub fn message(&self) -> (m: String)
        ensures
            m@ == match self {
                CheckUserPasswordError::NotValid => "User does not exist"@,
                CheckUserPasswordError::DbError => "Error communicating with database"@,
            },
    {
        match self {
            CheckUserPasswordError::NotValid => String::from_str("User does not exist"),
            CheckUserPasswordError::DbError => String::from_str(
                "Error communicating with database",
            ),
        }
    }
}

/// Failures of changing a password.
#[derive(Debug, Clone)]
pub enum PasswordChangeError {
    /// The old password handed in does not authenticate the user.
    OldPasswordIsIncorrect,
    /// The new password equals the old one.
    PasswordIsSameAsOld,
    /// The new password and its retyped copy differ.
    PasswordsDontMatch,
    /// Any other failure of the persistence layer.
    DbError,
}

impl PasswordChangeError {
    /// The HTTP status this failure maps to.
    pub fn status_code(&self) -> (s: u16)
        ensures
            s == match self {
                PasswordChangeError::OldPasswordIsIncorrect => 401u16,
                PasswordChangeError::PasswordIsSameAsOld => 400u16,
                PasswordChangeError::PasswordsDontMatch => 400u16,
                PasswordChangeError::DbError => 500u16,
            },
    {
        match self {
            PasswordChangeError::OldPasswordIsIncorrect => 401,
            PasswordChangeError::PasswordIsSameAsOld => 400,
            PasswordChangeError::PasswordsDontMatch => 400,
            PasswordChangeError::DbError => 500,
        }
    }

    /// The body text this failure maps to.
    pub fn message(&self) -> (m: String)
        ensures
            m@ == match self {
                PasswordChangeError::OldPasswordIsIncorrect => "Old password is incorrect"@,
                PasswordChangeError::PasswordIsSameAsOld => "Old and new password cannot be the same"@,
                PasswordChangeError::PasswordsDontMatch => "New password and retype password do not match"@,
                PasswordChangeError::DbError => "Error communicating with database"@,
            },
    {
        match self {
            PasswordChangeError::OldPasswordIsIncorrect => String::from_str(
                "Old password is incorrect",
            ),
            PasswordChangeError::PasswordIsSameAsOld => String::from_str(
                "Old and new password cannot be the same",
            ),
            PasswordChangeError::PasswordsDontMatch => String::from_str(
                "New password and retype password do not match",
            ),
            PasswordChangeError::DbError => String::from_str("Error communicating with database"),
        }
    }
}

/// Failures of deleting a user.
#[derive(Debug, Clone)]
pub enum DeleteUserError {
    /// The target is the only remaining administrator; nothing is
    /// deleted.
    CantDeleteLastAdmin,
    /// Any other failure of the persistence layer.
    DbError,
}

impl DeleteUserError {
    /// The HTTP status this failure maps to.
    pub fn status_code(&self) -> (s: u16)
        ensures
            s == match self {
                DeleteUserError::CantDeleteLastAdmin => 400u16,
                DeleteUserError::DbError => 500u16,
            },
    {
        match self {
            DeleteUserError::CantDeleteLastAdmin => 400,
            DeleteUserError::DbError => 500,
        }
    }

    /// The body text this failure maps to.
    pub fn message(&self) -> (m: String)
        ensures
            m@ == match self {
                DeleteUserError::CantDeleteLastAdmin => "Can't delete last admin"@,
                DeleteUserError::DbError => "Failed to delete user"@,
            },
    {
        match self {
            DeleteUserError::CantDeleteLastAdmin => String::from_str("Can't delete last admin"),
            DeleteUserError::DbError => String::from_str("Failed to delete user"),
        }
    }
}

/// Failures of creating a user.
#[derive(Debug, Clone)]
pub enum CreateUserError {
    /// The freshly inserted row could not be read back.
    CantRead,
    /// Any other failure of the persistence layer, the unique-name
    /// constraint included.
    DbError,
}

impl CreateUserError {
    /// The HTTP status this failure maps to.
    pub fn status_code(&self) -> (s: u16)
        ensures
            s == match self {
                CreateUserError::CantRead => 500u16,
                CreateUserError::DbError => 500u16,
            },
    {
        match self {
            CreateUserError::CantRead => 500,
            CreateUserError::DbError => 500,
        }
    }

    /// The body text this failure maps to.
    pub fn message(&self) -> (m: String)
        ensures
            m@ == match self {
                CreateUserError::CantRead => "Failed to create user"@,
                CreateUserError::DbError => "Failed to create user"@,
            },
    {
        match self {
            CreateUserError::CantRead => String::from_str("Failed to create user"),
            CreateUserError::DbError => String::from_str("Failed to create user"),
        }
    }
}

/// Failures of listing or reading users.
#[derive(Debug, Clone)]
pub enum ReadUsersError {
    /// Any failure of the persistence layer.
    DbError,
}

/// Failures of clearing the code table.
#[derive(Debug, Clone)]
pub enum ResetCodesError {
    /// Any failure of the persistence layer.
    DbError,
}

/// Failures of the login flow beyond a rejected credential pair.
#[derive(Debug, Clone)]
pub enum LoginPostError {
    /// Any failure of the persistence layer.
    DbError,
}

/// Failures of the user-management pages.
#[derive(Debug, Clone)]
pub enum UserManagementError {
    /// Any failure of the persistence layer.
    DbError,
}

} // verus!
