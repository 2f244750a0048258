//! Data model: users, persisted codes, and the view types the pages
//! render, together with date formatting for display.

use vstd::prelude::*;

use crate::text::{chars_to_string, dec_str, push_padded, zero_pad};

verus! {

/// A calendar instant, already broken into civil fields. Only the
/// clock, which lives outside the library, can produce the current one.
#[derive(Clone, Copy, PartialEq, Eq, Structural, Debug)]
pub struct Timestamp {
    pub year: u64,
    pub month: u64,
    pub day: u64,
    pub hour: u64,
    pub minute: u64,
    pub second: u64,
}

/// Whether two instants fall on the same calendar day.
pub open spec fn same_day(a: Timestamp, b: Timestamp) -> bool {
    a.year == b.year && a.month == b.month && a.day == b.day
}

/// A calendar instant folded into one number, mixed-radix from year
/// down to second: for civil field values the order of these numbers
/// is chronological order. Values beyond the civil ranges still get a
/// total order, just not a calendar reading.
pub open spec fn ts_value(t: Timestamp) -> int {
    ((((t.year * 13 + t.month) * 32 + t.day) * 24 + t.hour) * 60 + t.minute) * 60 + t.second
}

/// Whether instant `a` falls at or before instant `b`.
pub open spec fn at_or_before(a: Timestamp, b: Timestamp) -> bool {
    ts_value(a) <= ts_value(b)
}

/// `HH:MM:SS`, each field zero-padded to two digits.
pub open spec fn spec_time_str(t: Timestamp) -> Seq<char> {
    zero_pad(dec_str(t.hour as nat), 2) + seq![':'] + zero_pad(dec_str(t.minute as nat), 2)
        + seq![':'] + zero_pad(dec_str(t.second as nat), 2)
}

/// `YYYY-MM-DD HH:MM:SS`, the year zero-padded to four digits.
pub open spec fn spec_date_time_str(t: Timestamp) -> Seq<char> {
    zero_pad(dec_str(t.year as nat), 4) + seq!['-'] + zero_pad(dec_str(t.month as nat), 2)
        + seq!['-'] + zero_pad(dec_str(t.day as nat), 2) + seq![' '] + spec_time_str(t)
}

/// How a stored instant is rendered: time of day alone when it falls on
/// the current day, the full date and time otherwise.
pub open spec fn spec_format_date(date: Timestamp, today: Timestamp) -> Seq<char> {
    if same_day(date, today) {
        spec_time_str(date)
    } else {
        spec_date_time_str(date)
    }
}

/// Renders a stored instant for display, against the current day.
pub fn format_date(date: Timestamp, today: Timestamp) -> (r: String)
    ensures
        r@ == spec_format_date(date, today),
{
    let mut v: Vec<char> = Vec::new();
    if !(date.year == today.year && date.month == today.month && date.day == today.day) {
        push_padded(&mut v, date.year, 4);
        v.push('-');
        push_padded(&mut v, date.month, 2);
        v.push('-');
        push_padded(&mut v, date.day, 2);
        v.push(' ');
    }
    push_padded(&mut v, date.hour, 2);
    v.push(':');
    push_padded(&mut v, date.minute, 2);
    v.push(':');
    push_padded(&mut v, date.second, 2);
    let r = chars_to_string(&v);
    proof {
        assert(r@ =~= spec_format_date(date, today));
    }
    r
}

/// A row of the user table as the store keeps it: the admin flag is an
/// integer, as the relational store holds it.
#[derive(Debug, Clone)]
pub struct UserEntity {
    pub id: i64,
    pub name: String,
    pub password: String,
    pub is_admin: i64,
}

/// A user as the rest of the system sees one: no password material.
#[derive(Debug, Clone)]
pub struct User {
    pub id: i64,
    pub name: String,
    pub is_admin: bool,
}

impl From<UserEntity> for User {
    fn from(val: UserEntity) -> (r: User) {
        User { id: val.id, name: val.name, is_admin: val.is_admin == 1 }
    }
}

impl vstd::std_specs::convert::FromSpecImpl<UserEntity> for User {
    open spec fn obeys_from_spec() -> bool {
        true
    }

    open spec fn from_spec(val: UserEntity) -> User {
        User { id: val.id, name: val.name, is_admin: val.is_admin == 1 }
    }
}

/// A code row joined with its owning user, as the store hands it out.
#[derive(Debug, Clone)]
pub struct CodeEntity {
    pub id: i64,
    pub code: String,
    pub created_at: Timestamp,
    pub user_id: i64,
    pub user_name: String,
}

/// A code ready for display: the creation instant already rendered.
#[derive(Debug, Clone)]
pub struct Code {
    pub code: String,
    pub created_at: String,
    pub user_name: String,
}

impl Code {
    /// The display form of a joined code row, rendered against the
    /// current day; the clock that supplies `today` lives outside.
    pub fn from_entity(code: CodeEntity, today: Timestamp) -> (r: Code)
        ensures
            r.code@ == code.code@,
            r.created_at@ == spec_format_date(code.created_at, today),
            r.user_name@ == code.user_name@,
    {
        Code {
            code: code.code,
            created_at: format_date(code.created_at, today),
            user_name: code.user_name,
        }
    }
}

/// The bare code string a narrow query returns.
#[derive(Debug, Clone)]
pub struct CodeValueEntity {
    pub code: String,
}

/// The bare code string as the engine reads it back.
#[derive(Debug, Clone)]
pub struct CodeValue {
    pub code: String,
}

impl From<CodeValueEntity> for CodeValue {
    fn from(code: CodeValueEntity) -> (r: CodeValue) {
        CodeValue { code: code.code }
    }
}

impl vstd::std_specs::convert::FromSpecImpl<CodeValueEntity> for CodeValue {
    open spec fn obeys_from_spec() -> bool {
        true
    }

    open spec fn from_spec(code: CodeValueEntity) -> CodeValue {
        CodeValue { code: code.code }
    }
}

} // verus!
