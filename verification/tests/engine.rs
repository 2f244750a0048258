//! The code sequence engine: fresh prefixes, the padded suffix scheme,
//! malformed suffixes, the duplicate-detection path, and distinctness
//! of everything persisted.

use serigen::errors::AddNumberError;
use serigen::models::Timestamp;
use serigen::store::Store;

fn noon(day: u64) -> Timestamp {
    Timestamp { year: 2024, month: 1, day, hour: 12, minute: 0, second: 0 }
}

fn store_with_admin() -> Store {
    let mut store = Store::new();
    serigen::store::create_user(&mut store, "Admin".to_string(), "pass".to_string(), true).unwrap();
    store
}

#[test]
fn fresh_prefix_counts_from_one() {
    let mut store = store_with_admin();
    let now = noon(6);
    for expected in ["V20240106.01", "V20240106.02", "V20240106.03", "V20240106.04"] {
        let code = serigen::store::create_code(&mut store, "V20240106", "1", now).unwrap();
        assert_eq!(code.code, expected);
    }
}

#[test]
fn suffix_grows_past_two_digits_unpadded() {
    let mut store = store_with_admin();
    serigen::store::insert_code(&mut store, "V20240106.99".to_string(), noon(6), 1).unwrap();
    let code = serigen::store::create_code(&mut store, "V20240106", "1", noon(6)).unwrap();
    assert_eq!(code.code, "V20240106.100");
}

#[test]
fn unpadded_existing_suffix_is_read_and_padded_onward() {
    let mut store = store_with_admin();
    serigen::store::insert_code(&mut store, "V20240106.7".to_string(), noon(6), 1).unwrap();
    let code = serigen::store::create_code(&mut store, "V20240106", "1", noon(6)).unwrap();
    assert_eq!(code.code, "V20240106.08");
}

#[test]
fn malformed_suffix_is_reported_with_the_code() {
    let mut store = store_with_admin();
    serigen::store::insert_code(&mut store, "V20240106.xy".to_string(), noon(6), 1).unwrap();
    let result = serigen::store::create_code(&mut store, "V20240106", "1", noon(6));
    match result {
        Err(AddNumberError::ParseSuffixError(code)) => assert_eq!(code, "V20240106.xy"),
        _ => assert!(false),
    }
    assert_eq!(store.codes.len(), 1);
}

#[test]
fn racing_suffix_is_reported_as_duplicate() {
    let mut store = store_with_admin();
    serigen::store::insert_code(&mut store, "V20240106.08".to_string(), noon(6), 1).unwrap();
    serigen::store::insert_code(&mut store, "V20240106.7".to_string(), noon(6), 1).unwrap();
    let result = serigen::store::create_code(&mut store, "V20240106", "1", noon(6));
    match result {
        Err(AddNumberError::DuplicateCode(code)) => assert_eq!(code, "V20240106.08"),
        _ => assert!(false),
    }
    assert_eq!(store.codes.len(), 2);
}

#[test]
fn duplicate_insert_leaves_store_unchanged() {
    let mut store = store_with_admin();
    serigen::store::insert_code(&mut store, "V20240106.01".to_string(), noon(6), 1).unwrap();
    let result = serigen::store::insert_code(&mut store, "V20240106.01".to_string(), noon(7), 1);
    match result {
        Err(AddNumberError::DuplicateCode(code)) => assert_eq!(code, "V20240106.01"),
        _ => assert!(false),
    }
    assert_eq!(store.codes.len(), 1);
}

#[test]
fn persisted_codes_stay_distinct() {
    let mut store = store_with_admin();
    for _ in 0..12 {
        serigen::store::create_code(&mut store, "V20240106", "1", noon(6)).unwrap();
    }
    serigen::store::create_code(&mut store, "V20240107", "1", noon(7)).unwrap();
    let mut seen: Vec<String> = Vec::new();
    for row in &store.codes {
        assert!(!seen.contains(&row.code));
        seen.push(row.code.clone());
    }
    assert_eq!(seen.len(), 13);
}

#[test]
fn four_allocations_under_a_fresh_prefix() {
    let mut store = store_with_admin();
    serigen::store::insert_code(&mut store, "V20240101.3".to_string(), noon(1), 1).unwrap();
    let (a, b, c, d) =
        serigen::store::allocate_four_under_fresh_prefix(&mut store, "V20240106", "1", noon(6));
    assert_eq!(a.code, "V20240106.01");
    assert_eq!(b.code, "V20240106.02");
    assert_eq!(c.code, "V20240106.03");
    assert_eq!(d.code, "V20240106.04");
    assert_eq!(store.codes.len(), 5);
}

#[test]
fn prefixes_count_independently() {
    let mut store = store_with_admin();
    let one = serigen::store::create_code(&mut store, "V20240106", "1", noon(6)).unwrap();
    let other = serigen::store::create_code(&mut store, "V20240107", "1", noon(7)).unwrap();
    assert_eq!(one.code, "V20240106.01");
    assert_eq!(other.code, "V20240107.01");
}

#[test]
fn reset_codes_clears_codes_and_keeps_users() {
    let mut store = store_with_admin();
    serigen::store::create_code(&mut store, "V20240106", "1", noon(6)).unwrap();
    assert_eq!(store.codes.len(), 1);
    assert!(serigen::store::reset_codes(&mut store).is_ok());
    assert_eq!(store.codes.len(), 0);
    assert_eq!(store.users.len(), 1);
}

#[test]
fn last_ten_come_newest_first() {
    let mut store = store_with_admin();
    for _ in 0..12 {
        serigen::store::create_code(&mut store, "V20240106", "1", noon(6)).unwrap();
    }
    let listed = serigen::store::read_last_ten(&store, noon(6));
    assert_eq!(listed.len(), 10);
    assert_eq!(listed[0].code, "V20240106.12");
    assert_eq!(listed[9].code, "V20240106.03");
    assert_eq!(listed[0].user_name, "Admin");
}

#[test]
fn code_timestamps_render_against_today() {
    let mut store = store_with_admin();
    serigen::store::create_code(&mut store, "V20240106", "1", noon(6)).unwrap();
    let same_day = serigen::store::read_code(&store, 1, noon(6)).unwrap();
    assert_eq!(same_day.created_at, "12:00:00");
    let later_day = serigen::store::read_code(&store, 1, noon(9)).unwrap();
    assert_eq!(later_day.created_at, "2024-01-06 12:00:00");
}

#[test]
fn date_prefix_pads_the_date() {
    let t = Timestamp { year: 2024, month: 1, day: 6, hour: 0, minute: 0, second: 0 };
    assert_eq!(serigen::sequence::date_prefix(t), "V20240106");
    let t = Timestamp { year: 987, month: 11, day: 30, hour: 0, minute: 0, second: 0 };
    assert_eq!(serigen::sequence::date_prefix(t), "V09871130");
}

#[test]
fn suffixes_parse_as_plain_decimals() {
    assert_eq!(serigen::sequence::parse_code_suffix("V20240106.08"), Some(8));
    assert_eq!(serigen::sequence::parse_code_suffix("V20240106.100"), Some(100));
    assert_eq!(serigen::sequence::parse_code_suffix("no-separator"), None);
    assert_eq!(serigen::sequence::parse_code_suffix("V20240106."), None);
    assert_eq!(serigen::sequence::parse_code_suffix("V20240106.1x"), None);
    assert_eq!(serigen::sequence::parse_code_suffix("a.b.17"), Some(17));
}

#[test]
fn make_code_pads_to_two_digits() {
    assert_eq!(serigen::sequence::make_code("V20240106", 1), "V20240106.01");
    assert_eq!(serigen::sequence::make_code("V20240106", 42), "V20240106.42");
    assert_eq!(serigen::sequence::make_code("V20240106", 100), "V20240106.100");
}
