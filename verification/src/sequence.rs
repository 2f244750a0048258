//! The pure half of the code sequence engine: reading the suffix out of
//! an existing code string, and forming the next code string under a
//! date-derived prefix.

use vstd::prelude::*;

use crate::models::Timestamp;
use crate::text::{
    chars_to_string, dec_str, find_last_sep, parse_dec, parse_dec_str, push_padded, starts_with,
    suffix_part, zero_pad,
};
use vstd::string::StringExecFns;

verus! {

/// The suffix an existing code string carries: the decimal value of the
/// segment after its last separator, or nothing when that segment is
/// not a plain decimal number.
pub open spec fn code_suffix(code: Seq<char>) -> Option<int> {
    parse_dec(suffix_part(code))
}

/// The code string formed for suffix value `n` under `prefix`: the
/// prefix, the separator, and the suffix zero-padded to two digits.
pub open spec fn code_string(prefix: Seq<char>, n: int) -> Seq<char> {
    prefix + seq!['.'] + zero_pad(dec_str(n as nat), 2)
}

/// Reads the suffix out of an existing code string.
pub fn parse_code_suffix(code: &str) -> (r: Option<u64>)
    ensures
        match r {
            Some(v) => code_suffix(code@) == Some(v as int),
            None => code_suffix(code@) is None,
        },
{
    let len = code.unicode_len();
    let seg = match find_last_sep(code) {
        Some(j) => {
            proof {
                crate::text::lemma_last_sep_range(code@);
            }
            code.substring_char(j + 1, len)
        },
        None => {
            proof {
                assert(code@.subrange(0, len as int) =~= code@);
            }
            code.substring_char(0, len)
        },
    };
    proof {
        assert(seg@ == suffix_part(code@));
    }
    parse_dec_str(seg)
}

/// Forms the code string for suffix value `n` under `prefix`.
pub fn make_code(prefix: &str, n: u64) -> (r: String)
    ensures
        r@ == code_string(prefix@, n as int),
{
    let mut digits: Vec<char> = Vec::new();
    push_padded(&mut digits, n, 2);
    let mut r = prefix.to_owned();
    r.append(".");
    r.append(chars_to_string(&digits).as_str());
    proof {
        reveal_strlit(".");
        assert(r@ =~= code_string(prefix@, n as int));
    }
    r
}

/// The separator stands after any digit tail: appending digits does
/// not move the last separator.
proof fn lemma_last_sep_after_digits(s: Seq<char>, t: Seq<char>)
    requires
        crate::text::all_digits(t),
    ensures
        crate::text::last_sep(s + t) == crate::text::last_sep(s),
    decreases t.len(),
{
    if t.len() == 0 {
        assert(s + t =~= s);
    } else {
        assert(crate::text::all_digits(t.drop_last())) by {
            assert(forall|i: int|
                0 <= i < t.drop_last().len() ==> #[trigger] t.drop_last()[i] == t[i]);
        }
        lemma_last_sep_after_digits(s, t.drop_last());
        let u = s + t;
        assert(u.last() == t.last());
        assert(crate::text::is_digit(t.last()));
        assert(u.last() != '.');
        assert(u.drop_last() =~= s + t.drop_last());
    }
}

/// Law: the engine's formatting and reading are inverse. The code
/// string formed for suffix `n` under any prefix starts with that
/// prefix, and reading its suffix back yields exactly `n`.
pub proof fn lemma_code_string_round_trip(prefix: Seq<char>, n: int)
    requires
        0 <= n <= i64::MAX,
    ensures
        starts_with(code_string(prefix, n), prefix),
        code_suffix(code_string(prefix, n)) == Some(n),
{
    let pad = zero_pad(dec_str(n as nat), 2);
    let c = code_string(prefix, n);
    crate::text::lemma_dec_str_all_digits(n as nat);
    crate::text::lemma_dec_str_round_trip(n as nat);
    crate::text::lemma_zero_pad_val(dec_str(n as nat), 2);
    assert(c =~= (prefix + seq!['.']) + pad);
    lemma_last_sep_after_digits(prefix + seq!['.'], pad);
    let head = prefix + seq!['.'];
    assert(head.last() == '.');
    assert(crate::text::last_sep(head) == prefix.len());
    assert(crate::text::last_sep(c) == prefix.len());
    assert(suffix_part(c) =~= pad);
    assert(pad.len() > 0);
    assert(parse_dec(pad) == Some(n));
    assert(c.subrange(0, prefix.len() as int) =~= prefix);
}

/// The date-derived prefix for one daily bucket of codes: `V` and the
/// eight-digit date of `t`.
pub open spec fn spec_date_prefix(t: Timestamp) -> Seq<char> {
    seq!['V'] + zero_pad(dec_str(t.year as nat), 4) + zero_pad(dec_str(t.month as nat), 2)
        + zero_pad(dec_str(t.day as nat), 2)
}

/// Forms the daily prefix for the calendar day of `t`; the clock that
/// supplies `t` lives outside the library.
pub fn date_prefix(t: Timestamp) -> (r: String)
    ensures
        r@ == spec_date_prefix(t),
{
    let mut v: Vec<char> = Vec::new();
    v.push('V');
    push_padded(&mut v, t.year, 4);
    push_padded(&mut v, t.month, 2);
    push_padded(&mut v, t.day, 2);
    let r = chars_to_string(&v);
    proof {
        assert(r@ =~= spec_date_prefix(t));
    }
    r
}

} // verus!
