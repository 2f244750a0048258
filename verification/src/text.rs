//! Decimal text: rendering numbers as digit strings, parsing digit
//! strings back, and locating the separator inside a code string.

use vstd::prelude::*;

verus! {

/// The character for one decimal digit value.
pub open spec fn digit_char(d: int) -> char {
    if d == 0 {
        '0'
    } else if d == 1 {
        '1'
    } else if d == 2 {
        '2'
    } else if d == 3 {
        '3'
    } else if d == 4 {
        '4'
    } else if d == 5 {
        '5'
    } else if d == 6 {
        '6'
    } else if d == 7 {
        '7'
    } else if d == 8 {
        '8'
    } else {
        '9'
    }
}

/// Decimal rendering of a natural number, most significant digit first,
/// without leading zeros.
pub open spec fn dec_str(n: nat) -> Seq<char>
    decreases n,
{
    if n < 10 {
        seq![digit_char(n as int)]
    } else {
        dec_str(n / 10).push(digit_char((n % 10) as int))
    }
}

/// A digit string left-padded with zeros up to `w` characters.
pub open spec fn zero_pad(s: Seq<char>, w: nat) -> Seq<char> {
    if s.len() >= w {
        s
    } else {
        Seq::new((w - s.len()) as nat, |i: int| '0') + s
    }
}

pub open spec fn is_digit(c: char) -> bool {
    48 <= c as u32 && c as u32 <= 57
}

pub open spec fn digit_val(c: char) -> int {
    c as u32 - 48
}

pub open spec fn all_digits(s: Seq<char>) -> bool {
    forall|i: int| 0 <= i < s.len() ==> is_digit(#[trigger] s[i])
}

/// The number a digit string denotes, most significant digit first.
pub open spec fn dec_val(s: Seq<char>) -> int
    decreases s.len(),
{
    if s.len() == 0 {
        0
    } else {
        dec_val(s.drop_last()) * 10 + digit_val(s.last())
    }
}

/// How the engine reads a decimal segment: digits only, non-empty, and
/// within the signed 64-bit range; anything else is malformed.
pub open spec fn parse_dec(s: Seq<char>) -> Option<int> {
    if s.len() == 0 || !all_digits(s) {
        None
    } else if dec_val(s) <= i64::MAX {
        Some(dec_val(s))
    } else {
        None
    }
}

/// Index of the last separator `.` in `s`, or -1 when there is none.
pub open spec fn last_sep(s: Seq<char>) -> int
    decreases s.len(),
{
    if s.len() == 0 {
        -1
    } else if s.last() == '.' {
        s.len() - 1
    } else {
        last_sep(s.drop_last())
    }
}

pub proof fn lemma_last_sep_range(s: Seq<char>)
    ensures
        -1 <= last_sep(s) < s.len(),
    decreases s.len(),
{
    if s.len() > 0 && s.last() != '.' {
        lemma_last_sep_range(s.drop_last());
    }
}

/// The segment after the last separator: the whole string when no
/// separator occurs, as splitting on `.` and taking the last piece does.
pub open spec fn suffix_part(s: Seq<char>) -> Seq<char> {
    s.subrange(last_sep(s) + 1, s.len() as int)
}

pub open spec fn starts_with(s: Seq<char>, p: Seq<char>) -> bool {
    p.len() <= s.len() && s.subrange(0, p.len() as int) == p
}

fn digit_to_char(d: u64) -> (c: char)
    requires
        d < 10,
    ensures
        c == digit_char(d as int),
{
    match d {
        0 => '0',
        1 => '1',
        2 => '2',
        3 => '3',
        4 => '4',
        5 => '5',
        6 => '6',
        7 => '7',
        8 => '8',
        _ => '9',
    }
}

/// The decimal digits of `n`, most significant first.
pub fn u64_to_dec(n: u64) -> (v: Vec<char>)
    ensures
        v@ == dec_str(n as nat),
    decreases n,
{
    if n < 10 {
        let mut v: Vec<char> = Vec::new();
        v.push(digit_to_char(n));
        proof {
            assert(v@ =~= dec_str(n as nat));
        }
        v
    } else {
        let mut v = u64_to_dec(n / 10);
        v.push(digit_to_char(n % 10));
        proof {
            assert(v@ =~= dec_str(n as nat));
        }
        v
    }
}

/// The decimal digits of `n`, left-padded with zeros to `width`.
pub fn u64_to_dec_padded(n: u64, width: usize) -> (v: Vec<char>)
    ensures
        v@ == zero_pad(dec_str(n as nat), width as nat),
{
    let mut digits = u64_to_dec(n);
    if digits.len() >= width {
        return digits;
    }
    let zeros = width - digits.len();
    let mut v: Vec<char> = Vec::new();
    let mut k: usize = 0;
    while k < zeros
        invariant
            k <= zeros,
            v@ =~= Seq::new(k as nat, |i: int| '0'),
        decreases zeros - k,
    {
        v.push('0');
        k += 1;
        proof {
            assert(v@ =~= Seq::new(k as nat, |i: int| '0'));
        }
    }
    v.append(&mut digits);
    proof {
        assert(v@ =~= zero_pad(dec_str(n as nat), width as nat));
    }
    v
}

/// Appends the zero-padded decimal digits of `n` to `v`.
pub fn push_padded(v: &mut Vec<char>, n: u64, width: usize)
    ensures
        final(v)@ == old(v)@ + zero_pad(dec_str(n as nat), width as nat),
{
    let mut digits = u64_to_dec_padded(n, width);
    v.append(&mut digits);
}

/// Relies on `String: FromIterator<char>`: collecting characters yields
/// the string of exactly those characters in order.
#[verifier::external_body]
pub(crate) fn chars_to_string(v: &Vec<char>) -> (s: String)
    ensures
        s@ == v@,
{
    v.iter().collect()
}

pub proof fn lemma_dec_val_nonneg(s: Seq<char>)
    requires
        all_digits(s),
    ensures
        dec_val(s) >= 0,
    decreases s.len(),
{
    if s.len() > 0 {
        assert(all_digits(s.drop_last())) by {
            assert(forall|i: int|
                0 <= i < s.drop_last().len() ==> #[trigger] s.drop_last()[i] == s[i]);
        }
        lemma_dec_val_nonneg(s.drop_last());
    }
}

/// A digit-string prefix never denotes more than the whole string.
pub proof fn lemma_dec_val_prefix_le(s: Seq<char>, i: int)
    requires
        all_digits(s),
        0 <= i <= s.len(),
    ensures
        dec_val(s.subrange(0, i)) <= dec_val(s),
    decreases s.len() - i,
{
    if i < s.len() {
        lemma_dec_val_prefix_le(s, i + 1);
        let t = s.subrange(0, i + 1);
        assert(t.drop_last() =~= s.subrange(0, i));
        assert(all_digits(s.subrange(0, i))) by {
            assert(forall|j: int|
                0 <= j < i ==> #[trigger] s.subrange(0, i)[j] == s[j]);
        }
        lemma_dec_val_nonneg(s.subrange(0, i));
        assert(dec_val(t) == dec_val(s.subrange(0, i)) * 10 + digit_val(t.last()));
        assert(dec_val(s.subrange(0, i)) * 10 >= dec_val(s.subrange(0, i))) by (nonlinear_arith)
            requires dec_val(s.subrange(0, i)) >= 0;
    } else {
        assert(s.subrange(0, i) =~= s);
    }
}

/// A rendered number consists of digits alone.
pub proof fn lemma_dec_str_all_digits(n: nat)
    ensures
        all_digits(dec_str(n)),
    decreases n,
{
    if n >= 10 {
        lemma_dec_str_all_digits(n / 10);
        let s = dec_str(n / 10).push(digit_char((n % 10) as int));
        assert(forall|i: int|
            0 <= i < s.len() - 1 ==> #[trigger] s[i] == dec_str(n / 10)[i]);
    }
}

/// Rendering a number and reading the digits back returns the number.
pub proof fn lemma_dec_str_round_trip(n: nat)
    ensures
        dec_val(dec_str(n)) == n,
    decreases n,
{
    if n < 10 {
        let s = dec_str(n);
        assert(s.drop_last() =~= Seq::<char>::empty());
        assert(s.last() == digit_char(n as int));
        assert(digit_val(digit_char(n as int)) == n);
        assert(dec_val(s) == dec_val(s.drop_last()) * 10 + digit_val(s.last()));
        assert(dec_val(s.drop_last()) == 0);
    } else {
        lemma_dec_str_round_trip(n / 10);
        let s = dec_str(n);
        assert(s.drop_last() =~= dec_str(n / 10));
        assert(s.last() == digit_char((n % 10) as int));
    }
}

/// A leading zero does not change the number a digit string denotes.
proof fn lemma_dec_val_leading_zero(s: Seq<char>)
    ensures
        dec_val(seq!['0'] + s) == dec_val(s),
    decreases s.len(),
{
    let t = seq!['0'] + s;
    if s.len() == 0 {
        assert(t =~= seq!['0']);
        assert(t.drop_last() =~= Seq::<char>::empty());
        assert(t.last() == '0');
        assert(dec_val(t) == dec_val(t.drop_last()) * 10 + digit_val(t.last()));
    } else {
        lemma_dec_val_leading_zero(s.drop_last());
        assert(t.drop_last() =~= seq!['0'] + s.drop_last());
        assert(t.last() == s.last());
        assert(dec_val(t) == dec_val(t.drop_last()) * 10 + digit_val(t.last()));
        assert(dec_val(s) == dec_val(s.drop_last()) * 10 + digit_val(s.last()));
    }
}

/// Zero-padding changes neither the digits-only shape of a digit
/// string nor the number it denotes.
pub proof fn lemma_zero_pad_val(s: Seq<char>, w: nat)
    requires
        all_digits(s),
    ensures
        all_digits(zero_pad(s, w)),
        dec_val(zero_pad(s, w)) == dec_val(s),
        zero_pad(s, w).len() >= s.len(),
    decreases w,
{
    if s.len() < w {
        let k = (w - s.len()) as nat;
        let padded = Seq::new(k, |i: int| '0') + s;
        if k == 1 {
            assert(padded =~= seq!['0'] + s);
            lemma_dec_val_leading_zero(s);
        } else {
            lemma_zero_pad_val(s, (w - 1) as nat);
            let shorter = Seq::new((k - 1) as nat, |i: int| '0') + s;
            assert(shorter =~= zero_pad(s, (w - 1) as nat));
            assert(padded =~= seq!['0'] + shorter);
            lemma_dec_val_leading_zero(shorter);
        }
        assert(all_digits(padded)) by {
            assert(forall|i: int|
                0 <= i < padded.len() ==> #[trigger] padded[i] == (if i < k {
                    '0'
                } else {
                    s[i - k]
                }));
        }
    }
}

/// Parses a whole string as an engine suffix: digits only, within the
/// signed 64-bit range.
pub fn parse_dec_str(s: &str) -> (r: Option<u64>)
    ensures
        match r {
            Some(v) => parse_dec(s@) == Some(v as int),
            None => parse_dec(s@) is None,
        },
{
    let len = s.unicode_len();
    if len == 0 {
        return None;
    }
    let mut acc: u64 = 0;
    let mut i: usize = 0;
    while i < len
        invariant
            0 < len == s@.len(),
            i <= len,
            all_digits(s@.subrange(0, i as int)),
            acc == dec_val(s@.subrange(0, i as int)),
            acc <= i64::MAX,
        decreases len - i,
    {
        let c = s.get_char(i);
        let u = c as u32;
        if u < 48 || u > 57 {
            proof {
                assert(!is_digit(s@[i as int]));
            }
            return None;
        }
        let d = (u - 48) as u64;
        proof {
            let t = s@.subrange(0, i + 1);
            assert(t.drop_last() =~= s@.subrange(0, i as int));
            assert(t.last() == s@[i as int]);
        }
        if acc > (9223372036854775807u64 - d) / 10 {
            proof {
                let t = s@.subrange(0, i + 1);
                assert(dec_val(t) == acc * 10 + d);
                assert(acc * 10 + d > i64::MAX) by (nonlinear_arith)
                    requires
                        acc > (9223372036854775807u64 - d) / 10,
                        d < 10,
                ;
                if all_digits(s@) {
                    lemma_dec_val_prefix_le(s@, i + 1);
                }
            }
            return None;
        }
        acc = acc * 10 + d;
        i += 1;
    }
    proof {
        assert(s@.subrange(0, len as int) =~= s@);
    }
    Some(acc)
}

/// Finds the last separator `.`, as splitting keeps only what follows it.
pub fn find_last_sep(s: &str) -> (r: Option<usize>)
    ensures
        match r {
            Some(i) => last_sep(s@) == i as int,
            None => last_sep(s@) == -1,
        },
{
    let len = s.unicode_len();
    let mut i = len;
    proof {
        assert(s@.subrange(0, len as int) =~= s@);
    }
    while i > 0
        invariant
            i <= len == s@.len(),
            last_sep(s@) == last_sep(s@.subrange(0, i as int)),
        decreases i,
    {
        let j = i - 1;
        let c = s.get_char(j);
        proof {
            let t = s@.subrange(0, i as int);
            assert(t.last() == s@[j as int]);
            assert(t.drop_last() =~= s@.subrange(0, j as int));
        }
        if c == '.' {
            return Some(j);
        }
        i = j;
    }
    None
}

/// Whether `s` begins with `p`, character for character.
pub fn str_starts_with(s: &str, p: &str) -> (r: bool)
    ensures
        r == starts_with(s@, p@),
{
    let slen = s.unicode_len();
    let plen = p.unicode_len();
    if plen > slen {
        return false;
    }
    let mut i: usize = 0;
    while i < plen
        invariant
            plen <= slen,
            slen == s@.len(),
            plen == p@.len(),
            i <= plen,
            forall|j: int| 0 <= j < i ==> s@[j] == p@[j],
        decreases plen - i,
    {
        if s.get_char(i) != p.get_char(i) {
            proof {
                assert(s@.subrange(0, plen as int)[i as int] != p@[i as int]);
            }
            return false;
        }
        i += 1;
    }
    proof {
        assert(s@.subrange(0, plen as int) =~= p@);
    }
    true
}

} // verus!
