//! Decimal and boolean string codecs.
//!
//! The target configuration format stores numbers and booleans as decimal
//! text and as the literals `"true"` / `"false"`. This module defines the
//! encodings as spec functions, implements them, and proves that the
//! matching parsers invert them.

use vstd::prelude::*;

verus! {

/// Character for one decimal digit value.
pub open spec fn digit_char(d: nat) -> char
    recommends
        d < 10,
{
    if d == 0 {
        '0'
    } else if d == 1 {
        '1'
    } else if d == 2 {
        '2'
    } else if d == 3 {
        '3'
    } else if d == 4 {
        '4'
    } else if d == 5 {
        '5'
    } else if d == 6 {
        '6'
    } else if d == 7 {
        '7'
    } else if d == 8 {
        '8'
    } else {
        '9'
    }
}

/// Decimal digit sequence of `n`, most significant digit first, as produced
/// by rendering `n` in base ten with no leading zeros (`0` renders as "0").
pub open spec fn dec_digits(n: nat) -> Seq<char>
    decreases n,
{
    if n < 10 {
        seq![digit_char(n)]
    } else {
        dec_digits(n / 10) + seq![digit_char(n % 10)]
    }
}

fn digit_char_exec(d: u64) -> (c: char)
    requires
        d < 10,
    ensures
        c == digit_char(d as nat),
{
    match d {
        0 => '0',
        1 => '1',
        2 => '2',
        3 => '3',
        4 => '4',
        5 => '5',
        6 => '6',
        7 => '7',
        8 => '8',
        _ => '9',
    }
}

/// Renders `n` in decimal.
pub fn u64_to_dec_string(n: u64) -> (r: String)
    ensures
        r@ == dec_digits(n as nat),
{
    let mut rev: Vec<char> = Vec::new();
    rev.push(digit_char_exec(n % 10));
    let mut m: u64 = n / 10;
    proof {
        assert(rev@.reverse() =~= seq![digit_char((n % 10) as nat)]);
        if m == 0 {
            assert(dec_digits(n as nat) =~= rev@.reverse());
        }
    }
    while m > 0
        invariant
            rev@.len() > 0,
            m > 0 ==> dec_digits(n as nat) =~= dec_digits(m as nat) + rev@.reverse(),
            m == 0 ==> dec_digits(n as nat) =~= rev@.reverse(),
        decreases m,
    {
        let ghost prev = rev@;
        let ghost prev_m = m as nat;
        rev.push(digit_char_exec(m % 10));
        m = m / 10;
        proof {
            assert(rev@.reverse() =~= seq![digit_char((prev_m % 10) as nat)] + prev.reverse());
            if m > 0 {
                assert(dec_digits(prev_m) =~= dec_digits(prev_m / 10) + seq![
                    digit_char(prev_m % 10),
                ]);
                assert(dec_digits(n as nat) =~= dec_digits(m as nat) + rev@.reverse());
            } else {
                assert(dec_digits(prev_m) =~= seq![digit_char(prev_m % 10)]);
                assert(dec_digits(n as nat) =~= rev@.reverse());
            }
        }
    }
    let mut r = String::new();
    let mut i: usize = rev.len();
    while i > 0
        invariant
            i <= rev@.len(),
            r@ =~= rev@.reverse().take(rev@.len() - i),
        decreases i,
    {
        i = i - 1;
        let c = rev[i];
        r.push(c);
        proof {
            assert(rev@.reverse()[rev@.len() - i - 1] == rev@[i as int]);
            assert(r@ =~= rev@.reverse().take(rev@.len() - i));
        }
    }
    proof {
        assert(r@ =~= rev@.reverse());
    }
    r
}

/// Renders `n` in decimal.
pub fn u32_to_dec_string(n: u32) -> (r: String)
    ensures
        r@ == dec_digits(n as nat),
{
    u64_to_dec_string(n as u64)
}

/// Renders `n` in decimal.
pub fn u16_to_dec_string(n: u16) -> (r: String)
    ensures
        r@ == dec_digits(n as nat),
{
    u64_to_dec_string(n as u64)
}

/// Renders `n` in decimal.
pub fn u8_to_dec_string(n: u8) -> (r: String)
    ensures
        r@ == dec_digits(n as nat),
{
    u64_to_dec_string(n as u64)
}

/// Renders `n` in decimal.
pub fn usize_to_dec_string(n: usize) -> (r: String)
    ensures
        r@ == dec_digits(n as nat),
{
    u64_to_dec_string(n as u64)
}

/// Whether `c` is a decimal digit character.
pub open spec fn is_digit(c: char) -> bool {
    48 <= c as int <= 57
}

/// Value of one decimal digit character.
pub open spec fn digit_val(c: char) -> nat
    recommends
        is_digit(c),
{
    (c as int - 48) as nat
}

/// Whether `s` is a non-empty run of decimal digit characters.
pub open spec fn is_dec_seq(s: Seq<char>) -> bool {
    s.len() > 0 && forall|j: int| 0 <= j < s.len() ==> is_digit(#[trigger] s[j])
}

/// Numeric value of a run of decimal digit characters.
pub open spec fn dec_val(s: Seq<char>) -> nat
    decreases s.len(),
{
    if s.len() == 0 {
        0
    } else {
        dec_val(s.drop_last()) * 10 + digit_val(s.last())
    }
}

/// The decimal rendering of a value consists of digit characters only.
pub proof fn lemma_dec_digits_are_digits(n: nat)
    ensures
        is_dec_seq(dec_digits(n)),
    decreases n,
{
    if n >= 10 {
        lemma_dec_digits_are_digits(n / 10);
    }
}

/// A digit character evaluates back to the digit it was made from.
proof fn lemma_digit_char_val(d: nat)
    requires
        d < 10,
    ensures
        digit_val(digit_char(d)) == d,
        is_digit(digit_char(d)),
{
    assert('0' as int == 48 && '1' as int == 49 && '2' as int == 50 && '3' as int == 51 && '4'
        as int == 52 && '5' as int == 53 && '6' as int == 54 && '7' as int == 55 && '8' as int == 56
        && '9' as int == 57);
}

/// Parsing inverts rendering: the decimal digit string of `n` evaluates
/// back to `n`.
pub proof fn lemma_dec_val_of_dec_digits(n: nat)
    ensures
        dec_val(dec_digits(n)) == n,
    decreases n,
{
    if n < 10 {
        lemma_digit_char_val(n);
        assert(dec_digits(n).drop_last() =~= Seq::<char>::empty());
        assert(dec_val(Seq::<char>::empty()) == 0);
        assert(dec_val(dec_digits(n)) == dec_val(Seq::<char>::empty()) * 10 + digit_val(
            digit_char(n),
        ));
    } else {
        lemma_digit_char_val(n % 10);
        lemma_dec_val_of_dec_digits(n / 10);
        assert(dec_digits(n).drop_last() =~= dec_digits(n / 10));
        assert(dec_digits(n).last() == digit_char(n % 10));
        assert(dec_val(dec_digits(n)) == dec_val(dec_digits(n / 10)) * 10 + digit_val(
            digit_char(n % 10),
        ));
    }
}

/// A digit run's value only grows as more digits are appended.
proof fn lemma_dec_val_prefix_le(s: Seq<char>, k: int)
    requires
        0 <= k <= s.len(),
    ensures
        dec_val(s.take(k)) <= dec_val(s),
    decreases s.len() - k,
{
    if k < s.len() {
        lemma_dec_val_prefix_le(s, k + 1);
        assert(s.take(k + 1).drop_last() =~= s.take(k));
        assert(dec_val(s.take(k + 1)) == dec_val(s.take(k)) * 10 + digit_val(s.take(k + 1).last()));
    } else {
        assert(s.take(k) =~= s);
    }
}

/// Parses a non-empty, all-digit string as an unsigned decimal number;
/// rejects anything else and any value above `u64::MAX`.
pub fn parse_u64_dec(s: &str) -> (r: Option<u64>)
    ensures
        match r {
            Some(v) => is_dec_seq(s@) && dec_val(s@) == v as nat,
            None => !is_dec_seq(s@) || dec_val(s@) > u64::MAX,
        },
{
    let n = s.unicode_len();
    if n == 0 {
        return None;
    }
    let mut acc: u64 = 0;
    let mut i: usize = 0;
    while i < n
        invariant
            i <= n,
            n == s@.len(),
            forall|j: int| 0 <= j < i ==> is_digit(#[trigger] s@[j]),
            acc as nat == dec_val(s@.take(i as int)),
        decreases n - i,
    {
        let c = s.get_char(i);
        let cv = c as u32;
        if cv < 48 || cv > 57 {
            return None;
        }
        let d = (cv - 48) as u64;
        if acc > (u64::MAX - d) / 10 {
            proof {
                assert(s@.take(i + 1).drop_last() =~= s@.take(i as int));
                assert(dec_val(s@.take(i + 1)) == acc as nat * 10 + d as nat);
                assert(acc as nat * 10 + d as nat > u64::MAX);
                lemma_dec_val_prefix_le(s@, i + 1);
            }
            return None;
        }
        proof {
            assert(acc <= (u64::MAX - d) / 10);
            assert(acc * 10 <= ((u64::MAX - d) / 10) * 10 <= u64::MAX - d);
        }
        acc = acc * 10 + d;
        i = i + 1;
        proof {
            assert(s@.take(i as int).drop_last() =~= s@.take(i - 1));
            assert(s@.take(i as int).last() == s@[i - 1]);
        }
    }
    proof {
        assert(s@.take(n as int) =~= s@);
    }
    Some(acc)
}

/// Parses a decimal string into a `u32`.
pub fn parse_u32_dec(s: &str) -> (r: Option<u32>)
    ensures
        match r {
            Some(v) => is_dec_seq(s@) && dec_val(s@) == v as nat,
            None => !is_dec_seq(s@) || dec_val(s@) > u32::MAX,
        },
{
    match parse_u64_dec(s) {
        Some(v) => if v <= u32::MAX as u64 {
            Some(v as u32)
        } else {
            None
        },
        None => None,
    }
}

/// Boolean rendering used by the target format: the words `true`/`false`
/// as strings.
pub open spec fn spec_bool_str(b: bool) -> Seq<char> {
    if b {
        "true"@
    } else {
        "false"@
    }
}

/// Renders a boolean as the string `"true"` or `"false"`.
pub fn bool_to_string(b: bool) -> (r: String)
    ensures
        r@ == spec_bool_str(b),
{
    if b {
        String::from_str("true")
    } else {
        String::from_str("false")
    }
}

/// Parses the exact words `true` / `false`; anything else is rejected.
pub fn parse_bool_str(s: &str) -> (r: Option<bool>)
    ensures
        r == (if s@ == spec_bool_str(true) {
            Some(true)
        } else if s@ == spec_bool_str(false) {
            Some(false)
        } else {
            None::<bool>
        }),
{
    if crate::strutil::str_eq(s, "true") {
        Some(true)
    } else if crate::strutil::str_eq(s, "false") {
        Some(false)
    } else {
        None
    }
}

/// Round trip for the boolean encoding.
pub proof fn lemma_bool_round_trip(b: bool)
    ensures
        spec_bool_str(b) == spec_bool_str(true) <==> b,
        spec_bool_str(b) == spec_bool_str(false) <==> !b,
{
    reveal_strlit("true");
    reveal_strlit("false");
    assert(spec_bool_str(true).len() != spec_bool_str(false).len());
}

} // verus!
