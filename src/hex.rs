//! Base-16 numbers: reading them as `from_str_radix(_, 16)` does, and writing
//! them as fixed-width digit strings.

use vstd::prelude::*;

verus! {

/// The value of one base-16 digit, in either case.
pub open spec fn hex_digit_value(c: char) -> Option<nat> {
    let u = c as u32;
    if 48 <= u <= 57 {
        Some((u - 48) as nat)
    } else if 97 <= u <= 102 {
        Some((u - 87) as nat)
    } else if 65 <= u <= 70 {
        Some((u - 55) as nat)
    } else {
        None
    }
}

pub open spec fn all_hex_digits(s: Seq<char>) -> bool {
    forall|i: int| 0 <= i < s.len() ==> (#[trigger] hex_digit_value(s[i])) is Some
}

/// The number that a run of base-16 digits writes, most significant first.
pub open spec fn digits_value(s: Seq<char>) -> nat
    decreases s.len(),
{
    if s.len() == 0 {
        0
    } else {
        digits_value(s.drop_last()) * 16 + hex_digit_value(s.last()).unwrap_or(0)
    }
}

/// The digits after an optional leading `+`.
pub open spec fn unsigned_digits(s: Seq<char>) -> Seq<char> {
    if s.len() > 0 && s[0] == '+' {
        s.subrange(1, s.len() as int)
    } else {
        s
    }
}

/// What an unsigned `from_str_radix(s, 16)` accepts: an optional `+`, then at
/// least one base-16 digit; the value must not exceed `max`.
pub open spec fn parse_hex(s: Seq<char>, max: nat) -> Option<nat> {
    let d = unsigned_digits(s);
    if d.len() > 0 && all_hex_digits(d) && digits_value(d) <= max {
        Some(digits_value(d))
    } else {
        None
    }
}

proof fn lemma_digits_prefix_le(d: Seq<char>, k: int)
    requires
        0 <= k <= d.len(),
    ensures
        digits_value(d.subrange(0, k)) <= digits_value(d),
    decreases d.len(),
{
    if k < d.len() {
        lemma_digits_prefix_le(d.drop_last(), k);
        assert(d.drop_last().subrange(0, k) =~= d.subrange(0, k));
    } else {
        assert(d.subrange(0, k) =~= d);
    }
}

fn digit_of(c: char) -> (r: Option<u64>)
    ensures
        r is Some <==> hex_digit_value(c) is Some,
        r is Some ==> r->0 as nat == hex_digit_value(c)->0,
{
    let u = c as u32;
    if 48 <= u && u <= 57 {
        Some((u - 48) as u64)
    } else if 97 <= u && u <= 102 {
        Some((u - 87) as u64)
    } else if 65 <= u && u <= 70 {
        Some((u - 55) as u64)
    } else {
        None
    }
}

/// Reads `s[start..]` as an unsigned base-16 number no larger than `max`.
pub fn parse_hex_from(s: &Vec<char>, start: usize, max: u32) -> (r: Option<u32>)
    requires
        start <= s@.len(),
    ensures
        r matches Some(v) ==> parse_hex(s@.subrange(start as int, s@.len() as int), max as nat)
            == Some(v as nat),
        r is None ==> parse_hex(s@.subrange(start as int, s@.len() as int), max as nat) is None,
{
    let ghost whole = s@.subrange(start as int, s@.len() as int);
    let mut i: usize = start;
    if i < s.len() && s[i] == '+' {
        i = i + 1;
    }
    let ghost d = s@.subrange(i as int, s@.len() as int);
    assert(d =~= unsigned_digits(whole));
    if i >= s.len() {
        assert(d.len() == 0);
        return None;
    }
    let first: usize = i;
    let mut acc: u64 = 0;
    while i < s.len()
        invariant
            first <= i <= s@.len(),
            whole == s@.subrange(start as int, s@.len() as int),
            d == unsigned_digits(whole),
            d == s@.subrange(first as int, s@.len() as int),
            acc as nat == digits_value(d.subrange(0, i - first)),
            acc <= max,
            all_hex_digits(d.subrange(0, i - first)),
        decreases s@.len() - i,
    {
        let ghost k = i - first;
        assert(d.subrange(0, k + 1).drop_last() =~= d.subrange(0, k));
        match digit_of(s[i]) {
            None => {
                assert(d[k as int] == s@[i as int]);
                assert(hex_digit_value(d[k as int]) is None);
                assert(!all_hex_digits(d));
                return None;
            },
            Some(v) => {
                let next: u64 = acc * 16 + v;
                assert(d.subrange(0, k + 1).last() == s@[i as int]);
                if next > max as u64 {
                    proof {
                        if all_hex_digits(d) {
                            lemma_digits_prefix_le(d, k + 1);
                        }
                    }
                    return None;
                }
                acc = next;
            },
        }
        i = i + 1;
    }
    assert(d.subrange(0, d.len() as int) =~= d);
    Some(acc as u32)
}

/// The ASCII code of the lowercase digit for `d < 16`.
pub open spec fn lower_digit(d: nat) -> u8 {
    if d < 10 {
        (48 + d) as u8
    } else {
        (87 + d) as u8
    }
}

/// The uppercase digit for `d < 16`.
pub open spec fn upper_digit(d: nat) -> char {
    if d < 10 {
        ((48 + d) as u8) as char
    } else {
        ((55 + d) as u8) as char
    }
}

/// `b` as two lowercase base-16 digits, in ASCII.
pub open spec fn hex_byte_lower(b: u8) -> Seq<u8> {
    seq![lower_digit(b as nat / 16), lower_digit(b as nat % 16)]
}

/// The eight uppercase base-16 digits of `v`, most significant first.
pub open spec fn hex_u32_upper(v: u32) -> Seq<char> {
    Seq::new(8, |i: int| upper_digit((v as nat / pow16(7 - i)) % 16))
}

pub open spec fn pow16(e: int) -> nat
    decreases e,
{
    if e <= 0 {
        1
    } else {
        16 * pow16(e - 1)
    }
}

pub fn lower_digit_exec(d: u8) -> (r: u8)
    requires
        d < 16,
    ensures
        r == lower_digit(d as nat),
{
    if d < 10 {
        48 + d
    } else {
        87 + d
    }
}

pub fn upper_digit_exec(d: u32) -> (r: char)
    requires
        d < 16,
    ensures
        r == upper_digit(d as nat),
{
    if d < 10 {
        ((48 + d) as u8) as char
    } else {
        ((55 + d) as u8) as char
    }
}

} // verus!
