//! Rendering integers as lowercase hexadecimal and decimal text, and the
//! value of hexadecimal digit strings. These spec functions are the
//! vocabulary in which identifier derivation and hash compaction are stated.

use vstd::prelude::*;

verus! {

/// The lowercase hexadecimal digit for a value below 16.
pub open spec fn hex_char_of(d: nat) -> char {
    if d == 0 {
        '0'
    } else if d == 1 {
        '1'
    } else if d == 2 {
        '2'
    } else if d == 3 {
        '3'
    } else if d == 4 {
        '4'
    } else if d == 5 {
        '5'
    } else if d == 6 {
        '6'
    } else if d == 7 {
        '7'
    } else if d == 8 {
        '8'
    } else if d == 9 {
        '9'
    } else if d == 10 {
        'a'
    } else if d == 11 {
        'b'
    } else if d == 12 {
        'c'
    } else if d == 13 {
        'd'
    } else if d == 14 {
        'e'
    } else {
        'f'
    }
}

/// Whether a character is a hexadecimal digit (either case).
pub open spec fn is_hex_digit(c: char) -> bool {
    ('0' <= c && c <= '9') || ('a' <= c && c <= 'f') || ('A' <= c && c <= 'F')
}

/// The numeric value of a hexadecimal digit character.
pub open spec fn hex_digit_value(c: char) -> nat {
    if '0' <= c && c <= '9' {
        (c as nat - '0' as nat) as nat
    } else if 'a' <= c && c <= 'f' {
        (c as nat - 'a' as nat + 10) as nat
    } else {
        (c as nat - 'A' as nat + 10) as nat
    }
}

/// The value of a string of hexadecimal digits, most significant first.
pub open spec fn hex_value_of(s: Seq<char>) -> nat
    decreases s.len(),
{
    if s.len() == 0 {
        0
    } else {
        hex_value_of(s.drop_last()) * 16 + hex_digit_value(s.last())
    }
}

/// Minimal lowercase hexadecimal rendering of a number ("0" for zero).
pub open spec fn hex_chars_of(n: nat) -> Seq<char>
    decreases n,
{
    if n < 16 {
        seq![hex_char_of(n)]
    } else {
        hex_chars_of(n / 16).push(hex_char_of(n % 16))
    }
}

/// Decimal rendering of a number ("0" for zero).
pub open spec fn dec_chars_of(n: nat) -> Seq<char>
    decreases n,
{
    if n < 10 {
        seq![dec_char_of(n)]
    } else {
        dec_chars_of(n / 10).push(dec_char_of(n % 10))
    }
}

/// The decimal digit for a value below 10.
pub open spec fn dec_char_of(d: nat) -> char {
    hex_char_of(if d < 10 {
        d
    } else {
        0
    })
}

/// Every digit that `hex_chars_of` emits is a lowercase hexadecimal digit,
/// so renderings contain no separator characters.
pub proof fn lemma_hex_chars_are_hex_digits(n: nat)
    ensures
        forall|i: int|
            0 <= i < hex_chars_of(n).len() ==> is_hex_digit(#[trigger] hex_chars_of(n)[i])
                && hex_chars_of(n)[i] != '.',
    decreases n,
{
    if n >= 16 {
        lemma_hex_chars_are_hex_digits(n / 16);
        assert forall|i: int| 0 <= i < hex_chars_of(n).len() implies is_hex_digit(
            #[trigger] hex_chars_of(n)[i],
        ) && hex_chars_of(n)[i] != '.' by {
            if i < hex_chars_of(n).len() - 1 {
                assert(hex_chars_of(n)[i] == hex_chars_of(n / 16)[i]);
            } else {
                assert(hex_chars_of(n)[i] == hex_char_of(n % 16));
            }
        }
    }
}

/// A string of hexadecimal digits is bounded by 16 to the power of its length.
pub proof fn lemma_hex_value_bound(s: Seq<char>)
    requires
        forall|i: int| 0 <= i < s.len() ==> is_hex_digit(#[trigger] s[i]),
    ensures
        hex_value_of(s) < vstd::arithmetic::power::pow(16, s.len()),
    decreases s.len(),
{
    vstd::arithmetic::power::lemma_pow_positive(16, s.len());
    if s.len() > 0 {
        lemma_hex_value_bound(s.drop_last());
        assert(s.drop_last().len() == s.len() - 1);
        vstd::arithmetic::power::lemma_pow_adds(16, 1, (s.len() - 1) as nat);
        vstd::arithmetic::power::lemma_pow1(16);
        assert(is_hex_digit(s.last()));
        assert(hex_digit_value(s.last()) < 16);
    }
}

/// Exec counterpart of `hex_char_of`.
pub fn hex_digit_char(d: u8) -> (c: char)
    requires
        d < 16,
    ensures
        c == hex_char_of(d as nat),
{
    match d {
        0 => '0',
        1 => '1',
        2 => '2',
        3 => '3',
        4 => '4',
        5 => '5',
        6 => '6',
        7 => '7',
        8 => '8',
        9 => '9',
        10 => 'a',
        11 => 'b',
        12 => 'c',
        13 => 'd',
        14 => 'e',
        _ => 'f',
    }
}

/// Exec counterpart of `dec_char_of`.
pub fn dec_digit_char(d: u8) -> (c: char)
    requires
        d < 10,
    ensures
        c == dec_char_of(d as nat),
{
    hex_digit_char(d)
}

/// Renders a number in minimal lowercase hexadecimal.
pub fn u128_to_hex_string(n: u128) -> (r: String)
    ensures
        r@ == hex_chars_of(n as nat),
    decreases n,
{
    if n < 16 {
        let mut s = String::new();
        s.push(hex_digit_char(n as u8));
        proof {
            assert(s@ =~= hex_chars_of(n as nat));
        }
        s
    } else {
        let mut s = u128_to_hex_string(n / 16);
        s.push(hex_digit_char((n % 16) as u8));
        s
    }
}

/// Renders a number in decimal.
pub fn u128_to_dec_string(n: u128) -> (r: String)
    ensures
        r@ == dec_chars_of(n as nat),
    decreases n,
{
    if n < 10 {
        let mut s = String::new();
        s.push(dec_digit_char(n as u8));
        proof {
            assert(s@ =~= dec_chars_of(n as nat));
        }
        s
    } else {
        let mut s = u128_to_dec_string(n / 10);
        s.push(dec_digit_char((n % 10) as u8));
        s
    }
}

/// Renders a `u64` in decimal.
pub fn u64_to_dec_string(n: u64) -> (r: String)
    ensures
        r@ == dec_chars_of(n as nat),
{
    u128_to_dec_string(n as u128)
}

/// Exec counterpart of `hex_digit_value`; rejects non-digits.
pub fn hex_char_value(c: char) -> (r: Option<u8>)
    ensures
        r is Some <==> is_hex_digit(c),
        r matches Some(v) ==> v as nat == hex_digit_value(c) && v < 16,
{
    if '0' <= c && c <= '9' {
        Some((c as u8) - ('0' as u8))
    } else if 'a' <= c && c <= 'f' {
        Some((c as u8) - ('a' as u8) + 10)
    } else if 'A' <= c && c <= 'F' {
        Some((c as u8) - ('A' as u8) + 10)
    } else {
        None
    }
}

} // verus!
