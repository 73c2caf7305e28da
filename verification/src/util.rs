//! Identifier compaction, the clock, and human-readable size formatting.

use vstd::prelude::*;
use vstd::string::StrSliceExecFns;
use crate::numfmt::{
    hex_chars_of, hex_value_of, is_hex_digit, dec_chars_of, dec_char_of, hex_char_value,
    u128_to_hex_string, u128_to_dec_string, dec_digit_char, lemma_hex_value_bound,
};

verus! {

/// Addition of two values below 2^128, wrapping around at 2^128.
pub open spec fn wrap_add_128(a: nat, b: nat) -> nat {
    if a + b >= 0x100000000000000000000000000000000 {
        (a + b - 0x100000000000000000000000000000000) as nat
    } else {
        a + b
    }
}

/// Compaction of a 64-digit hexadecimal string: the values of its two
/// 32-digit halves added with wraparound, rendered in minimal hexadecimal.
/// This deliberately halves the identifier at the price of collision
/// resistance.
pub open spec fn shorten_spec(s: Seq<char>) -> Seq<char> {
    hex_chars_of(wrap_add_128(hex_value_of(s.take(32)), hex_value_of(s.skip(32))))
}

/// Relies on `std::time::SystemTime::now` and `duration_since`: seconds since
/// the Unix epoch. Nothing is assumed of the value; callers treat it as an
/// arbitrary salt.
#[verifier::external_body]
pub fn get_time() -> u64 {
    std::time::SystemTime::now()
        .duration_since(std::time::SystemTime::UNIX_EPOCH)
        .map(|d| d.as_secs())
        .unwrap_or(0)
}

/// 16 to the 32nd power is 2 to the 128th.
proof fn lemma_pow16_32()
    ensures
        vstd::arithmetic::power::pow(16, 32) == 0x100000000000000000000000000000000,
{
    vstd::arithmetic::power2::lemma2_to64();
    vstd::arithmetic::power2::lemma2_to64_rest();
    vstd::arithmetic::power2::lemma_pow2(4);
    vstd::arithmetic::power2::lemma_pow2(128);
    vstd::arithmetic::power::lemma_pow_multiplies(2, 4, 32);
    vstd::arithmetic::power2::lemma_pow2_adds(64, 64);
}

/// Parses 32 hexadecimal characters of `s` starting at `start`.
fn parse_hex_32(s: &str, start: usize) -> (r: u128)
    requires
        start + 32 <= s@.len(),
        start + 32 <= usize::MAX,
        forall|i: int| start <= i < start + 32 ==> is_hex_digit(#[trigger] s@[i]),
    ensures
        r as nat == hex_value_of(s@.subrange(start as int, start as int + 32)),
{
    let ghost whole = s@.subrange(start as int, start as int + 32);
    let mut acc: u128 = 0;
    let mut i: usize = 0;
    proof {
        assert(whole.take(0) =~= Seq::<char>::empty());
    }
    while i < 32
        invariant
            i <= 32,
            start + 32 <= s@.len(),
            start + 32 <= usize::MAX,
            forall|j: int| start <= j < start + 32 ==> is_hex_digit(#[trigger] s@[j]),
            whole == s@.subrange(start as int, start as int + 32),
            acc as nat == hex_value_of(whole.take(i as int)),
        decreases 32 - i,
    {
        let c = s.get_char(start + i);
        proof {
            assert(c == whole[i as int]);
            lemma_hex_value_bound(whole.take(i as int));
            vstd::arithmetic::power::lemma_pow_increases(16, i as nat, 31);
            assert(vstd::arithmetic::power::pow(16, 31) * 16 == vstd::arithmetic::power::pow(
                16,
                32,
            )) by {
                vstd::arithmetic::power::lemma_pow1(16);
                vstd::arithmetic::power::lemma_pow_adds(16, 31, 1);
            }
            lemma_pow16_32();
        }
        let v = match hex_char_value(c) {
            Some(v) => v,
            None => 0,
        };
        acc = acc * 16 + (v as u128);
        i += 1;
        proof {
            assert(whole.take(i as int).drop_last() =~= whole.take(i - 1 as int));
            assert(whole.take(i as int).last() == whole[i - 1 as int]);
        }
    }
    proof {
        assert(whole.take(32) =~= whole);
    }
    acc
}

/// Shortens a 64-digit hexadecimal string to the wraparound sum of its two
/// halves, in minimal hexadecimal.
pub fn shorten(input: &str) -> (r: String)
    requires
        input@.len() == 64,
        forall|i: int| 0 <= i < 64 ==> is_hex_digit(#[trigger] input@[i]),
    ensures
        r@ == shorten_spec(input@),
{
    let left = parse_hex_32(input, 0);
    let right = parse_hex_32(input, 32);
    proof {
        assert(input@.subrange(0, 32) =~= input@.take(32));
        assert(input@.subrange(32, 64) =~= input@.skip(32));
    }
    let sum = left.wrapping_add(right);
    proof {
        assert(sum as nat == wrap_add_128(left as nat, right as nat));
    }
    u128_to_hex_string(sum)
}

/// The unit suffix used by `format_file_size_spec` for a scale index.
pub open spec fn size_unit_chars(u: nat) -> Seq<char> {
    if u == 0 {
        seq!['B']
    } else if u == 1 {
        seq!['K', 'B']
    } else if u == 2 {
        seq!['M', 'B']
    } else if u == 3 {
        seq!['G', 'B']
    } else {
        seq!['T', 'B']
    }
}

/// The scale index for a size: how often it can be divided by 1024 while
/// staying at or above 1024, capped at terabytes.
pub open spec fn size_unit_index(size: nat) -> nat {
    if size < 1024 {
        0
    } else if size < 0x100000 {
        1
    } else if size < 0x40000000 {
        2
    } else if size < 0x10000000000 {
        3
    } else {
        4
    }
}

/// The size scaled to its unit, in tenths, rounded half-up.
pub open spec fn size_in_tenths(size: nat) -> nat {
    let d = vstd::arithmetic::power::pow(1024, size_unit_index(size)) as nat;
    (size * 10 + d / 2) / d
}

/// A size in bytes rendered with one decimal place and a dynamic unit:
/// "0 B" for zero, otherwise the scaled value and its unit suffix.
pub open spec fn format_file_size_spec(size: nat) -> Seq<char> {
    if size == 0 {
        seq!['0', ' ', 'B']
    } else {
        let t = size_in_tenths(size);
        dec_chars_of(t / 10) + seq!['.', dec_char_of(t % 10), ' ']
            + size_unit_chars(size_unit_index(size))
    }
}

/// The powers of 1024 up to the terabyte scale.
proof fn lemma_pow1024_values()
    ensures
        vstd::arithmetic::power::pow(1024, 0) == 1,
        vstd::arithmetic::power::pow(1024, 1) == 1024,
        vstd::arithmetic::power::pow(1024, 2) == 0x100000,
        vstd::arithmetic::power::pow(1024, 3) == 0x40000000,
        vstd::arithmetic::power::pow(1024, 4) == 0x10000000000,
{
    vstd::arithmetic::power2::lemma2_to64();
    vstd::arithmetic::power2::lemma2_to64_rest();
    vstd::arithmetic::power::lemma_pow0(1024);
    vstd::arithmetic::power2::lemma_pow2(10);
    vstd::arithmetic::power2::lemma_pow2(20);
    vstd::arithmetic::power2::lemma_pow2(30);
    vstd::arithmetic::power2::lemma_pow2(40);
    vstd::arithmetic::power::lemma_pow_multiplies(2, 10, 0);
    vstd::arithmetic::power::lemma_pow_multiplies(2, 10, 1);
    vstd::arithmetic::power::lemma_pow_multiplies(2, 10, 2);
    vstd::arithmetic::power::lemma_pow_multiplies(2, 10, 3);
    vstd::arithmetic::power::lemma_pow_multiplies(2, 10, 4);
}

/// Renders a size in bytes with one decimal place and a dynamic unit.
pub fn format_file_size(size: usize) -> (r: String)
    ensures
        r@ == format_file_size_spec(size as nat),
{
    if size == 0 {
        let mut r = String::new();
        r.push('0');
        r.push(' ');
        r.push('B');
        proof {
            assert(r@ =~= format_file_size_spec(0));
        }
        return r;
    }
    let s: u64 = size as u64;
    let u: u32 = if s < 1024 {
        0
    } else if s < 0x100000 {
        1
    } else if s < 0x40000000 {
        2
    } else if s < 0x10000000000 {
        3
    } else {
        4
    };
    let d: u64 = if u == 0 {
        1
    } else if u == 1 {
        1024
    } else if u == 2 {
        0x100000
    } else if u == 3 {
        0x40000000
    } else {
        0x10000000000
    };
    proof {
        assert(u as nat == size_unit_index(size as nat));
        assert(d as nat == vstd::arithmetic::power::pow(1024, u as nat)) by {
            lemma_pow1024_values();
        }
    }
    let t: u128 = ((s as u128) * 10 + (d as u128) / 2) / (d as u128);
    proof {
        assert(t as nat == size_in_tenths(size as nat));
    }
    let mut r = u128_to_dec_string(t / 10);
    r.push('.');
    r.push(dec_digit_char((t % 10) as u8));
    r.push(' ');
    match u {
        0 => r.push('B'),
        1 => {
            r.push('K');
            r.push('B');
        },
        2 => {
            r.push('M');
            r.push('B');
        },
        3 => {
            r.push('G');
            r.push('B');
        },
        _ => {
            r.push('T');
            r.push('B');
        },
    }
    proof {
        assert((t / 10) as nat == size_in_tenths(size as nat) / 10);
        assert((t % 10) as nat == size_in_tenths(size as nat) % 10);
        assert(r@ =~= format_file_size_spec(size as nat));
    }
    r
}

} // verus!
