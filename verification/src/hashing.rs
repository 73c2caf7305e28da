//! The cryptographic digest behind identifiers and token checking, and its
//! lowercase hexadecimal rendering.

use vstd::prelude::*;
use crate::numfmt::{hex_char_of, is_hex_digit, hex_digit_char};

verus! {

/// The SHA-256 digest of a byte sequence: a function of the bytes alone,
/// left unstated here and computed by the `sha2` crate.
pub uninterp spec fn sha256_of(data: Seq<u8>) -> Seq<u8>;

/// Relies on `sha2::Sha256::digest`: the 32-byte SHA-256 digest of the input.
#[verifier::external_body]
pub(crate) fn sha256_digest(data: &[u8]) -> (r: Vec<u8>)
    ensures
        r@ == sha256_of(data@),
        r@.len() == 32,
{
    <sha2::Sha256 as sha2::Digest>::digest(data).to_vec()
}

/// Lowercase hexadecimal rendering of a byte sequence, two digits per byte.
pub open spec fn bytes_to_hex(bs: Seq<u8>) -> Seq<char>
    decreases bs.len(),
{
    if bs.len() == 0 {
        Seq::empty()
    } else {
        bytes_to_hex(bs.drop_last()) + seq![
            hex_char_of((bs.last() / 16) as nat),
            hex_char_of((bs.last() % 16) as nat),
        ]
    }
}

/// The 64-character lowercase hexadecimal form of the SHA-256 digest.
pub open spec fn sha256_hex_of(data: Seq<u8>) -> Seq<char> {
    bytes_to_hex(sha256_of(data))
}

/// The hexadecimal rendering of `n` bytes has `2n` characters, all of them
/// hexadecimal digits.
pub proof fn lemma_bytes_to_hex_shape(bs: Seq<u8>)
    ensures
        bytes_to_hex(bs).len() == 2 * bs.len(),
        forall|i: int|
            0 <= i < bytes_to_hex(bs).len() ==> is_hex_digit(#[trigger] bytes_to_hex(bs)[i]),
    decreases bs.len(),
{
    if bs.len() > 0 {
        lemma_bytes_to_hex_shape(bs.drop_last());
    }
}

/// Exec counterpart of `bytes_to_hex`.
pub fn bytes_to_hex_string(bs: &[u8]) -> (r: String)
    ensures
        r@ == bytes_to_hex(bs@),
{
    let mut r = String::new();
    let n = bs.len();
    let mut i: usize = 0;
    proof {
        assert(bs@.subrange(0, 0) =~= Seq::<u8>::empty());
    }
    while i < n
        invariant
            i <= n,
            n == bs@.len(),
            r@ == bytes_to_hex(bs@.subrange(0, i as int)),
        decreases n - i,
    {
        let b = bs[i];
        r.push(hex_digit_char(b / 16));
        r.push(hex_digit_char(b % 16));
        i += 1;
        proof {
            let pre = bs@.subrange(0, i as int);
            assert(pre.drop_last() =~= bs@.subrange(0, i - 1 as int));
            assert(pre.last() == bs@[i - 1]);
        }
    }
    proof {
        assert(bs@.subrange(0, n as int) =~= bs@);
    }
    r
}

/// SHA-256 of the UTF-8 bytes of a string, rendered as 64 lowercase
/// hexadecimal characters. Token digests are stated in this form.
pub open spec fn str_sha256_hex(s: Seq<char>) -> Seq<char> {
    bytes_to_hex(sha256_of(vstd::utf8::encode_utf8(s)))
}

/// Hashes a string's UTF-8 bytes and renders the digest in hexadecimal.
pub fn get_str_sha256(input: &str) -> (r: String)
    ensures
        r@ == str_sha256_hex(input@),
{
    let digest = sha256_digest(input.as_bytes());
    bytes_to_hex_string(digest.as_slice())
}

} // verus!
