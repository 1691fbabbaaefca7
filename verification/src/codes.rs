//! Verification codes, their hashes and check-in codes.

use vstd::prelude::*;
use vstd::utf8::encode_utf8;
use sha2::{Digest, Sha256};
use crate::text::push_char;

verus! {

/// The lower-case hexadecimal digit of `n` (`0 <= n < 16`).
pub open spec fn hex_digit_lower(n: int) -> char {
    seq!['0', '1', '2', '3', '4', '5', '6', '7', '8', '9', 'a', 'b', 'c', 'd', 'e', 'f'][n]
}

/// `bytes` in lower-case hexadecimal, two digits per byte, high nibble first.
pub open spec fn hex_lower(bytes: Seq<u8>) -> Seq<char>
    decreases bytes.len(),
{
    if bytes.len() == 0 {
        Seq::empty()
    } else {
        hex_lower(bytes.drop_last()) + seq![
            hex_digit_lower(bytes.last() as int / 16),
            hex_digit_lower(bytes.last() as int % 16),
        ]
    }
}

/// A lower-case hexadecimal digit.
pub open spec fn is_hex_lower(c: char) -> bool {
    ('0' <= c <= '9') || ('a' <= c <= 'f')
}

/// The SHA-256 digest of `data`.
pub uninterp spec fn sha256_digest(data: Seq<u8>) -> Seq<u8>;

/// `hex_lower(bytes)` has two characters per byte, each a lower-case hexadecimal digit.
pub proof fn lemma_hex_lower_shape(bytes: Seq<u8>)
    ensures
        hex_lower(bytes).len() == 2 * bytes.len(),
        forall|i: int| 0 <= i < hex_lower(bytes).len() ==> is_hex_lower(#[trigger] hex_lower(bytes)[i]),
    decreases bytes.len(),
{
    if bytes.len() > 0 {
        lemma_hex_lower_shape(bytes.drop_last());
        let prev = hex_lower(bytes.drop_last());
        let hi = bytes.last() as int / 16;
        let lo = bytes.last() as int % 16;
        let digits = seq!['0', '1', '2', '3', '4', '5', '6', '7', '8', '9', 'a', 'b', 'c', 'd', 'e', 'f'];
        assert forall|k: int| 0 <= k < 16 implies is_hex_lower(#[trigger] digits[k]) by {}
        assert(is_hex_lower(hex_digit_lower(hi)));
        assert(is_hex_lower(hex_digit_lower(lo)));
        assert forall|i: int| 0 <= i < hex_lower(bytes).len() implies is_hex_lower(
            #[trigger] hex_lower(bytes)[i],
        ) by {
            if i < prev.len() {
                assert(hex_lower(bytes)[i] == prev[i]);
            }
        }
    }
}

/// `hex::encode`: the bytes in lower-case hexadecimal, two digits per byte.
#[verifier::external_body]
fn hex_encode(bytes: &[u8]) -> (res: String)
    ensures
        res@ == hex_lower(bytes@),
{
    hex::encode(bytes)
}

/// `Sha256::digest`: the 32-byte SHA-256 digest of `data`.
#[verifier::external_body]
fn sha256(data: &[u8]) -> (res: Vec<u8>)
    ensures
        res@ == sha256_digest(data@),
        res@.len() == 32,
{
    Sha256::digest(data).to_vec()
}

/// `rand::random::<u32>()`: a random 32-bit number.
#[verifier::external_body]
fn random_u32() -> u32 {
    rand::random::<u32>()
}

/// `rand::random::<[u8; 12]>()`: twelve random bytes.
#[verifier::external_body]
fn random_bytes_12() -> (res: Vec<u8>)
    ensures
        res@.len() == 12,
{
    rand::random::<[u8; 12]>().to_vec()
}

/// The decimal digit character of `d` (`0 <= d < 10`).
pub open spec fn digit_char(d: int) -> char {
    seq!['0', '1', '2', '3', '4', '5', '6', '7', '8', '9'][d]
}

/// `n` written with exactly six decimal digits, zero-padded on the left (`n < 1_000_000`).
pub open spec fn six_digits(n: int) -> Seq<char> {
    seq![
        digit_char(n / 100000 % 10),
        digit_char(n / 10000 % 10),
        digit_char(n / 1000 % 10),
        digit_char(n / 100 % 10),
        digit_char(n / 10 % 10),
        digit_char(n % 10),
    ]
}

/// The digit character of `d`.
fn digit_char_of(d: u32) -> (c: char)
    requires
        d < 10,
    ensures
        c == digit_char(d as int),
{
    let digits = ['0', '1', '2', '3', '4', '5', '6', '7', '8', '9'];
    assert(digits@ == seq!['0', '1', '2', '3', '4', '5', '6', '7', '8', '9']);
    digits[d as usize]
}

/// The six-digit code of a random number: its remainder modulo 1 000 000, zero-padded.
pub fn code_from_random(value: u32) -> (res: String)
    ensures
        res@ == six_digits(value as int % 1000000),
{
    let n = value % 1000000;
    let mut s = String::new();
    push_char(&mut s, digit_char_of(n / 100000 % 10));
    push_char(&mut s, digit_char_of(n / 10000 % 10));
    push_char(&mut s, digit_char_of(n / 1000 % 10));
    push_char(&mut s, digit_char_of(n / 100 % 10));
    push_char(&mut s, digit_char_of(n / 10 % 10));
    push_char(&mut s, digit_char_of(n % 10));
    assert(s@ =~= six_digits(n as int));
    s
}

/// A fresh six-digit verification code.
pub fn generate_code() -> (res: String)
    ensures
        exists|n: int| 0 <= n < 1000000 && res@ == six_digits(n),
        res@.len() == 6,
        forall|i: int| 0 <= i < 6 ==> '0' <= #[trigger] res@[i] <= '9',
{
    let value = random_u32();
    let res = code_from_random(value);
    proof {
        let n = value as int % 1000000;
        let digits = seq!['0', '1', '2', '3', '4', '5', '6', '7', '8', '9'];
        assert forall|k: int| 0 <= k < 10 implies '0' <= #[trigger] digits[k] <= '9' by {}
        assert(0 <= n < 1000000 && res@ == six_digits(n));
        assert forall|i: int| 0 <= i < 6 implies '0' <= #[trigger] res@[i] <= '9' by {
            assert(res@[i] == six_digits(n)[i]);
        }
    }
    res
}

/// The hash a verification code is stored under: SHA-256 of its UTF-8 bytes, in
/// lower-case hexadecimal.
pub open spec fn code_hash(code: Seq<char>) -> Seq<char> {
    hex_lower(sha256_digest(encode_utf8(code)))
}

/// The hash a verification code is stored under (SHA-256, lower-case hexadecimal).
pub fn hash_code(code: &str) -> (res: String)
    ensures
        res@ == code_hash(code@),
        res@.len() == 64,
{
    let digest = sha256(code.as_bytes());
    let res = hex_encode(digest.as_slice());
    proof {
        lemma_hex_lower_shape(digest@);
    }
    res
}

/// Equal codes hash equally.
pub proof fn lemma_hash_code_deterministic(a: Seq<char>, b: Seq<char>)
    requires
        a == b,
    ensures
        code_hash(a) == code_hash(b),
{
}

/// The check-in code made of the drawn bytes: their lower-case hexadecimal.
pub fn checkin_code_from_bytes(bytes: &[u8]) -> (res: String)
    ensures
        res@ == hex_lower(bytes@),
        res@.len() == 2 * bytes@.len(),
{
    let res = hex_encode(bytes);
    proof {
        lemma_hex_lower_shape(bytes@);
    }
    res
}

/// A fresh check-in code: twelve random bytes in lower-case hexadecimal.
pub fn generate_checkin_code() -> (res: String)
    ensures
        res@.len() == 24,
        forall|i: int| 0 <= i < 24 ==> is_hex_lower(#[trigger] res@[i]),
        exists|bytes: Seq<u8>| bytes.len() == 12 && res@ == hex_lower(bytes),
{
    let bytes = random_bytes_12();
    let res = checkin_code_from_bytes(bytes.as_slice());
    proof {
        lemma_hex_lower_shape(bytes@);
    }
    res
}

} // verus!
