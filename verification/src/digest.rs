//! Message digests computed by `sha3`, their hexadecimal text, and instants
//! written as text by `chrono`.

use vstd::prelude::*;
use vstd::string::{StrSliceExecFns, StringExecFns};
use sha3::Digest;
use crate::time::Timestamp;

verus! {

/// The SHA3-512 digest of a message (`sha3::Sha3_512`).
pub uninterp spec fn sha3_512_of(message: Seq<u8>) -> Seq<u8>;

/// The SHA3-256 digest of a message (`sha3::Sha3_256`).
pub uninterp spec fn sha3_256_of(message: Seq<u8>) -> Seq<u8>;

/// An instant written as RFC 3339 text in UTC (`DateTime::<Utc>::to_rfc3339`).
pub uninterp spec fn rfc3339_text(seconds: i64, nanos: u32) -> Seq<char>;

/// The lower-case hexadecimal digit for a value below sixteen.
pub open spec fn hex_digit(n: u8) -> char {
    "0123456789abcdef"@[n as int]
}

/// Bytes written as lower-case hexadecimal, two digits per byte, the high
/// digit first.
pub open spec fn hex_text(bytes: Seq<u8>) -> Seq<char>
    decreases bytes.len(),
{
    if bytes.len() == 0 {
        Seq::empty()
    } else {
        seq![hex_digit(bytes[0] / 16), hex_digit(bytes[0] % 16)] + hex_text(bytes.drop_first())
    }
}

/// `sha3::Sha3_512` over `message`: the digest, 64 bytes long. Updating the
/// hasher piece by piece gives the digest of the pieces joined, so the whole
/// message is hashed at once.
#[verifier::external_body]
pub(crate) fn sha3_512(message: &[u8]) -> (r: Vec<u8>)
    ensures
        r@ == sha3_512_of(message@),
        r@.len() == 64,
{
    sha3::Sha3_512::digest(message).to_vec()
}

/// `sha3::Sha3_256` over `message`: the digest, 32 bytes long.
#[verifier::external_body]
pub(crate) fn sha3_256(message: &[u8]) -> (r: Vec<u8>)
    ensures
        r@ == sha3_256_of(message@),
        r@.len() == 32,
{
    sha3::Sha3_256::digest(message).to_vec()
}

/// Appends the hexadecimal digit for `n` to `text`.
fn push_hex_digit(text: &mut String, n: u8)
    requires
        n < 16,
    ensures
        final(text)@ == old(text)@.push(hex_digit(n)),
{
    proof {
        reveal_strlit("0123456789abcdef");
    }
    let digits: &str = "0123456789abcdef";
    let digit = digits.substring_char(n as usize, n as usize + 1);
    assert(digit@ =~= seq![hex_digit(n)]);
    text.append(digit);
}

/// Each byte of `bytes` as two lower-case hexadecimal digits, the high one
/// first.
pub fn hex_encode(bytes: &[u8]) -> (r: String)
    ensures
        r@ == hex_text(bytes@),
{
    let mut text = String::new();
    let mut i: usize = 0;
    proof {
        assert(text@ =~= hex_text(bytes@.take(0)));
    }
    while i < bytes.len()
        invariant
            i <= bytes@.len(),
            text@ == hex_text(bytes@.take(i as int)),
        decreases bytes@.len() - i,
    {
        let b = bytes[i];
        push_hex_digit(&mut text, b / 16);
        push_hex_digit(&mut text, b % 16);
        proof {
            lemma_hex_text_push(bytes@.take(i as int), b);
            assert(bytes@.take(i as int + 1) =~= bytes@.take(i as int).push(b));
        }
        i = i + 1;
    }
    proof {
        assert(bytes@.take(i as int) =~= bytes@);
    }
    text
}

/// The text of bytes with one more byte is the text before it and that
/// byte's two digits.
proof fn lemma_hex_text_push(bytes: Seq<u8>, b: u8)
    ensures
        hex_text(bytes.push(b)) == hex_text(bytes) + seq![hex_digit(b / 16), hex_digit(b % 16)],
    decreases bytes.len(),
{
    if bytes.len() == 0 {
        assert(bytes.push(b).drop_first() =~= Seq::<u8>::empty());
        assert(hex_text(bytes.push(b)) =~= seq![hex_digit(b / 16), hex_digit(b % 16)] + hex_text(Seq::<u8>::empty()));
        assert(hex_text(bytes) + seq![hex_digit(b / 16), hex_digit(b % 16)] =~= seq![hex_digit(b / 16), hex_digit(b % 16)]);
    } else {
        lemma_hex_text_push(bytes.drop_first(), b);
        assert(bytes.push(b).drop_first() =~= bytes.drop_first().push(b));
        assert(hex_text(bytes.push(b)) =~= hex_text(bytes) + seq![hex_digit(b / 16), hex_digit(b % 16)]);
    }
}

/// `DateTime::<Utc>::to_rfc3339` of a valid instant.
#[verifier::external_body]
pub(crate) fn rfc3339(at: Timestamp) -> (r: String)
    requires
        at.valid(),
    ensures
        r@ == rfc3339_text(at.seconds, at.nanos),
{
    match chrono::DateTime::from_timestamp(at.seconds, at.nanos) {
        Some(t) => t.to_rfc3339(),
        None => String::new(),
    }
}

} // verus!
