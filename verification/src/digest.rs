//! Digests and encodings of bytes.

use vstd::prelude::*;
use base64::Engine as _;
use sha2::Digest as _;
use crate::text::{chars_of, lowered, same_ignoring_case, string_of};

verus! {

/// The SHA-256 digest of some bytes.
pub uninterp spec fn sha256(bytes: Seq<u8>) -> Seq<u8>;

/// The Base64 text of some bytes, in the standard alphabet and with padding.
pub uninterp spec fn base64_text(bytes: Seq<u8>) -> Seq<char>;

/// Calls `sha2::Sha256::digest`. The same bytes always give the same digest, of
/// thirty-two bytes.
#[verifier::external_body]
fn digest_bytes(bytes: &[u8]) -> (r: Vec<u8>)
    ensures
        r@ == sha256(bytes@),
        r@.len() == 32,
{
    sha2::Sha256::digest(bytes).to_vec()
}

/// Calls `encode` of `base64::engine::general_purpose::STANDARD`. The same bytes
/// always give the same text. Input whose text would not fit in memory is left out:
/// on it the call panics.
#[verifier::external_body]
fn encode_bytes(bytes: &[u8]) -> (r: String)
    requires
        bytes@.len() <= usize::MAX / 4,
    ensures
        r@ == base64_text(bytes@),
{
    base64::engine::general_purpose::STANDARD.encode(bytes)
}

/// The digit for a number below sixteen.
pub open spec fn hex_digit(n: u8) -> char {
    if n < 10 {
        (48 + n) as char
    } else {
        (87 + n) as char
    }
}

fn digit_of(n: u8) -> (r: char)
    requires
        n < 16,
    ensures
        r == hex_digit(n),
{
    if n < 10 {
        (48 + n) as char
    } else {
        (87 + n) as char
    }
}

/// Two lower-case digits for each byte.
pub open spec fn hex(bytes: Seq<u8>) -> Seq<char> {
    Seq::new(
        2 * bytes.len(),
        |i: int|
            if i % 2 == 0 {
                hex_digit((bytes[i / 2] / 16) as u8)
            } else {
                hex_digit((bytes[i / 2] % 16) as u8)
            },
    )
}

fn hex_chars(bytes: &[u8]) -> (r: Vec<char>)
    ensures
        r@ == hex(bytes@),
{
    let mut out: Vec<char> = Vec::new();
    let mut i: usize = 0;
    while i < bytes.len()
        invariant
            i <= bytes@.len(),
            out@ == hex(bytes@.take(i as int)),
        decreases bytes@.len() - i,
    {
        let b = bytes[i];
        let ghost was = out@;
        out.push(digit_of(b / 16));
        out.push(digit_of(b % 16));
        proof {
            let less = bytes@.take(i as int);
            let more = bytes@.take(i + 1);
            assert(was == hex(less));
            assert forall|k: int| 0 <= k < hex(more).len() implies out@[k] == hex(more)[k] by {
                if k < was.len() {
                    assert(out@[k] == was[k]);
                    assert(more[k / 2] == less[k / 2]);
                } else {
                    assert(more[i as int] == b);
                    assert(k / 2 == i);
                }
            }
            assert(out@ =~= hex(more));
        }
        i += 1;
    }
    assert(bytes@.take(bytes@.len() as int) == bytes@);
    out
}

/// The digest of some bytes in lower-case digits.
pub fn sha256_hex(bytes: &[u8]) -> (r: String)
    ensures
        r@ == hex(sha256(bytes@)),
{
    let digest = digest_bytes(bytes);
    string_of(hex_chars(digest.as_slice()).as_slice())
}

/// Whether a digest is the one that was announced, in digits of either case.
pub fn digest_matches(digest: &str, announced: &str) -> (r: bool)
    ensures
        r == (lowered(digest@) == lowered(announced@)),
{
    let a = chars_of(digest);
    let b = chars_of(announced);
    same_ignoring_case(a.as_slice(), b.as_slice())
}

/// The Base64 text of some bytes.
pub fn base64_of(bytes: &[u8]) -> (r: String)
    requires
        bytes@.len() <= usize::MAX / 4,
    ensures
        r@ == base64_text(bytes@),
{
    encode_bytes(bytes)
}

// ---------------------------------------------------------------------------
// FNV-1a
// ---------------------------------------------------------------------------

/// The sixty-four bit FNV-1a hash: each byte is mixed into the hash, which is then
/// multiplied by the prime.
pub open spec fn fnv1a(bytes: Seq<u8>) -> u64
    decreases bytes.len(),
{
    if bytes.len() == 0 {
        0xcbf29ce484222325u64
    } else {
        let mixed = fnv1a(bytes.drop_last()) ^ (bytes.last() as u64);
        ((mixed * 0x100000001b3) % 0x1_0000_0000_0000_0000) as u64
    }
}

/// The sixty-four bit FNV-1a hash.
pub fn fnv1a64(bytes: &[u8]) -> (r: u64)
    ensures
        r == fnv1a(bytes@),
{
    let mut hash: u64 = 0xcbf29ce484222325u64;
    let mut i: usize = 0;
    while i < bytes.len()
        invariant
            i <= bytes@.len(),
            hash == fnv1a(bytes@.take(i as int)),
        decreases bytes@.len() - i,
    {
        let ghost more = bytes@.take(i + 1);
        assert(more.drop_last() == bytes@.take(i as int));
        assert(more.last() == bytes@[i as int]);
        let mixed: u64 = hash ^ (bytes[i] as u64);
        let wide: u128 = (mixed as u128) * 0x100000001b3u128;
        hash = (wide % 0x1_0000_0000_0000_0000u128) as u64;
        i += 1;
    }
    assert(bytes@.take(bytes@.len() as int) == bytes@);
    hash
}

/// Sixteen lower-case digits for a number.
pub open spec fn hex16(n: u64) -> Seq<char> {
    Seq::new(16, |i: int| hex_digit(((n >> ((60 - 4 * i) as u64)) & 0xf) as u8))
}

/// Sixteen lower-case digits for a number.
pub fn hex16_of(n: u64) -> (r: Vec<char>)
    ensures
        r@ == hex16(n),
{
    let mut out: Vec<char> = Vec::new();
    let mut i: u64 = 0;
    while i < 16
        invariant
            i <= 16,
            out@.len() == i,
            forall|k: int| 0 <= k < i ==> #[trigger] out@[k] == hex16(n)[k],
        decreases 16 - i,
    {
        let shift: u64 = 60 - 4 * i;
        let nibble: u64 = (n >> shift) & 0xf;
        assert(nibble < 16) by (bit_vector)
            requires
                nibble == (n >> shift) & 0xf,
        ;
        out.push(digit_of(nibble as u8));
        i += 1;
    }
    assert(out@ =~= hex16(n));
    out
}

} // verus!
