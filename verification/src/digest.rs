//! SHA-256 fingerprints of text.
use crate::text::join2;
use sha2::{Digest, Sha256};
use vstd::prelude::*;
use vstd::string::*;
use vstd::utf8::encode_utf8;

verus! {

/// The SHA-256 digest of `data`.
pub uninterp spec fn sha256(data: Seq<u8>) -> Seq<u8>;

/// `sha2::Sha256::digest`: the 32 bytes of the digest of `data`.
#[verifier::external_body]
pub(crate) fn sha256_digest(data: &[u8]) -> (r: Vec<u8>)
    ensures
        r@ == sha256(data@),
        r@.len() == 32,
{
    Sha256::digest(data).to_vec()
}

/// One lower-case hexadecimal digit.
pub open spec fn hex_digit(d: int) -> char {
    if d < 10 {
        ('0' as u32 + d) as char
    } else {
        ('a' as u32 + d - 10) as char
    }
}

/// Bytes as lower-case hexadecimal digits, two for each byte.
pub open spec fn hex(bytes: Seq<u8>) -> Seq<char> {
    Seq::new(
        2 * bytes.len(),
        |i: int|
            if i % 2 == 0 {
                hex_digit(bytes[i / 2] as int / 16)
            } else {
                hex_digit(bytes[i / 2] as int % 16)
            },
    )
}

fn hex_char(d: u8) -> (r: char)
    requires
        d < 16,
    ensures
        r == hex_digit(d as int),
{
    if d < 10 {
        (48 + d) as char
    } else {
        (87 + d) as char
    }
}

/// Renders bytes in lower-case hexadecimal.
pub fn hex_text(bytes: &Vec<u8>) -> (r: String)
    ensures
        r@ == hex(bytes@),
{
    let mut out = String::new();
    let mut i: usize = 0;
    proof {
        assert(hex(bytes@.take(0)) =~= Seq::<char>::empty());
    }
    while i < bytes.len()
        invariant
            i <= bytes.len(),
            out@ == hex(bytes@.take(i as int)),
        decreases bytes.len() - i,
    {
        let b: u8 = bytes[i];
        out.push(hex_char(b / 16));
        out.push(hex_char(b % 16));
        proof {
            let longer = hex(bytes@.take(i + 1));
            assert(out@ =~= longer) by {
                assert forall|k: int| 0 <= k < longer.len() implies out@[k] == longer[k] by {
                    if k < 2 * i {
                        assert(bytes@.take(i + 1)[k / 2] == bytes@.take(i as int)[k / 2]);
                    } else {
                        assert(k / 2 == i);
                    }
                }
            }
        }
        i = i + 1;
    }
    proof {
        assert(bytes@.take(bytes@.len() as int) =~= bytes@);
    }
    out
}

/// The fingerprint that a digest gives: `sha256:` and the digest in
/// hexadecimal.
pub open spec fn fingerprint_of(digest: Seq<u8>) -> Seq<char> {
    "sha256:"@ + hex(digest)
}

/// Renders a digest as a fingerprint.
pub fn digest_fingerprint(digest: &Vec<u8>) -> (r: String)
    ensures
        r@ == fingerprint_of(digest@),
{
    join2("sha256:", hex_text(digest).as_str())
}

/// The fingerprint of the UTF-8 bytes of `text`.
pub fn text_fingerprint(text: &str) -> (r: String)
    ensures
        r@ == fingerprint_of(sha256(encode_utf8(text@))),
{
    digest_fingerprint(&sha256_digest(text.as_bytes()))
}

} // verus!
