//! SHA-256 of what was written, as text for a byte comparison.
use sha2::{Digest, Sha256};
use vstd::prelude::*;
use crate::text::{hex_lower, pad_left, push_hex_lower_zeros};

verus! {

/// The running hash of the `sha2` crate. Its contents are opaque; what it has
/// taken in is [`hashed_bytes`].
#[verifier::external_body]
pub struct RunningHash {
    inner: Sha256,
}

/// The bytes that a running hash has taken in.
pub uninterp spec fn hashed_bytes(h: RunningHash) -> Seq<u8>;

/// The SHA-256 digest of a sequence of bytes.
pub uninterp spec fn sha256_digest(data: Seq<u8>) -> Seq<u8>;

/// `Digest::new`: a running hash that has taken in nothing.
#[verifier::external_body]
pub(crate) fn sha256_new() -> (h: RunningHash)
    ensures
        hashed_bytes(h) == Seq::<u8>::empty(),
{
    RunningHash { inner: Sha256::new() }
}

/// `Digest::update`: takes `data` in behind what was taken in before.
#[verifier::external_body]
pub(crate) fn sha256_update(h: &mut RunningHash, data: &[u8])
    ensures
        hashed_bytes(*final(h)) == hashed_bytes(*old(h)) + data@,
{
    h.inner.update(data)
}

/// `Digest::finalize`: the 32 bytes of the digest of all that was taken in,
/// whatever the pieces in which it came. Which bytes they are is named, not
/// spelled out.
#[verifier::external_body]
pub(crate) fn sha256_finalize(h: RunningHash) -> (d: [u8; 32])
    ensures
        d@ == sha256_digest(hashed_bytes(h)),
{
    h.inner.finalize().into()
}

/// Bytes in lower-case hexadecimal, two digits each.
pub open spec fn hex_of(bytes: Seq<u8>) -> Seq<char>
    decreases bytes.len(),
{
    if bytes.len() == 0 {
        Seq::empty()
    } else {
        hex_of(bytes.drop_last()) + pad_left(hex_lower(bytes.last() as nat), 2, '0')
    }
}

/// Renders bytes in lower-case hexadecimal.
pub fn hex_text(bytes: &[u8]) -> (s: String)
    ensures
        s@ == hex_of(bytes@),
{
    let mut out = String::new();
    let mut i: usize = 0;
    assert(bytes@.take(0) =~= Seq::<u8>::empty());
    while i < bytes.len()
        invariant
            i <= bytes.len(),
            out@ == hex_of(bytes@.take(i as int)),
        decreases bytes.len() - i,
    {
        push_hex_lower_zeros(&mut out, bytes[i] as u64, 2);
        i = i + 1;
        assert(bytes@.take(i as int).drop_last() =~= bytes@.take(i - 1));
    }
    assert(bytes@.take(i as int) =~= bytes@);
    out
}

/// The digest of a running hash as text.
pub fn finish_hex(h: RunningHash) -> (s: String)
    ensures
        s@ == hex_of(sha256_digest(hashed_bytes(h))),
{
    let digest = sha256_finalize(h);
    hex_text(digest.as_slice())
}

/// The digest of some bytes as text.
pub fn sha256_hex(data: &[u8]) -> (s: String)
    ensures
        s@ == hex_of(sha256_digest(data@)),
{
    let mut h = sha256_new();
    sha256_update(&mut h, data);
    assert(hashed_bytes(h) =~= data@);
    finish_hex(h)
}

} // verus!
