//! SHA-1 digests, which identify a torrent and check each of its pieces.
use vstd::prelude::*;

verus! {

/// The SHA-1 digest of `data`.
pub uninterp spec fn sha1_of(data: Seq<u8>) -> Seq<u8>;

/// Relies on `sha1::Sha1::digest` (the `digest` crate's `Digest::digest`):
/// the 20-byte SHA-1 of the data, which depends on the data alone.
#[verifier::external_body]
pub(crate) fn sha1_digest(data: &[u8]) -> (r: [u8; 20])
    ensures
        r@ == sha1_of(data@),
{
    <sha1::Sha1 as sha1::Digest>::digest(data).into()
}

/// Whether `data` has the SHA-1 digest `expected`.
pub fn digest_matches(data: &[u8], expected: &[u8; 20]) -> (r: bool)
    ensures
        r == (sha1_of(data@) == expected@),
{
    let d = sha1_digest(data);
    let mut i: usize = 0;
    while i < 20
        invariant
            i <= 20,
            d@ == sha1_of(data@),
            forall|k: int| 0 <= k < i ==> d@[k] == expected@[k],
        decreases 20 - i,
    {
        if d[i] != expected[i] {
            return false;
        }
        i = i + 1;
    }
    assert(d@ =~= expected@);
    true
}

} // verus!
