//! Random identifiers: peer ids, transaction ids and announce keys.
use vstd::prelude::*;

verus! {

/// Whether `c` is an ASCII letter or digit.
pub open spec fn is_alphanumeric(c: u8) -> bool {
    (48 <= c <= 57) || (65 <= c <= 90) || (97 <= c <= 122)
}

/// Relies on `rand::random::<u32>`: any value may come.
#[verifier::external_body]
pub(crate) fn random_u32() -> (r: u32) {
    rand::random::<u32>()
}

/// Relies on sampling `rand::distributions::Alphanumeric` from
/// `rand::thread_rng`: an ASCII letter or digit.
#[verifier::external_body]
fn random_alphanumeric() -> (r: u8)
    ensures
        is_alphanumeric(r),
{
    rand::Rng::sample(&mut rand::thread_rng(), rand::distributions::Alphanumeric)
}

/// A fresh 20-byte peer id made of ASCII letters and digits.
pub fn generate_peer_id() -> (r: [u8; 20])
    ensures
        forall|i: int| 0 <= i < 20 ==> is_alphanumeric(#[trigger] r@[i]),
{
    let mut result = [0u8; 20];
    let mut i: usize = 0;
    while i < 20
        invariant
            i <= 20,
            forall|k: int| 0 <= k < i ==> is_alphanumeric(#[trigger] result@[k]),
        decreases 20 - i,
    {
        result[i] = random_alphanumeric();
        i = i + 1;
    }
    result
}

} // verus!
