use sha2::{Digest, Sha256};
use vstd::prelude::*;

verus! {

/// The SHA-256 digest of the UTF-8 bytes of an account identifier.
pub uninterp spec fn sha256_of(account: Seq<char>) -> Seq<u8>;

/// Relies on `sha2::Sha256::digest`: the digest depends on the input bytes
/// alone and is always 32 bytes long.
#[verifier::external_body]
fn sha256_account(account: &String) -> (r: Vec<u8>)
    ensures
        r@ == sha256_of(account@),
        r@.len() == 32,
{
    Sha256::digest(account.as_bytes()).to_vec()
}

/// The map key of an account: its SHA-256 digest.
pub fn account_hash(account: &String) -> (r: Vec<u8>)
    ensures
        r@ == sha256_of(account@),
        r@.len() == 32,
{
    sha256_account(account)
}

/// Byte-wise equality of two keys.
pub fn bytes_equal(a: &Vec<u8>, b: &Vec<u8>) -> (r: bool)
    ensures
        r == (a@ == b@),
{
    if a.len() != b.len() {
        return false;
    }
    let mut i: usize = 0;
    while i < a.len()
        invariant
            a@.len() == b@.len(),
            i <= a@.len(),
            forall|k: int| 0 <= k < i ==> a@[k] == b@[k],
        decreases a@.len() - i,
    {
        if a[i] != b[i] {
            return false;
        }
        i = i + 1;
    }
    assert(a@ =~= b@);
    true
}

} // verus!
