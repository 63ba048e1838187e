//! The MD5 digest of a message.

use md5::Digest;
use vstd::prelude::*;

verus! {

/// The number of bytes in a digest.
pub const DIGEST_LEN: usize = 16;

/// The MD5 digest of `message`.
pub uninterp spec fn md5_digest(message: Seq<u8>) -> [u8; 16];

/// `Md5::digest` hashes the whole message at once and gives the 16 bytes of
/// its digest. They depend on the message alone, and `md5_digest` is their name.
#[verifier::external_body]
pub(crate) fn md5(message: &[u8]) -> (digest: [u8; 16])
    ensures
        digest == md5_digest(message@),
{
    md5::Md5::digest(message).into()
}

} // verus!
