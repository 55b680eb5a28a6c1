//! The portal's cryptography and its sources of chance and time, as they are
//! had from outside crates.

use aes_gcm::aead::{Aead, KeyInit};
use sha2::Digest;
use vstd::prelude::*;

verus! {

/// The most bytes that one AES-GCM message may hold.
pub const MESSAGE_MAX: u64 = 0x10_0000_0000;

/// What AES-256-GCM makes of a plaintext: ciphertext, then a tag of 16 bytes.
pub uninterp spec fn aes_sealed(key: Seq<u8>, nonce: Seq<u8>, plain: Seq<u8>) -> Seq<u8>;

/// What AES-256-GCM recovers from a sealed message, if its tag is right.
pub uninterp spec fn aes_opened(key: Seq<u8>, nonce: Seq<u8>, sealed: Seq<u8>) -> Option<Seq<u8>>;

/// The SHA-256 digest of some bytes.
pub uninterp spec fn sha256_digest(data: Seq<u8>) -> Seq<u8>;

/// `Aead::encrypt` of `Aes256Gcm`, with no associated data: fails on messages
/// over the limit and on no others; the result is 16 bytes longer than the
/// plaintext.
#[verifier::external_body]
pub(crate) fn aes_seal(key: &[u8; 32], nonce: &[u8], plain: &[u8]) -> (r: Option<Vec<u8>>)
    requires
        nonce@.len() == 12,
    ensures
        match r {
            Some(sealed) => sealed@ == aes_sealed(key@, nonce@, plain@) && sealed@.len()
                == plain@.len() + 16 && plain@.len() <= MESSAGE_MAX,
            None => plain@.len() > MESSAGE_MAX,
        },
{
    let cipher = aes_gcm::Aes256Gcm::new(key.into());
    cipher.encrypt(aes_gcm::aead::generic_array::GenericArray::from_slice(nonce), plain).ok()
}

/// `Aead::decrypt` of `Aes256Gcm`, with no associated data: a function of key,
/// nonce and message. It recovers every plaintext that was sealed under the
/// same key and nonce, and what it recovers seals to the message again.
#[verifier::external_body]
pub(crate) fn aes_open(key: &[u8; 32], nonce: &[u8], sealed: &[u8]) -> (r: Option<Vec<u8>>)
    requires
        nonce@.len() == 12,
    ensures
        match r {
            Some(plain) => aes_opened(key@, nonce@, sealed@) == Some(plain@) && sealed@.len()
                == plain@.len() + 16 && (plain@.len() <= MESSAGE_MAX ==> sealed@ == aes_sealed(
                key@,
                nonce@,
                plain@,
            )),
            None => aes_opened(key@, nonce@, sealed@) is None,
        },
        forall|plain: Seq<u8>|
            sealed@ == #[trigger] aes_sealed(key@, nonce@, plain) && plain.len() <= MESSAGE_MAX
                ==> r is Some && r->0@ == plain,
{
    let cipher = aes_gcm::Aes256Gcm::new(key.into());
    cipher.decrypt(aes_gcm::aead::generic_array::GenericArray::from_slice(nonce), sealed).ok()
}

/// `Digest::digest` of `Sha256`: 32 bytes that depend on the data alone.
#[verifier::external_body]
pub(crate) fn sha256(data: &[u8]) -> (digest: Vec<u8>)
    ensures
        digest@ == sha256_digest(data@),
        digest@.len() == 32,
{
    sha2::Sha256::digest(data).to_vec()
}

/// `Rng::fill` of `rand::thread_rng`: as many bytes as asked for, by chance.
#[verifier::external_body]
pub(crate) fn random_bytes(n: usize) -> (bytes: Vec<u8>)
    ensures
        bytes@.len() == n,
{
    let mut bytes = vec![0u8; n];
    rand::Rng::fill(&mut rand::thread_rng(), bytes.as_mut_slice());
    bytes
}

/// `OffsetDateTime::now_utc` and `unix_timestamp`: the current time in Unix
/// seconds. The type holds no time more than a million years from the epoch.
#[verifier::external_body]
pub(crate) fn unix_now() -> (now: i64)
    ensures
        -0x1_0000_0000_0000 < now < 0x1_0000_0000_0000,
{
    time::OffsetDateTime::now_utc().unix_timestamp()
}

} // verus!
