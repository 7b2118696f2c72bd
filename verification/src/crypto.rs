//! The cryptographic primitives the engine relies on, each behind a trusted
//! wrapper. The wrappers name their results with uninterpreted spec functions:
//! every result is a pure function of the wrapper's arguments, and the
//! verified code above states its contracts in terms of these names.

use vstd::prelude::*;

verus! {

/// Whether a phrase is a valid mnemonic: a supported word count, every word in
/// the English wordlist, and a correct checksum.
pub uninterp spec fn mnemonic_is_valid(s: Seq<char>) -> bool;

/// The entropy bytes a valid mnemonic encodes.
pub uninterp spec fn entropy_of(s: Seq<char>) -> Seq<u8>;

/// The 64-byte master seed derived from entropy and an optional passphrase.
pub uninterp spec fn seed_of(entropy: Seq<u8>, passphrase: Seq<u8>) -> Seq<u8>;

/// The digest of a byte sequence under the engine's 256-bit hash.
pub uninterp spec fn digest256_of(input: Seq<u8>) -> Seq<u8>;

/// The signing keypair (64-byte extended secret, 32-byte public key) grown
/// from a 32-byte key seed.
pub uninterp spec fn keypair_of(key_seed: Seq<u8>) -> (Seq<u8>, Seq<u8>);

/// The signature of a message under a 64-byte keypair.
pub uninterp spec fn signature_of(message: Seq<u8>, keypair: Seq<u8>) -> Seq<u8>;

/// Relies on bip39::Mnemonic::parse_in_normalized (English wordlist), which
/// succeeds exactly when the phrase has a supported word count, only known
/// words and a correct checksum, and on bip39::Mnemonic::to_entropy, which
/// returns the entropy those words encode. Both are pure functions of the
/// phrase.
#[verifier::external_body]
pub(crate) fn mnemonic_entropy(s: &str) -> (r: Option<Vec<u8>>)
    ensures
        r is Some <==> mnemonic_is_valid(s@),
        r matches Some(v) ==> v@ == entropy_of(s@),
{
    match bip39::Mnemonic::parse_in_normalized(bip39::Language::English, s) {
        Ok(m) => Some(m.to_entropy()),
        Err(_) => None,
    }
}

/// Relies on cryptoxide::pbkdf2::pbkdf2 with HMAC-SHA512, 2048 iterations and
/// a 64-byte output: a pure function of password (the entropy) and salt (the
/// passphrase) that always fills the whole output buffer.
#[verifier::external_body]
pub(crate) fn master_seed(entropy: &Vec<u8>, passphrase: &Vec<u8>) -> (r: Vec<u8>)
    ensures
        r@ == seed_of(entropy@, passphrase@),
        r@.len() == 64,
{
    let mut out = vec![0u8; 64];
    cryptoxide::pbkdf2::pbkdf2::<cryptoxide::hashing::sha2::Sha512>(
        entropy,
        passphrase,
        2048,
        &mut out,
    );
    out
}

/// Relies on cryptoxide::hashing::blake2b: the unkeyed BLAKE2b-256 digest of
/// the input, via Context::new, update and finalize, a pure function of the
/// input with a 32-byte result.
#[verifier::external_body]
pub(crate) fn digest256(input: &Vec<u8>) -> (r: Vec<u8>)
    ensures
        r@ == digest256_of(input@),
        r@.len() == 32,
{
    let ctx = cryptoxide::hashing::blake2b::Context::<256>::new();
    ctx.update(input).finalize().to_vec()
}

/// Relies on cryptoxide::ed25519::keypair: from a 32-byte secret key it
/// deterministically computes the 64-byte keypair and the 32-byte public key.
#[verifier::external_body]
pub(crate) fn keypair(key_seed: &Vec<u8>) -> (r: (Vec<u8>, Vec<u8>))
    requires
        key_seed@.len() == 32,
    ensures
        r.0@ == keypair_of(key_seed@).0,
        r.1@ == keypair_of(key_seed@).1,
        r.0@.len() == 64,
        r.1@.len() == 32,
{
    let seed: &[u8; 32] = key_seed.as_slice().try_into().unwrap();
    let (kp, public) = cryptoxide::ed25519::keypair(seed);
    (kp.to_vec(), public.to_vec())
}

/// Relies on cryptoxide::ed25519::signature: the 64-byte deterministic
/// signature of the message under the given 64-byte keypair.
#[verifier::external_body]
pub(crate) fn sign(message: &Vec<u8>, key: &Vec<u8>) -> (r: Vec<u8>)
    requires
        key@.len() == 64,
    ensures
        r@ == signature_of(message@, key@),
        r@.len() == 64,
{
    let kp: &[u8; 64] = key.as_slice().try_into().unwrap();
    cryptoxide::ed25519::signature(message, kp).to_vec()
}

} // verus!
