//! Key hierarchies: one candidate keypair per (scheme, index), all grown from
//! the master seed, plus the wallet's account keypair in the new format.

use vstd::prelude::*;

use crate::bytes::le32_bytes;
use crate::bytes::push_u32_le;
use crate::crypto::digest256_of;
use crate::crypto::keypair_of;
use crate::crypto::digest256;
use crate::crypto::keypair;

verus! {

/// A historically supported derivation scheme.
#[derive(Clone, Copy, Debug, PartialEq, Eq, Structural)]
pub enum Scheme {
    /// The sequential, index-based legacy scheme.
    Legacy,
    /// The standard hierarchical scheme.
    Standard,
}

/// Domain-separation tag of the legacy scheme.
pub const LEGACY_TAG: u8 = 0;

/// Domain-separation tag of the standard scheme.
pub const STANDARD_TAG: u8 = 1;

/// Domain-separation tag of the account keypair.
pub const ACCOUNT_TAG: u8 = 2;

impl Scheme {
    pub open spec fn spec_tag(self) -> u8 {
        match self {
            Scheme::Legacy => LEGACY_TAG,
            Scheme::Standard => STANDARD_TAG,
        }
    }

    pub fn tag(self) -> (r: u8)
        ensures
            r == self.spec_tag(),
    {
        match self {
            Scheme::Legacy => LEGACY_TAG,
            Scheme::Standard => STANDARD_TAG,
        }
    }
}

/// The bytes hashed to obtain the key seed of a child key: the master seed,
/// a domain-separation tag and the little-endian child index.
pub open spec fn child_input(seed: Seq<u8>, tag: u8, index: u32) -> Seq<u8> {
    seed + seq![tag] + le32_bytes(index)
}

/// The keypair of the child at (tag, index) under the given master seed.
pub open spec fn child_keypair(seed: Seq<u8>, tag: u8, index: u32) -> (Seq<u8>, Seq<u8>) {
    keypair_of(digest256_of(child_input(seed, tag, index)))
}

/// One derived candidate keypair of a scheme.
pub struct Candidate {
    pub scheme: Scheme,
    pub index: u32,
    /// 64-byte extended secret key.
    pub secret: Vec<u8>,
    /// 32-byte public key.
    pub public: Vec<u8>,
}

impl Candidate {
    /// The candidate is exactly the child of `seed` at (`scheme`, `index`).
    pub open spec fn is_child_of(self, seed: Seq<u8>, scheme: Scheme, index: u32) -> bool {
        &&& self.scheme == scheme
        &&& self.index == index
        &&& self.secret@ == child_keypair(seed, scheme.spec_tag(), index).0
        &&& self.public@ == child_keypair(seed, scheme.spec_tag(), index).1
    }

    pub open spec fn wf(self) -> bool {
        &&& self.secret@.len() == 64
        &&& self.public@.len() == 32
    }
}

/// Derive the keypair of the child at (`tag`, `index`) under `seed`.
pub fn derive_child(seed: &Vec<u8>, tag: u8, index: u32) -> (r: (Vec<u8>, Vec<u8>))
    ensures
        r.0@ == child_keypair(seed@, tag, index).0,
        r.1@ == child_keypair(seed@, tag, index).1,
        r.0@.len() == 64,
        r.1@.len() == 32,
{
    let mut input: Vec<u8> = Vec::new();
    let mut j: usize = 0;
    let n: usize = seed.len();
    while j < n
        invariant
            j <= n,
            n == seed@.len(),
            input@ == seed@.take(j as int),
        decreases n - j,
    {
        input.push(seed[j]);
        proof {
            assert(input@ =~= seed@.take(j + 1));
        }
        j = j + 1;
    }
    proof {
        assert(input@ =~= seed@);
    }
    input.push(tag);
    push_u32_le(&mut input, index);
    proof {
        assert(input@ =~= child_input(seed@, tag, index));
    }
    let key_seed = digest256(&input);
    keypair(&key_seed)
}

/// Derive the candidate of `scheme` at `index` under `seed`.
pub fn derive_candidate(seed: &Vec<u8>, scheme: Scheme, index: u32) -> (r: Candidate)
    ensures
        r.is_child_of(seed@, scheme, index),
        r.wf(),
{
    let (secret, public) = derive_child(seed, scheme.tag(), index);
    Candidate { scheme, index, secret, public }
}

/// A single address as carried by the ledger: the network discrimination tag
/// followed by the 32-byte public key that owns it.
pub open spec fn address_of(discrimination: u8, public: Seq<u8>) -> Seq<u8> {
    seq![discrimination] + public
}

/// Number of bytes in a single address.
pub const ADDRESS_LEN: usize = 33;

/// Build the address owned by `public` on the network tagged `discrimination`.
pub fn make_address(discrimination: u8, public: &Vec<u8>) -> (r: Vec<u8>)
    requires
        public@.len() == 32,
    ensures
        r@ == address_of(discrimination, public@),
        r@.len() == ADDRESS_LEN,
{
    let mut out: Vec<u8> = Vec::new();
    out.push(discrimination);
    let mut j: usize = 0;
    let n: usize = public.len();
    while j < n
        invariant
            j <= n,
            n == public@.len(),
            out@ == seq![discrimination] + public@.take(j as int),
        decreases n - j,
    {
        out.push(public[j]);
        proof {
            assert(out@ =~= seq![discrimination] + public@.take(j + 1));
        }
        j = j + 1;
    }
    proof {
        assert(out@ =~= address_of(discrimination, public@));
    }
    out
}

} // verus!
