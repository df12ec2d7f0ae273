//! Diffie-Hellman parameters, key pairs and the shared secret.
use vstd::prelude::*;
use vstd::arithmetic::power::{pow, lemma_pow_multiplies, lemma_pow_mod_noop};
use vstd::arithmetic::mul::lemma_mul_is_commutative;
use crate::modexp::{mod_exp, mod_pow};

verus! {

/// The fixed public 64-bit modulus.
pub const P: u64 = 0xD87FA3E291B4C7F3;

/// The fixed public generator.
pub const G: u64 = 2;

/// The public group parameters that both peers share.
#[derive(Clone, Copy, Debug, PartialEq, Eq, Structural)]
pub struct DhParameters {
    pub modulus: u64,
    pub generator: u64,
}

impl DhParameters {
    /// Parameters are usable when the modulus is not zero.
    pub open spec fn wf(&self) -> bool {
        self.modulus > 0
    }

    /// The fixed parameter set: modulus `P`, generator `G`.
    pub fn standard() -> (r: DhParameters)
        ensures
            r.modulus == P,
            r.generator == G,
            r.wf(),
    {
        DhParameters { modulus: P, generator: G }
    }
}

/// A private scalar and the public value derived from it.
#[derive(Clone, Copy, Debug, PartialEq, Eq, Structural)]
pub struct KeyPair {
    pub private: u64,
    pub public: u64,
}

/// The public value that belongs to `private` under `params`.
pub open spec fn public_of(params: DhParameters, private: u64) -> int {
    mod_pow(params.generator as int, private as nat, params.modulus as int)
}

/// The secret that a peer holding `own_private` derives from `peer_public`.
pub open spec fn secret_of(params: DhParameters, own_private: u64, peer_public: u64) -> int {
    mod_pow(peer_public as int, own_private as nat, params.modulus as int)
}

/// The value that a clock reading in nanoseconds folds to: its high 64 bits
/// XORed onto its low 64 bits.
pub open spec fn fold_nanos(nanos: u128) -> u64 {
    (nanos ^ (nanos >> 64u128)) as u64
}

/// A private scalar derived from a clock reading in nanoseconds since the
/// Unix epoch. The reading is taken by the caller, so that it can be fixed.
pub fn generate_random(clock_nanos: u128) -> (r: u64)
    ensures
        r == fold_nanos(clock_nanos),
{
    let folded: u128 = clock_nanos ^ (clock_nanos >> 64u128);
    assert((folded & 0xFFFF_FFFF_FFFF_FFFFu128) as u64 == folded as u64) by (bit_vector);
    (folded & 0xFFFF_FFFF_FFFF_FFFFu128) as u64
}

/// The key pair for a given private scalar.
pub fn generate_keypair(params: &DhParameters, private: u64) -> (k: KeyPair)
    requires
        params.wf(),
    ensures
        k.private == private,
        k.public as int == public_of(*params, private),
{
    KeyPair { private, public: mod_exp(params.generator, private, params.modulus) }
}

/// The shared secret `peer_public ^ own_private mod modulus`.
pub fn compute_shared_secret(params: &DhParameters, own_private: u64, peer_public: u64) -> (s: u64)
    requires
        params.wf(),
    ensures
        s as int == secret_of(*params, own_private, peer_public),
{
    mod_exp(peer_public, own_private, params.modulus)
}

/// Both peers derive the same secret: whatever the two private scalars, the
/// secret that one computes from the other's public value equals the secret
/// that the other computes from the first one's.
pub proof fn lemma_handshake_agreement(params: DhParameters, priv_a: u64, priv_b: u64)
    requires
        params.wf(),
    ensures
        0 <= public_of(params, priv_a) <= u64::MAX,
        0 <= public_of(params, priv_b) <= u64::MAX,
        secret_of(params, priv_a, public_of(params, priv_b) as u64) == secret_of(
            params,
            priv_b,
            public_of(params, priv_a) as u64,
        ),
{
    let m = params.modulus as int;
    let g = params.generator as int;
    let a = priv_a as nat;
    let b = priv_b as nat;
    lemma_pow_mod_noop(pow(g, a), b, m);
    lemma_pow_mod_noop(pow(g, b), a, m);
    lemma_pow_multiplies(g, a, b);
    lemma_pow_multiplies(g, b, a);
    lemma_mul_is_commutative(a as int, b as int);
}

} // verus!
