//! Modular exponentiation by repeated squaring.
use vstd::prelude::*;
use vstd::arithmetic::power::{pow, lemma_pow0, lemma_pow1, lemma_pow_adds, lemma_pow_multiplies, lemma_pow_mod_noop};
use vstd::arithmetic::div_mod::{lemma_mul_mod_noop_left, lemma_mul_mod_noop_right, lemma_mod_bound, lemma_small_mod};

verus! {

/// `base` raised to `exp`, reduced modulo `modulus`.
pub open spec fn mod_pow(base: int, exp: nat, modulus: int) -> int {
    pow(base, exp) % modulus
}

/// One squaring step: `b^e == b^(e % 2) * (b*b)^(e / 2)`.
proof fn lemma_pow_halve(b: int, e: nat)
    ensures
        pow(b, e) == pow(b, e % 2) * pow(b * b, e / 2),
{
    let h = e / 2;
    let r = e % 2;
    assert(e == 2 * h + r);
    lemma_pow_adds(b, (2 * h) as nat, r as nat);
    lemma_pow_multiplies(b, 2, h as nat);
    assert(pow(b, 2) == b * b) by {
        lemma_pow1(b);
        lemma_pow_adds(b, 1, 1);
    }
    assert(pow(b, (2 * h) as nat) * pow(b, r as nat) == pow(b, r as nat) * pow(b, (2 * h) as nat))
        by (nonlinear_arith);
}

/// The loop invariant of `mod_exp` is kept by one step.
proof fn lemma_square_step(acc: int, b: int, e: nat, m: int)
    requires
        m > 0,
    ensures
        (acc * pow(b, e)) % m == (((if e % 2 == 1 { (acc * b) % m } else { acc })) * pow(
            (b * b) % m,
            e / 2,
        )) % m,
{
    lemma_pow_halve(b, e);
    let q = pow(b * b, e / 2);
    let q2 = pow((b * b) % m, e / 2);
    lemma_pow_mod_noop(b * b, e / 2, m);
    assert(q2 % m == q % m);
    let a2 = if e % 2 == 1 { (acc * b) % m } else { acc };
    let a1 = if e % 2 == 1 { acc * b } else { acc };
    if e % 2 == 1 {
        lemma_pow1(b);
        lemma_mul_mod_noop_left(acc * b, q2, m);
    } else {
        lemma_pow0(b);
    }
    assert((a2 * q2) % m == (a1 * q2) % m);
    lemma_mul_mod_noop_right(a1, q2, m);
    lemma_mul_mod_noop_right(a1, q, m);
    assert((a1 * q2) % m == (a1 * q) % m);
    assert(acc * pow(b, e) == a1 * q) by {
        assert(acc * (pow(b, e % 2) * q) == (acc * pow(b, e % 2)) * q) by (nonlinear_arith);
    }
}

/// Computes `base^exp mod modulus` with 128-bit intermediates, so that no
/// product of two residues can overflow.
pub fn mod_exp(base: u64, exp: u64, modulus: u64) -> (r: u64)
    requires
        modulus > 0,
    ensures
        r as int == mod_pow(base as int, exp as nat, modulus as int),
{
    let m: u128 = modulus as u128;
    let mut result: u128 = 1u128 % m;
    let mut b: u128 = (base as u128) % m;
    let mut e: u64 = exp;
    proof {
        lemma_pow_mod_noop(base as int, exp as nat, m as int);
        lemma_mod_bound(1, m as int);
        lemma_mul_mod_noop_left(1, pow(b as int, exp as nat), m as int);
    }
    while e > 0
        invariant
            m == modulus as u128,
            m > 0,
            result < m,
            b < m,
            (result * pow(b as int, e as nat)) % (m as int) == mod_pow(
                base as int,
                exp as nat,
                m as int,
            ),
        decreases e,
    {
        proof {
            lemma_square_step(result as int, b as int, e as nat, m as int);
            assert(result * b <= (m - 1) * (m - 1)) by (nonlinear_arith)
                requires result < m, b < m;
            assert(b * b <= (m - 1) * (m - 1)) by (nonlinear_arith)
                requires b < m;
            assert((m - 1) * (m - 1) < 0x1_0000_0000_0000_0000_0000_0000_0000_0000) by (nonlinear_arith)
                requires m <= 0xffff_ffff_ffff_ffff;
        }
        if e % 2 == 1 {
            result = (result * b) % m;
        }
        e = e / 2;
        b = (b * b) % m;
    }
    proof {
        lemma_pow0(b as int);
        lemma_small_mod(result as nat, m as nat);
    }
    result as u64
}

} // verus!
