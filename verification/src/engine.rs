//! Square-and-multiply exponentiation modulo a 64-bit modulus.

use crate::error::ModexpError;
use vstd::arithmetic::div_mod::{lemma_mod_bound, lemma_mul_mod_noop, lemma_small_mod};
use vstd::arithmetic::power::{
    lemma_pow0, lemma_pow_mod_noop, lemma_pow_multiplies, lemma_square_is_pow2, pow,
};
use vstd::prelude::*;

verus! {

/// The residue of `x` to the power `y`, modulo a positive `m`.
pub open spec fn mod_pow(x: nat, y: nat, m: nat) -> nat
    recommends
        m > 0,
{
    (pow(x as int, y) % (m as int)) as nat
}

/// What `modexp` answers on each triple of operands: a zero modulus is
/// refused, and every other triple has the residue of the power.
pub open spec fn modexp_spec(x: u64, y: u64, m: u64) -> Result<u64, ModexpError> {
    if m == 0 {
        Err(ModexpError::InvalidModulus)
    } else {
        Ok(mod_pow(x as nat, y as nat, m as nat) as u64)
    }
}

/// Products are congruent when their factors are.
proof fn lemma_mul_congruent(a: int, b: int, c: int, d: int, m: int)
    requires
        m > 0,
        a % m == c % m,
        b % m == d % m,
    ensures
        (a * b) % m == (c * d) % m,
{
    lemma_mul_mod_noop(a, b, m);
    lemma_mul_mod_noop(c, d, m);
}

/// A positive exponent is halved by squaring the base; an odd one leaves
/// one factor of the base over.
proof fn lemma_pow_halve(x: int, y: nat)
    requires
        y > 0,
    ensures
        pow(x, y) == if y % 2 == 1 {
            x * pow(x * x, y / 2)
        } else {
            pow(x * x, y / 2)
        },
{
    lemma_square_is_pow2(x);
    lemma_pow_multiplies(x, 2, y / 2);
    if y % 2 == 1 {
        assert(2 * (y / 2) == y - 1);
        reveal(pow);
    } else {
        assert(2 * (y / 2) == y);
    }
}

/// One round of the loop keeps `z * x^y` in its residue class: the low bit
/// of `y` is folded into `z`, `x` is squared and `y` is halved.
proof fn lemma_round(z: int, x: int, y: nat, m: int)
    requires
        m > 0,
        y > 0,
    ensures
        y % 2 == 1 ==> (((z * x) % m) * pow((x * x) % m, y / 2)) % m == (z * pow(x, y)) % m,
        y % 2 == 0 ==> (z * pow((x * x) % m, y / 2)) % m == (z * pow(x, y)) % m,
{
    let half = y / 2;
    lemma_pow_halve(x, y);
    lemma_pow_mod_noop(x * x, half, m);
    if y % 2 == 1 {
        assert(((z * x) % m) % m == (z * x) % m) by {
            lemma_small_mod(((z * x) % m) as nat, m as nat);
        }
        lemma_mul_congruent((z * x) % m, pow((x * x) % m, half), z * x, pow(x * x, half), m);
        assert((z * x) * pow(x * x, half) == z * (x * pow(x * x, half))) by (nonlinear_arith);
    } else {
        lemma_mul_congruent(z, pow((x * x) % m, half), z, pow(x * x, half), m);
    }
}

/// Computes `x^y mod m`.
///
/// A zero modulus is refused before any arithmetic. For every other modulus
/// the answer is the residue of the mathematical power, whatever the size
/// of `x` and `y`: the base need not be below the modulus.
pub fn modexp(x: u64, y: u64, m: u64) -> (result: Result<u64, ModexpError>)
    ensures
        result == modexp_spec(x, y, m),
        result is Err <==> m == 0,
{
    if m == 0 {
        return Err(ModexpError::InvalidModulus);
    }
    if m == 1 {
        return Ok(0);
    }
    let ghost base = x as int;
    let ghost exponent = y as nat;

    let mut z: u128 = 1;
    let mut x = u128::from(x);
    let mut y = u128::from(y);
    let m = u128::from(m);

    while y > 0
        invariant
            2 <= m <= u64::MAX,
            z < m,
            x <= u64::MAX,
            (z * pow(x as int, y as nat)) % (m as int) == pow(base, exponent) % (m as int),
        decreases y,
    {
        proof {
            lemma_round(z as int, x as int, y as nat, m as int);
            assert(z * x <= u128::MAX) by (nonlinear_arith)
                requires
                    z < 0x1_0000_0000_0000_0000,
                    x < 0x1_0000_0000_0000_0000,
            ;
            assert(x * x <= u128::MAX) by (nonlinear_arith)
                requires
                    x < 0x1_0000_0000_0000_0000,
            ;
        }
        if y % 2 == 1 {
            z = (z * x) % m;
        }
        y /= 2;
        x = (x * x) % m;
    }
    proof {
        lemma_pow0(x as int);
        lemma_small_mod(z as nat, m as nat);
    }
    Ok(u64::try_from(z).unwrap())
}

/// With exponent zero the answer is `1 % m`, whatever the base, for every
/// modulus of at least two.
pub proof fn law_zero_exponent(x: u64, m: u64)
    requires
        m >= 2,
    ensures
        modexp_spec(x, 0, m) == Ok::<u64, ModexpError>((1int % (m as int)) as u64),
{
    lemma_pow0(x as int);
}

/// Modulo one the answer is zero, whatever the base and the exponent.
pub proof fn law_modulus_one(x: u64, y: u64)
    ensures
        modexp_spec(x, y, 1) == Ok::<u64, ModexpError>(0),
{
}

/// For a positive modulus there is an answer, and it lies below the modulus.
pub proof fn law_result_below_modulus(x: u64, y: u64, m: u64)
    requires
        m >= 1,
    ensures
        modexp_spec(x, y, m) is Ok,
        0 <= modexp_spec(x, y, m)->Ok_0 < m,
        modexp_spec(x, y, m)->Ok_0 == mod_pow(x as nat, y as nat, m as nat),
{
    lemma_mod_bound(pow(x as int, y as nat), m as int);
}

/// Reducing the base modulo `m` beforehand does not change the answer.
pub proof fn law_base_reduction(x: u64, y: u64, m: u64)
    ensures
        modexp_spec(x, y, m) == modexp_spec((x % m) as u64, y, m),
{
    if m > 0 {
        lemma_pow_mod_noop(x as int, y as nat, m as int);
    }
}

/// A zero modulus is refused, whatever the base and the exponent: no number
/// is ever returned for it.
pub proof fn law_zero_modulus(x: u64, y: u64)
    ensures
        modexp_spec(x, y, 0) == Err::<u64, ModexpError>(ModexpError::InvalidModulus),
{
}

} // verus!
