//! Laws of the prime field that rest on the primality of `p`.
use crate::certificate;
use crate::fp;
use crate::prime;
use vstd::arithmetic::div_mod::*;
use vstd::arithmetic::mul::*;
use vstd::arithmetic::power::*;
use vstd::prelude::*;

verus! {

broadcast use fp::group_field_ops;

/// The inverse of a nonzero element, as a power.
pub open spec fn finv(a: int) -> int {
    fp::fpow(a, fp::p_minus_2())
}

/// A product vanishes only when one of its factors does.
pub proof fn lemma_no_zero_divisors(a: int, b: int)
    requires
        (a * b) % fp::p() == 0,
    ensures
        a % fp::p() == 0 || b % fp::p() == 0,
{
    certificate::lemma_p_is_prime();
    prime::lemma_euclid(a, b, fp::p());
}

/// `a^(p-1) = 1` for a nonzero element.
pub proof fn lemma_fermat(a: int)
    requires
        a % fp::p() != 0,
    ensures
        fp::fpow(a, (fp::p() - 1) as nat) == 1,
{
    certificate::lemma_p_is_prime();
    prime::lemma_fermat(a, fp::p());
}

/// A nonzero element times its inverse is one.
pub proof fn lemma_inverse(a: int)
    requires
        a % fp::p() != 0,
    ensures
        fp::fmul(a, finv(a)) == 1,
        finv(a) % fp::p() != 0,
{
    lemma_fermat(a);
    fp::lemma_fpow_base(a);
    fp::lemma_fpow_add(a, 1, fp::p_minus_2());
    fp::lemma_fmul_mod(a, finv(a));
    if finv(a) % fp::p() == 0 {
        fp::lemma_zero_mul(finv(a), a);
    }
}

/// Cancels a nonzero factor.
pub proof fn lemma_cancel(a: int, b: int, c: int)
    requires
        c % fp::p() != 0,
        (a * c) % fp::p() == (b * c) % fp::p(),
    ensures
        a % fp::p() == b % fp::p(),
{
    fp::lemma_cong_diff(a * c, b * c);
    lemma_mul_is_distributive_sub_other_way(c, a, b);
    lemma_no_zero_divisors(a - b, c);
    fp::lemma_cong_diff(a, b);
}

/// The curve constant is not a square: `d * w^2 = v^2` forces `w = 0`.
pub proof fn lemma_d_nonsquare(w: int, v: int)
    requires
        (fp::d() * (w * w)) % fp::p() == (v * v) % fp::p(),
    ensures
        w % fp::p() == 0,
{
    let h = 0x3ffffffffffffffffffffffffffffffffffffffffffffffffffffffffffffff6nat;
    let d = fp::d();
    assert(d % fp::p() != 0) by {
        reveal(fp::d);
    }
    if w % fp::p() != 0 {
        if v % fp::p() == 0 {
            fp::lemma_zero_mul(v, v);
            lemma_no_zero_divisors(d, w * w);
            lemma_no_zero_divisors(w, w);
        }
        certificate::lemma_d_euler();
        lemma_fermat(w);
        lemma_fermat(v);
        // both sides to the power (p - 1) / 2
        lemma_square_is_pow2(w);
        lemma_square_is_pow2(v);
        lemma_pow_multiplies(w, 2, h);
        lemma_pow_multiplies(v, 2, h);
        lemma_pow_distributes(d, w * w, h);
        lemma_pow_mod_noop(d * (w * w), h, fp::p());
        lemma_pow_mod_noop(v * v, h, fp::p());
        lemma_mul_mod_noop(pow(d, h), pow(w * w, h), fp::p());
        assert((fp::p() - 1) * 1 % fp::p() == fp::p() - 1);
    }
}

/// `-1` is the square of [`fp::sqrt_m1`].
pub proof fn lemma_sqrt_m1()
    ensures
        (fp::sqrt_m1() * fp::sqrt_m1() + 1) % fp::p() == 0,
        fp::sqrt_m1() % fp::p() != 0,
{
    reveal(fp::sqrt_m1);
}

} // verus!
