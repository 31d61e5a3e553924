//! The prime field of `2^255 - 19` elements, as integers in `0..p`.
use vstd::prelude::*;
use vstd::arithmetic::div_mod::*;
use vstd::arithmetic::mul::*;
use vstd::arithmetic::power::*;
use vstd::arithmetic::power2::*;

verus! {

/// The field characteristic `2^255 - 19`.
pub open spec fn p() -> int {
    0x7fffffffffffffffffffffffffffffffffffffffffffffffffffffffffffffedint
}

#[verifier::opaque]
pub open spec fn fadd(a: int, b: int) -> int {
    (a + b) % p()
}

#[verifier::opaque]
pub open spec fn fsub(a: int, b: int) -> int {
    (a - b) % p()
}

#[verifier::opaque]
pub open spec fn fneg(a: int) -> int {
    (-a) % p()
}

#[verifier::opaque]
pub open spec fn fmul(a: int, b: int) -> int {
    (a * b) % p()
}

/// The defining equation of field addition.
pub broadcast proof fn lemma_fadd_def(a: int, b: int)
    ensures
        #[trigger] fadd(a, b) == (a + b) % p(),
{
    reveal(fadd);
}

/// The defining equation of field subtraction.
pub broadcast proof fn lemma_fsub_def(a: int, b: int)
    ensures
        #[trigger] fsub(a, b) == (a - b) % p(),
{
    reveal(fsub);
}

/// The defining equation of field negation.
pub broadcast proof fn lemma_fneg_def(a: int)
    ensures
        #[trigger] fneg(a) == (-a) % p(),
{
    reveal(fneg);
}

/// The defining equation of field multiplication.
pub broadcast proof fn lemma_fmul_def(a: int, b: int)
    ensures
        #[trigger] fmul(a, b) == (a * b) % p(),
{
    reveal(fmul);
}

/// The definitions of the field operations.
pub broadcast group group_field_ops {
    lemma_fadd_def,
    lemma_fsub_def,
    lemma_fneg_def,
    lemma_fmul_def,
}

/// The curve constant `d = -121665 / 121666`.
#[verifier::opaque]
pub open spec fn d() -> int {
    0x52036cee2b6ffe738cc740797779e89800700a4d4141d8ab75eb4dca135978a3int
}

/// A square root of `-1`.
#[verifier::opaque]
pub open spec fn sqrt_m1() -> int {
    0x2b8324804fc1df0b2b4d00993dfbd7a72f431806ad2fe478c4ee1b274a0ea0b0int
}

/// Value of five radix-`2^51` limbs.
pub open spec fn limbs_value(l0: int, l1: int, l2: int, l3: int, l4: int) -> int {
    l0 + 0x8000000000000 * l1 + 0x40000000000000000000000000int * l2
        + 0x200000000000000000000000000000000000000int * l3
        + 0x1000000000000000000000000000000000000000000000000000int * l4
}

proof fn lemma_mul_limbs(x: int, b0: int, b1: int, b2: int, b3: int, b4: int)
    ensures
        x * limbs_value(b0, b1, b2, b3, b4) == limbs_value(x * b0, x * b1, x * b2, x * b3, x * b4),
{
    let t1 = 0x8000000000000 * b1;
    let t2 = 0x40000000000000000000000000int * b2;
    let t3 = 0x200000000000000000000000000000000000000int * b3;
    let t4 = 0x1000000000000000000000000000000000000000000000000000int * b4;
    lemma_mul_is_distributive_add(x, b0, t1);
    lemma_mul_is_distributive_add(x, b0 + t1, t2);
    lemma_mul_is_distributive_add(x, b0 + t1 + t2, t3);
    lemma_mul_is_distributive_add(x, b0 + t1 + t2 + t3, t4);
    lemma_mul_is_associative(x, 0x8000000000000, b1);
    lemma_mul_is_associative(0x8000000000000, x, b1);
    lemma_mul_is_associative(x, 0x40000000000000000000000000int, b2);
    lemma_mul_is_associative(0x40000000000000000000000000int, x, b2);
    lemma_mul_is_associative(x, 0x200000000000000000000000000000000000000int, b3);
    lemma_mul_is_associative(0x200000000000000000000000000000000000000int, x, b3);
    lemma_mul_is_associative(x, 0x1000000000000000000000000000000000000000000000000000int, b4);
    lemma_mul_is_associative(0x1000000000000000000000000000000000000000000000000000int, x, b4);
}

/// Schoolbook multiplication of radix-`2^51` limbs, with the upper columns folded back by
/// `2^255 = 19`.
pub proof fn lemma_mul_columns(
    a0: int, a1: int, a2: int, a3: int, a4: int,
    b0: int, b1: int, b2: int, b3: int, b4: int,
)
    ensures
        limbs_value(
            a0 * b0 + 19 * (a1 * b4 + a2 * b3 + a3 * b2 + a4 * b1),
            a0 * b1 + a1 * b0 + 19 * (a2 * b4 + a3 * b3 + a4 * b2),
            a0 * b2 + a1 * b1 + a2 * b0 + 19 * (a3 * b4 + a4 * b3),
            a0 * b3 + a1 * b2 + a2 * b1 + a3 * b0 + 19 * (a4 * b4),
            a0 * b4 + a1 * b3 + a2 * b2 + a3 * b1 + a4 * b0,
        ) % p() == fmul(limbs_value(a0, a1, a2, a3, a4), limbs_value(b0, b1, b2, b3, b4)),
{
    broadcast use group_field_ops;

    let b = limbs_value(b0, b1, b2, b3, b4);
    let a = limbs_value(a0, a1, a2, a3, a4);
    lemma_mul_limbs(a0, b0, b1, b2, b3, b4);
    lemma_mul_limbs(a1, b0, b1, b2, b3, b4);
    lemma_mul_limbs(a2, b0, b1, b2, b3, b4);
    lemma_mul_limbs(a3, b0, b1, b2, b3, b4);
    lemma_mul_limbs(a4, b0, b1, b2, b3, b4);
    lemma_mul_limbs(b, a0, a1, a2, a3, a4);
    let k = (a1 * b4 + a2 * b3 + a3 * b2 + a4 * b1) + 0x8000000000000 * (a2 * b4 + a3 * b3 + a4 * b2)
        + 0x40000000000000000000000000int * (a3 * b4 + a4 * b3)
        + 0x200000000000000000000000000000000000000int * (a4 * b4);
    let c = limbs_value(
            a0 * b0 + 19 * (a1 * b4 + a2 * b3 + a3 * b2 + a4 * b1),
            a0 * b1 + a1 * b0 + 19 * (a2 * b4 + a3 * b3 + a4 * b2),
            a0 * b2 + a1 * b1 + a2 * b0 + 19 * (a3 * b4 + a4 * b3),
            a0 * b3 + a1 * b2 + a2 * b1 + a3 * b0 + 19 * (a4 * b4),
            a0 * b4 + a1 * b3 + a2 * b2 + a3 * b1 + a4 * b0,
        );
    assert(a * b == c + p() * k);
    lemma_mod_multiples_vanish(k, c, p());
}


/// Squaring, with the symmetric products merged.
pub proof fn lemma_square_columns(a0: int, a1: int, a2: int, a3: int, a4: int)
    ensures
        limbs_value(
            a0 * a0 + 19 * ((2 * a1) * a4 + (2 * a2) * a3),
            (2 * a0) * a1 + 19 * ((2 * a2) * a4 + a3 * a3),
            (2 * a0) * a2 + a1 * a1 + 19 * ((2 * a3) * a4),
            (2 * a0) * a3 + (2 * a1) * a2 + 19 * (a4 * a4),
            (2 * a0) * a4 + (2 * a1) * a3 + a2 * a2,
        ) % p() == fmul(limbs_value(a0, a1, a2, a3, a4), limbs_value(a0, a1, a2, a3, a4)),
{
    broadcast use group_field_ops;

    lemma_mul_columns(a0, a1, a2, a3, a4, a0, a1, a2, a3, a4);
    lemma_mul_is_associative(2, a0, a1);
    lemma_mul_is_associative(2, a0, a2);
    lemma_mul_is_associative(2, a0, a3);
    lemma_mul_is_associative(2, a0, a4);
    lemma_mul_is_associative(2, a1, a2);
    lemma_mul_is_associative(2, a1, a3);
    lemma_mul_is_associative(2, a1, a4);
    lemma_mul_is_associative(2, a2, a3);
    lemma_mul_is_associative(2, a2, a4);
    lemma_mul_is_associative(2, a3, a4);
}

/// One carry pass over five columns: every limb but the lowest ends below `2^51`, and the
/// carry out of the top re-enters at the bottom times 19.
pub open spec fn carry_pass(h0: int, h1: int, h2: int, h3: int, h4: int) -> (int, int, int, int, int) {
    let g1 = h1 + h0 / 0x8000000000000;
    let g2 = h2 + g1 / 0x8000000000000;
    let g3 = h3 + g2 / 0x8000000000000;
    let g4 = h4 + g3 / 0x8000000000000;
    (
        h0 % 0x8000000000000 + 19 * (g4 / 0x8000000000000),
        g1 % 0x8000000000000,
        g2 % 0x8000000000000,
        g3 % 0x8000000000000,
        g4 % 0x8000000000000,
    )
}

/// Value of a tuple of limbs.
pub open spec fn tuple_value(l: (int, int, int, int, int)) -> int {
    limbs_value(l.0, l.1, l.2, l.3, l.4)
}

/// A carry pass keeps the field element.
pub proof fn lemma_carry_pass(h0: int, h1: int, h2: int, h3: int, h4: int)
    requires
        0 <= h0,
        0 <= h1,
        0 <= h2,
        0 <= h3,
        0 <= h4,
    ensures
        tuple_value(carry_pass(h0, h1, h2, h3, h4)) % p() == limbs_value(h0, h1, h2, h3, h4) % p(),
        0 <= carry_pass(h0, h1, h2, h3, h4).0,
{
    let g1 = h1 + h0 / 0x8000000000000;
    let g2 = h2 + g1 / 0x8000000000000;
    let g3 = h3 + g2 / 0x8000000000000;
    let g4 = h4 + g3 / 0x8000000000000;
    let c = g4 / 0x8000000000000;
    let out = carry_pass(h0, h1, h2, h3, h4);
    assert(limbs_value(h0, h1, h2, h3, h4) == tuple_value(out) + p() * c);
    lemma_mod_multiples_vanish(c, tuple_value(out), p());
}

/// Field products only depend on the residues of their operands.
pub proof fn lemma_fmul_mod(a: int, b: int)
    ensures
        fmul(a % p(), b % p()) == fmul(a, b),
        fmul(a % p(), b) == fmul(a, b),
        fmul(a, b % p()) == fmul(a, b),
{
    broadcast use group_field_ops;

    lemma_mul_mod_noop(a, b, p());
    lemma_mul_mod_noop_left(a, b, p());
    lemma_mul_mod_noop_right(a, b, p());
}

/// `a^e` in the field.
pub open spec fn fpow(a: int, e: nat) -> int {
    pow(a, e) % p()
}

pub proof fn lemma_fpow_base(a: int)
    ensures
        fpow(a, 0) == 1,
        fpow(a, 1) == a % p(),
        fpow(a, 2) == fmul(a, a),
{
    broadcast use group_field_ops;

    lemma_pow0(a);
    lemma_pow1(a);
    lemma_square_is_pow2(a);
}

/// Exponents add under multiplication.
pub proof fn lemma_fpow_add(a: int, e1: nat, e2: nat)
    ensures
        fmul(fpow(a, e1), fpow(a, e2)) == fpow(a, e1 + e2),
{
    broadcast use group_field_ops;

    lemma_pow_adds(a, e1, e2);
    lemma_fmul_mod(pow(a, e1), pow(a, e2));
}

/// Exponents multiply under iteration.
pub proof fn lemma_fpow_mul(a: int, e1: nat, e2: nat)
    ensures
        fpow(fpow(a, e1), e2) == fpow(a, e1 * e2),
{
    broadcast use group_field_ops;

    lemma_pow_multiplies(a, e1, e2);
    lemma_pow_mod_noop(pow(a, e1), e2, p());
}

/// The exponent `(p - 5) / 8` of square-root candidates.
pub open spec fn p_minus_5_over_8() -> nat {
    0xffffffffffffffffffffffffffffffffffffffffffffffffffffffffffffffdnat
}

/// The exponent `p - 2` of inversion.
pub open spec fn p_minus_2() -> nat {
    0x7fffffffffffffffffffffffffffffffffffffffffffffffffffffffffffffebnat
}

/// `2^k` for the run lengths of the exponentiation chains.
proof fn lemma_chain_pow2()
    ensures
        pow2(2) == 4,
        pow2(5) == 32,
        pow2(10) == 0x400,
        pow2(20) == 0x100000,
        pow2(50) == 0x4000000000000,
        pow2(100) == 0x10000000000000000000000000int,
{
    lemma2_to64();
    lemma2_to64_rest();
    lemma_pow2_adds(50, 50);
}

/// Adding a multiple of `p` to a difference keeps its residue.
pub proof fn lemma_biased_difference(a: int, b: int, k: int)
    ensures
        (a + k * p() - b) % p() == fsub(a % p(), b % p()),
{
    broadcast use group_field_ops;

    lemma_mod_multiples_vanish(k, a - b, p());
    lemma_sub_mod_noop(a, b, p());
}

/// Field sums only depend on the residues of their operands.
pub proof fn lemma_fadd_mod(a: int, b: int)
    ensures
        fadd(a % p(), b % p()) == (a + b) % p(),
{
    broadcast use group_field_ops;

    lemma_add_mod_noop(a, b, p());
}

/// One step of an exponentiation chain: `(z^e)^k * z^f = z^g` where `g = e * k + f`.
proof fn lemma_chain_step(z: int, e: nat, k: nat, f: nat, g: nat)
    requires
        g == e * k + f,
    ensures
        fmul(fpow(fpow(z, e), k), fpow(z, f)) == fpow(z, g),
{
    broadcast use group_field_ops;

    lemma_fpow_mul(z, e, k);
    lemma_fpow_add(z, e * k, f);
}

/// `2^250 - 1`, the power that the chains for `(p - 5) / 8` and `p - 2` share.
pub open spec fn chain_exponent() -> nat {
    0x3ffffffffffffffffffffffffffffffffffffffffffffffffffffffffffffffnat
}

/// The part that the chains for `(p - 5) / 8` and `p - 2` share: from the products and repeated
/// squarings it follows that `t2` is the power 11 and `t10` the power `2^250 - 1`.
pub proof fn lemma_shared_chain(
    z: int,
    t0: int,
    t1: int,
    t2: int,
    t3: int,
    t4: int,
    t5: int,
    t6: int,
    t7: int,
    t8: int,
    t9: int,
    t10: int,
)
    requires
        0 <= z < p(),
        t0 == fmul(z, z),
        t1 == fmul(fpow(t0, pow2(2)), z),
        t2 == fmul(t0, t1),
        t3 == fmul(fmul(t2, t2), t1),
        t4 == fmul(fpow(t3, pow2(5)), t3),
        t5 == fmul(fpow(t4, pow2(10)), t4),
        t6 == fmul(fpow(t5, pow2(20)), t5),
        t7 == fmul(fpow(t6, pow2(10)), t4),
        t8 == fmul(fpow(t7, pow2(50)), t7),
        t9 == fmul(fpow(t8, pow2(100)), t8),
        t10 == fmul(fpow(t9, pow2(50)), t7),
    ensures
        t2 == fpow(z, 0xb),
        t10 == fpow(z, chain_exponent()),
{
    lemma_chain_pow2();
    lemma_fpow_base(z);
    lemma_small_residue(z);
    lemma_chain_step(z, 0x2nat, 0x4nat, 0x1nat, 0x9nat);
    lemma_fpow_add(z, 0x2nat, 0x9nat);
    lemma_fpow_add(z, 0xbnat, 0xbnat);
    lemma_fpow_add(z, 0x16nat, 0x9nat);
    assert(t3 == fpow(z, 0x1fnat));
    lemma_chain_step(z, 0x1fnat, 0x20nat, 0x1fnat, 0x3ffnat);
    lemma_chain_step(z, 0x3ffnat, 0x400nat, 0x3ffnat, 0xfffffnat);
    lemma_chain_step(z, 0xfffffnat, 0x100000nat, 0xfffffnat, 0xffffffffffnat);
    lemma_chain_step(z, 0xffffffffffnat, 0x400nat, 0x3ffnat, 0x3ffffffffffffnat);
    assert(t7 == fpow(z, 0x3ffffffffffffnat));
    lemma_chain_step(
        z,
        0x3ffffffffffffnat,
        0x4000000000000nat,
        0x3ffffffffffffnat,
        0xfffffffffffffffffffffffffnat,
    );
    lemma_chain_step(
        z,
        0xfffffffffffffffffffffffffnat,
        0x10000000000000000000000000nat,
        0xfffffffffffffffffffffffffnat,
        0xffffffffffffffffffffffffffffffffffffffffffffffffffnat,
    );
    lemma_chain_step(
        z,
        0xffffffffffffffffffffffffffffffffffffffffffffffffffnat,
        0x4000000000000nat,
        0x3ffffffffffffnat,
        0x3ffffffffffffffffffffffffffffffffffffffffffffffffffffffffffffffnat,
    );
}

/// The ends of the chains: from the powers 11 and `2^250 - 1` to `(p - 5) / 8` and to `p - 2`.
pub proof fn lemma_chain_ends(z: int)
    requires
        0 <= z < p(),
    ensures
        fmul(fpow(fpow(z, chain_exponent()), pow2(2)), z) == fpow(z, p_minus_5_over_8()),
        fmul(fpow(fpow(z, chain_exponent()), pow2(5)), fpow(z, 0xb)) == fpow(z, p_minus_2()),
{
    lemma_chain_pow2();
    lemma_fpow_base(z);
    lemma_small_residue(z);
    lemma_chain_step(z, chain_exponent(), 0x4nat, 0x1nat, p_minus_5_over_8());
    lemma_chain_step(z, chain_exponent(), 0x20nat, 0xbnat, p_minus_2());
}

/// Carry of a double-width column `l + 2^52 * h` out of its lowest 51 bits.
pub open spec fn column_carry(l: int, h: int) -> int {
    (l + 0x10000000000000 * h) / 0x8000000000000
}

/// Bounds of a column carry, and the low part that stays behind.
pub proof fn lemma_column_carry(l: int, h: int)
    requires
        0 <= l,
        0 <= h,
    ensures
        column_carry(l, h) == l / 0x8000000000000 + 2 * h,
        (l + 0x10000000000000 * h) % 0x8000000000000 == l % 0x8000000000000,
{
}

/// A carry pass over double-width columns `l_k + 2^52 * h_k` keeps the field element, and
/// leaves the lowest limb below `2^60`.
pub proof fn lemma_column_pass(
    l0: int,
    h0: int,
    l1: int,
    h1: int,
    l2: int,
    h2: int,
    l3: int,
    h3: int,
    l4: int,
    h4: int,
    m1: int,
    m2: int,
    m3: int,
    m4: int,
    c4: int,
)
    requires
        0 <= l0 <= 80 * 0x10000000000000,
        0 <= h0 <= 80 * 0x10000000000000,
        0 <= l1 <= 80 * 0x10000000000000,
        0 <= h1 <= 80 * 0x10000000000000,
        0 <= l2 <= 80 * 0x10000000000000,
        0 <= h2 <= 80 * 0x10000000000000,
        0 <= l3 <= 80 * 0x10000000000000,
        0 <= h3 <= 80 * 0x10000000000000,
        0 <= l4 <= 5 * 0x10000000000000,
        0 <= h4 <= 5 * 0x10000000000000,
        m1 == l1 + column_carry(l0, h0),
        m2 == l2 + column_carry(m1, h1),
        m3 == l3 + column_carry(m2, h2),
        m4 == l4 + column_carry(m3, h3),
        c4 == column_carry(m4, h4),
    ensures
        limbs_value(
            l0 % 0x8000000000000 + 19 * c4,
            m1 % 0x8000000000000,
            m2 % 0x8000000000000,
            m3 % 0x8000000000000,
            m4 % 0x8000000000000,
        ) % p() == limbs_value(
            l0 + 0x10000000000000 * h0,
            l1 + 0x10000000000000 * h1,
            l2 + 0x10000000000000 * h2,
            l3 + 0x10000000000000 * h3,
            l4 + 0x10000000000000 * h4,
        ) % p(),
        0 <= c4 < 11 * 0x10000000000000,
{
    lemma_column_carry(l0, h0);
    assert(0 <= m1 <= 250 * 0x10000000000000);
    lemma_column_carry(m1, h1);
    assert(0 <= m2 <= 250 * 0x10000000000000);
    lemma_column_carry(m2, h2);
    assert(0 <= m3 <= 250 * 0x10000000000000);
    lemma_column_carry(m3, h3);
    assert(0 <= m4 <= 250 * 0x10000000000000);
    lemma_column_carry(m4, h4);
    assert(carry_pass(
        l0 + 0x10000000000000 * h0,
        l1 + 0x10000000000000 * h1,
        l2 + 0x10000000000000 * h2,
        l3 + 0x10000000000000 * h3,
        l4 + 0x10000000000000 * h4,
    ) == (
        l0 % 0x8000000000000 + 19 * c4,
        m1 % 0x8000000000000,
        m2 % 0x8000000000000,
        m3 % 0x8000000000000,
        m4 % 0x8000000000000,
    ));
    lemma_carry_pass(
        l0 + 0x10000000000000 * h0,
        l1 + 0x10000000000000 * h1,
        l2 + 0x10000000000000 * h2,
        l3 + 0x10000000000000 * h3,
        l4 + 0x10000000000000 * h4,
    );
}

/// Values in `0..p` are their own residues, also after adding `p`.
pub proof fn lemma_small_residue(v: int)
    requires
        0 <= v < p(),
    ensures
        v % p() == v,
        (v + p()) % p() == v,
{
    lemma_small_mod(v as nat, p() as nat);
    lemma_mod_multiples_vanish(1, v, p());
}

/// The parity of a value is the parity of its lowest limb.
pub proof fn lemma_limbs_parity(l0: int, l1: int, l2: int, l3: int, l4: int)
    ensures
        limbs_value(l0, l1, l2, l3, l4) % 2 == l0 % 2,
{
}

/// Two residues agree exactly when their field difference is zero.
pub proof fn lemma_difference_zero(a: int, b: int)
    ensures
        (fsub(a % p(), b % p()) == 0) == (a % p() == b % p()),
{
    broadcast use group_field_ops;

}

/// Congruent factors have congruent products.
pub proof fn lemma_cong_mul(a: int, a2: int, b: int, b2: int)
    requires
        a % p() == a2 % p(),
        b % p() == b2 % p(),
    ensures
        (a * b) % p() == (a2 * b2) % p(),
{
    lemma_mul_mod_noop(a, b, p());
    lemma_mul_mod_noop(a2, b2, p());
}

/// A multiple of a vanishing element vanishes.
pub proof fn lemma_zero_mul(h: int, c: int)
    requires
        h % p() == 0,
    ensures
        (h * c) % p() == 0,
        (c * h) % p() == 0,
{
    lemma_mul_mod_noop_left(h, c, p());
    lemma_mul_is_commutative(h, c);
}

/// Residues agree exactly when the difference vanishes.
pub proof fn lemma_cong_diff(a: int, b: int)
    ensures
        (a % p() == b % p()) == ((a - b) % p() == 0),
{
    lemma_mod_equivalence(a, b, p());
}

/// An element vanishes exactly when its negation does.
pub proof fn lemma_zero_neg(a: int)
    ensures
        (a % p() == 0) == ((-a) % p() == 0),
{
}

/// Sums and differences of vanishing elements vanish.
pub proof fn lemma_zero_add(a: int, b: int)
    requires
        a % p() == 0,
        b % p() == 0,
    ensures
        (a + b) % p() == 0,
        (a - b) % p() == 0,
{
}

/// Congruent operands have congruent sums and differences.
pub proof fn lemma_cong_sub(a: int, a2: int, b: int, b2: int)
    requires
        a % p() == a2 % p(),
        b % p() == b2 % p(),
    ensures
        (a - b) % p() == (a2 - b2) % p(),
        (a + b) % p() == (a2 + b2) % p(),
{
}

/// The negation of a reduced element.
pub proof fn lemma_neg_residue(a: int)
    requires
        0 <= a < p(),
    ensures
        0 <= fneg(a) < p(),
        fneg(a) % p() == (-a) % p(),
        fneg(fneg(a)) == a,
{
    broadcast use group_field_ops;

}

/// Differences of several elements, grouped in two ways.
pub proof fn lemma_difference_forms(a: int, b: int, c: int, s: int)
    ensures
        fsub(fsub(s, a), b) == fsub(s, fadd(a, b)),
        fadd(fneg(a), b) == fsub(b, a),
        fsub(fsub(b, a), c) == fsub(b, fadd(a, c)),
        fsub(fneg(a), b) == fneg(fadd(a, b)),
{
    broadcast use group_field_ops;

    lemma_sub_mod_noop_left(s - a, b);
    lemma_sub_mod_noop_right(s, a + b);
    lemma_sub_mod_noop_left(b - a, c);
    lemma_sub_mod_noop_right(b, a + c);
    lemma_sub_mod_noop_left(-a, -b);
    lemma_sub_mod_noop_left(-a, b);
    lemma_sub_mod_noop_right(0, a + b);
}

proof fn lemma_sub_mod_noop_left(a: int, b: int)
    ensures
        (a % p() - b) % p() == (a - b) % p(),
{
}

proof fn lemma_sub_mod_noop_right(a: int, b: int)
    ensures
        (a - b % p()) % p() == (a - b) % p(),
{
}

/// Subtracting from zero negates.
pub proof fn lemma_negated(x: int)
    ensures
        fsub(0, x) == fneg(x),
        fsub(0int % p(), x) == fneg(x),
{
    broadcast use group_field_ops;

}

/// The limbs of the curve constants.
pub proof fn lemma_constant_limbs()
    ensures
        limbs_value(0x34dca135978a3, 0x1a8283b156ebd, 0x5e7a26001c029, 0x739c663a03cbb, 0x52036cee2b6ff) % p() == d(),
        limbs_value(0x69b9426b2f159, 0x35050762add7a, 0x3cf44c0038052, 0x6738cc7407977, 0x2406d9dc56dff) % p() == fadd(d(), d()),
        limbs_value(0x61b274a0ea0b0, 0xd5a5fc8f189d, 0x7ef5e9cbd0c60, 0x78595a6804c9e, 0x2b8324804fc1d) % p() == sqrt_m1(),
{
    broadcast use group_field_ops;

    reveal(d);
    reveal(sqrt_m1);
}

} // verus!
