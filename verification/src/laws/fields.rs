//! Field elements, from limbs to bytes.
use crate::bytes;
use crate::encoding;
use crate::field::Fe51;
use crate::field_laws;
use crate::fp;
use vstd::arithmetic::div_mod::*;
use vstd::arithmetic::power::*;
use vstd::arithmetic::power2::*;
use vstd::prelude::*;

verus! {

/// What the field operations do, read off the bytes of their results: for limbs below `2^52` with
/// the values `u` and `v`, the bytes hold the residue of `u + v`, `u - v`, `u v`, `u^2`, `2 u`,
/// `-u`, the inverse of `u` (zero for zero), and `u` itself.
pub proof fn lemma_operations(x: Fe51, y: Fe51)
    requires
        forall|k: int| 0 <= k < 5 ==> #[trigger] x.limbs[k] < 0x10000000000000,
        forall|k: int| 0 <= k < 5 ==> #[trigger] y.limbs[k] < 0x10000000000000,
    ensures
        ({
            let p = 0x7fffffffffffffffffffffffffffffffffffffffffffffffffffffffffffffedint;
            let u = x.limbs[0] + 0x8000000000000 * x.limbs[1] + 0x40000000000000000000000000int * x.limbs[2]
                + 0x200000000000000000000000000000000000000int * x.limbs[3]
                + 0x1000000000000000000000000000000000000000000000000000int * x.limbs[4];
            let v = y.limbs[0] + 0x8000000000000 * y.limbs[1] + 0x40000000000000000000000000int * y.limbs[2]
                + 0x200000000000000000000000000000000000000int * y.limbs[3]
                + 0x1000000000000000000000000000000000000000000000000000int * y.limbs[4];
            &&& forall|r: Fe51, b: [u8; 32]| #[trigger]
                call_ensures(Fe51::add, (&x, &y), r) && #[trigger] call_ensures(Fe51::to_bytes, (&r,), b)
                    ==> bytes::le_value(b@) == (u + v) % p
            &&& forall|r: Fe51, b: [u8; 32]| #[trigger]
                call_ensures(Fe51::subtract, (&x, &y), r) && #[trigger] call_ensures(Fe51::to_bytes, (&r,), b)
                    ==> bytes::le_value(b@) == (u - v) % p
            &&& forall|r: Fe51, b: [u8; 32]| #[trigger]
                call_ensures(Fe51::multiply, (&x, &y), r) && #[trigger] call_ensures(Fe51::to_bytes, (&r,), b)
                    ==> bytes::le_value(b@) == (u * v) % p
            &&& forall|r: Fe51, b: [u8; 32]| #[trigger]
                call_ensures(Fe51::square, (&x,), r) && #[trigger] call_ensures(Fe51::to_bytes, (&r,), b)
                    ==> bytes::le_value(b@) == (u * u) % p
            &&& forall|r: Fe51, b: [u8; 32]| #[trigger]
                call_ensures(Fe51::double, (&x,), r) && #[trigger] call_ensures(Fe51::to_bytes, (&r,), b)
                    ==> bytes::le_value(b@) == (2 * u) % p
            &&& forall|r: Fe51, b: [u8; 32]| #[trigger]
                call_ensures(Fe51::negate, (&x,), r) && #[trigger] call_ensures(Fe51::to_bytes, (&r,), b)
                    ==> bytes::le_value(b@) == (-u) % p
            &&& forall|r: Fe51, b: [u8; 32]| #[trigger]
                call_ensures(Fe51::invert, (&x,), r) && #[trigger] call_ensures(Fe51::to_bytes, (&r,), b)
                    ==> if u % p == 0 {
                    bytes::le_value(b@) == 0
                } else {
                    0 <= bytes::le_value(b@) < p && (u * bytes::le_value(b@)) % p == 1
                }
            &&& forall|r: Fe51, b: [u8; 32]| #[trigger]
                call_ensures(Fe51::canonical, (&x,), r) && #[trigger] call_ensures(Fe51::to_bytes, (&r,), b)
                    ==> bytes::le_value(b@) == u % p
            &&& x.value() == u
            &&& x.fe() == u % p
            &&& forall|b: [u8; 32]| #[trigger]
                call_ensures(Fe51::to_bytes, (&x,), b) ==> bytes::le_value(b@) == u % p
            &&& forall|r: bool| #[trigger] call_ensures(Fe51::equals, (&x, &y), r) ==> r == ((u - v) % p == 0)
            &&& forall|r: bool| #[trigger] call_ensures(Fe51::is_odd, (&x,), r) ==> r == ((u % p) % 2 == 1)
        }),
{
    assert(x.limbs[0] < 0x10000000000000 && x.limbs[1] < 0x10000000000000 && x.limbs[2] < 0x10000000000000
        && x.limbs[3] < 0x10000000000000 && x.limbs[4] < 0x10000000000000);
    assert(y.limbs[0] < 0x10000000000000 && y.limbs[1] < 0x10000000000000 && y.limbs[2] < 0x10000000000000
        && y.limbs[3] < 0x10000000000000 && y.limbs[4] < 0x10000000000000);
    x.lemma_fe();
    y.lemma_fe();
    lemma_residues(x.value(), y.value());
    lemma_inverse(x.value());
    assert forall|r: Fe51, b: [u8; 32]| #[trigger]
        call_ensures(Fe51::canonical, (&x,), r) && #[trigger] call_ensures(
            Fe51::to_bytes,
            (&r,),
            b,
        ) implies bytes::le_value(b@) == x.value() % fp::p() by {
        r.lemma_fe();
        lemma_mod_twice(x.value(), fp::p());
    }
}

/// The field operations on residues.
pub proof fn lemma_residues(u: int, v: int)
    ensures
        fp::fadd(u % fp::p(), v % fp::p()) == (u + v) % fp::p(),
        fp::fadd(u % fp::p(), u % fp::p()) == (2 * u) % fp::p(),
        fp::fsub(u % fp::p(), v % fp::p()) == (u - v) % fp::p(),
        fp::fneg(u % fp::p()) == (-u) % fp::p(),
        fp::fmul(u % fp::p(), v % fp::p()) == (u * v) % fp::p(),
        fp::fmul(u % fp::p(), u % fp::p()) == (u * u) % fp::p(),
        ((u - v) % fp::p() == 0) == (u % fp::p() == v % fp::p()),
{
    broadcast use fp::group_field_ops;

    let p = fp::p();
    lemma_add_mod_noop(u, v, p);
    lemma_add_mod_noop(u, u, p);
    lemma_sub_mod_noop(u, v, p);
    lemma_sub_mod_noop(0, u, p);
    lemma_small_mod(0, p as nat);
    lemma_mul_mod_noop(u, v, p);
    lemma_mul_mod_noop(u, u, p);
    assert(0 - u % p == -(u % p));
    lemma_small_mod((u % p) as nat, p as nat);
    fp::lemma_difference_zero(u % p, v % p);
}

/// The power `p - 2` of a residue.
pub proof fn lemma_inverse(u: int)
    ensures
        0 <= fp::fpow(u % fp::p(), fp::p_minus_2()) < fp::p(),
        u % fp::p() == 0 ==> fp::fpow(u % fp::p(), fp::p_minus_2()) == 0,
        u % fp::p() != 0 ==> (u * fp::fpow(u % fp::p(), fp::p_minus_2())) % fp::p() == 1,
{
    let p = fp::p();
    let w = fp::fpow(u % p, fp::p_minus_2());
    if u % p == 0 {
        lemma0_pow(fp::p_minus_2());
        lemma_small_mod(0, p as nat);
    } else {
        lemma_mod_twice(u, p);
        field_laws::lemma_inverse(u % p);
        fp::lemma_fmul_def(u % p, w);
        lemma_mul_mod_noop_left(u, w, p);
    }
}

/// Repeated squaring raises to a power of two.
pub proof fn lemma_square_repeat(x: Fe51, n: usize, r: Fe51, b: [u8; 32])
    requires
        forall|k: int| 0 <= k < 5 ==> #[trigger] x.limbs[k] < 0x10000000000000,
        call_ensures(Fe51::square_repeat, (&x, n), r),
        call_ensures(Fe51::to_bytes, (&r,), b),
    ensures
        ({
            let u = x.limbs[0] + 0x8000000000000 * x.limbs[1] + 0x40000000000000000000000000int * x.limbs[2]
                + 0x200000000000000000000000000000000000000int * x.limbs[3]
                + 0x1000000000000000000000000000000000000000000000000000int * x.limbs[4];
            bytes::le_value(b@) == pow(u, pow2(n as nat))
                % 0x7fffffffffffffffffffffffffffffffffffffffffffffffffffffffffffffedint
        }),
{
    assert(x.limbs[0] < 0x10000000000000 && x.limbs[1] < 0x10000000000000 && x.limbs[2] < 0x10000000000000
        && x.limbs[3] < 0x10000000000000 && x.limbs[4] < 0x10000000000000);
    x.lemma_fe();
    lemma_pow_mod_noop(x.value(), pow2(n as nat), fp::p());
}

/// Reading bytes takes the low 255 bits; writing them back gives their residue.
pub proof fn lemma_bytes(b: [u8; 32], x: Fe51, back: [u8; 32])
    requires
        call_ensures(Fe51::from_bytes_unchecked, (&b,), x),
        call_ensures(Fe51::to_bytes, (&x,), back),
    ensures
        ({
            let u = x.limbs[0] + 0x8000000000000 * x.limbs[1] + 0x40000000000000000000000000int * x.limbs[2]
                + 0x200000000000000000000000000000000000000int * x.limbs[3]
                + 0x1000000000000000000000000000000000000000000000000000int * x.limbs[4];
            let low = bytes::le_value(b@)
                % 0x8000000000000000000000000000000000000000000000000000000000000000int;
            &&& u == low
            &&& bytes::le_value(back@) == low
                % 0x7fffffffffffffffffffffffffffffffffffffffffffffffffffffffffffffedint
        }),
{
    x.lemma_fe();
}

/// The square root of a ratio `u / v`: a result `w` satisfies `v w^2 = u`, and where there is no
/// result no field element does.
pub proof fn lemma_sqrt_ratio(x: Fe51, y: Fe51, r: Option<Fe51>)
    requires
        forall|k: int| 0 <= k < 5 ==> #[trigger] x.limbs[k] < 0x10000000000000,
        forall|k: int| 0 <= k < 5 ==> #[trigger] y.limbs[k] < 0x10000000000000,
        call_ensures(Fe51::sqrt_ratio, (&x, &y), r),
    ensures
        ({
            let p = 0x7fffffffffffffffffffffffffffffffffffffffffffffffffffffffffffffedint;
            let u = x.limbs[0] + 0x8000000000000 * x.limbs[1] + 0x40000000000000000000000000int * x.limbs[2]
                + 0x200000000000000000000000000000000000000int * x.limbs[3]
                + 0x1000000000000000000000000000000000000000000000000000int * x.limbs[4];
            let v = y.limbs[0] + 0x8000000000000 * y.limbs[1] + 0x40000000000000000000000000int * y.limbs[2]
                + 0x200000000000000000000000000000000000000int * y.limbs[3]
                + 0x1000000000000000000000000000000000000000000000000000int * y.limbs[4];
            match r {
                Some(root) => forall|b: [u8; 32]| #[trigger]
                    call_ensures(Fe51::to_bytes, (&root,), b) ==> (v * (bytes::le_value(b@) * bytes::le_value(
                        b@,
                    ))) % p == u % p,
                None => forall|w: int| (v * #[trigger] (w * w)) % p != u % p,
            }
        }),
{
    broadcast use fp::group_field_ops;

    assert(x.limbs[0] < 0x10000000000000 && x.limbs[1] < 0x10000000000000 && x.limbs[2] < 0x10000000000000
        && x.limbs[3] < 0x10000000000000 && x.limbs[4] < 0x10000000000000);
    assert(y.limbs[0] < 0x10000000000000 && y.limbs[1] < 0x10000000000000 && y.limbs[2] < 0x10000000000000
        && y.limbs[3] < 0x10000000000000 && y.limbs[4] < 0x10000000000000);
    let p = fp::p();
    let v = y.value();
    let args = (&x, &y);
    assert(args.0 == x && args.1 == y);
    x.lemma_fe();
    y.lemma_fe();
    assert forall|w: int| encoding::root_check(y.fe(), w) == (v * #[trigger] (w * w)) % p by {
        lemma_mul_mod_noop(v % p, w * w, p);
        lemma_mod_twice(v, p);
        lemma_mul_mod_noop(v, w * w, p);
        lemma_mul_mod_noop_right(v % p, w * w, p);
    }
    match r {
        Some(root) => {
            assert(encoding::root_check(y.fe(), root.fe()) == (v * (root.fe() * root.fe())) % p);
        },
        None => {
            assert forall|w: int| (v * #[trigger] (w * w)) % p != x.value() % p by {
                assert(encoding::root_check(y.fe(), w) != x.fe());
            }
        },
    }
}

/// Any limbs at all have a canonical representative, below `p`.
pub proof fn lemma_from_limbs(limbs: [u64; 5], x: Fe51)
    requires
        call_ensures(Fe51::from_limbs, (limbs,), x),
    ensures
        x.value() == (limbs[0] + 0x8000000000000 * limbs[1] + 0x40000000000000000000000000int * limbs[2]
            + 0x200000000000000000000000000000000000000int * limbs[3]
            + 0x1000000000000000000000000000000000000000000000000000int * limbs[4])
            % 0x7fffffffffffffffffffffffffffffffffffffffffffffffffffffffffffffedint,
{
}

/// The constants: zero, one, the curve constant and its double, and a square root of `-1`.
pub proof fn lemma_field_constants(zero: Fe51, one: Fe51, d: Fe51, two_d: Fe51, i: Fe51)
    requires
        call_ensures(Fe51::zero, (), zero),
        call_ensures(Fe51::one, (), one),
        call_ensures(Fe51::d, (), d),
        call_ensures(Fe51::two_d, (), two_d),
        call_ensures(Fe51::sqrt_m1, (), i),
    ensures
        zero.fe() == 0,
        one.fe() == 1,
        (121666 * d.fe() + 121665) % fp::p() == 0,
        two_d.fe() == (2 * d.fe()) % fp::p(),
        (i.fe() * i.fe() + 1) % fp::p() == 0,
{
    broadcast use fp::group_field_ops;

    crate::laws::group::lemma_constants();
    field_laws::lemma_sqrt_m1();
}

/// The exponentiation of square roots raises to the power `(p - 5) / 8`.
pub proof fn lemma_root_power(x: Fe51, r: Fe51)
    requires
        x.wf(),
        call_ensures(Fe51::pow_p_minus_5_over_8, (&x,), r),
    ensures
        8 * 0xffffffffffffffffffffffffffffffffffffffffffffffffffffffffffffffdnat
            == 0x7fffffffffffffffffffffffffffffffffffffffffffffffffffffffffffffednat - 5,
        r.fe() == pow(x.fe(), 0xffffffffffffffffffffffffffffffffffffffffffffffffffffffffffffffdnat)
            % 0x7fffffffffffffffffffffffffffffffffffffffffffffffffffffffffffffedint,
{
}

} // verus!
