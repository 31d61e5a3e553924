//! One field element in radix `2^51`.
use crate::bytes;
use crate::encoding;
use crate::fp;
use vstd::arithmetic::power2::*;
use vstd::prelude::*;

verus! {

/// Number of radix-`2^51` limbs.
pub const LIMB_COUNT: usize = 5;

/// `2^51 - 1`.
pub const LIMB_MASK: u64 = 0x7ffffffffffff;

/// Limbs of the curve constant `d = -121665 / 121666`.
pub const D_LIMBS: [u64; 5] = [
    0x34dca135978a3,
    0x1a8283b156ebd,
    0x5e7a26001c029,
    0x739c663a03cbb,
    0x52036cee2b6ff,
];

/// Limbs of `2 * d`.
pub const TWO_D_LIMBS: [u64; 5] = [
    0x69b9426b2f159,
    0x35050762add7a,
    0x3cf44c0038052,
    0x6738cc7407977,
    0x2406d9dc56dff,
];

/// Limbs of a square root of `-1`.
pub const SQRT_M1_LIMBS: [u64; 5] = [
    0x61b274a0ea0b0,
    0x0d5a5fc8f189d,
    0x7ef5e9cbd0c60,
    0x78595a6804c9e,
    0x2b8324804fc1d,
];

/// One field element.
///
/// Operations take limbs below `2^52`. Their results have the lowest limb below `2^52` and the
/// others below `2^51`.
#[derive(Clone, Copy, Debug)]
pub struct Fe51 {
    pub limbs: [u64; 5],
}

fn carry(h: [u128; 5]) -> (r: [u128; 5])
    requires
        h[0] < 0x1000000000000000000000000000000,
        h[1] < 0x1000000000000000000000000000000,
        h[2] < 0x1000000000000000000000000000000,
        h[3] < 0x1000000000000000000000000000000,
        h[4] < 0x1000000000000000000000000000000,
    ensures
        fp::limbs_value(r[0] as int, r[1] as int, r[2] as int, r[3] as int, r[4] as int) % fp::p()
            == fp::limbs_value(h[0] as int, h[1] as int, h[2] as int, h[3] as int, h[4] as int)
            % fp::p(),
        r[0] < 0x8000000000000 + 19 * (h[4] / 0x8000000000000 + 0x40000000000),
        r[1] < 0x8000000000000,
        r[2] < 0x8000000000000,
        r[3] < 0x8000000000000,
        r[4] < 0x8000000000000,
        h[0] < 0xc000000000000 && h[1] < 0x8000000000000 && h[2] < 0x8000000000000 && h[3]
            < 0x8000000000000 && h[4] < 0x8000000000000 ==> r[0] < 0x8000000000000,
{
    let g1: u128 = h[1] + h[0] / 0x8000000000000;
    let g2: u128 = h[2] + g1 / 0x8000000000000;
    let g3: u128 = h[3] + g2 / 0x8000000000000;
    let g4: u128 = h[4] + g3 / 0x8000000000000;
    proof {
        fp::lemma_carry_pass(h[0] as int, h[1] as int, h[2] as int, h[3] as int, h[4] as int);
    }
    [
        h[0] % 0x8000000000000 + 19 * (g4 / 0x8000000000000),
        g1 % 0x8000000000000,
        g2 % 0x8000000000000,
        g3 % 0x8000000000000,
        g4 % 0x8000000000000,
    ]
}

proof fn lemma_small_product(a: int, b: int)
    requires
        0 <= a < 0x10000000000000,
        0 <= b < 0x10000000000000,
    ensures
        0 <= a * b < 0x100000000000000000000000000,
{
    assert(0 <= a * b < 0x100000000000000000000000000) by (nonlinear_arith)
        requires
            0 <= a < 0x10000000000000,
            0 <= b < 0x10000000000000,
    ;
}

impl Fe51 {
    /// Reduces five columns.
    fn from_columns(h: [u128; 5]) -> (r: Self)
        requires
            h[0] < 0x8000000000000000000000000000,
            h[1] < 0x8000000000000000000000000000,
            h[2] < 0x8000000000000000000000000000,
            h[3] < 0x8000000000000000000000000000,
            h[4] < 0x8000000000000000000000000000,
        ensures
            r.carried(),
            r.fe() == fp::limbs_value(
                h[0] as int,
                h[1] as int,
                h[2] as int,
                h[3] as int,
                h[4] as int,
            ) % fp::p(),
    {
        let g = carry(carry(h));
        Fe51 { limbs: [g[0] as u64, g[1] as u64, g[2] as u64, g[3] as u64, g[4] as u64] }
    }

    /// Integer value of the limbs.
    pub open spec fn value(&self) -> int {
        fp::limbs_value(
            self.limbs[0] as int,
            self.limbs[1] as int,
            self.limbs[2] as int,
            self.limbs[3] as int,
            self.limbs[4] as int,
        )
    }

    /// The field element: the value of the limbs modulo `p`.
    pub closed spec fn fe(&self) -> int {
        self.value() % fp::p()
    }

    /// The field element is the residue of the value.
    pub proof fn lemma_fe(&self)
        ensures
            self.fe() == self.value() % fp::p(),
    {
    }

    /// Field elements are reduced.
    pub broadcast proof fn lemma_fe_range(&self)
        ensures
            0 <= #[trigger] self.fe() < fp::p(),
    {
    }

    /// The limb bounds that every operation accepts.
    pub open spec fn wf(&self) -> bool {
        &&& self.limbs[0] < 0x10000000000000
        &&& self.limbs[1] < 0x10000000000000
        &&& self.limbs[2] < 0x10000000000000
        &&& self.limbs[3] < 0x10000000000000
        &&& self.limbs[4] < 0x10000000000000
    }

    /// The limb bounds that every operation keeps: the lowest limb is below `2^52`, the others
    /// are below `2^51`.
    pub open spec fn carried(&self) -> bool {
        &&& self.limbs[0] < 0x10000000000000
        &&& self.limbs[1] < 0x8000000000000
        &&& self.limbs[2] < 0x8000000000000
        &&& self.limbs[3] < 0x8000000000000
        &&& self.limbs[4] < 0x8000000000000
    }

    pub fn zero() -> (r: Self)
        ensures
            r.carried(),
            r.fe() == 0,
    {
        Fe51 { limbs: [0, 0, 0, 0, 0] }
    }

    pub fn one() -> (r: Self)
        ensures
            r.carried(),
            r.fe() == 1,
    {
        Fe51 { limbs: [1, 0, 0, 0, 0] }
    }

    /// The curve constant `d`.
    pub fn d() -> (r: Self)
        ensures
            r.carried(),
            r.fe() == fp::d(),
    {
        proof {
            fp::lemma_constant_limbs();
        }
        Fe51 { limbs: D_LIMBS }
    }

    /// Twice the curve constant.
    pub fn two_d() -> (r: Self)
        ensures
            r.carried(),
            r.fe() == fp::fadd(fp::d(), fp::d()),
    {
        proof {
            fp::lemma_constant_limbs();
        }
        Fe51 { limbs: TWO_D_LIMBS }
    }

    /// A square root of `-1`.
    pub fn sqrt_m1() -> (r: Self)
        ensures
            r.carried(),
            r.fe() == fp::sqrt_m1(),
    {
        proof {
            fp::lemma_constant_limbs();
        }
        Fe51 { limbs: SQRT_M1_LIMBS }
    }

    /// The limbs.
    pub fn limbs_ref(&self) -> (r: &[u64; 5])
        ensures
            *r == self.limbs,
    {
        &self.limbs
    }

    /// Takes limbs as they are.
    pub fn from_limbs_unchecked(limbs: [u64; 5]) -> (r: Self)
        ensures
            r.limbs == limbs,
    {
        Fe51 { limbs }
    }

    /// Canonical representative of arbitrary limbs.
    pub fn from_limbs(limbs: [u64; 5]) -> (r: Self)
        ensures
            r.carried(),
            r.value() == (Fe51 { limbs }).value() % fp::p(),
            r.fe() == (Fe51 { limbs }).fe(),
    {
        proof {
            fp::lemma_small_residue((Fe51 { limbs }).value() % fp::p());
        }
        let h = carry(
            [
                limbs[0] as u128,
                limbs[1] as u128,
                limbs[2] as u128,
                limbs[3] as u128,
                limbs[4] as u128,
            ],
        );
        let r = Fe51 { limbs: [h[0] as u64, h[1] as u64, h[2] as u64, h[3] as u64, h[4] as u64] };
        r.canonical()
    }

    /// The canonical representative: limbs below `2^51` whose value is the field element itself.
    pub fn canonical(&self) -> (r: Self)
        requires
            self.wf(),
        ensures
            r.carried(),
            r.limbs[0] < 0x8000000000000,
            r.value() == self.fe(),
    {
        let l = &self.limbs;
        let h = carry(carry([l[0] as u128, l[1] as u128, l[2] as u128, l[3] as u128, l[4] as u128]));
        let r = Fe51 { limbs: [h[0] as u64, h[1] as u64, h[2] as u64, h[3] as u64, h[4] as u64] };
        let top = r.limbs[1] == LIMB_MASK && r.limbs[2] == LIMB_MASK && r.limbs[3] == LIMB_MASK
            && r.limbs[4] == LIMB_MASK;
        if top && r.limbs[0] >= LIMB_MASK - 18 {
            let s = Fe51 { limbs: [r.limbs[0] - (LIMB_MASK - 18), 0, 0, 0, 0] };
            proof {
                assert(s.value() == r.value() - fp::p());
                fp::lemma_small_residue(s.value());
            }
            s
        } else {
            proof {
                fp::lemma_small_residue(r.value());
            }
            r
        }
    }
    /// Sum.
    pub fn add(&self, rhs: &Self) -> (r: Self)
        requires
            self.wf(),
            rhs.wf(),
        ensures
            r.carried(),
            r.fe() == fp::fadd(self.fe(), rhs.fe()),
    {
        let a = &self.limbs;
        let b = &rhs.limbs;
        let h = [
            a[0] as u128 + b[0] as u128,
            a[1] as u128 + b[1] as u128,
            a[2] as u128 + b[2] as u128,
            a[3] as u128 + b[3] as u128,
            a[4] as u128 + b[4] as u128,
        ];
        proof {
            fp::lemma_fadd_mod(self.value(), rhs.value());
        }
        Self::from_columns(h)
    }

    /// Difference, through a bias of `4 * p`.
    pub fn subtract(&self, rhs: &Self) -> (r: Self)
        requires
            self.wf(),
            rhs.wf(),
        ensures
            r.carried(),
            r.fe() == fp::fsub(self.fe(), rhs.fe()),
    {
        let a = &self.limbs;
        let b = &rhs.limbs;
        let h = [
            a[0] as u128 + 0x1fffffffffffb4 - b[0] as u128,
            a[1] as u128 + 0x1ffffffffffffc - b[1] as u128,
            a[2] as u128 + 0x1ffffffffffffc - b[2] as u128,
            a[3] as u128 + 0x1ffffffffffffc - b[3] as u128,
            a[4] as u128 + 0x1ffffffffffffc - b[4] as u128,
        ];
        proof {
            fp::lemma_biased_difference(self.value(), rhs.value(), 4);
        }
        Self::from_columns(h)
    }

    /// Product.
    pub fn multiply(&self, rhs: &Self) -> (r: Self)
        requires
            self.wf(),
            rhs.wf(),
        ensures
            r.carried(),
            r.fe() == fp::fmul(self.fe(), rhs.fe()),
    {
        let a0: u128 = self.limbs[0] as u128;
        let a1: u128 = self.limbs[1] as u128;
        let a2: u128 = self.limbs[2] as u128;
        let a3: u128 = self.limbs[3] as u128;
        let a4: u128 = self.limbs[4] as u128;
        let b0: u128 = rhs.limbs[0] as u128;
        let b1: u128 = rhs.limbs[1] as u128;
        let b2: u128 = rhs.limbs[2] as u128;
        let b3: u128 = rhs.limbs[3] as u128;
        let b4: u128 = rhs.limbs[4] as u128;
        proof {
            lemma_small_product(a0 as int, b0 as int);
            lemma_small_product(a0 as int, b1 as int);
            lemma_small_product(a0 as int, b2 as int);
            lemma_small_product(a0 as int, b3 as int);
            lemma_small_product(a0 as int, b4 as int);
            lemma_small_product(a1 as int, b0 as int);
            lemma_small_product(a1 as int, b1 as int);
            lemma_small_product(a1 as int, b2 as int);
            lemma_small_product(a1 as int, b3 as int);
            lemma_small_product(a1 as int, b4 as int);
            lemma_small_product(a2 as int, b0 as int);
            lemma_small_product(a2 as int, b1 as int);
            lemma_small_product(a2 as int, b2 as int);
            lemma_small_product(a2 as int, b3 as int);
            lemma_small_product(a2 as int, b4 as int);
            lemma_small_product(a3 as int, b0 as int);
            lemma_small_product(a3 as int, b1 as int);
            lemma_small_product(a3 as int, b2 as int);
            lemma_small_product(a3 as int, b3 as int);
            lemma_small_product(a3 as int, b4 as int);
            lemma_small_product(a4 as int, b0 as int);
            lemma_small_product(a4 as int, b1 as int);
            lemma_small_product(a4 as int, b2 as int);
            lemma_small_product(a4 as int, b3 as int);
            lemma_small_product(a4 as int, b4 as int);
        }
        let c0: u128 = a0 * b0 + 19 * (a1 * b4 + a2 * b3 + a3 * b2 + a4 * b1);
        let c1: u128 = a0 * b1 + a1 * b0 + 19 * (a2 * b4 + a3 * b3 + a4 * b2);
        let c2: u128 = a0 * b2 + a1 * b1 + a2 * b0 + 19 * (a3 * b4 + a4 * b3);
        let c3: u128 = a0 * b3 + a1 * b2 + a2 * b1 + a3 * b0 + 19 * (a4 * b4);
        let c4: u128 = a0 * b4 + a1 * b3 + a2 * b2 + a3 * b1 + a4 * b0;
        proof {
            fp::lemma_mul_columns(
                a0 as int,
                a1 as int,
                a2 as int,
                a3 as int,
                a4 as int,
                b0 as int,
                b1 as int,
                b2 as int,
                b3 as int,
                b4 as int,
            );
            fp::lemma_fmul_mod(self.value(), rhs.value());
        }
        Self::from_columns([c0, c1, c2, c3, c4])
    }

    /// Square.
    pub fn square(&self) -> (r: Self)
        requires
            self.wf(),
        ensures
            r.carried(),
            r.fe() == fp::fmul(self.fe(), self.fe()),
    {
        self.multiply(self)
    }

    /// Twice the element.
    pub fn double(&self) -> (r: Self)
        requires
            self.wf(),
        ensures
            r.carried(),
            r.fe() == fp::fadd(self.fe(), self.fe()),
    {
        self.add(self)
    }

    /// Negation.
    pub fn negate(&self) -> (r: Self)
        requires
            self.wf(),
        ensures
            r.carried(),
            r.fe() == fp::fneg(self.fe()),
    {
        proof {
            fp::lemma_negated(self.fe());
        }
        Self::zero().subtract(self)
    }

    /// `n` squarings.
    pub fn square_repeat(&self, n: usize) -> (r: Self)
        requires
            self.wf(),
        ensures
            r.wf(),
            n > 0 || self.carried() ==> r.carried(),
            r.fe() == fp::fpow(self.fe(), pow2(n as nat)),
    {
        let mut out = *self;
        let mut k: usize = 0;
        proof {
            lemma2_to64();
            fp::lemma_fpow_base(self.fe());
        }
        while k < n
            invariant
                k <= n,
                out.wf(),
                k > 0 || self.carried() ==> out.carried(),
                out.fe() == fp::fpow(self.fe(), pow2(k as nat)),
            decreases n - k,
        {
            out = out.square();
            proof {
                fp::lemma_fpow_add(self.fe(), pow2(k as nat), pow2(k as nat));
                lemma_pow2_unfold((k + 1) as nat);
            }
            k += 1;
        }
        out
    }

    /// The powers `2^250 - 1` and 11.
    fn power_chain(&self) -> (r: (Self, Self))
        requires
            self.wf(),
        ensures
            r.0.carried(),
            r.0.fe() == fp::fpow(self.fe(), fp::chain_exponent()),
            r.1.carried(),
            r.1.fe() == fp::fpow(self.fe(), 11),
    {
        let t0 = self.square();
        let t1 = t0.square_repeat(2).multiply(self);
        let t2 = t0.multiply(&t1);
        let t3 = t2.square().multiply(&t1);
        let t4 = t3.square_repeat(5).multiply(&t3);
        let t5 = t4.square_repeat(10).multiply(&t4);
        let t6 = t5.square_repeat(20).multiply(&t5);
        let t7 = t6.square_repeat(10).multiply(&t4);
        let t8 = t7.square_repeat(50).multiply(&t7);
        let t9 = t8.square_repeat(100).multiply(&t8);
        let t10 = t9.square_repeat(50).multiply(&t7);
        proof {
            self.lemma_fe_range();
            fp::lemma_shared_chain(
                self.fe(),
                t0.fe(),
                t1.fe(),
                t2.fe(),
                t3.fe(),
                t4.fe(),
                t5.fe(),
                t6.fe(),
                t7.fe(),
                t8.fe(),
                t9.fe(),
                t10.fe(),
            );
        }
        (t10, t2)
    }

    /// The power `(p - 5) / 8`.
    pub fn pow_p_minus_5_over_8(&self) -> (r: Self)
        requires
            self.wf(),
        ensures
            r.carried(),
            r.fe() == fp::fpow(self.fe(), fp::p_minus_5_over_8()),
    {
        let (power, _) = self.power_chain();
        proof {
            self.lemma_fe_range();
            fp::lemma_chain_ends(self.fe());
        }
        power.square_repeat(2).multiply(self)
    }

    /// The power `p - 2`: the inverse of a nonzero element.
    pub fn invert(&self) -> (r: Self)
        requires
            self.wf(),
        ensures
            r.carried(),
            r.fe() == fp::fpow(self.fe(), fp::p_minus_2()),
    {
        let (power, power11) = self.power_chain();
        proof {
            self.lemma_fe_range();
            fp::lemma_chain_ends(self.fe());
        }
        power.square_repeat(5).multiply(&power11)
    }

    /// Whether two values are the same field element.
    pub fn equals(&self, rhs: &Self) -> (r: bool)
        requires
            self.wf(),
            rhs.wf(),
        ensures
            r == (self.fe() == rhs.fe()),
    {
        let c = self.subtract(rhs).canonical();
        proof {
            fp::lemma_difference_zero(self.value(), rhs.value());
        }
        c.limbs[0] == 0 && c.limbs[1] == 0 && c.limbs[2] == 0 && c.limbs[3] == 0 && c.limbs[4] == 0
    }

    /// Whether the canonical representative is odd.
    pub fn is_odd(&self) -> (r: bool)
        requires
            self.wf(),
        ensures
            r == (self.fe() % 2 == 1),
    {
        let c = self.canonical();
        proof {
            fp::lemma_limbs_parity(
                c.limbs[0] as int,
                c.limbs[1] as int,
                c.limbs[2] as int,
                c.limbs[3] as int,
                c.limbs[4] as int,
            );
        }
        c.limbs[0] % 2 == 1
    }

    /// A square root of `u / v`, if there is one.
    pub fn sqrt_ratio(u: &Self, v: &Self) -> (r: Option<Self>)
        requires
            u.wf(),
            v.wf(),
        ensures
            r matches Some(x) ==> x.carried() && encoding::root_check(v.fe(), x.fe()) == u.fe(),
            r is None ==> forall|x: int|
                #![trigger encoding::root_check(v.fe(), x)]
                encoding::root_check(v.fe(), x) != u.fe(),
    {
        let v3 = v.square().multiply(v);
        let v7 = v3.square().multiply(v);
        let power = u.multiply(&v7).pow_p_minus_5_over_8();
        let x = u.multiply(&v3).multiply(&power);
        proof {
            encoding::lemma_roots(u.fe(), v.fe());
        }
        if v.multiply(&x.square()).equals(u) {
            return Some(x);
        }
        let x_alt = x.multiply(&Self::sqrt_m1());
        if v.multiply(&x_alt.square()).equals(u) {
            return Some(x_alt);
        }
        None
    }

    /// Reads the low 255 bits of a little-endian encoding, without requiring a value below `p`.
    pub fn from_bytes_unchecked(b: &[u8; 32]) -> (r: Self)
        ensures
            r.carried(),
            r.limbs[0] < 0x8000000000000,
            r.value() == bytes::le_value(b@)
                % 0x8000000000000000000000000000000000000000000000000000000000000000int,
    {
        let w0: u64 = bytes::load64(b, 0);
        let w1: u64 = bytes::load64(b, 8);
        let w2: u64 = bytes::load64(b, 16);
        let w3: u64 = bytes::load64(b, 24);
        let r = Fe51 {
            limbs: [
                w0 % 0x8000000000000,
                w0 / 0x8000000000000 + (w1 % 0x4000000000) * 0x2000,
                w1 / 0x4000000000 + (w2 % 0x2000000) * 0x4000000,
                w2 / 0x2000000 + (w3 % 0x1000) * 0x8000000000,
                (w3 / 0x1000) % 0x8000000000000,
            ],
        };
        proof {
            bytes::lemma_le_words(b@);
            let top = w3 / 0x8000000000000000;
            assert((w3 / 0x1000) % 0x8000000000000 == w3 / 0x1000 - 0x8000000000000 * top);
            assert(r.value() == bytes::le_value(b@)
                - 0x8000000000000000000000000000000000000000000000000000000000000000int * top);
            assert(r.value() < 0x8000000000000000000000000000000000000000000000000000000000000000int);
        }
        r
    }

    /// The canonical little-endian encoding.
    pub fn to_bytes(&self) -> (r: [u8; 32])
        requires
            self.wf(),
        ensures
            bytes::le_value(r@) == self.fe(),
    {
        let c = self.canonical();
        let l = &c.limbs;
        let w0: u64 = l[0] + (l[1] % 0x2000) * 0x8000000000000;
        let w1: u64 = l[1] / 0x2000 + (l[2] % 0x4000000) * 0x4000000000;
        let w2: u64 = l[2] / 0x4000000 + (l[3] % 0x8000000000) * 0x2000000;
        let w3: u64 = l[3] / 0x8000000000 + l[4] * 0x1000;
        bytes::words_bytes([w0, w1, w2, w3])
    }
}

} // verus!
