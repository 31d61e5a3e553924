//! Eight field elements at a time, in radix `2^51` with one vector per limb.
use crate::field::{Fe51, D_LIMBS, LIMB_MASK, SQRT_M1_LIMBS, TWO_D_LIMBS};
use crate::fp;
use crate::lanes;
use crate::lanes::U64x8;
use vstd::arithmetic::power2::*;
use vstd::prelude::*;

verus! {

/// Integer value of lane `i` of five limb vectors.
pub open spec fn planes_value(h: [U64x8; 5], i: int) -> int {
    fp::limbs_value(
        h[0].at(i) as int,
        h[1].at(i) as int,
        h[2].at(i) as int,
        h[3].at(i) as int,
        h[4].at(i) as int,
    )
}

/// Every limb of lane `i` is below `bound`.
pub open spec fn planes_below(h: [U64x8; 5], i: int, bound: int) -> bool {
    &&& h[0].at(i) < bound
    &&& h[1].at(i) < bound
    &&& h[2].at(i) < bound
    &&& h[3].at(i) < bound
    &&& h[4].at(i) < bound
}

/// Column `c` of lane `i` of a double-width product: `lo + 2^52 * hi`.
pub open spec fn column(lo: [U64x8; 5], hi: [U64x8; 5], c: int, i: int) -> int {
    acc_value(lo[c], hi[c], i)
}

/// Integer value of the five columns of lane `i`.
pub open spec fn columns_value(lo: [U64x8; 5], hi: [U64x8; 5], i: int) -> int {
    fp::limbs_value(
        column(lo, hi, 0, i),
        column(lo, hi, 1, i),
        column(lo, hi, 2, i),
        column(lo, hi, 3, i),
        column(lo, hi, 4, i),
    )
}

/// The half-products in the columns of lane `i`: a product that wraps around counts nineteen
/// times. Both halves of every column stay below `77 * 2^52`.
pub open spec fn columns_bounded(lo: [U64x8; 5], hi: [U64x8; 5], i: int) -> bool {
    &&& acc_bounded(lo[0], hi[0], i, 77)
    &&& acc_bounded(lo[1], hi[1], i, 59)
    &&& acc_bounded(lo[2], hi[2], i, 41)
    &&& acc_bounded(lo[3], hi[3], i, 23)
    &&& acc_bounded(lo[4], hi[4], i, 5)
}

/// Lane `i` after a carry pass: the limbs below `2^51` and the carry out of the top keep the
/// value of the columns.
spec fn columns_carried(
    lo: [U64x8; 5],
    hi: [U64x8; 5],
    i: int,
    l1: U64x8,
    l2: U64x8,
    l3: U64x8,
    l4: U64x8,
    c4: U64x8,
) -> bool {
    &&& c4.at(i) < 11 * 0x10000000000000
    &&& fp::limbs_value(
        lo[0].at(i) as int % 0x8000000000000 + 19 * c4.at(i),
        l1.at(i) as int % 0x8000000000000,
        l2.at(i) as int % 0x8000000000000,
        l3.at(i) as int % 0x8000000000000,
        l4.at(i) as int % 0x8000000000000,
    ) % fp::p() == columns_value(lo, hi, i) % fp::p()
}

/// Eight field elements, one per lane.
#[derive(Clone, Copy)]
pub struct WideFe {
    pub limbs: [U64x8; 5],
}

/// Value of lane `i` of a double-width accumulator.
pub open spec fn acc_value(lo: U64x8, hi: U64x8, i: int) -> int {
    lo.at(i) + 0x10000000000000 * hi.at(i)
}

/// Both halves of lane `i` hold at most `n` half-products, each of which is below `2^52`.
pub open spec fn acc_bounded(lo: U64x8, hi: U64x8, i: int, n: int) -> bool {
    lo.at(i) <= n * 0xfffffffffffff && hi.at(i) <= n * 0xfffffffffffff
}

/// Every lane fits the 52-bit multiplier.
pub open spec fn fits52(a: U64x8) -> bool {
    forall|i: int| 0 <= i < 8 ==> #[trigger] a.at(i) < 0x10000000000000
}

/// Adds a lane-wise product to a double-width accumulator.
fn madd_one(lo: &mut U64x8, hi: &mut U64x8, a: &U64x8, b: &U64x8)
    requires
        forall|i: int| 0 <= i < 8 ==> #[trigger] acc_bounded(*old(lo), *old(hi), i, 80),
        fits52(*a),
        fits52(*b),
    ensures
        forall|i: int|
            0 <= i < 8 ==> #[trigger] acc_value(*final(lo), *final(hi), i) == acc_value(
                *old(lo),
                *old(hi),
                i,
            ) + a.at(i) * b.at(i),
        forall|i: int, n: int|
            0 <= i < 8 && acc_bounded(*old(lo), *old(hi), i, n - 1) ==> #[trigger] acc_bounded(
                *final(lo),
                *final(hi),
                i,
                n,
            ),
{
    let ghost lo0 = *lo;
    let ghost hi0 = *hi;
    *lo = lo.madd52lo(a, b);
    *hi = hi.madd52hi(a, b);
    proof {
        assert forall|i: int| 0 <= i < 8 implies lo.at(i) == lo0.at(i) + lanes::product_lo52(
            a.at(i) as int,
            b.at(i) as int,
        ) && hi.at(i) == hi0.at(i) + lanes::product_hi52(a.at(i) as int, b.at(i) as int)
            && #[trigger] acc_value(*lo, *hi, i) == acc_value(lo0, hi0, i) + a.at(i) * b.at(i) by {
            assert(acc_bounded(lo0, hi0, i, 80));
            lanes::lemma_product52(a.at(i) as int, b.at(i) as int);
        }
        assert forall|i: int, n: int|
            0 <= i < 8 && acc_bounded(lo0, hi0, i, n - 1) implies #[trigger] acc_bounded(
            *lo,
            *hi,
            i,
            n,
        ) by {
            assert(acc_value(*lo, *hi, i) == acc_value(lo0, hi0, i) + a.at(i) * b.at(i));
            lanes::lemma_product52(a.at(i) as int, b.at(i) as int);
        }
    }
}

/// Adds 19 times an accumulator of `m` half-products to another.
fn add_wrap19(lo: &mut U64x8, hi: &mut U64x8, wrap_lo: &U64x8, wrap_hi: &U64x8, Ghost(m): Ghost<int>)
    requires
        0 <= m <= 4,
        forall|i: int| 0 <= i < 8 ==> #[trigger] acc_bounded(*old(lo), *old(hi), i, 5),
        forall|i: int| 0 <= i < 8 ==> #[trigger] acc_bounded(*wrap_lo, *wrap_hi, i, m),
    ensures
        forall|i: int|
            0 <= i < 8 ==> #[trigger] acc_value(*final(lo), *final(hi), i) == acc_value(
                *old(lo),
                *old(hi),
                i,
            ) + 19 * acc_value(*wrap_lo, *wrap_hi, i),
        forall|i: int, n: int|
            0 <= i < 8 && acc_bounded(*old(lo), *old(hi), i, n - 19 * m) ==> #[trigger] acc_bounded(
                *final(lo),
                *final(hi),
                i,
                n,
            ),
{
    let ghost lo0 = *lo;
    let ghost hi0 = *hi;
    let nineteen = U64x8::splat(19);
    *lo = lo.add(&wrap_lo.mul_lo(&nineteen));
    *hi = hi.add(&wrap_hi.mul_lo(&nineteen));
    proof {
        assert forall|i: int| 0 <= i < 8 implies lo.at(i) == lo0.at(i) + 19 * wrap_lo.at(i)
            && hi.at(i) == hi0.at(i) + 19 * wrap_hi.at(i) && #[trigger] acc_value(*lo, *hi, i)
            == acc_value(lo0, hi0, i) + 19 * acc_value(*wrap_lo, *wrap_hi, i) by {
            assert(acc_bounded(lo0, hi0, i, 5));
            assert(acc_bounded(*wrap_lo, *wrap_hi, i, m));
        }
        assert forall|i: int, n: int|
            0 <= i < 8 && acc_bounded(lo0, hi0, i, n - 19 * m) implies #[trigger] acc_bounded(
            *lo,
            *hi,
            i,
            n,
        ) by {
            assert(acc_bounded(*wrap_lo, *wrap_hi, i, m));
            assert(acc_value(*lo, *hi, i) == acc_value(lo0, hi0, i) + 19 * acc_value(
                *wrap_lo,
                *wrap_hi,
                i,
            ));
        }
    }
}

/// Carry out of the lowest 51 bits of a double-width column.
fn carry_out(lo: &U64x8, hi: &U64x8) -> (c: U64x8)
    requires
        forall|i: int| 0 <= i < 8 ==> #[trigger] acc_bounded(*lo, *hi, i, 300),
    ensures
        forall|i: int| 0 <= i < 8 ==> #[trigger] c.at(i) == fp::column_carry(lo.at(i) as int, hi.at(i) as int),
{
    let c = lo.shr51().add(&hi.shl1());
    proof {
        assert forall|i: int| 0 <= i < 8 implies #[trigger] c.at(i) == fp::column_carry(
            lo.at(i) as int,
            hi.at(i) as int,
        ) by {
            assert(acc_bounded(*lo, *hi, i, 300));
        }
    }
    c
}

/// The low 51 bits of a column plus 19 times the carry out of the top.
fn wrap_low(lo: &U64x8, carry: &U64x8) -> (r: U64x8)
    requires
        forall|i: int| 0 <= i < 8 ==> #[trigger] carry.at(i) < 11 * 0x10000000000000,
    ensures
        forall|i: int|
            0 <= i < 8 ==> #[trigger] r.at(i) == lo.at(i) % 0x8000000000000 + 19 * carry.at(i),
{
    let r = lo.low51().add(&carry.mul_lo(&U64x8::splat(19)));
    proof {
        assert forall|i: int| 0 <= i < 8 implies #[trigger] r.at(i) == lo.at(i) % 0x8000000000000 + 19
            * carry.at(i) by {
            assert(carry.at(i) < 11 * 0x10000000000000);
        }
    }
    r
}

impl WideFe {
    /// The field element in lane `i`.
    pub closed spec fn fe(&self, i: int) -> int {
        planes_value(self.limbs, i) % fp::p()
    }

    /// The field element is the residue of the lane value.
    pub proof fn lemma_fe(&self, i: int)
        ensures
            self.fe(i) == planes_value(self.limbs, i) % fp::p(),
    {
    }

    /// Field elements are reduced.
    pub broadcast proof fn lemma_fe_range(&self, i: int)
        ensures
            0 <= #[trigger] self.fe(i) < fp::p(),
    {
    }

    /// Lane `i` is carried: the lowest limb is below `2^52`, the others below `2^51`.
    pub open spec fn strict_lane(&self, i: int) -> bool {
        &&& self.limbs[0].at(i) < 0x10000000000000
        &&& self.limbs[1].at(i) < 0x8000000000000
        &&& self.limbs[2].at(i) < 0x8000000000000
        &&& self.limbs[3].at(i) < 0x8000000000000
        &&& self.limbs[4].at(i) < 0x8000000000000
    }

    /// Lane `i` is a valid operand of additive operations and squarings: the lowest limb is
    /// below `2^60`, the others below `2^51`.
    pub open spec fn loose_lane(&self, i: int) -> bool {
        &&& self.limbs[0].at(i) < 0x1000000000000000
        &&& self.limbs[1].at(i) < 0x8000000000000
        &&& self.limbs[2].at(i) < 0x8000000000000
        &&& self.limbs[3].at(i) < 0x8000000000000
        &&& self.limbs[4].at(i) < 0x8000000000000
    }

    pub open spec fn strict(&self) -> bool {
        forall|i: int| 0 <= i < 8 ==> #[trigger] self.strict_lane(i)
    }

    pub open spec fn loose(&self) -> bool {
        forall|i: int| 0 <= i < 8 ==> #[trigger] self.loose_lane(i)
    }

    /// Every limb of every lane is below `2^52`, as multiplications and small-bias subtractions
    /// ask of their operands.
    pub open spec fn operand(&self) -> bool {
        forall|i: int| 0 <= i < 8 ==> #[trigger] planes_below(self.limbs, i, 0x10000000000000)
    }

    /// Every limb of every lane is below `2^62`.
    pub open spec fn roomy(&self) -> bool {
        forall|i: int| 0 <= i < 8 ==> #[trigger] planes_below(self.limbs, i, 0x4000000000000000)
    }

    proof fn lemma_fits52(&self)
        requires
            self.operand(),
        ensures
            fits52(self.limbs[0]),
            fits52(self.limbs[1]),
            fits52(self.limbs[2]),
            fits52(self.limbs[3]),
            fits52(self.limbs[4]),
    {
        assert forall|k: int, i: int| 0 <= k < 5 && 0 <= i < 8 implies #[trigger] self.limbs[k].at(i)
            < 0x10000000000000 by {
            assert(planes_below(self.limbs, i, 0x10000000000000));
        }
    }

    /// Carried values are operands.
    pub broadcast proof fn lemma_operand(&self)
        requires
            self.strict(),
        ensures
            #[trigger] self.operand(),
    {
        assert forall|i: int| 0 <= i < 8 implies #[trigger] planes_below(self.limbs, i, 0x10000000000000) by {
            assert(self.strict_lane(i));
        }
    }

    /// Carried values can be squared.
    pub broadcast proof fn lemma_loose(&self)
        requires
            self.strict(),
        ensures
            #[trigger] self.loose(),
    {
        assert forall|i: int| 0 <= i < 8 implies #[trigger] self.loose_lane(i) by {
            assert(self.strict_lane(i));
        }
    }

    /// How the limb bounds imply each other.
    pub proof fn lemma_bounds(&self)
        ensures
            self.strict() ==> self.loose(),
            self.strict() ==> self.operand(),
            self.loose() ==> self.roomy(),
            self.operand() ==> self.roomy(),
    {
        if self.strict() {
            self.lemma_operand();
            self.lemma_loose();
        }
        if self.operand() {
            assert forall|i: int| 0 <= i < 8 implies #[trigger] planes_below(
                self.limbs,
                i,
                0x4000000000000000,
            ) by {
                assert(planes_below(self.limbs, i, 0x10000000000000));
            }
        }
        if self.loose() {
            assert forall|i: int| 0 <= i < 8 implies #[trigger] planes_below(
                self.limbs,
                i,
                0x4000000000000000,
            ) by {
                assert(self.loose_lane(i));
            }
        }
    }

    /// One carry pass: limbs 1..4 become `< 2^51`; limb 0 may keep the small wraparound
    /// residual needed by additive consumers.
    fn reduce_loose(h: [U64x8; 5]) -> (r: Self)
        requires
            forall|i: int| 0 <= i < 8 ==> #[trigger] planes_below(h, i, 0x8000000000000000),
        ensures
            r.strict(),
            forall|i: int| 0 <= i < 8 ==> r.limbs[0].at(i) < 0x8000000020000,
            forall|i: int| 0 <= i < 8 ==> #[trigger] r.fe(i) == planes_value(h, i) % fp::p(),
    {
        let nineteen = U64x8::splat(19);
        let h1 = h[1].add(&h[0].shr51());
        let h2 = h[2].add(&h1.shr51());
        let h3 = h[3].add(&h2.shr51());
        let h4 = h[4].add(&h3.shr51());
        let wrap = h4.shr51().mul_lo(&nineteen);
        let r = WideFe {
            limbs: [h[0].low51().add(&wrap), h1.low51(), h2.low51(), h3.low51(), h4.low51()],
        };
        proof {
            assert forall|i: int|
                #![trigger r.strict_lane(i)]
                #![trigger r.fe(i)]
                #![trigger r.limbs[0].at(i)]
                0 <= i < 8 implies r.strict_lane(i) && r.fe(i) == planes_value(h, i) % fp::p()
                && r.limbs[0].at(i) < 0x8000000020000 by {
                assert(planes_below(h, i, 0x8000000000000000));
                fp::lemma_carry_pass(
                    h[0].at(i) as int,
                    h[1].at(i) as int,
                    h[2].at(i) as int,
                    h[3].at(i) as int,
                    h[4].at(i) as int,
                );
                assert(h4.at(i) < 0x8000000000002000);
            }
        }
        r
    }

    /// Two carry passes, used when `add`/`canonical` need near-strict limbs.
    fn reduce64(h: [U64x8; 5]) -> (r: Self)
        requires
            forall|i: int| 0 <= i < 8 ==> #[trigger] planes_below(h, i, 0x8000000000000000),
        ensures
            forall|i: int| 0 <= i < 8 ==> #[trigger] planes_below(r.limbs, i, 0x8000000000000),
            forall|i: int| 0 <= i < 8 ==> #[trigger] r.fe(i) == planes_value(h, i) % fp::p(),
    {
        let first = Self::reduce_loose(h);
        let g = first.limbs;
        let nineteen = U64x8::splat(19);
        let h1 = g[1].add(&g[0].shr51());
        let h2 = g[2].add(&h1.shr51());
        let h3 = g[3].add(&h2.shr51());
        let h4 = g[4].add(&h3.shr51());
        let wrap = h4.shr51().mul_lo(&nineteen);
        let r = WideFe {
            limbs: [g[0].low51().add(&wrap), h1.low51(), h2.low51(), h3.low51(), h4.low51()],
        };
        proof {
            assert forall|i: int|
                #![trigger planes_below(r.limbs, i, 0x8000000000000)]
                #![trigger r.fe(i)]
                0 <= i < 8 implies planes_below(r.limbs, i, 0x8000000000000) && r.fe(i)
                == planes_value(h, i) % fp::p() by {
                assert(first.strict_lane(i) && first.limbs[0].at(i) < 0x8000000020000 && first.fe(i)
                    == planes_value(h, i) % fp::p());
                fp::lemma_carry_pass(
                    g[0].at(i) as int,
                    g[1].at(i) as int,
                    g[2].at(i) as int,
                    g[3].at(i) as int,
                    g[4].at(i) as int,
                );
                assert(h4.at(i) < 0x8000000000002);
            }
        }
        r
    }

    /// One carry pass over double-width columns: limb 0 stays `< 2^60`, limbs 1..4 become
    /// `< 2^51`.
    fn reduce_ifma_loose(lo: [U64x8; 5], hi: [U64x8; 5]) -> (r: Self)
        requires
            forall|i: int| 0 <= i < 8 ==> #[trigger] columns_bounded(lo, hi, i),
        ensures
            r.loose(),
            forall|i: int| 0 <= i < 8 ==> #[trigger] r.fe(i) == columns_value(lo, hi, i) % fp::p(),
    {
        proof {
            assert forall|i: int| 0 <= i < 8 implies #[trigger] acc_bounded(
                lo[0],
                hi[0],
                i,
                300,
            ) by {
                assert(columns_bounded(lo, hi, i));
            }
        }
        let c0 = carry_out(&lo[0], &hi[0]);
        let l1 = lo[1].add(&c0);
        proof {
            assert forall|i: int| 0 <= i < 8 implies acc_value(l1, hi[1], i) == column(lo, hi, 1, i)
                + c0.at(i) && #[trigger] acc_bounded(l1, hi[1], i, 300) by {
                assert(columns_bounded(lo, hi, i));
            }
        }
        let c1 = carry_out(&l1, &hi[1]);
        let l2 = lo[2].add(&c1);
        proof {
            assert forall|i: int| 0 <= i < 8 implies acc_value(l2, hi[2], i) == column(lo, hi, 2, i)
                + c1.at(i) && #[trigger] acc_bounded(l2, hi[2], i, 300) by {
                assert(columns_bounded(lo, hi, i));
                assert(acc_bounded(l1, hi[1], i, 300));
            }
        }
        let c2 = carry_out(&l2, &hi[2]);
        let l3 = lo[3].add(&c2);
        proof {
            assert forall|i: int| 0 <= i < 8 implies acc_value(l3, hi[3], i) == column(lo, hi, 3, i)
                + c2.at(i) && #[trigger] acc_bounded(l3, hi[3], i, 300) by {
                assert(columns_bounded(lo, hi, i));
                assert(acc_bounded(l2, hi[2], i, 300));
            }
        }
        let c3 = carry_out(&l3, &hi[3]);
        let l4 = lo[4].add(&c3);
        proof {
            assert forall|i: int| 0 <= i < 8 implies acc_value(l4, hi[4], i) == column(lo, hi, 4, i)
                + c3.at(i) && #[trigger] acc_bounded(l4, hi[4], i, 300) by {
                assert(columns_bounded(lo, hi, i));
                assert(acc_bounded(l3, hi[3], i, 300));
            }
        }
        let c4 = carry_out(&l4, &hi[4]);
        proof {
            assert forall|i: int| 0 <= i < 8 implies #[trigger] columns_carried(lo, hi, i, l1, l2, l3, l4, c4) by {
                assert(columns_bounded(lo, hi, i));
                assert(acc_bounded(l1, hi[1], i, 300));
                assert(acc_bounded(l2, hi[2], i, 300));
                assert(acc_bounded(l3, hi[3], i, 300));
                assert(acc_bounded(l4, hi[4], i, 300));
                fp::lemma_column_pass(
                    lo[0].at(i) as int,
                    hi[0].at(i) as int,
                    lo[1].at(i) as int,
                    hi[1].at(i) as int,
                    lo[2].at(i) as int,
                    hi[2].at(i) as int,
                    lo[3].at(i) as int,
                    hi[3].at(i) as int,
                    lo[4].at(i) as int,
                    hi[4].at(i) as int,
                    l1.at(i) as int,
                    l2.at(i) as int,
                    l3.at(i) as int,
                    l4.at(i) as int,
                    c4.at(i) as int,
                );
            }
            assert forall|i: int| 0 <= i < 8 implies #[trigger] c4.at(i) < 11 * 0x10000000000000 by {
                assert(columns_carried(lo, hi, i, l1, l2, l3, l4, c4));
            }
        }
        let r = WideFe {
            limbs: [wrap_low(&lo[0], &c4), l1.low51(), l2.low51(), l3.low51(), l4.low51()],
        };
        proof {
            assert forall|i: int|
                #![trigger r.loose_lane(i)]
                #![trigger r.fe(i)]
                0 <= i < 8 implies r.loose_lane(i) && r.fe(i) == columns_value(lo, hi, i)
                % fp::p() by {
                assert(columns_carried(lo, hi, i, l1, l2, l3, l4, c4));
                assert(r.limbs[0].at(i) == lo[0].at(i) % 0x8000000000000 + 19 * c4.at(i));
            }
        }
        r
    }

    /// [`Self::reduce_ifma_loose`] and one extra carry pass, which leaves multiplication
    /// operands.
    fn reduce_ifma(lo: [U64x8; 5], hi: [U64x8; 5]) -> (r: Self)
        requires
            forall|i: int| 0 <= i < 8 ==> #[trigger] columns_bounded(lo, hi, i),
        ensures
            r.strict(),
            forall|i: int| 0 <= i < 8 ==> #[trigger] r.fe(i) == columns_value(lo, hi, i) % fp::p(),
    {
        let loose = Self::reduce_ifma_loose(lo, hi);
        proof {
            assert forall|i: int| 0 <= i < 8 implies #[trigger] planes_below(
                loose.limbs,
                i,
                0x8000000000000000,
            ) by {
                assert(loose.loose_lane(i));
            }
        }
        let r = Self::reduce_loose(loose.limbs);
        proof {
            assert forall|i: int| 0 <= i < 8 implies #[trigger] r.fe(i) == columns_value(lo, hi, i)
                % fp::p() by {
                assert(loose.fe(i) == columns_value(lo, hi, i) % fp::p());
            }
        }
        r
    }

    /// Double-width columns of the lane-wise product, the upper ones folded back times 19.
    pub fn multiply_accum(&self, rhs: &Self) -> (r: ([U64x8; 5], [U64x8; 5]))
        requires
            self.operand(),
            rhs.operand(),
        ensures
            forall|i: int| 0 <= i < 8 ==> #[trigger] columns_bounded(r.0, r.1, i),
            forall|i: int|
                0 <= i < 8 ==> #[trigger] (columns_value(r.0, r.1, i)) % fp::p() == fp::fmul(
                    self.fe(i),
                    rhs.fe(i),
                ),
    {
        proof {
            self.lemma_fits52();
            rhs.lemma_fits52();
        }
        let z = U64x8::splat(0);
        let mut lo0 = z;
        let mut hi0 = z;
        madd_one(&mut lo0, &mut hi0, &self.limbs[0], &rhs.limbs[0]);
        let mut wlo0 = z;
        let mut whi0 = z;
        madd_one(&mut wlo0, &mut whi0, &self.limbs[1], &rhs.limbs[4]);
        madd_one(&mut wlo0, &mut whi0, &self.limbs[2], &rhs.limbs[3]);
        madd_one(&mut wlo0, &mut whi0, &self.limbs[3], &rhs.limbs[2]);
        madd_one(&mut wlo0, &mut whi0, &self.limbs[4], &rhs.limbs[1]);
        add_wrap19(&mut lo0, &mut hi0, &wlo0, &whi0, Ghost(4));

        let mut lo1 = z;
        let mut hi1 = z;
        madd_one(&mut lo1, &mut hi1, &self.limbs[0], &rhs.limbs[1]);
        madd_one(&mut lo1, &mut hi1, &self.limbs[1], &rhs.limbs[0]);
        let mut wlo1 = z;
        let mut whi1 = z;
        madd_one(&mut wlo1, &mut whi1, &self.limbs[2], &rhs.limbs[4]);
        madd_one(&mut wlo1, &mut whi1, &self.limbs[3], &rhs.limbs[3]);
        madd_one(&mut wlo1, &mut whi1, &self.limbs[4], &rhs.limbs[2]);
        add_wrap19(&mut lo1, &mut hi1, &wlo1, &whi1, Ghost(3));

        let mut lo2 = z;
        let mut hi2 = z;
        madd_one(&mut lo2, &mut hi2, &self.limbs[0], &rhs.limbs[2]);
        madd_one(&mut lo2, &mut hi2, &self.limbs[1], &rhs.limbs[1]);
        madd_one(&mut lo2, &mut hi2, &self.limbs[2], &rhs.limbs[0]);
        let mut wlo2 = z;
        let mut whi2 = z;
        madd_one(&mut wlo2, &mut whi2, &self.limbs[3], &rhs.limbs[4]);
        madd_one(&mut wlo2, &mut whi2, &self.limbs[4], &rhs.limbs[3]);
        add_wrap19(&mut lo2, &mut hi2, &wlo2, &whi2, Ghost(2));

        let mut lo3 = z;
        let mut hi3 = z;
        madd_one(&mut lo3, &mut hi3, &self.limbs[0], &rhs.limbs[3]);
        madd_one(&mut lo3, &mut hi3, &self.limbs[1], &rhs.limbs[2]);
        madd_one(&mut lo3, &mut hi3, &self.limbs[2], &rhs.limbs[1]);
        madd_one(&mut lo3, &mut hi3, &self.limbs[3], &rhs.limbs[0]);
        let mut wlo3 = z;
        let mut whi3 = z;
        madd_one(&mut wlo3, &mut whi3, &self.limbs[4], &rhs.limbs[4]);
        add_wrap19(&mut lo3, &mut hi3, &wlo3, &whi3, Ghost(1));

        let mut lo4 = z;
        let mut hi4 = z;
        madd_one(&mut lo4, &mut hi4, &self.limbs[0], &rhs.limbs[4]);
        madd_one(&mut lo4, &mut hi4, &self.limbs[1], &rhs.limbs[3]);
        madd_one(&mut lo4, &mut hi4, &self.limbs[2], &rhs.limbs[2]);
        madd_one(&mut lo4, &mut hi4, &self.limbs[3], &rhs.limbs[1]);
        madd_one(&mut lo4, &mut hi4, &self.limbs[4], &rhs.limbs[0]);

        let lo = [lo0, lo1, lo2, lo3, lo4];
        let hi = [hi0, hi1, hi2, hi3, hi4];
        proof {
            assert forall|i: int|
                #![trigger columns_bounded(lo, hi, i)]
                #![trigger columns_value(lo, hi, i)]
                0 <= i < 8 implies columns_bounded(lo, hi, i) && columns_value(lo, hi, i) % fp::p()
                == fp::fmul(self.fe(i), rhs.fe(i)) by {
                
                let a0 = self.limbs[0].at(i) as int;
                let a1 = self.limbs[1].at(i) as int;
                let a2 = self.limbs[2].at(i) as int;
                let a3 = self.limbs[3].at(i) as int;
                let a4 = self.limbs[4].at(i) as int;
                let b0 = rhs.limbs[0].at(i) as int;
                let b1 = rhs.limbs[1].at(i) as int;
                let b2 = rhs.limbs[2].at(i) as int;
                let b3 = rhs.limbs[3].at(i) as int;
                let b4 = rhs.limbs[4].at(i) as int;
                assert(column(lo, hi, 0, i) == a0 * b0 + 19 * (a1 * b4 + a2 * b3 + a3 * b2 + a4 * b1));
                assert(column(lo, hi, 1, i) == a0 * b1 + a1 * b0 + 19 * (a2 * b4 + a3 * b3 + a4 * b2));
                assert(column(lo, hi, 2, i) == a0 * b2 + a1 * b1 + a2 * b0 + 19 * (a3 * b4 + a4 * b3));
                assert(column(lo, hi, 3, i) == a0 * b3 + a1 * b2 + a2 * b1 + a3 * b0 + 19 * (a4 * b4));
                assert(column(lo, hi, 4, i) == a0 * b4 + a1 * b3 + a2 * b2 + a3 * b1 + a4 * b0);
                fp::lemma_mul_columns(a0, a1, a2, a3, a4, b0, b1, b2, b3, b4);
                fp::lemma_fmul_mod(planes_value(self.limbs, i), planes_value(rhs.limbs, i));
            }
        }
        (lo, hi)
    }

    /// Double-width columns of the lane-wise square.
    ///
    /// A loose lowest limb is normalized first: torsion cases can represent zero as `p`, and
    /// doubled inputs must stay under 52 bits.
    fn square_accum(&self) -> (r: ([U64x8; 5], [U64x8; 5]))
        requires
            self.loose(),
        ensures
            forall|i: int| 0 <= i < 8 ==> #[trigger] columns_bounded(r.0, r.1, i),
            forall|i: int|
                0 <= i < 8 ==> #[trigger] (columns_value(r.0, r.1, i)) % fp::p() == fp::fmul(
                    self.fe(i),
                    self.fe(i),
                ),
    {
        let z = U64x8::splat(0);
        let f0 = self.limbs[0].low51();
        let h1 = self.limbs[1].add(&self.limbs[0].shr51());
        let f1 = h1.low51();
        let h2 = self.limbs[2].add(&h1.shr51());
        let f2 = h2.low51();
        let h3 = self.limbs[3].add(&h2.shr51());
        let f3 = h3.low51();
        let f4 = self.limbs[4].add(&h3.shr51());

        let f0_2 = f0.add(&f0);
        let f1_2 = f1.add(&f1);
        let f2_2 = f2.add(&f2);
        let f3_2 = f3.add(&f3);
        proof {
            assert forall|i: int|
                #![trigger f0.at(i)]
                #![trigger f1.at(i)]
                #![trigger f2.at(i)]
                #![trigger f3.at(i)]
                #![trigger f4.at(i)]
                #![trigger f0_2.at(i)]
                #![trigger f1_2.at(i)]
                #![trigger f2_2.at(i)]
                #![trigger f3_2.at(i)]
                0 <= i < 8 implies f0.at(i) < 0x8000000000000 && f1.at(i) < 0x8000000000000
                && f2.at(i) < 0x8000000000000 && f3.at(i) < 0x8000000000000 && f4.at(i)
                <= 0x8000000000000 && f0_2.at(i) == 2 * f0.at(i) && f1_2.at(i) == 2 * f1.at(i)
                && f2_2.at(i) == 2 * f2.at(i) && f3_2.at(i) == 2 * f3.at(i) && fp::limbs_value(
                f0.at(i) as int,
                f1.at(i) as int,
                f2.at(i) as int,
                f3.at(i) as int,
                f4.at(i) as int,
            ) == planes_value(self.limbs, i) by {
                assert(self.loose_lane(i));
            }
        }

        let mut lo0 = z;
        let mut hi0 = z;
        madd_one(&mut lo0, &mut hi0, &f0, &f0);
        let mut wlo0 = z;
        let mut whi0 = z;
        madd_one(&mut wlo0, &mut whi0, &f1_2, &f4);
        madd_one(&mut wlo0, &mut whi0, &f2_2, &f3);
        add_wrap19(&mut lo0, &mut hi0, &wlo0, &whi0, Ghost(2));

        let mut lo1 = z;
        let mut hi1 = z;
        madd_one(&mut lo1, &mut hi1, &f0_2, &f1);
        let mut wlo1 = z;
        let mut whi1 = z;
        madd_one(&mut wlo1, &mut whi1, &f2_2, &f4);
        madd_one(&mut wlo1, &mut whi1, &f3, &f3);
        add_wrap19(&mut lo1, &mut hi1, &wlo1, &whi1, Ghost(2));

        let mut lo2 = z;
        let mut hi2 = z;
        madd_one(&mut lo2, &mut hi2, &f0_2, &f2);
        madd_one(&mut lo2, &mut hi2, &f1, &f1);
        let mut wlo2 = z;
        let mut whi2 = z;
        madd_one(&mut wlo2, &mut whi2, &f3_2, &f4);
        add_wrap19(&mut lo2, &mut hi2, &wlo2, &whi2, Ghost(1));

        let mut lo3 = z;
        let mut hi3 = z;
        madd_one(&mut lo3, &mut hi3, &f0_2, &f3);
        madd_one(&mut lo3, &mut hi3, &f1_2, &f2);
        let mut wlo3 = z;
        let mut whi3 = z;
        madd_one(&mut wlo3, &mut whi3, &f4, &f4);
        add_wrap19(&mut lo3, &mut hi3, &wlo3, &whi3, Ghost(1));

        let mut lo4 = z;
        let mut hi4 = z;
        madd_one(&mut lo4, &mut hi4, &f0_2, &f4);
        madd_one(&mut lo4, &mut hi4, &f1_2, &f3);
        madd_one(&mut lo4, &mut hi4, &f2, &f2);

        let lo = [lo0, lo1, lo2, lo3, lo4];
        let hi = [hi0, hi1, hi2, hi3, hi4];
        proof {
            assert forall|i: int|
                #![trigger columns_bounded(lo, hi, i)]
                #![trigger columns_value(lo, hi, i)]
                0 <= i < 8 implies columns_bounded(lo, hi, i) && columns_value(lo, hi, i) % fp::p()
                == fp::fmul(self.fe(i), self.fe(i)) by {
                assert(self.loose_lane(i));
                let a0 = f0.at(i) as int;
                let a1 = f1.at(i) as int;
                let a2 = f2.at(i) as int;
                let a3 = f3.at(i) as int;
                let a4 = f4.at(i) as int;
                assert(column(lo, hi, 0, i) == a0 * a0 + 19 * ((2 * a1) * a4 + (2 * a2) * a3));
                assert(column(lo, hi, 1, i) == (2 * a0) * a1 + 19 * ((2 * a2) * a4 + a3 * a3));
                assert(column(lo, hi, 2, i) == (2 * a0) * a2 + a1 * a1 + 19 * ((2 * a3) * a4));
                assert(column(lo, hi, 3, i) == (2 * a0) * a3 + (2 * a1) * a2 + 19 * (a4 * a4));
                assert(column(lo, hi, 4, i) == (2 * a0) * a4 + (2 * a1) * a3 + a2 * a2);
                fp::lemma_square_columns(a0, a1, a2, a3, a4);
                fp::lemma_fmul_mod(planes_value(self.limbs, i), planes_value(self.limbs, i));
            }
        }
        (lo, hi)
    }

    /// Lane-wise product with a loose result.
    pub fn multiply_loose(&self, rhs: &Self) -> (r: Self)
        requires
            self.operand(),
            rhs.operand(),
        ensures
            r.loose(),
            forall|i: int| 0 <= i < 8 ==> #[trigger] r.fe(i) == fp::fmul(self.fe(i), rhs.fe(i)),
    {
        let (lo, hi) = self.multiply_accum(rhs);
        Self::reduce_ifma_loose(lo, hi)
    }

    /// Lane-wise product.
    pub fn multiply(&self, rhs: &Self) -> (r: Self)
        requires
            self.operand(),
            rhs.operand(),
        ensures
            r.strict(),
            forall|i: int| 0 <= i < 8 ==> #[trigger] r.fe(i) == fp::fmul(self.fe(i), rhs.fe(i)),
    {
        let (lo, hi) = self.multiply_accum(rhs);
        Self::reduce_ifma(lo, hi)
    }

    /// Lane-wise square with a loose result.
    pub fn square_loose(&self) -> (r: Self)
        requires
            self.loose(),
        ensures
            r.loose(),
            forall|i: int| 0 <= i < 8 ==> #[trigger] r.fe(i) == fp::fmul(self.fe(i), self.fe(i)),
    {
        let (lo, hi) = self.square_accum();
        Self::reduce_ifma_loose(lo, hi)
    }

    /// Lane-wise square.
    pub fn square(&self) -> (r: Self)
        requires
            self.loose(),
        ensures
            r.strict(),
            forall|i: int| 0 <= i < 8 ==> #[trigger] r.fe(i) == fp::fmul(self.fe(i), self.fe(i)),
    {
        let (lo, hi) = self.square_accum();
        Self::reduce_ifma(lo, hi)
    }

    /// Zero in every lane.
    pub fn zero() -> (r: Self)
        ensures
            r.strict(),
            forall|i: int| 0 <= i < 8 ==> #[trigger] r.fe(i) == 0,
    {
        Self::constant([0; 5])
    }

    /// One in every lane.
    pub fn one() -> (r: Self)
        ensures
            r.strict(),
            forall|i: int| 0 <= i < 8 ==> #[trigger] r.fe(i) == 1,
    {
        Self::constant([1, 0, 0, 0, 0])
    }

    /// The same limbs in every lane.
    pub fn constant(limbs: [u64; 5]) -> (r: Self)
        ensures
            forall|i: int|
                0 <= i < 8 ==> #[trigger] r.strict_lane(i) == (limbs[0] < 0x10000000000000 && limbs[1]
                    < 0x8000000000000 && limbs[2] < 0x8000000000000 && limbs[3] < 0x8000000000000
                    && limbs[4] < 0x8000000000000),
            forall|i: int|
                0 <= i < 8 ==> #[trigger] r.fe(i) == fp::limbs_value(
                    limbs[0] as int,
                    limbs[1] as int,
                    limbs[2] as int,
                    limbs[3] as int,
                    limbs[4] as int,
                ) % fp::p(),
    {
        WideFe {
            limbs: [
                U64x8::splat(limbs[0]),
                U64x8::splat(limbs[1]),
                U64x8::splat(limbs[2]),
                U64x8::splat(limbs[3]),
                U64x8::splat(limbs[4]),
            ],
        }
    }

    /// Limb-wise sum, not reduced.
    fn raw_sum(&self, rhs: &Self) -> (h: [U64x8; 5])
        requires
            self.roomy(),
            rhs.roomy(),
        ensures
            forall|i: int| 0 <= i < 8 ==> #[trigger] planes_below(h, i, 0x8000000000000000),
            forall|i: int|
                0 <= i < 8 ==> #[trigger] planes_value(h, i) == planes_value(self.limbs, i)
                    + planes_value(rhs.limbs, i),
    {
        let h = [
            self.limbs[0].add(&rhs.limbs[0]),
            self.limbs[1].add(&rhs.limbs[1]),
            self.limbs[2].add(&rhs.limbs[2]),
            self.limbs[3].add(&rhs.limbs[3]),
            self.limbs[4].add(&rhs.limbs[4]),
        ];
        proof {
            assert forall|i: int|
                #![trigger planes_below(h, i, 0x8000000000000000)]
                #![trigger planes_value(h, i)]
                0 <= i < 8 implies planes_below(h, i, 0x8000000000000000) && planes_value(h, i)
                == planes_value(self.limbs, i) + planes_value(rhs.limbs, i) by {
                assert(planes_below(self.limbs, i, 0x4000000000000000));
                assert(planes_below(rhs.limbs, i, 0x4000000000000000));
            }
        }
        h
    }

    /// Lane-wise sum. Full reduction keeps results strict enough for small-bias subtracts.
    pub fn add(&self, rhs: &Self) -> (r: Self)
        requires
            self.roomy(),
            rhs.roomy(),
        ensures
            r.strict(),
            forall|i: int| 0 <= i < 8 ==> #[trigger] r.fe(i) == fp::fadd(self.fe(i), rhs.fe(i)),
    {
        let h = self.raw_sum(rhs);
        let r = Self::reduce64(h);
        proof {
            assert forall|i: int|
                #![trigger r.strict_lane(i)]
                #![trigger r.fe(i)]
                0 <= i < 8 implies r.strict_lane(i) && r.fe(i) == fp::fadd(self.fe(i), rhs.fe(i)) by {
                assert(planes_below(r.limbs, i, 0x8000000000000));
                assert(planes_value(h, i) == planes_value(self.limbs, i) + planes_value(rhs.limbs, i));
                fp::lemma_fadd_mod(planes_value(self.limbs, i), planes_value(rhs.limbs, i));
            }
        }
        r
    }

    /// Lane-wise sum after one carry pass.
    pub fn add_loose(&self, rhs: &Self) -> (r: Self)
        requires
            self.roomy(),
            rhs.roomy(),
        ensures
            r.strict(),
            forall|i: int| 0 <= i < 8 ==> #[trigger] r.fe(i) == fp::fadd(self.fe(i), rhs.fe(i)),
    {
        let h = self.raw_sum(rhs);
        let r = Self::reduce_loose(h);
        proof {
            assert forall|i: int| 0 <= i < 8 implies #[trigger] r.fe(i) == fp::fadd(
                self.fe(i),
                rhs.fe(i),
            ) by {
                assert(planes_value(h, i) == planes_value(self.limbs, i) + planes_value(rhs.limbs, i));
                fp::lemma_fadd_mod(planes_value(self.limbs, i), planes_value(rhs.limbs, i));
            }
        }
        r
    }

    /// Lane-wise difference, through a bias of `4 * p`.
    ///
    /// The bias is only enough for strict subtrahends; loose ones need
    /// [`Self::subtract_wide`].
    pub fn subtract(&self, rhs: &Self) -> (r: Self)
        requires
            self.roomy(),
            rhs.operand(),
        ensures
            r.strict(),
            forall|i: int| 0 <= i < 8 ==> #[trigger] r.fe(i) == fp::fsub(self.fe(i), rhs.fe(i)),
    {
        let b0 = U64x8::splat(0x1fffffffffffb4);
        let bn = U64x8::splat(0x1ffffffffffffc);
        let h = [
            self.limbs[0].add(&b0).sub(&rhs.limbs[0]),
            self.limbs[1].add(&bn).sub(&rhs.limbs[1]),
            self.limbs[2].add(&bn).sub(&rhs.limbs[2]),
            self.limbs[3].add(&bn).sub(&rhs.limbs[3]),
            self.limbs[4].add(&bn).sub(&rhs.limbs[4]),
        ];
        proof {
            assert forall|i: int|
                #![trigger planes_below(h, i, 0x8000000000000000)]
                #![trigger planes_value(h, i)]
                0 <= i < 8 implies planes_below(h, i, 0x8000000000000000) && planes_value(h, i)
                == planes_value(self.limbs, i) + 4 * fp::p() - planes_value(rhs.limbs, i) by {
                assert(planes_below(self.limbs, i, 0x4000000000000000));
                assert(planes_below(rhs.limbs, i, 0x10000000000000));
                assert(h[0].at(i) == self.limbs[0].at(i) + 0x1fffffffffffb4 - rhs.limbs[0].at(i));
                assert(h[1].at(i) == self.limbs[1].at(i) + 0x1ffffffffffffc - rhs.limbs[1].at(i));
                assert(h[2].at(i) == self.limbs[2].at(i) + 0x1ffffffffffffc - rhs.limbs[2].at(i));
                assert(h[3].at(i) == self.limbs[3].at(i) + 0x1ffffffffffffc - rhs.limbs[3].at(i));
                assert(h[4].at(i) == self.limbs[4].at(i) + 0x1ffffffffffffc - rhs.limbs[4].at(i));
            }
        }
        let r = Self::reduce_loose(h);
        proof {
            assert forall|i: int| 0 <= i < 8 implies #[trigger] r.fe(i) == fp::fsub(self.fe(i), rhs.fe(i)) by {
                assert(planes_value(h, i) == planes_value(self.limbs, i) + 4 * fp::p() - planes_value(rhs.limbs, i));
                fp::lemma_biased_difference(planes_value(self.limbs, i), planes_value(rhs.limbs, i), 4);
            }
        }
        r
    }

    /// Lane-wise difference, through a bias of `2048 * p`.
    pub fn subtract_wide(&self, rhs: &Self) -> (r: Self)
        requires
            self.roomy(),
            rhs.loose(),
        ensures
            r.strict(),
            forall|i: int| 0 <= i < 8 ==> #[trigger] r.fe(i) == fp::fsub(self.fe(i), rhs.fe(i)),
    {
        let b0 = U64x8::splat(0x3fffffffffff6800);
        let bn = U64x8::splat(0x3ffffffffffff800);
        let h = [
            self.limbs[0].add(&b0).sub(&rhs.limbs[0]),
            self.limbs[1].add(&bn).sub(&rhs.limbs[1]),
            self.limbs[2].add(&bn).sub(&rhs.limbs[2]),
            self.limbs[3].add(&bn).sub(&rhs.limbs[3]),
            self.limbs[4].add(&bn).sub(&rhs.limbs[4]),
        ];
        proof {
            assert forall|i: int|
                #![trigger planes_below(h, i, 0x8000000000000000)]
                #![trigger planes_value(h, i)]
                0 <= i < 8 implies planes_below(h, i, 0x8000000000000000) && planes_value(h, i)
                == planes_value(self.limbs, i) + 2048 * fp::p() - planes_value(rhs.limbs, i) by {
                assert(planes_below(self.limbs, i, 0x4000000000000000));
                assert(rhs.loose_lane(i));
                assert(h[0].at(i) == self.limbs[0].at(i) + 0x3fffffffffff6800 - rhs.limbs[0].at(i));
                assert(h[1].at(i) == self.limbs[1].at(i) + 0x3ffffffffffff800 - rhs.limbs[1].at(i));
                assert(h[2].at(i) == self.limbs[2].at(i) + 0x3ffffffffffff800 - rhs.limbs[2].at(i));
                assert(h[3].at(i) == self.limbs[3].at(i) + 0x3ffffffffffff800 - rhs.limbs[3].at(i));
                assert(h[4].at(i) == self.limbs[4].at(i) + 0x3ffffffffffff800 - rhs.limbs[4].at(i));
            }
        }
        let r = Self::reduce_loose(h);
        proof {
            assert forall|i: int| 0 <= i < 8 implies #[trigger] r.fe(i) == fp::fsub(self.fe(i), rhs.fe(i)) by {
                assert(planes_value(h, i) == planes_value(self.limbs, i) + 2048 * fp::p() - planes_value(rhs.limbs, i));
                fp::lemma_biased_difference(planes_value(self.limbs, i), planes_value(rhs.limbs, i), 2048);
            }
        }
        r
    }

    /// Lane-wise `self - lhs - rhs`, through a bias of `2048 * p`.
    pub fn subtract_sum_wide(&self, lhs: &Self, rhs: &Self) -> (r: Self)
        requires
            self.roomy(),
            lhs.loose(),
            rhs.loose(),
        ensures
            r.strict(),
            forall|i: int| 0 <= i < 8 ==> #[trigger] r.fe(i) == fp::fsub(self.fe(i), fp::fadd(lhs.fe(i), rhs.fe(i))),
    {
        let b0 = U64x8::splat(0x3fffffffffff6800);
        let bn = U64x8::splat(0x3ffffffffffff800);
        let h = [
            self.limbs[0].add(&b0).sub(&lhs.limbs[0]).sub(&rhs.limbs[0]),
            self.limbs[1].add(&bn).sub(&lhs.limbs[1]).sub(&rhs.limbs[1]),
            self.limbs[2].add(&bn).sub(&lhs.limbs[2]).sub(&rhs.limbs[2]),
            self.limbs[3].add(&bn).sub(&lhs.limbs[3]).sub(&rhs.limbs[3]),
            self.limbs[4].add(&bn).sub(&lhs.limbs[4]).sub(&rhs.limbs[4]),
        ];
        proof {
            assert forall|i: int|
                #![trigger planes_below(h, i, 0x8000000000000000)]
                #![trigger planes_value(h, i)]
                0 <= i < 8 implies planes_below(h, i, 0x8000000000000000) && planes_value(h, i)
                == planes_value(self.limbs, i) + 2048 * fp::p() - (planes_value(lhs.limbs, i) + planes_value(rhs.limbs, i)) by {
                assert(planes_below(self.limbs, i, 0x4000000000000000));
                assert(lhs.loose_lane(i));
                assert(rhs.loose_lane(i));
                assert(h[0].at(i) == self.limbs[0].at(i) + 0x3fffffffffff6800 - lhs.limbs[0].at(i) - rhs.limbs[0].at(i));
                assert(h[1].at(i) == self.limbs[1].at(i) + 0x3ffffffffffff800 - lhs.limbs[1].at(i) - rhs.limbs[1].at(i));
                assert(h[2].at(i) == self.limbs[2].at(i) + 0x3ffffffffffff800 - lhs.limbs[2].at(i) - rhs.limbs[2].at(i));
                assert(h[3].at(i) == self.limbs[3].at(i) + 0x3ffffffffffff800 - lhs.limbs[3].at(i) - rhs.limbs[3].at(i));
                assert(h[4].at(i) == self.limbs[4].at(i) + 0x3ffffffffffff800 - lhs.limbs[4].at(i) - rhs.limbs[4].at(i));
            }
        }
        let r = Self::reduce_loose(h);
        proof {
            assert forall|i: int| 0 <= i < 8 implies #[trigger] r.fe(i) == fp::fsub(self.fe(i), fp::fadd(lhs.fe(i), rhs.fe(i))) by {
                assert(planes_value(h, i) == planes_value(self.limbs, i) + 2048 * fp::p() - (planes_value(lhs.limbs, i) + planes_value(rhs.limbs, i)));
                fp::lemma_biased_difference(planes_value(self.limbs, i), (planes_value(lhs.limbs, i) + planes_value(rhs.limbs, i)), 2048);
                fp::lemma_fadd_mod(planes_value(lhs.limbs, i), planes_value(rhs.limbs, i));
            }
        }
        r
    }

    /// Lane-wise `-(lhs + rhs)`, through a bias of `2048 * p`.
    pub fn negate_sum_wide(lhs: &Self, rhs: &Self) -> (r: Self)
        requires
            lhs.loose(),
            rhs.loose(),
        ensures
            r.strict(),
            forall|i: int| 0 <= i < 8 ==> #[trigger] r.fe(i) == fp::fneg(fp::fadd(lhs.fe(i), rhs.fe(i))),
    {
        let b0 = U64x8::splat(0x3fffffffffff6800);
        let bn = U64x8::splat(0x3ffffffffffff800);
        let h = [
            b0.sub(&lhs.limbs[0]).sub(&rhs.limbs[0]),
            bn.sub(&lhs.limbs[1]).sub(&rhs.limbs[1]),
            bn.sub(&lhs.limbs[2]).sub(&rhs.limbs[2]),
            bn.sub(&lhs.limbs[3]).sub(&rhs.limbs[3]),
            bn.sub(&lhs.limbs[4]).sub(&rhs.limbs[4]),
        ];
        proof {
            assert forall|i: int|
                #![trigger planes_below(h, i, 0x8000000000000000)]
                #![trigger planes_value(h, i)]
                0 <= i < 8 implies planes_below(h, i, 0x8000000000000000) && planes_value(h, i)
                == 0 + 2048 * fp::p() - (planes_value(lhs.limbs, i) + planes_value(rhs.limbs, i)) by {
                assert(lhs.loose_lane(i));
                assert(rhs.loose_lane(i));
                assert(h[0].at(i) == 0x3fffffffffff6800 - lhs.limbs[0].at(i) - rhs.limbs[0].at(i));
                assert(h[1].at(i) == 0x3ffffffffffff800 - lhs.limbs[1].at(i) - rhs.limbs[1].at(i));
                assert(h[2].at(i) == 0x3ffffffffffff800 - lhs.limbs[2].at(i) - rhs.limbs[2].at(i));
                assert(h[3].at(i) == 0x3ffffffffffff800 - lhs.limbs[3].at(i) - rhs.limbs[3].at(i));
                assert(h[4].at(i) == 0x3ffffffffffff800 - lhs.limbs[4].at(i) - rhs.limbs[4].at(i));
            }
        }
        let r = Self::reduce_loose(h);
        proof {
            assert forall|i: int| 0 <= i < 8 implies #[trigger] r.fe(i) == fp::fneg(fp::fadd(lhs.fe(i), rhs.fe(i))) by {
                assert(planes_value(h, i) == 0 + 2048 * fp::p() - (planes_value(lhs.limbs, i) + planes_value(rhs.limbs, i)));
                fp::lemma_biased_difference(0, (planes_value(lhs.limbs, i) + planes_value(rhs.limbs, i)), 2048);
                fp::lemma_fadd_mod(planes_value(lhs.limbs, i), planes_value(rhs.limbs, i));
                fp::lemma_negated(fp::fadd(lhs.fe(i), rhs.fe(i)));
            }
        }
        r
    }

    /// Lane-wise negation.
    pub fn negate(&self) -> (r: Self)
        requires
            self.operand(),
        ensures
            r.strict(),
            forall|i: int| 0 <= i < 8 ==> #[trigger] r.fe(i) == fp::fneg(self.fe(i)),
    {
        let zero = Self::zero();
        proof {
            zero.lemma_bounds();
        }
        let r = zero.subtract(self);
        proof {
            assert forall|i: int| 0 <= i < 8 implies #[trigger] r.fe(i) == fp::fneg(self.fe(i)) by {
                assert(zero.fe(i) == 0);
                fp::lemma_negated(self.fe(i));
            }
        }
        r
    }

    /// Lane-wise doubling.
    pub fn double(&self) -> (r: Self)
        requires
            self.roomy(),
        ensures
            r.strict(),
            forall|i: int| 0 <= i < 8 ==> #[trigger] r.fe(i) == fp::fadd(self.fe(i), self.fe(i)),
    {
        self.add(self)
    }

    /// Lane-wise doubling after one carry pass.
    pub fn double_loose(&self) -> (r: Self)
        requires
            self.roomy(),
        ensures
            r.strict(),
            forall|i: int| 0 <= i < 8 ==> #[trigger] r.fe(i) == fp::fadd(self.fe(i), self.fe(i)),
    {
        self.add_loose(self)
    }

    /// `N` squarings. Intermediate squarings stay loose; the final result is strict because
    /// callers feed it to `multiply`.
    pub fn square_repeat<const N: usize>(&self) -> (r: Self)
        requires
            self.loose(),
        ensures
            N > 0 ==> r.strict(),
            N == 0 ==> r == *self,
            forall|i: int| 0 <= i < 8 ==> #[trigger] r.fe(i) == fp::fpow(self.fe(i), pow2(N as nat)),
    {
        let mut out = *self;
        let mut k: usize = 0;
        proof {
            lemma2_to64();
            assert forall|i: int| 0 <= i < 8 implies #[trigger] out.fe(i) == fp::fpow(
                self.fe(i),
                pow2(0),
            ) by {
                fp::lemma_fpow_base(self.fe(i));
            }
        }
        while k < N
            invariant
                k <= N,
                out.loose(),
                k > 0 && k == N ==> out.strict(),
                k == 0 ==> out == *self,
                forall|i: int|
                    0 <= i < 8 ==> #[trigger] out.fe(i) == fp::fpow(self.fe(i), pow2(k as nat)),
            decreases N - k,
        {
            let ghost before = out;
            if k + 1 < N {
                out = out.square_loose();
            } else {
                out = out.square();
                proof {
                    out.lemma_bounds();
                }
            }
            proof {
                assert forall|i: int| 0 <= i < 8 implies #[trigger] out.fe(i) == fp::fpow(
                    self.fe(i),
                    pow2((k + 1) as nat),
                ) by {
                    assert(before.fe(i) == fp::fpow(self.fe(i), pow2(k as nat)));
                    fp::lemma_fpow_add(self.fe(i), pow2(k as nat), pow2(k as nat));
                    lemma_pow2_unfold((k + 1) as nat);
                }
            }
            k += 1;
        }
        out
    }

    /// Two interleaved [`Self::square_repeat`] chains.
    pub fn square_repeat_x2<const N: usize>(a: &Self, b: &Self) -> (r: (Self, Self))
        requires
            a.loose(),
            b.loose(),
        ensures
            N > 0 ==> r.0.strict() && r.1.strict(),
            N == 0 ==> r.0 == *a && r.1 == *b,
            forall|i: int| 0 <= i < 8 ==> #[trigger] r.0.fe(i) == fp::fpow(a.fe(i), pow2(N as nat)),
            forall|i: int| 0 <= i < 8 ==> #[trigger] r.1.fe(i) == fp::fpow(b.fe(i), pow2(N as nat)),
    {
        let mut x = *a;
        let mut y = *b;
        let mut k: usize = 0;
        proof {
            lemma2_to64();
            assert forall|i: int| 0 <= i < 8 implies #[trigger] x.fe(i) == fp::fpow(a.fe(i), pow2(0)) by {
                fp::lemma_fpow_base(a.fe(i));
            }
            assert forall|i: int| 0 <= i < 8 implies #[trigger] y.fe(i) == fp::fpow(b.fe(i), pow2(0)) by {
                fp::lemma_fpow_base(b.fe(i));
            }
        }
        while k < N
            invariant
                k <= N,
                x.loose(),
                y.loose(),
                k > 0 && k == N ==> x.strict() && y.strict(),
                k == 0 ==> x == *a && y == *b,
                forall|i: int| 0 <= i < 8 ==> #[trigger] x.fe(i) == fp::fpow(a.fe(i), pow2(k as nat)),
                forall|i: int| 0 <= i < 8 ==> #[trigger] y.fe(i) == fp::fpow(b.fe(i), pow2(k as nat)),
            decreases N - k,
        {
            let ghost x0 = x;
            let ghost y0 = y;
            if k + 1 < N {
                x = x.square_loose();
                y = y.square_loose();
            } else {
                x = x.square();
                y = y.square();
                proof {
                    x.lemma_bounds();
                    y.lemma_bounds();
                }
            }
            proof {
                lemma_pow2_unfold((k + 1) as nat);
                assert forall|i: int| 0 <= i < 8 implies #[trigger] x.fe(i) == fp::fpow(
                    a.fe(i),
                    pow2((k + 1) as nat),
                ) by {
                    assert(x0.fe(i) == fp::fpow(a.fe(i), pow2(k as nat)));
                    fp::lemma_fpow_add(a.fe(i), pow2(k as nat), pow2(k as nat));
                }
                assert forall|i: int| 0 <= i < 8 implies #[trigger] y.fe(i) == fp::fpow(
                    b.fe(i),
                    pow2((k + 1) as nat),
                ) by {
                    assert(y0.fe(i) == fp::fpow(b.fe(i), pow2(k as nat)));
                    fp::lemma_fpow_add(b.fe(i), pow2(k as nat), pow2(k as nat));
                }
            }
            k += 1;
        }
        (x, y)
    }

    /// Lane-wise powers `2^250 - 1` and 11.
    fn power_chain(&self) -> (r: (Self, Self))
        requires
            self.strict(),
        ensures
            r.0.strict(),
            r.1.strict(),
            forall|i: int| 0 <= i < 8 ==> #[trigger] r.0.fe(i) == fp::fpow(self.fe(i), fp::chain_exponent()),
            forall|i: int| 0 <= i < 8 ==> #[trigger] r.1.fe(i) == fp::fpow(self.fe(i), 11),
    {
        broadcast use {WideFe::lemma_operand, WideFe::lemma_loose};

        let t0 = self.square();
        let t1 = t0.square_repeat::<2>().multiply(self);
        let t2 = t0.multiply(&t1);
        let t3 = t2.square().multiply(&t1);
        let t4 = t3.square_repeat::<5>().multiply(&t3);
        let t5 = t4.square_repeat::<10>().multiply(&t4);
        let t6 = t5.square_repeat::<20>().multiply(&t5);
        let t7 = t6.square_repeat::<10>().multiply(&t4);
        let t8 = t7.square_repeat::<50>().multiply(&t7);
        let t9 = t8.square_repeat::<100>().multiply(&t8);
        let t10 = t9.square_repeat::<50>().multiply(&t7);
        proof {
            assert forall|i: int|
                #![trigger t10.fe(i)]
                #![trigger t2.fe(i)]
                0 <= i < 8 implies t10.fe(i) == fp::fpow(self.fe(i), fp::chain_exponent()) && t2.fe(i)
                == fp::fpow(self.fe(i), 11) by {
                self.lemma_fe_range(i);
                fp::lemma_shared_chain(
                    self.fe(i),
                    t0.fe(i),
                    t1.fe(i),
                    t2.fe(i),
                    t3.fe(i),
                    t4.fe(i),
                    t5.fe(i),
                    t6.fe(i),
                    t7.fe(i),
                    t8.fe(i),
                    t9.fe(i),
                    t10.fe(i),
                );
            }
        }
        (t10, t2)
    }

    /// Lane-wise power `(p - 5) / 8`.
    pub fn pow_p_minus_5_over_8(&self) -> (r: Self)
        requires
            self.strict(),
        ensures
            r.strict(),
            forall|i: int| 0 <= i < 8 ==> #[trigger] r.fe(i) == fp::fpow(self.fe(i), fp::p_minus_5_over_8()),
    {
        broadcast use {WideFe::lemma_operand, WideFe::lemma_loose};

        let (power, _) = self.power_chain();
        let squared = power.square_repeat::<2>();
        let r = squared.multiply(self);
        proof {
            assert forall|i: int| 0 <= i < 8 implies #[trigger] r.fe(i) == fp::fpow(
                self.fe(i),
                fp::p_minus_5_over_8(),
            ) by {
                self.lemma_fe_range(i);
                fp::lemma_chain_ends(self.fe(i));
                assert(squared.fe(i) == fp::fpow(power.fe(i), pow2(2)));
            }
        }
        r
    }

    /// Lane-wise power `p - 2`: the inverse of a nonzero element.
    pub fn invert(&self) -> (r: Self)
        requires
            self.strict(),
        ensures
            r.strict(),
            forall|i: int| 0 <= i < 8 ==> #[trigger] r.fe(i) == fp::fpow(self.fe(i), fp::p_minus_2()),
    {
        broadcast use {WideFe::lemma_operand, WideFe::lemma_loose};

        let (power, power11) = self.power_chain();
        let squared = power.square_repeat::<5>();
        let r = squared.multiply(&power11);
        proof {
            assert forall|i: int| 0 <= i < 8 implies #[trigger] r.fe(i) == fp::fpow(
                self.fe(i),
                fp::p_minus_2(),
            ) by {
                self.lemma_fe_range(i);
                fp::lemma_chain_ends(self.fe(i));
                assert(squared.fe(i) == fp::fpow(power.fe(i), pow2(5)));
                assert(power11.fe(i) == fp::fpow(self.fe(i), 11));
            }
        }
        r
    }

    /// Two interleaved [`Self::pow_p_minus_5_over_8`] chains.
    pub fn pow_p_minus_5_over_8_x2(a: &Self, b: &Self) -> (r: (Self, Self))
        requires
            a.strict(),
            b.strict(),
        ensures
            r.0.strict(),
            r.1.strict(),
            forall|i: int|
                0 <= i < 8 ==> #[trigger] r.0.fe(i) == fp::fpow(a.fe(i), fp::p_minus_5_over_8()),
            forall|i: int|
                0 <= i < 8 ==> #[trigger] r.1.fe(i) == fp::fpow(b.fe(i), fp::p_minus_5_over_8()),
    {
        broadcast use {WideFe::lemma_operand, WideFe::lemma_loose};

        let t0a = a.square();
        let t0b = b.square();
        let (t1sa, t1sb) = Self::square_repeat_x2::<2>(&t0a, &t0b);
        let t1a = t1sa.multiply(a);
        let t1b = t1sb.multiply(b);
        let t2a = t0a.multiply(&t1a);
        let t2b = t0b.multiply(&t1b);
        let t3sa = t2a.square();
        let t3sb = t2b.square();
        let t3a = t3sa.multiply(&t1a);
        let t3b = t3sb.multiply(&t1b);
        let (t4sa, t4sb) = Self::square_repeat_x2::<5>(&t3a, &t3b);
        let t4a = t4sa.multiply(&t3a);
        let t4b = t4sb.multiply(&t3b);
        let (t5sa, t5sb) = Self::square_repeat_x2::<10>(&t4a, &t4b);
        let t5a = t5sa.multiply(&t4a);
        let t5b = t5sb.multiply(&t4b);
        let (t6sa, t6sb) = Self::square_repeat_x2::<20>(&t5a, &t5b);
        let t6a = t6sa.multiply(&t5a);
        let t6b = t6sb.multiply(&t5b);
        let (t7sa, t7sb) = Self::square_repeat_x2::<10>(&t6a, &t6b);
        let t7a = t7sa.multiply(&t4a);
        let t7b = t7sb.multiply(&t4b);
        let (t8sa, t8sb) = Self::square_repeat_x2::<50>(&t7a, &t7b);
        let t8a = t8sa.multiply(&t7a);
        let t8b = t8sb.multiply(&t7b);
        let (t9sa, t9sb) = Self::square_repeat_x2::<100>(&t8a, &t8b);
        let t9a = t9sa.multiply(&t8a);
        let t9b = t9sb.multiply(&t8b);
        let (t10sa, t10sb) = Self::square_repeat_x2::<50>(&t9a, &t9b);
        let t10a = t10sa.multiply(&t7a);
        let t10b = t10sb.multiply(&t7b);
        let (t11sa, t11sb) = Self::square_repeat_x2::<2>(&t10a, &t10b);
        let t11a = t11sa.multiply(a);
        let t11b = t11sb.multiply(b);
        proof {
            assert forall|i: int| 0 <= i < 8 implies #[trigger] t11a.fe(i) == fp::fpow(
                a.fe(i),
                fp::p_minus_5_over_8(),
            ) by {
                a.lemma_fe_range(i);
                fp::lemma_chain_ends(a.fe(i));
                fp::lemma_shared_chain(
                    a.fe(i),
                    t0a.fe(i),
                    t1a.fe(i),
                    t2a.fe(i),
                    t3a.fe(i),
                    t4a.fe(i),
                    t5a.fe(i),
                    t6a.fe(i),
                    t7a.fe(i),
                    t8a.fe(i),
                    t9a.fe(i),
                    t10a.fe(i),
                );
            }
            assert forall|i: int| 0 <= i < 8 implies #[trigger] t11b.fe(i) == fp::fpow(
                b.fe(i),
                fp::p_minus_5_over_8(),
            ) by {
                b.lemma_fe_range(i);
                fp::lemma_chain_ends(b.fe(i));
                fp::lemma_shared_chain(
                    b.fe(i),
                    t0b.fe(i),
                    t1b.fe(i),
                    t2b.fe(i),
                    t3b.fe(i),
                    t4b.fe(i),
                    t5b.fe(i),
                    t6b.fe(i),
                    t7b.fe(i),
                    t8b.fe(i),
                    t9b.fe(i),
                    t10b.fe(i),
                );
            }
        }
        (t11a, t11b)
    }

    /// The canonical representative of every lane: limbs below `2^51` whose value is the field
    /// element itself. Two carry passes bound the limbs, which makes `>= p` an exact high-limb
    /// comparison plus a threshold on limb 0.
    pub fn canonical(&self) -> (r: Self)
        requires
            self.roomy(),
        ensures
            r.strict(),
            forall|i: int| 0 <= i < 8 ==> #[trigger] planes_below(r.limbs, i, 0x8000000000000),
            forall|i: int| 0 <= i < 8 ==> #[trigger] planes_value(r.limbs, i) == self.fe(i),
    {
        proof {
            assert forall|i: int| 0 <= i < 8 implies #[trigger] planes_below(
                self.limbs,
                i,
                0x8000000000000000,
            ) by {
                assert(planes_below(self.limbs, i, 0x4000000000000000));
            }
        }
        let reduced = Self::reduce64(self.limbs);
        let mask = U64x8::splat(LIMB_MASK);
        let p0 = U64x8::splat(LIMB_MASK - 18);
        let ge_high = lanes::mask_and(
            lanes::mask_and(reduced.limbs[1].eq_mask(&mask), reduced.limbs[2].eq_mask(&mask)),
            lanes::mask_and(reduced.limbs[3].eq_mask(&mask), reduced.limbs[4].eq_mask(&mask)),
        );
        let ge_p = lanes::mask_and(ge_high, reduced.limbs[0].ge_mask(&p0));
        let zero = U64x8::splat(0);
        let sub0 = reduced.limbs[0].sub(&p0);
        let r = WideFe {
            limbs: [
                reduced.limbs[0].blend(ge_p, &sub0),
                reduced.limbs[1].blend(ge_p, &zero),
                reduced.limbs[2].blend(ge_p, &zero),
                reduced.limbs[3].blend(ge_p, &zero),
                reduced.limbs[4].blend(ge_p, &zero),
            ],
        };
        proof {
            assert forall|i: int|
                #![trigger r.strict_lane(i)]
                #![trigger planes_below(r.limbs, i, 0x8000000000000)]
                #![trigger planes_value(r.limbs, i)]
                0 <= i < 8 implies r.strict_lane(i) && planes_below(r.limbs, i, 0x8000000000000)
                && planes_value(r.limbs, i) == self.fe(i) by {
                assert(planes_below(reduced.limbs, i, 0x8000000000000));
                let v = planes_value(reduced.limbs, i);
                assert(reduced.fe(i) == self.fe(i));
                assert(lanes::mask_bit(ge_high, i) == (reduced.limbs[1].at(i) == LIMB_MASK
                    && reduced.limbs[2].at(i) == LIMB_MASK && reduced.limbs[3].at(i) == LIMB_MASK
                    && reduced.limbs[4].at(i) == LIMB_MASK));
                assert(lanes::mask_bit(ge_p, i) == (lanes::mask_bit(ge_high, i)
                    && reduced.limbs[0].at(i) >= LIMB_MASK - 18));
                if lanes::mask_bit(ge_p, i) {
                    assert(planes_value(r.limbs, i) == v - fp::p());
                    fp::lemma_small_residue(v - fp::p());
                } else {
                    assert(planes_value(r.limbs, i) == v);
                    fp::lemma_small_residue(v);
                }
            }
        }
        r
    }

    /// Which lanes hold zero.
    pub fn is_zero_lanes(&self) -> (r: [bool; 8])
        requires
            self.roomy(),
        ensures
            forall|i: int| 0 <= i < 8 ==> #[trigger] r[i] == (self.fe(i) == 0),
    {
        let c = self.canonical();
        let zero = U64x8::splat(0);
        let mask = lanes::mask_and(
            lanes::mask_and(c.limbs[0].eq_mask(&zero), c.limbs[1].eq_mask(&zero)),
            lanes::mask_and(
                lanes::mask_and(c.limbs[2].eq_mask(&zero), c.limbs[3].eq_mask(&zero)),
                c.limbs[4].eq_mask(&zero),
            ),
        );
        let r = lanes::mask_to_lanes(mask);
        proof {
            assert forall|i: int| 0 <= i < 8 implies #[trigger] r[i] == (self.fe(i) == 0) by {
                assert(planes_value(c.limbs, i) == self.fe(i));
                assert(lanes::mask_bit(mask, i) == (c.limbs[0].at(i) == 0 && c.limbs[1].at(i) == 0
                    && c.limbs[2].at(i) == 0 && c.limbs[3].at(i) == 0 && c.limbs[4].at(i) == 0));
            }
        }
        r
    }

    /// Which lanes hold an odd canonical representative.
    pub fn is_odd_lanes(&self) -> (r: [bool; 8])
        requires
            self.roomy(),
        ensures
            forall|i: int| 0 <= i < 8 ==> #[trigger] r[i] == (self.fe(i) % 2 == 1),
    {
        let c = self.canonical();
        let mask = c.limbs[0].odd_mask();
        let r = lanes::mask_to_lanes(mask);
        proof {
            assert forall|i: int| 0 <= i < 8 implies #[trigger] r[i] == (self.fe(i) % 2 == 1) by {
                assert(planes_value(c.limbs, i) == self.fe(i));
                assert(lanes::mask_bit(mask, i) == (c.limbs[0].at(i) % 2 == 1));
                fp::lemma_limbs_parity(
                    c.limbs[0].at(i) as int,
                    c.limbs[1].at(i) as int,
                    c.limbs[2].at(i) as int,
                    c.limbs[3].at(i) as int,
                    c.limbs[4].at(i) as int,
                );
            }
        }
        r
    }

    /// Which lanes of two vectors hold the same field element.
    pub fn equals_lanes(&self, rhs: &Self) -> (r: [bool; 8])
        requires
            self.roomy(),
            rhs.operand(),
        ensures
            forall|i: int| 0 <= i < 8 ==> #[trigger] r[i] == (self.fe(i) == rhs.fe(i)),
    {
        let diff = self.subtract(rhs);
        proof {
            diff.lemma_bounds();
        }
        let r = diff.is_zero_lanes();
        proof {
            assert forall|i: int| 0 <= i < 8 implies #[trigger] r[i] == (self.fe(i) == rhs.fe(i)) by {
                assert(diff.fe(i) == fp::fsub(self.fe(i), rhs.fe(i)));
                fp::lemma_difference_zero(planes_value(self.limbs, i), planes_value(rhs.limbs, i));
            }
        }
        r
    }

    /// Takes `rhs` in the lanes selected by `mask` and `self` in the others.
    pub fn blend(&self, mask: u8, rhs: &Self) -> (r: Self)
        ensures
            forall|k: int, i: int|
                0 <= k < 5 && 0 <= i < 8 ==> #[trigger] r.limbs[k].at(i) == (if lanes::mask_bit(
                    mask,
                    i,
                ) {
                    rhs.limbs[k].at(i)
                } else {
                    self.limbs[k].at(i)
                }),
            self.strict() && rhs.strict() ==> r.strict(),
            forall|i: int|
                0 <= i < 8 ==> #[trigger] r.fe(i) == (if lanes::mask_bit(mask, i) {
                    rhs.fe(i)
                } else {
                    self.fe(i)
                }),
    {
        let r = WideFe {
            limbs: [
                self.limbs[0].blend(mask, &rhs.limbs[0]),
                self.limbs[1].blend(mask, &rhs.limbs[1]),
                self.limbs[2].blend(mask, &rhs.limbs[2]),
                self.limbs[3].blend(mask, &rhs.limbs[3]),
                self.limbs[4].blend(mask, &rhs.limbs[4]),
            ],
        };
        proof {
            if self.strict() && rhs.strict() {
                assert forall|i: int| 0 <= i < 8 implies #[trigger] r.strict_lane(i) by {
                    assert(self.strict_lane(i) && rhs.strict_lane(i));
                }
            }
        }
        r
    }

    /// The curve constant `d` in every lane.
    pub fn d() -> (r: Self)
        ensures
            r.strict(),
            forall|i: int| 0 <= i < 8 ==> #[trigger] r.fe(i) == fp::d(),
    {
        proof {
            fp::lemma_constant_limbs();
        }
        Self::constant(D_LIMBS)
    }

    /// Twice the curve constant in every lane.
    pub fn two_d() -> (r: Self)
        ensures
            r.strict(),
            forall|i: int| 0 <= i < 8 ==> #[trigger] r.fe(i) == fp::fadd(fp::d(), fp::d()),
    {
        proof {
            fp::lemma_constant_limbs();
        }
        Self::constant(TWO_D_LIMBS)
    }

    /// A square root of `-1` in every lane.
    pub fn sqrt_m1() -> (r: Self)
        ensures
            r.strict(),
            forall|i: int| 0 <= i < 8 ==> #[trigger] r.fe(i) == fp::sqrt_m1(),
    {
        proof {
            fp::lemma_constant_limbs();
        }
        Self::constant(SQRT_M1_LIMBS)
    }

    /// One field element per lane.
    pub fn from_fields(fields: &[Fe51; 8]) -> (r: Self)
        ensures
            forall|k: int, i: int|
                0 <= k < 5 && 0 <= i < 8 ==> #[trigger] r.limbs[k].at(i) == fields[i].limbs[k],
            forall|i: int|
                0 <= i < 8 ==> #[trigger] planes_below(r.limbs, i, 0x10000000000000) == fields[i].wf(),
            forall|i: int| 0 <= i < 8 ==> #[trigger] r.strict_lane(i) == fields[i].carried(),
            forall|i: int| 0 <= i < 8 ==> #[trigger] r.fe(i) == fields[i].fe(),
    {
        let rows = [
            fields[0].limbs_ref(),
            fields[1].limbs_ref(),
            fields[2].limbs_ref(),
            fields[3].limbs_ref(),
            fields[4].limbs_ref(),
            fields[5].limbs_ref(),
            fields[6].limbs_ref(),
            fields[7].limbs_ref(),
        ];
        let r = WideFe { limbs: transpose_lane_limbs(&rows) };
        proof {
            assert forall|i: int| 0 <= i < 8 implies #[trigger] r.fe(i) == fields[i].fe() by {
                fields[i].lemma_fe();
            }
        }
        r
    }

    /// [`Self::from_fields`] on borrowed elements.
    pub fn from_field_refs(fields: &[&Fe51; 8]) -> (r: Self)
        ensures
            forall|k: int, i: int|
                0 <= k < 5 && 0 <= i < 8 ==> #[trigger] r.limbs[k].at(i) == fields[i].limbs[k],
            forall|i: int|
                0 <= i < 8 ==> #[trigger] planes_below(r.limbs, i, 0x10000000000000) == fields[i].wf(),
            forall|i: int| 0 <= i < 8 ==> #[trigger] r.strict_lane(i) == fields[i].carried(),
            forall|i: int| 0 <= i < 8 ==> #[trigger] r.fe(i) == fields[i].fe(),
    {
        let rows = [
            fields[0].limbs_ref(),
            fields[1].limbs_ref(),
            fields[2].limbs_ref(),
            fields[3].limbs_ref(),
            fields[4].limbs_ref(),
            fields[5].limbs_ref(),
            fields[6].limbs_ref(),
            fields[7].limbs_ref(),
        ];
        let r = WideFe { limbs: transpose_lane_limbs(&rows) };
        proof {
            assert forall|i: int| 0 <= i < 8 implies #[trigger] r.fe(i) == fields[i].fe() by {
                fields[i].lemma_fe();
            }
        }
        r
    }

    /// The limbs of lane `lane`.
    fn lane_limbs(&self, lane: usize) -> (r: [u64; 5])
        requires
            lane < 8,
        ensures
            forall|k: int| 0 <= k < 5 ==> #[trigger] r[k] == self.limbs[k].at(lane as int),
    {
        let mut by_limb = [[0u64; 8]; 5];
        self.limbs[0].store(&mut by_limb[0]);
        self.limbs[1].store(&mut by_limb[1]);
        self.limbs[2].store(&mut by_limb[2]);
        self.limbs[3].store(&mut by_limb[3]);
        self.limbs[4].store(&mut by_limb[4]);
        [by_limb[0][lane], by_limb[1][lane], by_limb[2][lane], by_limb[3][lane], by_limb[4][lane]]
    }

    /// The canonical field element of every lane.
    pub fn to_fields(&self) -> (r: [Fe51; 8])
        ensures
            forall|i: int|
                0 <= i < 8 ==> (#[trigger] r[i]).carried() && r[i].value() == self.fe(i) && r[i].fe()
                    == self.fe(i),
    {
        let r = [
            Fe51::from_limbs(self.lane_limbs(0)),
            Fe51::from_limbs(self.lane_limbs(1)),
            Fe51::from_limbs(self.lane_limbs(2)),
            Fe51::from_limbs(self.lane_limbs(3)),
            Fe51::from_limbs(self.lane_limbs(4)),
            Fe51::from_limbs(self.lane_limbs(5)),
            Fe51::from_limbs(self.lane_limbs(6)),
            Fe51::from_limbs(self.lane_limbs(7)),
        ];
        proof {
            assert forall|i: int| 0 <= i < 8 implies (#[trigger] r[i]).carried() && r[i].value()
                == self.fe(i) && r[i].fe() == self.fe(i) by {
                r[i].lemma_fe();
                fp::lemma_small_residue(self.fe(i));
            }
        }
        r
    }

    /// Like [`Self::to_fields`], but keeps the limbs as they are.
    pub fn to_fields_loose(&self) -> (r: [Fe51; 8])
        ensures
            forall|k: int, i: int|
                0 <= k < 5 && 0 <= i < 8 ==> #[trigger] r[i].limbs[k] == self.limbs[k].at(i),
            forall|i: int| 0 <= i < 8 ==> (#[trigger] r[i]).fe() == self.fe(i),
            self.operand() ==> forall|i: int| 0 <= i < 8 ==> (#[trigger] r[i]).wf(),
    {
        let r = [
            Fe51::from_limbs_unchecked(self.lane_limbs(0)),
            Fe51::from_limbs_unchecked(self.lane_limbs(1)),
            Fe51::from_limbs_unchecked(self.lane_limbs(2)),
            Fe51::from_limbs_unchecked(self.lane_limbs(3)),
            Fe51::from_limbs_unchecked(self.lane_limbs(4)),
            Fe51::from_limbs_unchecked(self.lane_limbs(5)),
            Fe51::from_limbs_unchecked(self.lane_limbs(6)),
            Fe51::from_limbs_unchecked(self.lane_limbs(7)),
        ];
        proof {
            assert forall|i: int| 0 <= i < 8 implies (#[trigger] r[i]).fe() == self.fe(i) by {
                r[i].lemma_fe();
            }
            if self.operand() {
                assert forall|i: int| 0 <= i < 8 implies (#[trigger] r[i]).wf() by {
                    assert(planes_below(self.limbs, i, 0x10000000000000));
                }
            }
        }
        r
    }
}

/// Transposes eight rows of five limbs into five vectors: one masked load per row, then an
/// 8x8 word transpose by unpacking and shuffling.
fn transpose_lane_limbs(rows: &[&[u64; 5]; 8]) -> (r: [U64x8; 5])
    ensures
        forall|k: int, i: int| 0 <= k < 5 && 0 <= i < 8 ==> #[trigger] r[k].at(i) == rows[i][k],
{
    let r0 = U64x8::load_low5(rows[0]);
    let r1 = U64x8::load_low5(rows[1]);
    let r2 = U64x8::load_low5(rows[2]);
    let r3 = U64x8::load_low5(rows[3]);
    let r4 = U64x8::load_low5(rows[4]);
    let r5 = U64x8::load_low5(rows[5]);
    let r6 = U64x8::load_low5(rows[6]);
    let r7 = U64x8::load_low5(rows[7]);

    let t0 = r0.unpack_lo(&r1);
    let t1 = r0.unpack_hi(&r1);
    let t2 = r2.unpack_lo(&r3);
    let t3 = r2.unpack_hi(&r3);
    let t4 = r4.unpack_lo(&r5);
    let t5 = r4.unpack_hi(&r5);
    let t6 = r6.unpack_lo(&r7);
    let t7 = r6.unpack_hi(&r7);

    let v0 = t0.shuffle_even_blocks(&t2);
    let v1 = t0.shuffle_odd_blocks(&t2);
    let v2 = t1.shuffle_even_blocks(&t3);
    let v3 = t1.shuffle_odd_blocks(&t3);
    let v4 = t4.shuffle_even_blocks(&t6);
    let v5 = t4.shuffle_odd_blocks(&t6);
    let v6 = t5.shuffle_even_blocks(&t7);
    let v7 = t5.shuffle_odd_blocks(&t7);

    [
        v0.shuffle_even_blocks(&v4),
        v2.shuffle_even_blocks(&v6),
        v1.shuffle_even_blocks(&v5),
        v3.shuffle_even_blocks(&v7),
        v0.shuffle_odd_blocks(&v4),
    ]
}


} // verus!
