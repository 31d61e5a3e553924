//! Eight curve points at a time.
use crate::batch::PreparedBatch;
use crate::bytes;
use crate::curve;
use crate::curve::Point;
use crate::edwards;
use crate::edwards::{
    AffineCachedPoint, BasepointTable, BasepointTable4096, CachedPoint, EdwardsPoint, PointTable,
};
use crate::encoding;
use crate::field::Fe51;
use crate::fp;
use crate::lanes;
use crate::projective;
use crate::scalar;
use crate::scalar::Radix16;
use crate::wide_field::WideFe;
use vstd::arithmetic::power::*;
use vstd::prelude::*;

verus! {

broadcast use {WideFe::lemma_fe_range, Fe51::lemma_fe_range, WideFe::lemma_operand};

/// Eight points in extended coordinates, one per lane.
///
/// Lanes are independent: a lane that does not represent a point stays within the limb bounds
/// and does not affect the others.
#[derive(Clone, Copy)]
pub struct WidePoint {
    pub x: WideFe,
    pub y: WideFe,
    pub z: WideFe,
    pub t: WideFe,
}

/// Eight points in cached form.
#[derive(Clone, Copy)]
pub struct WideCachedPoint {
    pub y_plus_x: WideFe,
    pub y_minus_x: WideFe,
    pub z2: WideFe,
    pub t2d: WideFe,
}

/// Eight affine points in cached form, where `2Z` is 2.
#[derive(Clone, Copy)]
pub struct WideAffineCachedPoint {
    pub y_plus_x: WideFe,
    pub y_minus_x: WideFe,
    pub t2d: WideFe,
}

impl WideCachedPoint {
    /// Every coordinate is a multiplication operand.
    pub open spec fn operand(&self) -> bool {
        self.y_plus_x.operand() && self.y_minus_x.operand() && self.z2.operand() && self.t2d.operand()
    }

    /// Lane `i` represents the point `a`.
    pub open spec fn represents(&self, i: int, a: Point) -> bool {
        projective::represents_cached(
            self.y_plus_x.fe(i),
            self.y_minus_x.fe(i),
            self.z2.fe(i),
            self.t2d.fe(i),
            a,
        )
    }

    /// One cached point per lane.
    pub fn from_cached_refs(points: &[&CachedPoint; 8]) -> (r: Self)
        ensures
            forall|i: int| 0 <= i < 8 ==> #[trigger] r.y_plus_x.fe(i) == points[i].y_plus_x.fe(),
            forall|i: int| 0 <= i < 8 ==> #[trigger] r.y_minus_x.fe(i) == points[i].y_minus_x.fe(),
            forall|i: int| 0 <= i < 8 ==> #[trigger] r.z2.fe(i) == points[i].z2.fe(),
            forall|i: int| 0 <= i < 8 ==> #[trigger] r.t2d.fe(i) == points[i].t2d.fe(),
            (forall|i: int| 0 <= i < 8 ==> (#[trigger] points[i]).wf()) ==> r.operand(),
            forall|i: int, a: Point|
                0 <= i < 8 && points[i].wf() ==> #[trigger] r.represents(i, a) == points[i].represents(a),
    {
        let y_plus_x = [
            points[0].coords().0,
            points[1].coords().0,
            points[2].coords().0,
            points[3].coords().0,
            points[4].coords().0,
            points[5].coords().0,
            points[6].coords().0,
            points[7].coords().0,
        ];
        let y_minus_x = [
            points[0].coords().1,
            points[1].coords().1,
            points[2].coords().1,
            points[3].coords().1,
            points[4].coords().1,
            points[5].coords().1,
            points[6].coords().1,
            points[7].coords().1,
        ];
        let z2 = [
            points[0].coords().2,
            points[1].coords().2,
            points[2].coords().2,
            points[3].coords().2,
            points[4].coords().2,
            points[5].coords().2,
            points[6].coords().2,
            points[7].coords().2,
        ];
        let t2d = [
            points[0].coords().3,
            points[1].coords().3,
            points[2].coords().3,
            points[3].coords().3,
            points[4].coords().3,
            points[5].coords().3,
            points[6].coords().3,
            points[7].coords().3,
        ];
        let r = WideCachedPoint {
            y_plus_x: WideFe::from_field_refs(&y_plus_x),
            y_minus_x: WideFe::from_field_refs(&y_minus_x),
            z2: WideFe::from_field_refs(&z2),
            t2d: WideFe::from_field_refs(&t2d),
        };
        proof {
            if forall|i: int| 0 <= i < 8 ==> (#[trigger] points[i]).wf() {
                assert forall|i: int| 0 <= i < 8 implies y_plus_x[i].wf() && y_minus_x[i].wf() && z2[i].wf() && t2d[i].wf() by {
                    assert(points[i].wf());
                }
            }
        }
        r
    }
}

impl WideAffineCachedPoint {
    /// Every coordinate is a multiplication operand.
    pub open spec fn operand(&self) -> bool {
        self.y_plus_x.operand() && self.y_minus_x.operand() && self.t2d.operand()
    }

    /// Lane `i` represents the point `a`.
    pub open spec fn represents(&self, i: int, a: Point) -> bool {
        projective::represents_affine_cached(
            self.y_plus_x.fe(i),
            self.y_minus_x.fe(i),
            self.t2d.fe(i),
            a,
        )
    }

    /// One cached point per lane.
    pub fn from_affine_refs(points: &[&AffineCachedPoint; 8]) -> (r: Self)
        ensures
            forall|i: int| 0 <= i < 8 ==> #[trigger] r.y_plus_x.fe(i) == points[i].y_plus_x.fe(),
            forall|i: int| 0 <= i < 8 ==> #[trigger] r.y_minus_x.fe(i) == points[i].y_minus_x.fe(),
            forall|i: int| 0 <= i < 8 ==> #[trigger] r.t2d.fe(i) == points[i].t2d.fe(),
            (forall|i: int| 0 <= i < 8 ==> (#[trigger] points[i]).wf()) ==> r.operand(),
            forall|i: int, a: Point|
                0 <= i < 8 && points[i].wf() ==> #[trigger] r.represents(i, a) == points[i].represents(a),
    {
        let y_plus_x = [
            points[0].coords().0,
            points[1].coords().0,
            points[2].coords().0,
            points[3].coords().0,
            points[4].coords().0,
            points[5].coords().0,
            points[6].coords().0,
            points[7].coords().0,
        ];
        let y_minus_x = [
            points[0].coords().1,
            points[1].coords().1,
            points[2].coords().1,
            points[3].coords().1,
            points[4].coords().1,
            points[5].coords().1,
            points[6].coords().1,
            points[7].coords().1,
        ];
        let t2d = [
            points[0].coords().2,
            points[1].coords().2,
            points[2].coords().2,
            points[3].coords().2,
            points[4].coords().2,
            points[5].coords().2,
            points[6].coords().2,
            points[7].coords().2,
        ];
        let r = WideAffineCachedPoint {
            y_plus_x: WideFe::from_field_refs(&y_plus_x),
            y_minus_x: WideFe::from_field_refs(&y_minus_x),
            t2d: WideFe::from_field_refs(&t2d),
        };
        proof {
            if forall|i: int| 0 <= i < 8 ==> (#[trigger] points[i]).wf() {
                assert forall|i: int| 0 <= i < 8 implies y_plus_x[i].wf() && y_minus_x[i].wf() && t2d[i].wf() by {
                    assert(points[i].wf());
                }
            }
        }
        r
    }
}

impl WidePoint {
    /// The affine point of lane `i`.
    pub open spec fn point(&self, i: int) -> Point {
        projective::affine(self.x.fe(i), self.y.fe(i), self.z.fe(i))
    }

    /// `X`, `Y` and `Z` of lane `i` represent the point `a`.
    pub open spec fn represents_xyz(&self, i: int, a: Point) -> bool {
        projective::represents_xyz(self.x.fe(i), self.y.fe(i), self.z.fe(i), a)
    }

    /// Lane `i` represents the point `a`.
    pub open spec fn represents(&self, i: int, a: Point) -> bool {
        projective::represents(self.x.fe(i), self.y.fe(i), self.z.fe(i), self.t.fe(i), a)
    }

    /// `X`, `Y` and `Z` of lane `i` represent a point of the curve.
    pub open spec fn valid_xyz(&self, i: int) -> bool {
        self.represents_xyz(i, self.point(i))
    }

    /// Lane `i` represents a point of the curve.
    pub open spec fn valid(&self, i: int) -> bool {
        self.represents(i, self.point(i))
    }

    /// Every coordinate is a multiplication operand.
    pub open spec fn operand(&self) -> bool {
        self.x.operand() && self.y.operand() && self.z.operand() && self.t.operand()
    }

    /// Every coordinate is carried.
    pub open spec fn strict(&self) -> bool {
        self.x.strict() && self.y.strict() && self.z.strict() && self.t.strict()
    }

    /// `X`, `Y` and `Z` are operands of squarings.
    pub open spec fn loose_xyz(&self) -> bool {
        self.x.loose() && self.y.loose() && self.z.loose()
    }

    /// A lane represents its affine point and no other.
    pub proof fn lemma_represents_xyz(&self, i: int, a: Point)
        requires
            self.represents_xyz(i, a),
        ensures
            self.point(i) == a,
            self.valid_xyz(i),
    {
        projective::lemma_affine(self.x.fe(i), self.y.fe(i), self.z.fe(i), a);
    }

    /// A lane represents its affine point and no other.
    pub proof fn lemma_represents(&self, i: int, a: Point)
        requires
            self.represents(i, a),
        ensures
            self.point(i) == a,
            self.valid(i),
            self.valid_xyz(i),
    {
        projective::lemma_affine(self.x.fe(i), self.y.fe(i), self.z.fe(i), a);
    }

    /// The neutral element in every lane.
    pub fn identity() -> (r: Self)
        ensures
            r.strict(),
            forall|i: int|
                #![trigger r.valid(i)]
                #![trigger r.point(i)]
                0 <= i < 8 ==> r.valid(i) && r.point(i) == curve::identity(),
    {
        let r = WidePoint {
            x: WideFe::zero(),
            y: WideFe::one(),
            z: WideFe::one(),
            t: WideFe::zero(),
        };
        proof {
            projective::lemma_identity_represents();
            assert forall|i: int|
                #![trigger r.valid(i)]
                #![trigger r.point(i)]
                0 <= i < 8 implies r.valid(i) && r.point(i)
                == curve::identity() by {
                r.lemma_represents(i, curve::identity());
            }
        }
        r
    }

    /// Lane-wise sum.
    pub fn add(&self, rhs: &Self) -> (r: Self)
        requires
            self.operand(),
            rhs.operand(),
        ensures
            r.strict(),
            forall|i: int|
                #![trigger r.valid(i)]
                #![trigger r.point(i)]
                0 <= i < 8 && self.valid(i) && rhs.valid(i) ==> r.valid(i) && r.point(i)
                    == curve::sum(self.point(i), rhs.point(i)),
    {
        proof {
            self.lemma_roomy();
            rhs.lemma_roomy();
        }
        let a = self.y.subtract(&self.x).multiply(&rhs.y.subtract(&rhs.x));
        let b = self.y.add_loose(&self.x).multiply(&rhs.y.add_loose(&rhs.x));
        let c = self.t.multiply(&rhs.t).multiply(&WideFe::two_d());
        let zz = self.z.multiply(&rhs.z);
        proof {
            a.lemma_bounds();
            b.lemma_bounds();
            c.lemma_bounds();
            zz.lemma_bounds();
        }
        let d = zz.double_loose();
        proof {
            d.lemma_bounds();
        }
        let e = b.subtract(&a);
        let f = d.subtract(&c);
        let g = d.add_loose(&c);
        let h = b.add_loose(&a);
        let r = WidePoint {
            x: e.multiply(&f),
            y: g.multiply(&h),
            t: e.multiply(&h),
            z: f.multiply(&g),
        };
        proof {
            assert forall|i: int|
                #![trigger r.valid(i)]
                #![trigger r.point(i)]
                0 <= i < 8 && self.valid(i) && rhs.valid(i) implies r.valid(i)
                && r.point(i) == curve::sum(self.point(i), rhs.point(i)) by {
                projective::lemma_add_extended(
                    self.x.fe(i),
                    self.y.fe(i),
                    self.z.fe(i),
                    self.t.fe(i),
                    self.point(i),
                    rhs.x.fe(i),
                    rhs.y.fe(i),
                    rhs.z.fe(i),
                    rhs.t.fe(i),
                    rhs.point(i),
                );
                assert(e.fe(i) == fp::fsub(b.fe(i), a.fe(i)));
                assert(f.fe(i) == fp::fsub(d.fe(i), c.fe(i)));
                assert(g.fe(i) == fp::fadd(d.fe(i), c.fe(i)));
                assert(h.fe(i) == fp::fadd(b.fe(i), a.fe(i)));
                r.lemma_represents(i, curve::sum(self.point(i), rhs.point(i)));
            }
        }
        r
    }

    /// Lane-wise mixed addition with cached points.
    pub fn add_cached_assign(&mut self, rhs: &WideCachedPoint)
        requires
            old(self).operand(),
            rhs.operand(),
        ensures
            final(self).strict(),
            forall|i: int, a: Point|
                0 <= i < 8 && old(self).valid(i) && #[trigger] rhs.represents(i, a) ==> final(self).valid(
                    i,
                ) && final(self).point(i) == curve::sum(old(self).point(i), a),
    {
        let ghost before = *self;
        proof {
            before.lemma_roomy();
        }
        let a = self.y.subtract(&self.x).multiply_loose(&rhs.y_minus_x);
        let b = self.y.add_loose(&self.x).multiply_loose(&rhs.y_plus_x);
        let c = self.t.multiply_loose(&rhs.t2d);
        let d = self.z.multiply_loose(&rhs.z2);
        proof {
            a.lemma_bounds();
            b.lemma_bounds();
            c.lemma_bounds();
            d.lemma_bounds();
        }
        let e = b.subtract_wide(&a);
        let h = b.add_loose(&a);
        let f = d.subtract_wide(&c);
        let g = d.add_loose(&c);
        self.x = e.multiply(&f);
        self.t = e.multiply(&h);
        self.z = f.multiply(&g);
        self.y = g.multiply(&h);
        proof {
            assert forall|i: int, q: Point|
                0 <= i < 8 && before.valid(i) && #[trigger] rhs.represents(i, q) implies self.valid(i)
                && self.point(i) == curve::sum(before.point(i), q) by {
                assert(d.fe(i) == fp::fmul(before.z.fe(i), rhs.z2.fe(i)));
                projective::lemma_add_cached(
                    before.x.fe(i),
                    before.y.fe(i),
                    before.z.fe(i),
                    before.t.fe(i),
                    before.point(i),
                    rhs.y_plus_x.fe(i),
                    rhs.y_minus_x.fe(i),
                    rhs.z2.fe(i),
                    rhs.t2d.fe(i),
                    q,
                );
                assert(e.fe(i) == fp::fsub(b.fe(i), a.fe(i)));
                assert(f.fe(i) == fp::fsub(d.fe(i), c.fe(i)));
                assert(g.fe(i) == fp::fadd(d.fe(i), c.fe(i)));
                assert(h.fe(i) == fp::fadd(b.fe(i), a.fe(i)));
                self.lemma_represents(i, curve::sum(before.point(i), q));
            }
        }
    }

    /// Lane-wise mixed addition with affine cached points, for which the product
    /// with `2Z` is a doubling.
    pub fn add_affine_cached_assign(&mut self, rhs: &WideAffineCachedPoint)
        requires
            old(self).operand(),
            rhs.operand(),
        ensures
            final(self).strict(),
            forall|i: int, a: Point|
                0 <= i < 8 && old(self).valid(i) && #[trigger] rhs.represents(i, a) ==> final(self).valid(
                    i,
                ) && final(self).point(i) == curve::sum(old(self).point(i), a),
    {
        let ghost before = *self;
        proof {
            before.lemma_roomy();
        }
        let a = self.y.subtract(&self.x).multiply_loose(&rhs.y_minus_x);
        let b = self.y.add_loose(&self.x).multiply_loose(&rhs.y_plus_x);
        let c = self.t.multiply_loose(&rhs.t2d);
        let d = self.z.double_loose();
        proof {
            a.lemma_bounds();
            b.lemma_bounds();
            c.lemma_bounds();
            d.lemma_bounds();
        }
        let e = b.subtract_wide(&a);
        let h = b.add_loose(&a);
        let f = d.subtract_wide(&c);
        let g = d.add_loose(&c);
        self.x = e.multiply(&f);
        self.t = e.multiply(&h);
        self.z = f.multiply(&g);
        self.y = g.multiply(&h);
        proof {
            assert forall|i: int, q: Point|
                0 <= i < 8 && before.valid(i) && #[trigger] rhs.represents(i, q) implies self.valid(i)
                && self.point(i) == curve::sum(before.point(i), q) by {
                assert(d.fe(i) == fp::fadd(before.z.fe(i), before.z.fe(i)));
                projective::lemma_add_affine_cached(
                    before.x.fe(i),
                    before.y.fe(i),
                    before.z.fe(i),
                    before.t.fe(i),
                    before.point(i),
                    rhs.y_plus_x.fe(i),
                    rhs.y_minus_x.fe(i),
                    rhs.t2d.fe(i),
                    q,
                );
                assert(e.fe(i) == fp::fsub(b.fe(i), a.fe(i)));
                assert(f.fe(i) == fp::fsub(d.fe(i), c.fe(i)));
                assert(g.fe(i) == fp::fadd(d.fe(i), c.fe(i)));
                assert(h.fe(i) == fp::fadd(b.fe(i), a.fe(i)));
                self.lemma_represents(i, curve::sum(before.point(i), q));
            }
        }
    }

    /// Lane-wise inverse.
    pub fn negate(&self) -> (r: Self)
        requires
            self.operand(),
        ensures
            r.operand(),
            self.strict() ==> r.strict(),
            forall|i: int|
                #![trigger r.valid(i)]
                #![trigger r.point(i)]
                0 <= i < 8 && self.valid(i) ==> r.valid(i) && r.point(i) == curve::neg(
                    self.point(i),
                ),
    {
        let r = WidePoint { x: self.x.negate(), y: self.y, z: self.z, t: self.t.negate() };
        proof {
            assert forall|i: int|
                #![trigger r.valid(i)]
                #![trigger r.point(i)]
                0 <= i < 8 && self.valid(i) implies r.valid(i) && r.point(i)
                == curve::neg(self.point(i)) by {
                assert(r.x.fe(i) == fp::fneg(self.x.fe(i)));
                assert(r.t.fe(i) == fp::fneg(self.t.fe(i)));
                projective::lemma_represents_neg(
                    self.x.fe(i),
                    self.y.fe(i),
                    self.z.fe(i),
                    self.t.fe(i),
                    self.point(i),
                );
                r.lemma_represents(i, curve::neg(self.point(i)));
            }
        }
        r
    }

    /// Lane-wise difference.
    pub fn subtract(&self, rhs: &Self) -> (r: Self)
        requires
            self.operand(),
            rhs.operand(),
        ensures
            r.strict(),
            forall|i: int|
                #![trigger r.valid(i)]
                #![trigger r.point(i)]
                0 <= i < 8 && self.valid(i) && rhs.valid(i) ==> r.valid(i) && r.point(i)
                    == curve::diff(self.point(i), rhs.point(i)),
    {
        let n = rhs.negate();
        let r = self.add(&n);
        proof {
            assert forall|i: int|
                #![trigger r.valid(i)]
                #![trigger r.point(i)]
                0 <= i < 8 && self.valid(i) && rhs.valid(i) implies r.valid(i)
                && r.point(i) == curve::diff(self.point(i), rhs.point(i)) by {
                assert(n.valid(i));
            }
        }
        r
    }

    /// Lane-wise doubling.
    ///
    /// With `COMPUTE_T` off, `T` is left zero; with `LOOSE_OUT` on, the products skip their
    /// final carry pass.
    pub fn double_impl<const COMPUTE_T: bool, const LOOSE_OUT: bool>(&self) -> (r: Self)
        requires
            self.loose_xyz(),
        ensures
            r.loose_xyz(),
            r.t.strict(),
            !LOOSE_OUT ==> r.strict(),
            forall|i: int|
                #![trigger r.valid_xyz(i)]
                #![trigger r.point(i)]
                0 <= i < 8 && self.valid_xyz(i) ==> r.valid_xyz(i) && r.point(i) == curve::sum(
                    self.point(i),
                    self.point(i),
                ),
            COMPUTE_T ==> forall|i: int| 0 <= i < 8 && self.valid_xyz(i) ==> #[trigger] r.valid(i),
            !COMPUTE_T ==> forall|i: int| 0 <= i < 8 ==> #[trigger] r.t.fe(i) == 0,
    {
        proof {
            self.x.lemma_bounds();
            self.y.lemma_bounds();
        }
        let a = self.x.square_loose();
        let b = self.y.square_loose();
        let zz = self.z.square_loose();
        let sum = self.x.add_loose(&self.y);
        proof {
            a.lemma_bounds();
            b.lemma_bounds();
            zz.lemma_bounds();
            sum.lemma_bounds();
        }
        let c = zz.double_loose();
        let s = sum.square_loose();
        proof {
            c.lemma_bounds();
            s.lemma_bounds();
        }
        let e = s.subtract_sum_wide(&a, &b);
        let g = b.subtract_wide(&a);
        let f = b.subtract_sum_wide(&a, &c);
        let h = WideFe::negate_sum_wide(&a, &b);
        let t = if COMPUTE_T {
            e.multiply(&h)
        } else {
            WideFe::zero()
        };
        let r = if LOOSE_OUT {
            WidePoint { x: e.multiply_loose(&f), y: g.multiply_loose(&h), t, z: f.multiply_loose(&g) }
        } else {
            WidePoint { x: e.multiply(&f), y: g.multiply(&h), t, z: f.multiply(&g) }
        };
        proof {
            r.x.lemma_bounds();
            r.y.lemma_bounds();
            r.z.lemma_bounds();
            assert forall|i: int|
                #![trigger r.valid_xyz(i)]
                #![trigger r.valid(i)]
                0 <= i < 8 && self.valid_xyz(i) implies r.valid_xyz(i) && r.point(i) == curve::sum(
                self.point(i),
                self.point(i),
            ) && (COMPUTE_T ==> r.valid(i)) by {
                projective::lemma_double(
                    self.x.fe(i),
                    self.y.fe(i),
                    self.z.fe(i),
                    self.point(i),
                );
                assert(zz.fe(i) == fp::fmul(self.z.fe(i), self.z.fe(i)));
                assert(sum.fe(i) == fp::fadd(self.x.fe(i), self.y.fe(i)));
                assert(e.fe(i) == fp::fsub(s.fe(i), fp::fadd(a.fe(i), b.fe(i))));
                assert(f.fe(i) == fp::fsub(b.fe(i), fp::fadd(a.fe(i), c.fe(i))));
                assert(g.fe(i) == fp::fsub(b.fe(i), a.fe(i)));
                assert(h.fe(i) == fp::fneg(fp::fadd(a.fe(i), b.fe(i))));
                let q = curve::sum(self.point(i), self.point(i));
                assert(r.x.fe(i) == fp::fmul(e.fe(i), f.fe(i)));
                assert(r.y.fe(i) == fp::fmul(g.fe(i), h.fe(i)));
                assert(r.z.fe(i) == fp::fmul(f.fe(i), g.fe(i)));
                r.lemma_represents_xyz(i, q);
                if COMPUTE_T {
                    assert(r.t.fe(i) == fp::fmul(e.fe(i), h.fe(i)));
                    r.lemma_represents(i, q);
                }
            }
        }
        r
    }

    /// Lane-wise doubling.
    pub fn double(&self) -> (r: Self)
        requires
            self.loose_xyz(),
        ensures
            r.strict(),
            forall|i: int|
                #![trigger r.valid(i)]
                #![trigger r.point(i)]
                0 <= i < 8 && self.valid_xyz(i) ==> r.valid(i) && r.point(i) == curve::sum(
                    self.point(i),
                    self.point(i),
                ),
    {
        let r = self.double_impl::<true, false>();
        proof {
            assert forall|i: int|
                #![trigger r.valid(i)]
                #![trigger r.point(i)]
                0 <= i < 8 && self.valid_xyz(i) implies r.valid(i) && r.point(i)
                == curve::sum(self.point(i), self.point(i)) by {
                assert(r.valid_xyz(i));
            }
        }
        r
    }

    /// Lane-wise doubling that leaves `T` zero, with strict results for comparisons.
    pub fn double_without_t(&self) -> (r: Self)
        requires
            self.loose_xyz(),
        ensures
            r.strict(),
            r.loose_xyz(),
            forall|i: int| 0 <= i < 8 ==> #[trigger] r.t.fe(i) == 0,
            forall|i: int|
                #![trigger r.valid_xyz(i)]
                #![trigger r.point(i)]
                0 <= i < 8 && self.valid_xyz(i) ==> r.valid_xyz(i) && r.point(i) == curve::sum(
                    self.point(i),
                    self.point(i),
                ),
    {
        let r = self.double_impl::<false, false>();
        proof {
            assert forall|i: int|
                #![trigger r.valid_xyz(i)]
                #![trigger r.point(i)]
                0 <= i < 8 && self.valid_xyz(i) implies r.valid_xyz(i)
                && r.point(i) == curve::sum(self.point(i), self.point(i)) by {
                assert(r.valid_xyz(i));
            }
        }
        r
    }

    /// Four doublings. The three interior ones emit loose coordinates, whose only consumer is
    /// the next doubling; the fourth is strict because its result feeds mixed additions.
    pub fn double4(&self) -> (r: Self)
        requires
            self.loose_xyz(),
        ensures
            r.strict(),
            forall|i: int|
                #![trigger r.valid(i)]
                #![trigger r.point(i)]
                0 <= i < 8 && self.valid_xyz(i) ==> r.valid(i) && r.point(i) == curve::smul(
                    16,
                    self.point(i),
                ),
    {
        let p2 = self.double_impl::<false, true>();
        let p4 = p2.double_impl::<false, true>();
        let p8 = p4.double_impl::<false, true>();
        let r = p8.double();
        proof {
            assert forall|i: int|
                #![trigger r.valid(i)]
                #![trigger r.point(i)]
                0 <= i < 8 && self.valid_xyz(i) implies r.valid(i) && r.point(i)
                == curve::smul(16, self.point(i)) by {
                let a = self.point(i);
                assert(p2.valid_xyz(i));
                assert(p4.valid_xyz(i));
                assert(p8.valid_xyz(i));
                curve::lemma_smul_base(a);
                curve::lemma_smul_add(2, 2, a);
                curve::lemma_smul_add(4, 4, a);
                curve::lemma_smul_add(8, 8, a);
            }
        }
        r
    }

    /// Which lanes hold the neutral element.
    pub fn identity_lanes(&self) -> (r: [bool; 8])
        requires
            self.operand(),
        ensures
            forall|i: int|
                0 <= i < 8 ==> #[trigger] r[i] == (self.x.fe(i) == 0 && self.y.fe(i) == self.z.fe(i)),
            forall|i: int|
                0 <= i < 8 && self.valid_xyz(i) ==> #[trigger] r[i] == (self.point(i) == curve::identity()),
    {
        proof {
            self.lemma_roomy();
        }
        let x_zero = self.x.is_zero_lanes();
        let yz_equal = self.y.equals_lanes(&self.z);
        let r = lanes::and_lanes(&x_zero, &yz_equal);
        proof {
            assert forall|i: int| 0 <= i < 8 && self.valid_xyz(i) implies #[trigger] r[i] == (self.point(i)
                == curve::identity()) by {
                assert(x_zero[i] == (self.x.fe(i) == 0));
                assert(yz_equal[i] == (self.y.fe(i) == self.z.fe(i)));
                projective::lemma_is_identity(
                    self.x.fe(i),
                    self.y.fe(i),
                    self.z.fe(i),
                    self.point(i),
                );
            }
        }
        r
    }

    /// Which lanes hold a point whose order divides eight.
    pub fn small_order_lanes(&self) -> (r: [bool; 8])
        requires
            self.loose_xyz(),
        ensures
            forall|i: int|
                0 <= i < 8 && self.valid_xyz(i) ==> #[trigger] r[i] == (curve::smul(8, self.point(i))
                    == curve::identity()),
    {
        let p2 = self.double_without_t();
        let p4 = p2.double_without_t();
        let p8 = p4.double_without_t();
        let r = p8.identity_lanes();
        proof {
            assert forall|i: int| 0 <= i < 8 && self.valid_xyz(i) implies #[trigger] r[i] == (curve::smul(
                8,
                self.point(i),
            ) == curve::identity()) by {
                assert(p2.valid_xyz(i));
                assert(p4.valid_xyz(i));
                assert(p8.valid_xyz(i));
                edwards::lemma_times_eight(self.point(i));
            }
        }
        r
    }

    /// The canonical encoding of every lane.
    pub fn compress(&self) -> (r: [[u8; 32]; 8])
        requires
            self.x.operand(),
            self.y.operand(),
            self.z.strict(),
        ensures
            forall|i: int|
                0 <= i < 8 && self.valid_xyz(i) ==> (#[trigger] r[i])@ == encoding::encode(self.point(i)),
    {
        let zinv = self.z.invert();
        let x = self.x.multiply(&zinv);
        let y = self.y.multiply(&zinv);
        let xs = x.to_fields();
        let ys = y.to_fields();
        let r = [
            compress_lane(&xs[0], &ys[0]),
            compress_lane(&xs[1], &ys[1]),
            compress_lane(&xs[2], &ys[2]),
            compress_lane(&xs[3], &ys[3]),
            compress_lane(&xs[4], &ys[4]),
            compress_lane(&xs[5], &ys[5]),
            compress_lane(&xs[6], &ys[6]),
            compress_lane(&xs[7], &ys[7]),
        ];
        proof {
            assert forall|i: int| 0 <= i < 8 && self.valid_xyz(i) implies (#[trigger] r[i])@
                == encoding::encode(self.point(i)) by {
                assert(xs[i].fe() == x.fe(i));
                assert(ys[i].fe() == y.fe(i));
            }
        }
        r
    }

    /// Which lanes equal the affine points `(X, Y)` of `affine`.
    pub fn equals_affine_lanes(&self, affine: &Self) -> (r: [bool; 8])
        requires
            self.operand(),
            affine.operand(),
        ensures
            forall|i: int|
                0 <= i < 8 ==> #[trigger] r[i] == (self.x.fe(i) == fp::fmul(affine.x.fe(i), self.z.fe(i))
                    && self.y.fe(i) == fp::fmul(affine.y.fe(i), self.z.fe(i))),
            forall|i: int, a: Point|
                0 <= i < 8 && self.valid_xyz(i) && curve::on_curve(a) && a.x == affine.x.fe(i) && a.y
                    == affine.y.fe(i) ==> r[i] == (#[trigger] self.represents_xyz(i, a)),
    {
        let x = affine.x.multiply(&self.z);
        let y = affine.y.multiply(&self.z);
        proof {
            self.lemma_roomy();
        }
        let x_equal = self.x.equals_lanes(&x);
        let y_equal = self.y.equals_lanes(&y);
        let r = lanes::and_lanes(&x_equal, &y_equal);
        proof {
            assert forall|i: int, a: Point|
                0 <= i < 8 && self.valid_xyz(i) && curve::on_curve(a) && a.x == affine.x.fe(i) && a.y
                    == affine.y.fe(i) implies r[i] == (#[trigger] self.represents_xyz(i, a)) by {
                assert(x_equal[i] == (self.x.fe(i) == x.fe(i)));
                assert(y_equal[i] == (self.y.fe(i) == y.fe(i)));
                assert(x.fe(i) == fp::fmul(affine.x.fe(i), self.z.fe(i)));
                assert(y.fe(i) == fp::fmul(affine.y.fe(i), self.z.fe(i)));
                projective::lemma_equals_affine(self.x.fe(i), self.y.fe(i), self.z.fe(i), a);
            }
        }
        r
    }

    /// One point per lane.
    pub fn from_points(points: &[EdwardsPoint; 8]) -> (r: Self)
        ensures
            forall|k: int, i: int|
                0 <= k < 5 && 0 <= i < 8 ==> #[trigger] r.x.limbs[k].at(i) == points[i].x.limbs[k],
            forall|k: int, i: int|
                0 <= k < 5 && 0 <= i < 8 ==> #[trigger] r.y.limbs[k].at(i) == points[i].y.limbs[k],
            forall|k: int, i: int|
                0 <= k < 5 && 0 <= i < 8 ==> #[trigger] r.z.limbs[k].at(i) == points[i].z.limbs[k],
            forall|k: int, i: int|
                0 <= k < 5 && 0 <= i < 8 ==> #[trigger] r.t.limbs[k].at(i) == points[i].t.limbs[k],
            forall|i: int| 0 <= i < 8 ==> #[trigger] r.x.fe(i) == points[i].x.fe(),
            forall|i: int| 0 <= i < 8 ==> #[trigger] r.y.fe(i) == points[i].y.fe(),
            forall|i: int| 0 <= i < 8 ==> #[trigger] r.z.fe(i) == points[i].z.fe(),
            forall|i: int| 0 <= i < 8 ==> #[trigger] r.t.fe(i) == points[i].t.fe(),
            (forall|i: int| 0 <= i < 8 ==> (#[trigger] points[i]).wf()) ==> r.operand(),
            (forall|i: int| 0 <= i < 8 ==> (#[trigger] points[i]).carried()) ==> r.strict() && r.loose_xyz(),
            forall|i: int|
                #![trigger r.valid(i)]
                #![trigger r.point(i)]
                0 <= i < 8 ==> (points[i].wf() ==> r.valid(i) == points[i].valid()) && r.point(i)
                    == points[i].point(),
    {
        let xs = [
            *points[0].coords().0,
            *points[1].coords().0,
            *points[2].coords().0,
            *points[3].coords().0,
            *points[4].coords().0,
            *points[5].coords().0,
            *points[6].coords().0,
            *points[7].coords().0,
        ];
        let ys = [
            *points[0].coords().1,
            *points[1].coords().1,
            *points[2].coords().1,
            *points[3].coords().1,
            *points[4].coords().1,
            *points[5].coords().1,
            *points[6].coords().1,
            *points[7].coords().1,
        ];
        let zs = [
            *points[0].coords().2,
            *points[1].coords().2,
            *points[2].coords().2,
            *points[3].coords().2,
            *points[4].coords().2,
            *points[5].coords().2,
            *points[6].coords().2,
            *points[7].coords().2,
        ];
        let ts = [
            *points[0].coords().3,
            *points[1].coords().3,
            *points[2].coords().3,
            *points[3].coords().3,
            *points[4].coords().3,
            *points[5].coords().3,
            *points[6].coords().3,
            *points[7].coords().3,
        ];
        let r = WidePoint {
            x: WideFe::from_fields(&xs),
            y: WideFe::from_fields(&ys),
            z: WideFe::from_fields(&zs),
            t: WideFe::from_fields(&ts),
        };
        proof {
            if forall|i: int| 0 <= i < 8 ==> (#[trigger] points[i]).wf() {
                assert forall|i: int| 0 <= i < 8 implies xs[i].wf() && ys[i].wf() && zs[i].wf() && ts[i].wf() by {
                    assert(points[i].wf());
                }
            }
            if forall|i: int| 0 <= i < 8 ==> (#[trigger] points[i]).carried() {
                assert forall|i: int| 0 <= i < 8 implies xs[i].carried() && ys[i].carried() && zs[i].carried()
                    && ts[i].carried() by {
                    assert(points[i].carried());
                }
                assert(r.strict());
                r.lemma_roomy();
            }
        }
        r
    }

    /// The point of every lane, with canonical coordinates.
    pub fn to_points(&self) -> (r: [EdwardsPoint; 8])
        ensures
            forall|i: int|
                0 <= i < 8 ==> {
                    &&& (#[trigger] r[i]).carried()
                    &&& r[i].x.value() == self.x.fe(i) && r[i].x.fe() == self.x.fe(i)
                    &&& r[i].y.value() == self.y.fe(i) && r[i].y.fe() == self.y.fe(i)
                    &&& r[i].z.value() == self.z.fe(i) && r[i].z.fe() == self.z.fe(i)
                    &&& r[i].t.value() == self.t.fe(i) && r[i].t.fe() == self.t.fe(i)
                    &&& r[i].valid() == self.valid(i)
                    &&& r[i].point() == self.point(i)
                },
    {
        let xs = self.x.to_fields();
        let ys = self.y.to_fields();
        let zs = self.z.to_fields();
        let ts = self.t.to_fields();
        let r = [
            EdwardsPoint::from_coords_unchecked(xs[0], ys[0], zs[0], ts[0]),
            EdwardsPoint::from_coords_unchecked(xs[1], ys[1], zs[1], ts[1]),
            EdwardsPoint::from_coords_unchecked(xs[2], ys[2], zs[2], ts[2]),
            EdwardsPoint::from_coords_unchecked(xs[3], ys[3], zs[3], ts[3]),
            EdwardsPoint::from_coords_unchecked(xs[4], ys[4], zs[4], ts[4]),
            EdwardsPoint::from_coords_unchecked(xs[5], ys[5], zs[5], ts[5]),
            EdwardsPoint::from_coords_unchecked(xs[6], ys[6], zs[6], ts[6]),
            EdwardsPoint::from_coords_unchecked(xs[7], ys[7], zs[7], ts[7]),
        ];
        proof {
            assert forall|i: int| 0 <= i < 8 implies (#[trigger] r[i]).carried() && r[i].x.value()
                == self.x.fe(i) && r[i].y.value() == self.y.fe(i) && r[i].z.value() == self.z.fe(i)
                && r[i].t.value() == self.t.fe(i) && r[i].valid() == self.valid(i) && r[i].point()
                == self.point(i) by {
                assert(xs[i].carried() && ys[i].carried() && zs[i].carried() && ts[i].carried());
            }
        }
        r
    }

    proof fn lemma_roomy(&self)
        requires
            self.operand(),
        ensures
            self.x.roomy(),
            self.y.roomy(),
            self.z.roomy(),
            self.t.roomy(),
            self.strict() ==> self.loose_xyz(),
    {
        self.x.lemma_bounds();
        self.y.lemma_bounds();
        self.z.lemma_bounds();
        self.t.lemma_bounds();
    }
}

/// Encodes an affine point.
fn compress_lane(x: &Fe51, y: &Fe51) -> (r: [u8; 32])
    requires
        x.wf(),
        y.wf(),
    ensures
        r@ == encoding::encode(Point { x: x.fe(), y: y.fe() }),
{
    let mut b = y.to_bytes();
    if x.is_odd() {
        encoding::set_sign(&mut b);
    }
    proof {
        bytes::lemma_le_bytes_unique(b@, y.fe() + encoding::two_255() * (x.fe() % 2), 32);
    }
    b
}

/// Part of the scalar `s` that the triple-fold ladder has added after position `pos`.
spec fn triple_part(d: Seq<i8>, pos: nat) -> int
    decreases 64 - pos,
{
    if pos % 3 == 0 || pos >= 64 {
        scalar::digits_above(d, pos)
    } else {
        16 * triple_part(d, pos + 1)
    }
}

/// Part of the scalar `s` that the pair-fold ladder has added after position `pos`.
spec fn pair_part(d: Seq<i8>, pos: nat) -> int
    decreases 64 - pos,
{
    if pos % 2 == 0 || pos >= 64 {
        scalar::digits_above(d, pos)
    } else {
        16 * pair_part(d, pos + 1)
    }
}

/// Lane `i` of `acc` holds `[s]B - [k]A`.
spec fn lane_holds(acc: WidePoint, i: int, s: int, b: Point, k: int, a: Point) -> bool {
    acc.valid(i) && acc.point(i) == curve::combination(s, b, -k, a)
}

/// The folded digit `triple`.
pub open spec fn triple_digit(d: Seq<i8>, triple: int) -> int {
    if triple == 21 {
        d[63] as int
    } else {
        d[3 * triple] + 16 * d[3 * triple + 1] + 256 * d[3 * triple + 2]
    }
}

/// The sum of the lowest `n` folded digits, each times its power of 4096.
pub open spec fn triple_sum(d: Seq<i8>, n: nat) -> int
    decreases n,
{
    if n == 0 {
        0
    } else {
        triple_sum(d, (n - 1) as nat) + triple_digit(d, n - 1) * pow(4096, (n - 1) as nat)
    }
}

proof fn lemma_triple_sum(d: Seq<i8>, n: nat)
    requires
        n <= 21,
    ensures
        scalar::digits_value(d) == triple_sum(d, n) + scalar::digits_above(d, 3 * n) * pow(4096, n),
    decreases n,
{
    if n == 0 {
        lemma_pow0(4096);
    } else {
        let m = (n - 1) as nat;
        let pos = 3 * m;
        lemma_triple_sum(d, m);
        reveal_with_fuel(scalar::digits_above, 4);
        let t = triple_digit(d, m as int);
        let rest = scalar::digits_above(d, 3 * n);
        assert(scalar::digits_above(d, pos) == t + 4096 * rest);
        reveal(pow);
        assert(pow(4096, n) == 4096 * pow(4096, m));
        assert((t + 4096 * rest) * pow(4096, m) == t * pow(4096, m) + rest * (4096 * pow(4096, m)))
            by (nonlinear_arith);
    }
}

/// Folding keeps the value: the folded digits, times their powers of 4096, sum up to the value
/// of the radix-16 digits. Every folded digit is in `-2184..=2184`.
pub proof fn lemma_folded_digits(d: Seq<i8>)
    requires
        scalar::digits_bounded(d),
    ensures
        triple_sum(d, 22) == scalar::digits_value(d),
        forall|t: int| 0 <= t <= 21 ==> -2184 <= #[trigger] triple_digit(d, t) <= 2184,
{
    lemma_triple_sum(d, 21);
    reveal_with_fuel(scalar::digits_above, 3);
    assert(scalar::digits_above(d, 63) == d[63]);
    assert forall|t: int| 0 <= t <= 21 implies -2184 <= #[trigger] triple_digit(d, t) <= 2184 by {
        if t < 21 {
            assert(-8 <= d[3 * t] <= 8 && -8 <= d[3 * t + 1] <= 8 && -8 <= d[3 * t + 2] <= 8);
        } else {
            assert(-8 <= d[63] <= 8);
        }
    }
}

/// Folds three radix-16 digits into a radix-4096 digit. Triple 21 is the lone digit 63.
pub fn base_triple_digit(digits: &Radix16, triple: usize) -> (r: i16)
    requires
        scalar::digits_bounded(digits@),
        triple <= 21,
    ensures
        -2184 <= r <= 2184,
        r == triple_digit(digits@, triple as int),
{
    if triple == 21 {
        return digits[63] as i16;
    }
    let base: usize = 3 * triple;
    assert(-8 <= digits[base as int] <= 8 && -8 <= digits[base + 1] <= 8 && -8 <= digits[base + 2] <= 8);
    digits[base] as i16 + 16 * (digits[base + 1] as i16) + 256 * (digits[base + 2] as i16)
}

/// Folds two radix-16 digits into a radix-256 digit.
fn base_pair_digit(digits: &Radix16, pair: usize) -> (r: i16)
    requires
        scalar::digits_bounded(digits@),
        pair < 32,
    ensures
        -136 <= r <= 136,
        r == digits[2 * pair] + 16 * digits[2 * pair + 1],
{
    assert(-8 <= digits[2 * pair] <= 8 && -8 <= digits[2 * pair + 1] <= 8);
    digits[pair * 2] as i16 + 16 * (digits[pair * 2 + 1] as i16)
}

/// Adds `[d]B` per lane, where `d` is the folded digit `triple` of the lane's scalar.
fn add_base_triple_digit(
    acc: &mut WidePoint,
    base_table: &BasepointTable4096,
    s_digits: &[Radix16; 8],
    triple: usize,
)
    requires
        old(acc).strict(),
        base_table.valid(),
        forall|i: int| 0 <= i < 8 ==> scalar::digits_bounded((#[trigger] s_digits[i])@),
        triple <= 21,
    ensures
        final(acc).strict(),
        forall|i: int|
            #![trigger final(acc).valid(i)]
            #![trigger final(acc).point(i)]
            0 <= i < 8 && old(acc).valid(i) ==> final(acc).valid(i) && final(acc).point(i) == curve::sum(
                old(acc).point(i),
                curve::smul(triple_digit(s_digits[i]@, triple as int), base_table.point()),
            ),
{
    let selected = [
        base_table.select_signed_affine_ref(base_triple_digit(&s_digits[0], triple)),
        base_table.select_signed_affine_ref(base_triple_digit(&s_digits[1], triple)),
        base_table.select_signed_affine_ref(base_triple_digit(&s_digits[2], triple)),
        base_table.select_signed_affine_ref(base_triple_digit(&s_digits[3], triple)),
        base_table.select_signed_affine_ref(base_triple_digit(&s_digits[4], triple)),
        base_table.select_signed_affine_ref(base_triple_digit(&s_digits[5], triple)),
        base_table.select_signed_affine_ref(base_triple_digit(&s_digits[6], triple)),
        base_table.select_signed_affine_ref(base_triple_digit(&s_digits[7], triple)),
    ];
    proof {
        assert forall|i: int| 0 <= i < 8 implies (#[trigger] selected[i]).represents(
            curve::smul(triple_digit(s_digits[i]@, triple as int), base_table.point()),
        ) by {
        }
    }
    let wide = WideAffineCachedPoint::from_affine_refs(&selected);
    let ghost before = *acc;
    acc.add_affine_cached_assign(&wide);
    proof {
        assert forall|i: int|
            #![trigger acc.valid(i)]
            #![trigger acc.point(i)]
            0 <= i < 8 && before.valid(i) implies acc.valid(i) && acc.point(i) == curve::sum(
            before.point(i),
            curve::smul(triple_digit(s_digits[i]@, triple as int), base_table.point()),
        ) by {
            let q = curve::smul(triple_digit(s_digits[i]@, triple as int), base_table.point());
            assert(selected[i].represents(q));
            assert(wide.represents(i, q));
        }
    }
}

/// Adds `[d]B` per lane, where `d` is the folded digit `pair` of the lane's scalar.
fn add_base_pair_digit(
    acc: &mut WidePoint,
    base_table: &BasepointTable,
    s_digits: &[Radix16; 8],
    pair: usize,
)
    requires
        old(acc).strict(),
        base_table.valid(),
        forall|i: int| 0 <= i < 8 ==> scalar::digits_bounded((#[trigger] s_digits[i])@),
        pair < 32,
    ensures
        final(acc).strict(),
        forall|i: int|
            #![trigger final(acc).valid(i)]
            #![trigger final(acc).point(i)]
            0 <= i < 8 && old(acc).valid(i) ==> final(acc).valid(i) && final(acc).point(i) == curve::sum(
                old(acc).point(i),
                curve::smul(s_digits[i][2 * pair] + 16 * s_digits[i][2 * pair + 1], curve::basepoint()),
            ),
{
    let selected = [
        base_table.select_signed_affine_cached_ref(base_pair_digit(&s_digits[0], pair)),
        base_table.select_signed_affine_cached_ref(base_pair_digit(&s_digits[1], pair)),
        base_table.select_signed_affine_cached_ref(base_pair_digit(&s_digits[2], pair)),
        base_table.select_signed_affine_cached_ref(base_pair_digit(&s_digits[3], pair)),
        base_table.select_signed_affine_cached_ref(base_pair_digit(&s_digits[4], pair)),
        base_table.select_signed_affine_cached_ref(base_pair_digit(&s_digits[5], pair)),
        base_table.select_signed_affine_cached_ref(base_pair_digit(&s_digits[6], pair)),
        base_table.select_signed_affine_cached_ref(base_pair_digit(&s_digits[7], pair)),
    ];
    proof {
        assert forall|i: int| 0 <= i < 8 implies (#[trigger] selected[i]).represents(
            curve::smul(s_digits[i][2 * pair] + 16 * s_digits[i][2 * pair + 1], curve::basepoint()),
        ) by {
        }
    }
    let wide = WideAffineCachedPoint::from_affine_refs(&selected);
    let ghost before = *acc;
    acc.add_affine_cached_assign(&wide);
    proof {
        assert forall|i: int|
            #![trigger acc.valid(i)]
            #![trigger acc.point(i)]
            0 <= i < 8 && before.valid(i) implies acc.valid(i) && acc.point(i) == curve::sum(
            before.point(i),
            curve::smul(s_digits[i][2 * pair] + 16 * s_digits[i][2 * pair + 1], curve::basepoint()),
        ) by {
            let q = curve::smul(
                s_digits[i][2 * pair] + 16 * s_digits[i][2 * pair + 1],
                curve::basepoint(),
            );
            assert(selected[i].represents(q));
            assert(wide.represents(i, q));
        }
    }
}

/// The table entry for `-d`, where `d` is digit `index`.
fn negated_entry<'a>(table: &'a PointTable, digits: &Radix16, index: usize) -> (r: &'a CachedPoint)
    requires
        table.valid(),
        scalar::digits_bounded(digits@),
        index < 64,
    ensures
        r.wf(),
        r.represents(curve::smul(-digits[index as int], table.point())),
{
    assert(-8 <= digits@[index as int] <= 8);
    table.select_signed_cached_ref(-digits[index])
}

/// Subtracts `[d]A` per lane, where `d` is digit `index` of the lane's scalar.
fn add_public_digit(
    acc: &mut WidePoint,
    public_key_tables: &[&PointTable; 8],
    k_digits: &[Radix16; 8],
    index: usize,
)
    requires
        old(acc).strict(),
        forall|i: int| 0 <= i < 8 ==> (#[trigger] public_key_tables[i]).valid(),
        forall|i: int| 0 <= i < 8 ==> scalar::digits_bounded((#[trigger] k_digits[i])@),
        index < 64,
    ensures
        final(acc).strict(),
        forall|i: int|
            #![trigger final(acc).valid(i)]
            #![trigger final(acc).point(i)]
            0 <= i < 8 && old(acc).valid(i) ==> final(acc).valid(i) && final(acc).point(i) == curve::sum(
                old(acc).point(i),
                curve::smul(-k_digits[i][index as int], public_key_tables[i].point()),
            ),
{
    let selected = [
        negated_entry(public_key_tables[0], &k_digits[0], index),
        negated_entry(public_key_tables[1], &k_digits[1], index),
        negated_entry(public_key_tables[2], &k_digits[2], index),
        negated_entry(public_key_tables[3], &k_digits[3], index),
        negated_entry(public_key_tables[4], &k_digits[4], index),
        negated_entry(public_key_tables[5], &k_digits[5], index),
        negated_entry(public_key_tables[6], &k_digits[6], index),
        negated_entry(public_key_tables[7], &k_digits[7], index),
    ];
    proof {
        assert forall|i: int| 0 <= i < 8 implies (#[trigger] selected[i]).represents(
            curve::smul(-k_digits[i][index as int], public_key_tables[i].point()),
        ) by {
        }
    }
    let wide = WideCachedPoint::from_cached_refs(&selected);
    let ghost before = *acc;
    acc.add_cached_assign(&wide);
    proof {
        assert forall|i: int|
            #![trigger acc.valid(i)]
            #![trigger acc.point(i)]
            0 <= i < 8 && before.valid(i) implies acc.valid(i) && acc.point(i) == curve::sum(
            before.point(i),
            curve::smul(-k_digits[i][index as int], public_key_tables[i].point()),
        ) by {
            let q = curve::smul(-k_digits[i][index as int], public_key_tables[i].point());
            assert(selected[i].represents(q));
            assert(wide.represents(i, q));
        }
    }
}

/// Three more digits of the scalar `s`.
proof fn lemma_triple_part(d: Seq<i8>, pos: nat)
    requires
        pos < 63,
    ensures
        pos % 3 == 0 ==> triple_part(d, pos) == 16 * triple_part(d, pos + 1) + triple_digit(
            d,
            pos as int / 3,
        ),
        pos % 3 != 0 ==> triple_part(d, pos) == 16 * triple_part(d, pos + 1),
{
    if pos % 3 == 0 {
        assert(triple_part(d, pos + 1) == 16 * triple_part(d, pos + 2));
        assert(triple_part(d, pos + 2) == 16 * triple_part(d, pos + 3));
        assert(triple_part(d, pos + 3) == scalar::digits_above(d, pos + 3));
        assert(scalar::digits_above(d, pos) == d[pos as int] + 16 * scalar::digits_above(d, pos + 1));
        assert(scalar::digits_above(d, pos + 1) == d[pos as int + 1] + 16 * scalar::digits_above(d, pos + 2));
        assert(scalar::digits_above(d, pos + 2) == d[pos as int + 2] + 16 * scalar::digits_above(d, pos + 3));
        assert(3 * (pos as int / 3) == pos);
    }
}

/// Four doublings and the subtraction of a digit advance a lane by one position.
proof fn lemma_lane_step(before: Point, s: int, b: Point, k: int, a: Point, digit: int)
    requires
        curve::on_curve(a),
        curve::on_curve(b),
        before == curve::combination(s, b, -k, a),
    ensures
        curve::sum(curve::smul(16, before), curve::smul(-digit, a)) == curve::combination(
            16 * s,
            b,
            -(digit + 16 * k),
            a,
        ),
{
    curve::lemma_combination_scale(16, s, b, -k, a);
    curve::lemma_combination_add_a(16 * s, b, 16 * (-k), a, -digit);
}

/// Every lane holds `[s]B - [k]A` for the parts of the scalars from position `pos` upwards.
spec fn triple_invariant(acc: WidePoint, base: Point, prepared: PreparedBatch, pos: nat) -> bool {
    &&& acc.strict()
    &&& forall|i: int|
        0 <= i < 8 ==> #[trigger] lane_holds(
            acc,
            i,
            triple_part(prepared.s_digits[i]@, pos),
            base,
            scalar::digits_above(prepared.k_digits[i]@, pos),
            prepared.public_key_tables[i].point(),
        )
}

/// Every lane holds `[s]B - [k]A` for the parts of the scalars from position `pos` upwards.
spec fn pair_invariant(acc: WidePoint, prepared: PreparedBatch, pos: nat) -> bool {
    &&& acc.strict()
    &&& forall|i: int|
        0 <= i < 8 ==> #[trigger] lane_holds(
            acc,
            i,
            pair_part(prepared.s_digits[i]@, pos),
            curve::basepoint(),
            scalar::digits_above(prepared.k_digits[i]@, pos),
            prepared.public_key_tables[i].point(),
        )
}

/// `[s]B - [k]A` in every lane, where `B` is the point of the base table and `A` that of the
/// lane's public-key table.
///
/// Fixed-base additions fold three radix-16 digits into one radix-4096 digit: 21 triples and
/// the lone top digit 63. Triple `p` is added when `3p` doubling blocks remain.
pub fn mul_base_minus_public(base_table: &BasepointTable4096, prepared: &PreparedBatch) -> (r: WidePoint)
    requires
        base_table.valid(),
        prepared.valid(),
    ensures
        r.strict(),
        forall|i: int|
            #![trigger r.valid(i)]
            #![trigger r.point(i)]
            0 <= i < 8 ==> r.valid(i) && r.point(i) == recovered(*prepared, base_table.point(), i),
{
    let ghost base = base_table.point();
    let mut acc = WidePoint::identity();
    add_public_digit(&mut acc, &prepared.public_key_tables, prepared.k_digits, 63);
    let ghost first = acc;
    add_base_triple_digit(&mut acc, base_table, prepared.s_digits, 21);
    proof {
        assert forall|i: int| 0 <= i < 8 implies #[trigger] lane_holds(
            acc,
            i,
            triple_part(prepared.s_digits[i]@, 63),
            base,
            scalar::digits_above(prepared.k_digits[i]@, 63),
            prepared.public_key_tables[i].point(),
        ) by {
            let a = prepared.public_key_tables[i].point();
            let sd = prepared.s_digits[i]@;
            let kd = prepared.k_digits[i]@;
            assert(prepared.public_key_tables[i].valid());
            assert(first.valid(i));
            assert(acc.valid(i));
            assert(scalar::digits_above(sd, 64) == 0 && scalar::digits_above(kd, 64) == 0);
            curve::lemma_smul_base(a);
            curve::lemma_smul_base(base);
            curve::lemma_identity(curve::identity());
            curve::lemma_combination_add_a(0, base, 0, a, -kd[63]);
            curve::lemma_combination_add_b(0, base, -kd[63], a, sd[63] as int);
        }
    }
    let mut pos: usize = 63;
    while pos > 0
        invariant
            pos <= 63,
            base_table.valid(),
            prepared.valid(),
            base == base_table.point(),
            triple_invariant(acc, base, *prepared, pos as nat),
        decreases pos,
    {
        pos -= 1;
        let ghost before = acc;
        proof {
            acc.lemma_roomy();
        }
        acc = acc.double4();
        let ghost doubled = acc;
        add_public_digit(&mut acc, &prepared.public_key_tables, prepared.k_digits, pos);
        let ghost stepped = acc;
        if pos % 3 == 0 {
            add_base_triple_digit(&mut acc, base_table, prepared.s_digits, pos / 3);
        }
        proof {
            assert forall|i: int| 0 <= i < 8 implies #[trigger] lane_holds(
                acc,
                i,
                triple_part(prepared.s_digits[i]@, pos as nat),
                base,
                scalar::digits_above(prepared.k_digits[i]@, pos as nat),
                prepared.public_key_tables[i].point(),
            ) by {
                let a = prepared.public_key_tables[i].point();
                let sd = prepared.s_digits[i]@;
                let kd = prepared.k_digits[i]@;
                let s1 = triple_part(sd, (pos + 1) as nat);
                let k1 = scalar::digits_above(kd, (pos + 1) as nat);
                assert(prepared.public_key_tables[i].valid());
                assert(lane_holds(before, i, s1, base, k1, a));
                assert(before.valid_xyz(i));
                assert(doubled.valid(i));
                assert(stepped.valid(i));
                assert(acc.valid(i));
                lemma_lane_step(before.point(i), s1, base, k1, a, kd[pos as int] as int);
                lemma_triple_part(sd, pos as nat);
                if pos % 3 == 0 {
                    curve::lemma_combination_add_b(
                        16 * s1,
                        base,
                        -(kd[pos as int] + 16 * k1),
                        a,
                        triple_digit(sd, pos as int / 3),
                    );
                }
            }
        }
    }
    proof {
        assert forall|i: int|
            #![trigger acc.valid(i)]
            #![trigger acc.point(i)]
            0 <= i < 8 implies acc.valid(i) && acc.point(i) == curve::diff(
            curve::smul(prepared.s(i), base),
            curve::smul(prepared.k(i), prepared.public_key_tables[i].point()),
        ) by {
            let a = prepared.public_key_tables[i].point();
            assert(prepared.public_key_tables[i].valid());
            assert(lane_holds(
                acc,
                i,
                triple_part(prepared.s_digits[i]@, 0),
                base,
                scalar::digits_above(prepared.k_digits[i]@, 0),
                a,
            ));
            curve::lemma_smul_neg(prepared.k(i), a);
        }
    }
    acc
}

/// `[s]B - [k]A` in every lane, with fixed-base additions that fold two radix-16 digits into
/// one radix-256 digit.
pub fn mul_base_minus_public_pairfold(base_table: &BasepointTable, prepared: &PreparedBatch) -> (r: WidePoint)
    requires
        base_table.valid(),
        prepared.valid(),
    ensures
        r.strict(),
        forall|i: int|
            #![trigger r.valid(i)]
            #![trigger r.point(i)]
            0 <= i < 8 ==> r.valid(i) && r.point(i) == recovered(*prepared, curve::basepoint(), i),
{
    let ghost base = curve::basepoint();
    let mut acc = WidePoint::identity();
    add_public_digit(&mut acc, &prepared.public_key_tables, prepared.k_digits, 63);
    proof {
        curve::lemma_basepoint_on_curve();
        assert forall|i: int| 0 <= i < 8 implies #[trigger] lane_holds(
            acc,
            i,
            pair_part(prepared.s_digits[i]@, 63),
            base,
            scalar::digits_above(prepared.k_digits[i]@, 63),
            prepared.public_key_tables[i].point(),
        ) by {
            let a = prepared.public_key_tables[i].point();
            let sd = prepared.s_digits[i]@;
            let kd = prepared.k_digits[i]@;
            assert(prepared.public_key_tables[i].valid());
            assert(acc.valid(i));
            assert(scalar::digits_above(sd, 64) == 0 && scalar::digits_above(kd, 64) == 0);
            assert(pair_part(sd, 64) == 0);
            assert(pair_part(sd, 63) == 0);
            curve::lemma_smul_base(a);
            curve::lemma_smul_base(base);
            curve::lemma_identity(curve::identity());
            curve::lemma_combination_add_a(0, base, 0, a, -kd[63]);
        }
    }
    let mut pos: usize = 63;
    while pos > 0
        invariant
            pos <= 63,
            base_table.valid(),
            prepared.valid(),
            base == curve::basepoint(),
            curve::on_curve(base),
            pair_invariant(acc, *prepared, pos as nat),
        decreases pos,
    {
        pos -= 1;
        let ghost before = acc;
        proof {
            acc.lemma_roomy();
        }
        acc = acc.double4();
        let ghost doubled = acc;
        if pos % 2 == 0 {
            add_base_pair_digit(&mut acc, base_table, prepared.s_digits, pos / 2);
        }
        let ghost stepped = acc;
        add_public_digit(&mut acc, &prepared.public_key_tables, prepared.k_digits, pos);
        proof {
            assert forall|i: int| 0 <= i < 8 implies #[trigger] lane_holds(
                acc,
                i,
                pair_part(prepared.s_digits[i]@, pos as nat),
                base,
                scalar::digits_above(prepared.k_digits[i]@, pos as nat),
                prepared.public_key_tables[i].point(),
            ) by {
                let a = prepared.public_key_tables[i].point();
                let sd = prepared.s_digits[i]@;
                let kd = prepared.k_digits[i]@;
                let s1 = pair_part(sd, (pos + 1) as nat);
                let k1 = scalar::digits_above(kd, (pos + 1) as nat);
                assert(prepared.public_key_tables[i].valid());
                assert(lane_holds(before, i, s1, base, k1, a));
                assert(before.valid_xyz(i));
                assert(doubled.valid(i));
                assert(stepped.valid(i));
                assert(acc.valid(i));
                curve::lemma_combination_scale(16, s1, base, -k1, a);
                let kn = 16 * (-k1);
                if pos % 2 == 0 {
                    let e = sd[pos as int] + 16 * sd[pos + 1];
                    assert(2 * (pos as int / 2) == pos);
                    assert(scalar::digits_above(sd, (pos + 1) as nat) == sd[pos + 1] + 16
                        * scalar::digits_above(sd, (pos + 2) as nat));
                    assert(s1 == 16 * pair_part(sd, (pos + 2) as nat));
                    assert(pair_part(sd, pos as nat) == 16 * s1 + e);
                    curve::lemma_combination_add_b(16 * s1, base, kn, a, e);
                    curve::lemma_combination_add_a(16 * s1 + e, base, kn, a, -kd[pos as int]);
                } else {
                    assert(pair_part(sd, pos as nat) == 16 * s1);
                    curve::lemma_combination_add_a(16 * s1, base, kn, a, -kd[pos as int]);
                }
            }
        }
    }
    proof {
        assert forall|i: int|
            #![trigger acc.valid(i)]
            #![trigger acc.point(i)]
            0 <= i < 8 implies acc.valid(i) && acc.point(i) == curve::diff(
            curve::smul(prepared.s(i), base),
            curve::smul(prepared.k(i), prepared.public_key_tables[i].point()),
        ) by {
            let a = prepared.public_key_tables[i].point();
            assert(prepared.public_key_tables[i].valid());
            assert(lane_holds(
                acc,
                i,
                pair_part(prepared.s_digits[i]@, 0),
                base,
                scalar::digits_above(prepared.k_digits[i]@, 0),
                a,
            ));
            curve::lemma_smul_neg(prepared.k(i), a);
        }
    }
    acc
}

/// Lane `i` holds the affine point that `b` decodes to, and bit `i` of `mask` says whether there
/// is one.
pub open spec fn decompressed_lane(point: WidePoint, mask: u8, i: int, b: Seq<u8>) -> bool {
    &&& lanes::mask_bit(mask, i) == encoding::decodable(b)
    &&& encoding::decodable(b) ==> holds_affine(point, i, encoding::decoded(b))
}

/// Lane `i` holds the point `a` with `Z = 1`.
pub open spec fn holds_affine(point: WidePoint, i: int, a: Point) -> bool {
    &&& point.valid(i)
    &&& point.valid_xyz(i)
    &&& point.point(i) == a
    &&& point.x.fe(i) == a.x
    &&& point.y.fe(i) == a.y
    &&& point.z.fe(i) == 1
}

/// Decompression state before the exponentiation of the square root.
struct DecompressSetup {
    u: WideFe,
    v: WideFe,
    base: WideFe,
    exp: WideFe,
    y: WideFe,
    x_signs: [bool; 8],
}

impl DecompressSetup {
    spec fn strict(&self) -> bool {
        self.u.strict() && self.v.strict() && self.base.strict() && self.exp.strict() && self.y.strict()
    }

    /// Lane `i` is set up for the encoding `b`.
    spec fn lane(&self, i: int, b: Seq<u8>) -> bool {
        let y = encoding::encoded_y(b);
        let u = encoding::ratio_u(y);
        let v = encoding::ratio_v(y);
        let v3 = fp::fmul(fp::fmul(v, v), v);
        let v7 = fp::fmul(fp::fmul(v3, v3), v);
        &&& self.y.fe(i) == y
        &&& self.u.fe(i) == u
        &&& self.v.fe(i) == v
        &&& self.base.fe(i) == fp::fmul(u, v3)
        &&& self.exp.fe(i) == fp::fmul(u, v7)
        &&& self.x_signs[i] == encoding::encoded_sign(b)
    }
}

/// The ordinate of an encoding.
fn encoded_ordinate(b: &[u8; 32]) -> (r: Fe51)
    ensures
        r.carried(),
        r.fe() == encoding::encoded_y(b@),
{
    let r = Fe51::from_bytes_unchecked(b);
    proof {
        r.lemma_fe();
    }
    r
}

/// The sign bit of an encoding.
fn sign_bit(b: &[u8; 32]) -> (r: bool)
    ensures
        r == encoding::encoded_sign(b@),
{
    proof {
        encoding::lemma_sign_bit(b@);
    }
    b[31] >= 0x80
}

fn decompress_setup(bytes: &[[u8; 32]; 8]) -> (r: DecompressSetup)
    ensures
        r.strict(),
        forall|i: int| 0 <= i < 8 ==> #[trigger] r.lane(i, bytes[i]@),
{
    let y_fields = [
        encoded_ordinate(&bytes[0]),
        encoded_ordinate(&bytes[1]),
        encoded_ordinate(&bytes[2]),
        encoded_ordinate(&bytes[3]),
        encoded_ordinate(&bytes[4]),
        encoded_ordinate(&bytes[5]),
        encoded_ordinate(&bytes[6]),
        encoded_ordinate(&bytes[7]),
    ];
    let x_signs = [
        sign_bit(&bytes[0]),
        sign_bit(&bytes[1]),
        sign_bit(&bytes[2]),
        sign_bit(&bytes[3]),
        sign_bit(&bytes[4]),
        sign_bit(&bytes[5]),
        sign_bit(&bytes[6]),
        sign_bit(&bytes[7]),
    ];
    let y = WideFe::from_fields(&y_fields);
    let one = WideFe::one();
    let yy = {
        proof {
            y.lemma_bounds();
        }
        y.square()
    };
    proof {
        one.lemma_bounds();
        yy.lemma_bounds();
    }
    let u = yy.subtract(&one);
    let dyy = WideFe::d().multiply(&yy);
    proof {
        dyy.lemma_bounds();
    }
    let v = one.add(&dyy);
    proof {
        v.lemma_bounds();
    }
    let v2 = v.square();
    let v3 = v2.multiply(&v);
    proof {
        v3.lemma_bounds();
    }
    let v7 = v3.square().multiply(&v);
    let base = u.multiply(&v3);
    let exp = u.multiply(&v7);
    let r = DecompressSetup { u, v, base, exp, y, x_signs };
    proof {
        assert forall|i: int| 0 <= i < 8 implies #[trigger] r.lane(i, bytes[i]@) by {
            assert(y_fields[i].fe() == encoding::encoded_y(bytes[i]@));
            assert(y.fe(i) == y_fields[i].fe());
            assert(v3.fe(i) == fp::fmul(v2.fe(i), v.fe(i)));
        }
    }
    r
}

proof fn lemma_finish_lane(b: Seq<u8>, x0: int, x_alt: int, x1: int, x: int)
    requires
        x0 == encoding::root_candidate(
            encoding::ratio_u(encoding::encoded_y(b)),
            encoding::ratio_v(encoding::encoded_y(b)),
        ),
        x_alt == encoding::alternative_root(x0),
        x1 == (if encoding::root_check(encoding::ratio_v(encoding::encoded_y(b)), x0)
            == encoding::ratio_u(encoding::encoded_y(b)) {
            x0
        } else if encoding::root_check(encoding::ratio_v(encoding::encoded_y(b)), x_alt)
            == encoding::ratio_u(encoding::encoded_y(b)) {
            x_alt
        } else {
            x0
        }),
        x == encoding::select_sign(b, x1),
    ensures
        encoding::decodable(b) == (encoding::root_check(encoding::ratio_v(encoding::encoded_y(b)), x0)
            == encoding::ratio_u(encoding::encoded_y(b)) || encoding::root_check(
            encoding::ratio_v(encoding::encoded_y(b)),
            x_alt,
        ) == encoding::ratio_u(encoding::encoded_y(b))),
        encoding::decodable(b) ==> encoding::decoded(b) == (Point { x, y: encoding::encoded_y(b) })
            && curve::on_curve(encoding::decoded(b)),
{
    encoding::lemma_decode_by_candidate(b, x0, x1, x);
}

/// Picks the root with the encoded sign. The point of a lane outside the mask is meaningless.
fn decompress_finish(s: DecompressSetup, pow: WideFe, Ghost(encoded): Ghost<Seq<Seq<u8>>>) -> (r: (
    WidePoint,
    u8,
))
    requires
        s.strict(),
        pow.operand(),
        forall|i: int| 0 <= i < 8 ==> #[trigger] s.lane(i, encoded[i]),
        forall|i: int|
            0 <= i < 8 ==> #[trigger] pow.fe(i) == fp::fpow(s.exp.fe(i), fp::p_minus_5_over_8()),
    ensures
        r.0.strict(),
        forall|i: int| 0 <= i < 8 ==> #[trigger] decompressed_lane(r.0, r.1, i, encoded[i]),
{
    let x0 = s.base.multiply(&pow);
    proof {
        x0.lemma_bounds();
    }
    let vx2 = s.v.multiply(&x0.square());
    proof {
        vx2.lemma_bounds();
    }
    let first_ok = vx2.equals_lanes(&s.u);
    let x_alt = x0.multiply(&WideFe::sqrt_m1());
    proof {
        x_alt.lemma_bounds();
    }
    let vx_alt2 = s.v.multiply(&x_alt.square());
    proof {
        vx_alt2.lemma_bounds();
    }
    let second_ok = vx_alt2.equals_lanes(&s.u);
    let use_alt = lanes::and_not_lanes(&second_ok, &first_ok);
    let valid = lanes::or_lanes(&first_ok, &second_ok);
    let alt_mask: u8 = lanes::mask_from_lanes(&use_alt);
    let valid_mask: u8 = lanes::mask_from_lanes(&valid);
    let x1 = x0.blend(alt_mask, &x_alt);
    proof {
        x1.lemma_bounds();
    }
    let x_odd = x1.is_odd_lanes();
    let x_neg = x1.negate();
    let flip = lanes::ne_lanes(&x_odd, &s.x_signs);
    let negate_mask: u8 = lanes::mask_from_lanes(&flip);
    let x = x1.blend(negate_mask, &x_neg);
    let t = x.multiply(&s.y);
    let point = WidePoint { x, y: s.y, z: WideFe::one(), t };
    proof {
        assert forall|i: int| 0 <= i < 8 implies #[trigger] decompressed_lane(
            point,
            valid_mask,
            i,
            encoded[i],
        ) by {
            let b = encoded[i];
            assert(s.lane(i, b));
            assert(first_ok[i] == (vx2.fe(i) == s.u.fe(i)));
            assert(second_ok[i] == (vx_alt2.fe(i) == s.u.fe(i)));
            assert(lanes::mask_bit(alt_mask, i) == use_alt[i]);
            assert(lanes::mask_bit(valid_mask, i) == valid[i]);
            assert(lanes::mask_bit(negate_mask, i) == flip[i]);
            assert(x_odd[i] == (x1.fe(i) % 2 == 1));
            lemma_finish_lane(b, x0.fe(i), x_alt.fe(i), x1.fe(i), x.fe(i));
            if encoding::decodable(b) {
                let a = encoding::decoded(b);
                assert(t.fe(i) == fp::fmul(x.fe(i), s.y.fe(i)));
                assert(point.z.fe(i) == 1);
                projective::lemma_affine_represents(a);
                point.lemma_represents(i, a);
            }
        }
    }
    (point, valid_mask)
}

/// Decompresses eight points, with a mask of the lanes that decode.
pub fn decompress_points_wide(bytes: &[[u8; 32]; 8]) -> (r: (WidePoint, u8))
    ensures
        r.0.strict(),
        forall|i: int| 0 <= i < 8 ==> #[trigger] decompressed_lane(r.0, r.1, i, bytes[i]@),
{
    let s = decompress_setup(bytes);
    let pow = s.exp.pow_p_minus_5_over_8();
    let ghost encoded = Seq::new(8, |i: int| bytes[i]@);
    proof {
        assert forall|i: int| 0 <= i < 8 implies #[trigger] s.lane(i, encoded[i]) by {
            assert(s.lane(i, bytes[i]@));
        }
    }
    let r = decompress_finish(s, pow, Ghost(encoded));
    proof {
        assert forall|i: int| 0 <= i < 8 implies #[trigger] decompressed_lane(r.0, r.1, i, bytes[i]@) by {
            assert(decompressed_lane(r.0, r.1, i, encoded[i]));
        }
    }
    r
}

/// Decompresses two times eight points, interleaving the two exponentiation chains.
pub fn decompress_point_batches_wide(a_bytes: &[[u8; 32]; 8], b_bytes: &[[u8; 32]; 8]) -> (r: (
    (WidePoint, u8),
    (WidePoint, u8),
))
    ensures
        r.0.0.strict(),
        r.1.0.strict(),
        forall|i: int| 0 <= i < 8 ==> #[trigger] decompressed_lane(r.0.0, r.0.1, i, a_bytes[i]@),
        forall|i: int| 0 <= i < 8 ==> #[trigger] decompressed_lane(r.1.0, r.1.1, i, b_bytes[i]@),
{
    let sa = decompress_setup(a_bytes);
    let sb = decompress_setup(b_bytes);
    let (pa, pb) = WideFe::pow_p_minus_5_over_8_x2(&sa.exp, &sb.exp);
    let ghost ea = Seq::new(8, |i: int| a_bytes[i]@);
    let ghost eb = Seq::new(8, |i: int| b_bytes[i]@);
    proof {
        assert forall|i: int| 0 <= i < 8 implies #[trigger] sa.lane(i, ea[i]) by {
            assert(sa.lane(i, a_bytes[i]@));
        }
        assert forall|i: int| 0 <= i < 8 implies #[trigger] sb.lane(i, eb[i]) by {
            assert(sb.lane(i, b_bytes[i]@));
        }
    }
    let ra = decompress_finish(sa, pa, Ghost(ea));
    let rb = decompress_finish(sb, pb, Ghost(eb));
    proof {
        assert forall|i: int| 0 <= i < 8 implies #[trigger] decompressed_lane(ra.0, ra.1, i, a_bytes[i]@) by {
            assert(decompressed_lane(ra.0, ra.1, i, ea[i]));
        }
        assert forall|i: int| 0 <= i < 8 implies #[trigger] decompressed_lane(rb.0, rb.1, i, b_bytes[i]@) by {
            assert(decompressed_lane(rb.0, rb.1, i, eb[i]));
        }
    }
    (ra, rb)
}

/// Cached coordinates of eight points and their inverses, by field.
#[derive(Clone, Copy)]
struct LaneFields {
    y_plus_x: [Fe51; 8],
    y_minus_x: [Fe51; 8],
    z2: [Fe51; 8],
    t2d: [Fe51; 8],
    neg_t2d: [Fe51; 8],
}

impl LaneFields {
    /// The cached point of lane `k`.
    spec fn cached(&self, k: int) -> CachedPoint {
        CachedPoint {
            y_plus_x: self.y_plus_x[k],
            y_minus_x: self.y_minus_x[k],
            z2: self.z2[k],
            t2d: self.t2d[k],
        }
    }

    /// The cached inverse of lane `k`: `Y + X` and `Y - X` exchanged, `2dT` negated.
    spec fn negative(&self, k: int) -> CachedPoint {
        CachedPoint {
            y_plus_x: self.y_minus_x[k],
            y_minus_x: self.y_plus_x[k],
            z2: self.z2[k],
            t2d: self.neg_t2d[k],
        }
    }

    /// The cached coordinates of every lane.
    fn new(m: &WidePoint) -> (r: Self)
        requires
            m.operand(),
        ensures
            forall|k: int|
                #![trigger r.cached(k)]
                #![trigger r.negative(k)]
                0 <= k < 8 && m.valid(k) ==> r.cached(k).represents(m.point(k)) && r.negative(
                    k,
                ).represents(curve::neg(m.point(k))),
    {
        proof {
            m.lemma_roomy();
        }
        let ypx = m.y.add(&m.x);
        let ymx = m.y.subtract(&m.x);
        let z2 = m.z.double();
        let t2d = m.t.multiply(&WideFe::two_d());
        let neg_t2d = t2d.negate();
        let r = LaneFields {
            y_plus_x: ypx.to_fields_loose(),
            y_minus_x: ymx.to_fields_loose(),
            z2: z2.to_fields_loose(),
            t2d: t2d.to_fields_loose(),
            neg_t2d: neg_t2d.to_fields_loose(),
        };
        proof {
            assert forall|k: int|
                #![trigger r.cached(k)]
                #![trigger r.negative(k)]
                0 <= k < 8 && m.valid(k) implies r.cached(k).represents(m.point(k)) && r.negative(
                k,
            ).represents(curve::neg(m.point(k))) by {
                projective::lemma_cache_ops(
                    m.x.fe(k),
                    m.y.fe(k),
                    m.z.fe(k),
                    m.t.fe(k),
                    m.point(k),
                );
                assert(r.y_plus_x[k].fe() == ypx.fe(k));
                assert(r.y_minus_x[k].fe() == ymx.fe(k));
                assert(r.z2[k].fe() == z2.fe(k));
                assert(r.t2d[k].fe() == t2d.fe(k));
                assert(r.neg_t2d[k].fe() == neg_t2d.fe(k));
                assert(neg_t2d.fe(k) == fp::fneg(t2d.fe(k)));
                projective::lemma_cached_neg(
                    ypx.fe(k),
                    ymx.fe(k),
                    z2.fe(k),
                    t2d.fe(k),
                    m.point(k),
                );
            }
        }
        r
    }
}

/// The fields hold the multiple `m` of `base`, and its inverse, in the lanes that hold a point.
spec fn fields_of(f: LaneFields, base: WidePoint, m: int) -> bool {
    forall|k: int|
        #![trigger f.cached(k)]
        #![trigger f.negative(k)]
        0 <= k < 8 && base.valid(k) ==> f.cached(k).represents(curve::smul(m, base.point(k)))
            && f.negative(k).represents(curve::smul(-m, base.point(k)))
}

/// The cached coordinates of a multiple of `base`.
fn cache_multiple(q: &WidePoint, Ghost(base): Ghost<WidePoint>, Ghost(m): Ghost<int>) -> (r: LaneFields)
    requires
        is_multiple(*q, base, m),
    ensures
        fields_of(r, base, m),
{
    let r = LaneFields::new(q);
    proof {
        assert forall|k: int|
            #![trigger r.cached(k)]
            #![trigger r.negative(k)]
            0 <= k < 8 && base.valid(k) implies r.cached(k).represents(curve::smul(m, base.point(k)))
            && r.negative(k).represents(curve::smul(-m, base.point(k))) by {
            assert(q.valid(k));
            curve::lemma_smul_neg(m, base.point(k));
        }
    }
    r
}

/// The table of lane `k` from the cached multiples `P, ..., 8P` of all lanes.
fn lane_table(fields: &[LaneFields; 8], k: usize, Ghost(base): Ghost<WidePoint>) -> (r: PointTable)
    requires
        k < 8,
        forall|i: int| 0 <= i < 8 ==> fields_of(#[trigger] fields[i], base, i + 1),
    ensures
        base.valid(k as int) ==> r.is_table_of(base.point(k as int)),
{
    let mut cached: Vec<CachedPoint> = Vec::new();
    let mut negative: Vec<CachedPoint> = Vec::new();
    let mut i: usize = 0;
    while i < 8
        invariant
            i <= 8,
            k < 8,
            cached.len() == i,
            negative.len() == i,
            forall|m: int| 0 <= m < i ==> #[trigger] cached[m] == fields[m].cached(k as int),
            forall|m: int| 0 <= m < i ==> #[trigger] negative[m] == fields[m].negative(k as int),
        decreases 8 - i,
    {
        let f = &fields[i];
        cached.push(CachedPoint::from_fields(f.y_plus_x[k], f.y_minus_x[k], f.z2[k], f.t2d[k]));
        negative.push(CachedPoint::from_fields(f.y_minus_x[k], f.y_plus_x[k], f.z2[k], f.neg_t2d[k]));
        i += 1;
    }
    let r = PointTable::from_cached(cached, negative, CachedPoint::identity());
    proof {
        let a = base.point(k as int);
        if base.valid(k as int) {
            assert(curve::on_curve(a));
            assert forall|i: int| 0 <= i < 8 implies (#[trigger] cached[i]).represents(
                curve::smul(i + 1, a),
            ) by {
                assert(fields_of(fields[i], base, i + 1));
                assert(cached[i] == fields[i].cached(k as int));
            }
            assert forall|i: int| 0 <= i < 8 implies (#[trigger] negative[i]).represents(
                curve::smul(-(i + 1), a),
            ) by {
                assert(fields_of(fields[i], base, i + 1));
                assert(negative[i] == fields[i].negative(k as int));
            }
        }
    }
    r
}

/// The multiple `m` of `base` in the lanes that hold a point.
spec fn is_multiple(q: WidePoint, base: WidePoint, m: int) -> bool {
    q.operand() && forall|k: int|
        #![trigger q.valid(k)]
        #![trigger q.point(k)]
        0 <= k < 8 && base.valid(k) ==> q.valid(k) && q.point(k) == curve::smul(m, base.point(k))
}

fn add_multiples(a: &WidePoint, b: &WidePoint, Ghost(base): Ghost<WidePoint>, Ghost(i): Ghost<int>, Ghost(
    j,
): Ghost<int>) -> (r: WidePoint)
    requires
        is_multiple(*a, base, i),
        is_multiple(*b, base, j),
    ensures
        is_multiple(r, base, i + j),
{
    let r = a.add(b);
    proof {
        assert forall|k: int|
            #![trigger r.valid(k)]
            #![trigger r.point(k)]
            0 <= k < 8 && base.valid(k) implies r.valid(k) && r.point(k) == curve::smul(
            i + j,
            base.point(k),
        ) by {
            assert(a.valid(k) && b.valid(k));
            curve::lemma_smul_add(i, j, base.point(k));
        }
    }
    r
}

/// The radix-16 tables of all lanes, from tree-balanced multiples `P, ..., 8P`.
pub fn build_tables_from_point(p: &WidePoint) -> (r: [PointTable; 8])
    requires
        p.operand(),
    ensures
        forall|k: int| 0 <= k < 8 && p.valid(k) ==> (#[trigger] r[k]).is_table_of(p.point(k)),
{
    let ghost base = *p;
    proof {
        assert forall|k: int|
            #![trigger p.valid(k)]
            #![trigger p.point(k)]
            0 <= k < 8 && base.valid(k) implies p.valid(k) && p.point(k) == curve::smul(1, base.point(k)) by {
            curve::lemma_smul_base(base.point(k));
        }
    }
    let p2 = add_multiples(p, p, Ghost(base), Ghost(1), Ghost(1));
    let p4 = add_multiples(&p2, &p2, Ghost(base), Ghost(2), Ghost(2));
    let p3 = add_multiples(&p2, p, Ghost(base), Ghost(2), Ghost(1));
    let p5 = add_multiples(&p4, p, Ghost(base), Ghost(4), Ghost(1));
    let p6 = add_multiples(&p3, &p3, Ghost(base), Ghost(3), Ghost(3));
    let p7 = add_multiples(&p4, &p3, Ghost(base), Ghost(4), Ghost(3));
    let p8 = add_multiples(&p4, &p4, Ghost(base), Ghost(4), Ghost(4));
    let fields = [
        cache_multiple(p, Ghost(base), Ghost(1)),
        cache_multiple(&p2, Ghost(base), Ghost(2)),
        cache_multiple(&p3, Ghost(base), Ghost(3)),
        cache_multiple(&p4, Ghost(base), Ghost(4)),
        cache_multiple(&p5, Ghost(base), Ghost(5)),
        cache_multiple(&p6, Ghost(base), Ghost(6)),
        cache_multiple(&p7, Ghost(base), Ghost(7)),
        cache_multiple(&p8, Ghost(base), Ghost(8)),
    ];
    [
        lane_table(&fields, 0, Ghost(base)),
        lane_table(&fields, 1, Ghost(base)),
        lane_table(&fields, 2, Ghost(base)),
        lane_table(&fields, 3, Ghost(base)),
        lane_table(&fields, 4, Ghost(base)),
        lane_table(&fields, 5, Ghost(base)),
        lane_table(&fields, 6, Ghost(base)),
        lane_table(&fields, 7, Ghost(base)),
    ]
}

/// Eight decompressed points `R`.
pub struct WideRPoints {
    pub point: WidePoint,
}

impl WideRPoints {
    /// Lane `i` holds the affine point `a`.
    pub open spec fn holds(&self, i: int, a: Point) -> bool {
        holds_affine(self.point, i, a)
    }

    /// Which lanes have `x = 0`. Decompression accepts both signs for these, so a strict policy
    /// has to check the sign bit itself.
    pub fn x_zero_lanes(&self) -> (r: [bool; 8])
        requires
            self.point.x.roomy(),
        ensures
            forall|i: int| 0 <= i < 8 ==> #[trigger] r[i] == (self.point.x.fe(i) == 0),
            forall|i: int, a: Point|
                0 <= i < 8 && #[trigger] self.holds(i, a) ==> r[i] == (a.x == 0),
    {
        let r = self.point.x.is_zero_lanes();
        proof {
            assert forall|i: int, a: Point| 0 <= i < 8 && #[trigger] self.holds(i, a) implies r[i] == (a.x
                == 0) by {
                assert(r[i] == (self.point.x.fe(i) == 0));
            }
        }
        r
    }

    /// Which lanes hold a point whose order divides eight.
    pub fn small_order_lanes(&self) -> (r: [bool; 8])
        requires
            self.point.loose_xyz(),
        ensures
            forall|i: int, a: Point|
                0 <= i < 8 && #[trigger] self.holds(i, a) ==> r[i] == (curve::smul(8, a)
                    == curve::identity()),
    {
        let r = self.point.small_order_lanes();
        proof {
            assert forall|i: int, a: Point| 0 <= i < 8 && #[trigger] self.holds(i, a) implies r[i] == (
            curve::smul(8, a) == curve::identity()) by {
                assert(self.point.valid_xyz(i));
                assert(r[i] == (curve::smul(8, self.point.point(i)) == curve::identity()));
            }
        }
        r
    }
}

/// Decompresses eight points `R`, with a mask of the lanes that decode.
pub fn decompress_r_points(r_bytes: &[[u8; 32]; 8]) -> (r: (WideRPoints, u8))
    ensures
        r.0.point.strict(),
        forall|i: int| 0 <= i < 8 ==> #[trigger] decompressed_lane(r.0.point, r.1, i, r_bytes[i]@),
{
    let (point, mask) = decompress_points_wide(r_bytes);
    (WideRPoints { point }, mask)
}

/// Decodes public keys and points `R` together. Returns the key tables, the mask of keys that
/// decode, which keys have small order, the points `R`, and the mask of points that decode.
pub fn decode_keys_and_decompress_r(keys: &[[u8; 32]; 8], r_bytes: &[[u8; 32]; 8]) -> (r: (
    [PointTable; 8],
    u8,
    [bool; 8],
    WideRPoints,
    u8,
))
    ensures
        r.3.point.strict(),
        forall|i: int| 0 <= i < 8 ==> #[trigger] lanes::mask_bit(r.1, i) == encoding::decodable(keys[i]@),
        forall|i: int|
            0 <= i < 8 && encoding::decodable(keys[i]@) ==> (#[trigger] r.0[i]).is_table_of(
                encoding::decoded(keys[i]@),
            ),
        forall|i: int|
            0 <= i < 8 && encoding::decodable(keys[i]@) ==> #[trigger] r.2[i] == (curve::smul(
                8,
                encoding::decoded(keys[i]@),
            ) == curve::identity()),
        forall|i: int| 0 <= i < 8 ==> #[trigger] decompressed_lane(r.3.point, r.4, i, r_bytes[i]@),
{
    let ((kp, kmask), (rp, rmask)) = decompress_point_batches_wide(keys, r_bytes);
    proof {
        kp.lemma_roomy();
    }
    let key_small_order = kp.small_order_lanes();
    let tables = build_tables_from_point(&kp);
    proof {
        assert forall|i: int| 0 <= i < 8 implies #[trigger] lanes::mask_bit(kmask, i)
            == encoding::decodable(keys[i]@) by {
            assert(decompressed_lane(kp, kmask, i, keys[i]@));
        }
        assert forall|i: int|
            0 <= i < 8 && encoding::decodable(keys[i]@) implies (#[trigger] tables[i]).is_table_of(
            encoding::decoded(keys[i]@),
        ) by {
            assert(decompressed_lane(kp, kmask, i, keys[i]@));
        }
        assert forall|i: int|
            0 <= i < 8 && encoding::decodable(keys[i]@) implies #[trigger] key_small_order[i] == (curve::smul(
            8,
            encoding::decoded(keys[i]@),
        ) == curve::identity()) by {
            assert(decompressed_lane(kp, kmask, i, keys[i]@));
            assert(kp.valid_xyz(i));
        }
    }
    (tables, kmask, key_small_order, WideRPoints { point: rp }, rmask)
}

/// `[s]B - [k]A` of lane `i`.
pub open spec fn recovered(prepared: PreparedBatch, base: Point, i: int) -> Point {
    curve::diff(
        curve::smul(prepared.s(i), base),
        curve::smul(prepared.k(i), prepared.public_key_tables[i].point()),
    )
}

/// The ladder over radix-4096 digits and the ladder over radix-256 digits compute the same
/// point, for every key, torsion points among them, and all scalars.
pub proof fn lemma_ladders_agree(
    base_4096: BasepointTable4096,
    base_pair: BasepointTable,
    prepared: PreparedBatch,
    triple: WidePoint,
    pair: WidePoint,
    i: int,
)
    requires
        base_4096.valid(),
        base_4096.point() == curve::basepoint(),
        base_pair.valid(),
        prepared.valid(),
        call_ensures(mul_base_minus_public, (&base_4096, &prepared), triple),
        call_ensures(mul_base_minus_public_pairfold, (&base_pair, &prepared), pair),
        0 <= i < 8,
    ensures
        triple.valid(i),
        pair.valid(i),
        triple.point(i) == pair.point(i),
{
    assert(triple.point(i) == recovered(prepared, curve::basepoint(), i));
    assert(pair.point(i) == recovered(prepared, curve::basepoint(), i));
}

/// Cofactored verification: whether `[8]([s]B - [k]A - R)` is the neutral element.
pub fn verify_prepared_zip215(
    prepared: &PreparedBatch,
    r: &WideRPoints,
    base_table: &BasepointTable4096,
) -> (out: [bool; 8])
    requires
        prepared.valid(),
        base_table.valid(),
        r.point.operand(),
    ensures
        forall|i: int, a: Point|
            0 <= i < 8 && #[trigger] r.holds(i, a) ==> out[i] == (curve::smul(
                8,
                curve::diff(recovered(*prepared, base_table.point(), i), a),
            ) == curve::identity()),
{
    let combined = mul_base_minus_public(base_table, prepared);
    let check = combined.subtract(&r.point);
    proof {
        check.lemma_roomy();
    }
    let out = check.small_order_lanes();
    proof {
        assert forall|i: int, a: Point| 0 <= i < 8 && #[trigger] r.holds(i, a) implies out[i] == (
        curve::smul(8, curve::diff(recovered(*prepared, base_table.point(), i), a)) == curve::identity()) by {
            assert(combined.valid(i));
            assert(check.valid(i));
            assert(check.valid_xyz(i));
            assert(out[i] == (curve::smul(8, check.point(i)) == curve::identity()));
        }
    }
    out
}

/// Strict verification by recomputing `R`: whether the encoding of `[s]B - [k]A` is `r_bytes`,
/// and whether the order of that point divides eight.
pub fn verify_prepared_dalek(
    prepared: &PreparedBatch,
    r_bytes: &[[u8; 32]; 8],
    base_table: &BasepointTable4096,
) -> (out: ([bool; 8], [bool; 8]))
    requires
        prepared.valid(),
        base_table.valid(),
    ensures
        forall|i: int|
            0 <= i < 8 ==> #[trigger] out.0[i] == (encoding::encode(
                recovered(*prepared, base_table.point(), i),
            ) == r_bytes[i]@),
        forall|i: int|
            0 <= i < 8 ==> #[trigger] out.1[i] == (curve::smul(
                8,
                recovered(*prepared, base_table.point(), i),
            ) == curve::identity()),
{
    let combined = mul_base_minus_public(base_table, prepared);
    proof {
        combined.lemma_roomy();
    }
    let small_order = combined.small_order_lanes();
    let recomputed = combined.compress();
    let matches = [
        bytes_equal(&recomputed[0], &r_bytes[0]),
        bytes_equal(&recomputed[1], &r_bytes[1]),
        bytes_equal(&recomputed[2], &r_bytes[2]),
        bytes_equal(&recomputed[3], &r_bytes[3]),
        bytes_equal(&recomputed[4], &r_bytes[4]),
        bytes_equal(&recomputed[5], &r_bytes[5]),
        bytes_equal(&recomputed[6], &r_bytes[6]),
        bytes_equal(&recomputed[7], &r_bytes[7]),
    ];
    proof {
        assert forall|i: int| 0 <= i < 8 implies #[trigger] matches[i] == (encoding::encode(
            recovered(*prepared, base_table.point(), i),
        ) == r_bytes[i]@) by {
            assert(combined.valid(i));
            assert(combined.valid_xyz(i));
            assert(recomputed[i]@ == encoding::encode(combined.point(i)));
        }
        assert forall|i: int| 0 <= i < 8 implies #[trigger] small_order[i] == (curve::smul(
            8,
            recovered(*prepared, base_table.point(), i),
        ) == curve::identity()) by {
            assert(combined.valid(i));
            assert(combined.valid_xyz(i));
        }
    }
    (matches, small_order)
}

/// Strict verification by comparing points: whether `[s]B - [k]A` equals `R`.
pub fn verify_prepared_dalek_projective(
    prepared: &PreparedBatch,
    r: &WideRPoints,
    base_table: &BasepointTable4096,
) -> (out: [bool; 8])
    requires
        prepared.valid(),
        base_table.valid(),
        r.point.operand(),
    ensures
        forall|i: int, a: Point|
            0 <= i < 8 && #[trigger] r.holds(i, a) ==> out[i] == (recovered(
                *prepared,
                base_table.point(),
                i,
            ) == a),
{
    let combined = mul_base_minus_public(base_table, prepared);
    let out = combined.equals_affine_lanes(&r.point);
    proof {
        assert forall|i: int, a: Point| 0 <= i < 8 && #[trigger] r.holds(i, a) implies out[i] == (
        recovered(*prepared, base_table.point(), i) == a) by {
            assert(combined.valid(i));
            assert(combined.valid_xyz(i));
            assert(curve::on_curve(a));
            assert(out[i] == combined.represents_xyz(i, a));
            if combined.represents_xyz(i, a) {
                combined.lemma_represents_xyz(i, a);
            }
        }
    }
    out
}

/// Whether two encodings are the same.
pub fn bytes_equal(a: &[u8; 32], b: &[u8; 32]) -> (r: bool)
    ensures
        r == (a@ == b@),
{
    let mut i: usize = 0;
    while i < 32
        invariant
            i <= 32,
            forall|j: int| 0 <= j < i ==> a[j] == b[j],
        decreases 32 - i,
    {
        if a[i] != b[i] {
            return false;
        }
        i += 1;
    }
    assert(a@ =~= b@);
    true
}

} // verus!
