//! Curve points in extended coordinates, and tables of their multiples.
use crate::bytes;
use crate::curve;
use crate::curve::Point;
use crate::encoding;
use crate::encoding::ED25519_BASEPOINT_COMPRESSED;
use crate::field::Fe51;
use crate::field_laws;
use crate::fp;
use crate::projective;
use vstd::arithmetic::mul::*;
use vstd::prelude::*;

verus! {

broadcast use Fe51::lemma_fe_range;

/// A curve point in extended coordinates.
#[derive(Clone, Copy, Debug)]
pub struct EdwardsPoint {
    pub x: Fe51,
    pub y: Fe51,
    pub z: Fe51,
    pub t: Fe51,
}

impl EdwardsPoint {
    /// The limb bounds of the coordinates.
    pub open spec fn wf(&self) -> bool {
        self.x.wf() && self.y.wf() && self.z.wf() && self.t.wf()
    }

    /// The limb bounds of coordinates that operations have computed.
    pub open spec fn carried(&self) -> bool {
        self.x.carried() && self.y.carried() && self.z.carried() && self.t.carried()
    }

    /// The affine point.
    pub open spec fn point(&self) -> Point {
        projective::affine(self.x.fe(), self.y.fe(), self.z.fe())
    }

    /// The coordinates represent the point `a` of the curve.
    pub open spec fn represents(&self, a: Point) -> bool {
        &&& self.wf()
        &&& projective::represents(self.x.fe(), self.y.fe(), self.z.fe(), self.t.fe(), a)
    }

    /// The coordinates represent some point of the curve, which is [`Self::point`].
    pub open spec fn valid(&self) -> bool {
        self.represents(self.point())
    }

    /// Coordinates of a point are valid, and the point is theirs.
    pub proof fn lemma_represents(&self, a: Point)
        requires
            self.represents(a),
        ensures
            self.valid(),
            self.point() == a,
    {
        projective::lemma_affine(self.x.fe(), self.y.fe(), self.z.fe(), a);
    }

    /// The neutral element has `X = 0` and `Y = Z`.
    proof fn lemma_is_identity(&self)
        requires
            self.valid(),
        ensures
            (self.point() == curve::identity()) == (self.x.fe() == 0 && self.y.fe() == self.z.fe()),
    {
        let (x, y, z) = (self.x.fe(), self.y.fe(), self.z.fe());
        projective::lemma_is_identity(x, y, z, self.point());
    }

    /// The neutral element.
    pub fn identity() -> (r: Self)
        ensures
            r.valid(),
            r.carried(),
            r.point() == curve::identity(),
    {
        let r = EdwardsPoint { x: Fe51::zero(), y: Fe51::one(), z: Fe51::one(), t: Fe51::zero() };
        proof {
            projective::lemma_identity_represents();
            r.lemma_represents(curve::identity());
        }
        r
    }

    /// The standard base point.
    pub fn basepoint() -> (r: Self)
        ensures
            r.valid(),
            r.carried(),
            r.point() == curve::basepoint(),
    {
        let encoded = ED25519_BASEPOINT_COMPRESSED;
        proof {
            encoding::lemma_basepoint_encoding();
        }
        match Self::decompress(&encoded) {
            Some(point) => point,
            None => Self::identity(),
        }
    }

    /// Sum.
    pub fn add(&self, rhs: &Self) -> (r: Self)
        requires
            self.valid(),
            rhs.valid(),
        ensures
            r.valid(),
            r.carried(),
            r.point() == curve::sum(self.point(), rhs.point()),
    {
        let a = self.y.subtract(&self.x).multiply(&rhs.y.subtract(&rhs.x));
        let b = self.y.add(&self.x).multiply(&rhs.y.add(&rhs.x));
        let c = self.t.multiply(&rhs.t).multiply(&Fe51::two_d());
        let d = self.z.multiply(&rhs.z).double();
        let e = b.subtract(&a);
        let f = d.subtract(&c);
        let g = d.add(&c);
        let h = b.add(&a);
        let r = EdwardsPoint {
            x: e.multiply(&f),
            y: g.multiply(&h),
            t: e.multiply(&h),
            z: f.multiply(&g),
        };
        proof {
            projective::lemma_add_extended(
                self.x.fe(),
                self.y.fe(),
                self.z.fe(),
                self.t.fe(),
                self.point(),
                rhs.x.fe(),
                rhs.y.fe(),
                rhs.z.fe(),
                rhs.t.fe(),
                rhs.point(),
            );
            r.lemma_represents(curve::sum(self.point(), rhs.point()));
        }
        r
    }

    /// Double.
    pub fn double(&self) -> (r: Self)
        requires
            self.valid(),
        ensures
            r.valid(),
            r.carried(),
            r.point() == curve::sum(self.point(), self.point()),
    {
        let a = self.x.square();
        let b = self.y.square();
        let c = self.z.square().double();
        let d = a.negate();
        let s = self.x.add(&self.y).square();
        let e = s.subtract(&a).subtract(&b);
        let g = d.add(&b);
        let f = g.subtract(&c);
        let h = d.subtract(&b);
        let r = EdwardsPoint {
            x: e.multiply(&f),
            y: g.multiply(&h),
            t: e.multiply(&h),
            z: f.multiply(&g),
        };
        proof {
            projective::lemma_double(self.x.fe(), self.y.fe(), self.z.fe(), self.point());
            fp::lemma_difference_forms(a.fe(), b.fe(), c.fe(), s.fe());
            r.lemma_represents(curve::sum(self.point(), self.point()));
        }
        r
    }

    /// Inverse.
    pub fn negate(&self) -> (r: Self)
        requires
            self.valid(),
        ensures
            r.valid(),
            self.carried() ==> r.carried(),
            r.point() == curve::neg(self.point()),
    {
        let r = EdwardsPoint { x: self.x.negate(), y: self.y, z: self.z, t: self.t.negate() };
        proof {
            projective::lemma_represents_neg(
                self.x.fe(),
                self.y.fe(),
                self.z.fe(),
                self.t.fe(),
                self.point(),
            );
            r.lemma_represents(curve::neg(self.point()));
        }
        r
    }

    /// Difference.
    pub fn subtract(&self, rhs: &Self) -> (r: Self)
        requires
            self.valid(),
            rhs.valid(),
        ensures
            r.valid(),
            r.carried(),
            r.point() == curve::diff(self.point(), rhs.point()),
    {
        self.add(&rhs.negate())
    }

    /// Whether eight times the point is the neutral element.
    pub fn is_small_order(&self) -> (r: bool)
        requires
            self.valid(),
        ensures
            r == (curve::smul(8, self.point()) == curve::identity()),
    {
        let point8 = self.double().double().double();
        proof {
            lemma_times_eight(self.point());
            point8.lemma_is_identity();
        }
        point8.x.equals(&Fe51::zero()) && point8.y.equals(&point8.z)
    }

    /// Decodes a compressed point. The ordinate is taken modulo `p`, and for `x = 0` both signs
    /// are accepted.
    pub fn decompress(b: &[u8; 32]) -> (r: Option<Self>)
        ensures
            r is Some == encoding::decodable(b@),
            r matches Some(q) ==> {
                &&& q.valid()
                &&& q.carried()
                &&& q.point() == encoding::decoded(b@)
                &&& q.x.fe() == encoding::decoded(b@).x
                &&& q.y.fe() == encoding::decoded(b@).y
                &&& q.z.fe() == 1
                &&& q.t.fe() == fp::fmul(q.x.fe(), q.y.fe())
            },
    {
        let x_sign = b[31] >= 0x80;
        let y = Fe51::from_bytes_unchecked(b);
        let yy = y.square();
        let u = yy.subtract(&Fe51::one());
        let v = Fe51::one().add(&Fe51::d().multiply(&yy));
        proof {
            encoding::lemma_sign_bit(b@);
            y.lemma_fe();
            assert(y.fe() == encoding::encoded_y(b@));
        }
        let mut x = match Fe51::sqrt_ratio(&u, &v) {
            Some(x) => x,
            None => {
                proof {
                    encoding::lemma_decode_none(b@);
                }
                return None;
            },
        };
        let ghost root = x.fe();
        if x.is_odd() != x_sign {
            x = x.negate();
        }
        let r = EdwardsPoint { x, y, z: Fe51::one(), t: x.multiply(&y) };
        proof {
            encoding::lemma_decode_some(b@, root);
            let a = encoding::decoded(b@);
            assert(x.fe() == a.x && y.fe() == a.y);
            projective::lemma_affine_represents(a);
            r.lemma_represents(a);
        }
        Some(r)
    }

    /// The canonical encoding.
    pub fn compress(&self) -> (r: [u8; 32])
        requires
            self.valid(),
        ensures
            r@ == encoding::encode(self.point()),
    {
        let zinv = self.z.invert();
        let x = self.x.multiply(&zinv);
        let y = self.y.multiply(&zinv);
        let mut b = y.to_bytes();
        proof {
            let a = self.point();
            assert(x.fe() == a.x && y.fe() == a.y);
        }
        if x.is_odd() {
            encoding::set_sign(&mut b);
        }
        proof {
            let a = self.point();
            bytes::lemma_le_bytes_unique(b@, a.y + encoding::two_255() * (a.x % 2), 32);
        }
        b
    }

    /// The coordinates `X`, `Y`, `Z` and `T`.
    pub fn coords(&self) -> (r: (&Fe51, &Fe51, &Fe51, &Fe51))
        ensures
            *r.0 == self.x,
            *r.1 == self.y,
            *r.2 == self.z,
            *r.3 == self.t,
    {
        (&self.x, &self.y, &self.z, &self.t)
    }

    /// Takes coordinates as they are.
    pub fn from_coords_unchecked(x: Fe51, y: Fe51, z: Fe51, t: Fe51) -> (r: Self)
        ensures
            r.x == x,
            r.y == y,
            r.z == z,
            r.t == t,
    {
        EdwardsPoint { x, y, z, t }
    }
}

/// Three doublings multiply by eight.
pub proof fn lemma_times_eight(a: Point)
    requires
        curve::on_curve(a),
    ensures
        ({
            let a2 = curve::sum(a, a);
            let a4 = curve::sum(a2, a2);
            curve::sum(a4, a4) == curve::smul(8, a)
        }),
{
    curve::lemma_smul_base(a);
    curve::lemma_smul_add(2, 2, a);
    curve::lemma_smul_add(4, 4, a);
}

/// Decompression undoes compression: it gives the same point, with `Z = 1` and `T = x y`.
pub proof fn lemma_round_trip(p: EdwardsPoint, b: [u8; 32], r: Option<EdwardsPoint>)
    requires
        p.valid(),
        call_ensures(EdwardsPoint::compress, (&p,), b),
        call_ensures(EdwardsPoint::decompress, (&b,), r),
    ensures
        r matches Some(q) && {
            &&& q.valid()
            &&& q.point() == p.point()
            &&& q.z.fe() == 1
            &&& q.t.fe() == fp::fmul(q.x.fe(), q.y.fe())
            &&& encoding::encode(q.point()) == b@
        },
{
    encoding::lemma_decode_encode(p.point());
}

/// Precomputed `Y + X`, `Y - X`, `2Z` and `2dT` of a point.
#[derive(Clone, Copy, Debug)]
pub struct CachedPoint {
    pub y_plus_x: Fe51,
    pub y_minus_x: Fe51,
    pub z2: Fe51,
    pub t2d: Fe51,
}

impl CachedPoint {
    /// The limb bounds of the coordinates.
    pub open spec fn wf(&self) -> bool {
        self.y_plus_x.wf() && self.y_minus_x.wf() && self.z2.wf() && self.t2d.wf()
    }

    /// The coordinates represent the point `a` of the curve.
    pub open spec fn represents(&self, a: Point) -> bool {
        &&& self.wf()
        &&& projective::represents_cached(
            self.y_plus_x.fe(),
            self.y_minus_x.fe(),
            self.z2.fe(),
            self.t2d.fe(),
            a,
        )
    }

    /// The affine point.
    pub open spec fn point(&self) -> Point {
        projective::cached_affine(self.y_plus_x.fe(), self.y_minus_x.fe(), self.z2.fe())
    }

    /// The coordinates represent [`Self::point`] and no other point.
    pub proof fn lemma_represents(&self, a: Point)
        requires
            self.represents(a),
        ensures
            self.point() == a,
    {
        projective::lemma_cached_affine(
            self.y_plus_x.fe(),
            self.y_minus_x.fe(),
            self.z2.fe(),
            self.t2d.fe(),
            a,
        );
    }

    /// The cached form of a point.
    pub fn new(point: &EdwardsPoint) -> (r: Self)
        requires
            point.valid(),
        ensures
            r.represents(point.point()),
    {
        let r = CachedPoint {
            y_plus_x: point.y.add(&point.x),
            y_minus_x: point.y.subtract(&point.x),
            z2: point.z.double(),
            t2d: point.t.multiply(&Fe51::two_d()),
        };
        proof {
            projective::lemma_cache_ops(
                point.x.fe(),
                point.y.fe(),
                point.z.fe(),
                point.t.fe(),
                point.point(),
            );
        }
        r
    }

    /// The coordinates.
    pub fn coords(&self) -> (r: (&Fe51, &Fe51, &Fe51, &Fe51))
        ensures
            *r.0 == self.y_plus_x,
            *r.1 == self.y_minus_x,
            *r.2 == self.z2,
            *r.3 == self.t2d,
    {
        (&self.y_plus_x, &self.y_minus_x, &self.z2, &self.t2d)
    }

    /// Takes coordinates as they are.
    pub fn from_fields(y_plus_x: Fe51, y_minus_x: Fe51, z2: Fe51, t2d: Fe51) -> (r: Self)
        ensures
            r == (CachedPoint { y_plus_x, y_minus_x, z2, t2d }),
    {
        CachedPoint { y_plus_x, y_minus_x, z2, t2d }
    }

    /// The cached form of the neutral element.
    pub fn identity() -> (r: Self)
        ensures
            r.represents(curve::identity()),
    {
        Self::new(&EdwardsPoint::identity())
    }

    /// The cached form of the inverse: `Y + X` and `Y - X` exchanged, `2dT` negated.
    pub fn negate(&self) -> (r: Self)
        requires
            self.wf(),
        ensures
            r.wf(),
            forall|a: Point| #[trigger] self.represents(a) ==> r.represents(curve::neg(a)),
    {
        let r = CachedPoint {
            y_plus_x: self.y_minus_x,
            y_minus_x: self.y_plus_x,
            z2: self.z2,
            t2d: self.t2d.negate(),
        };
        proof {
            assert forall|a: Point| #[trigger] self.represents(a) implies r.represents(
                curve::neg(a),
            ) by {
                projective::lemma_cached_neg(
                    self.y_plus_x.fe(),
                    self.y_minus_x.fe(),
                    self.z2.fe(),
                    self.t2d.fe(),
                    a,
                );
            }
        }
        r
    }
}

/// Precomputed `y + x`, `y - x` and `2 d x y` of an affine point.
#[derive(Clone, Copy, Debug)]
pub struct AffineCachedPoint {
    pub y_plus_x: Fe51,
    pub y_minus_x: Fe51,
    pub t2d: Fe51,
}

impl AffineCachedPoint {
    /// The limb bounds of the coordinates.
    pub open spec fn wf(&self) -> bool {
        self.y_plus_x.wf() && self.y_minus_x.wf() && self.t2d.wf()
    }

    /// The coordinates represent the point `a` of the curve.
    pub open spec fn represents(&self, a: Point) -> bool {
        &&& self.wf()
        &&& projective::represents_affine_cached(
            self.y_plus_x.fe(),
            self.y_minus_x.fe(),
            self.t2d.fe(),
            a,
        )
    }

    /// The cached form of the affine point `(x, y)`.
    pub fn from_affine(x: &Fe51, y: &Fe51) -> (r: Self)
        requires
            x.wf(),
            y.wf(),
        ensures
            r.wf(),
            r.y_plus_x.fe() == fp::fadd(y.fe(), x.fe()),
            r.y_minus_x.fe() == fp::fsub(y.fe(), x.fe()),
            r.t2d.fe() == fp::fmul(fp::fmul(x.fe(), y.fe()), fp::fadd(fp::d(), fp::d())),
            curve::on_curve(Point { x: x.fe(), y: y.fe() }) ==> r.represents(
                Point { x: x.fe(), y: y.fe() },
            ),
    {
        let r = AffineCachedPoint {
            y_plus_x: y.add(x),
            y_minus_x: y.subtract(x),
            t2d: x.multiply(y).multiply(&Fe51::two_d()),
        };
        proof {
            let a = Point { x: x.fe(), y: y.fe() };
            if curve::on_curve(a) {
                projective::lemma_affine_cache_ops(a);
            }
        }
        r
    }

    /// The neutral element `(0, 1)`.
    pub fn identity() -> (r: Self)
        ensures
            r.represents(curve::identity()),
    {
        let r = AffineCachedPoint {
            y_plus_x: Fe51::one(),
            y_minus_x: Fe51::one(),
            t2d: Fe51::zero(),
        };
        proof {
            projective::lemma_identity_affine_cached();
        }
        r
    }

    /// The cached form of the inverse: `y + x` and `y - x` exchanged, `2 d x y` negated.
    pub fn negate(&self) -> (r: Self)
        requires
            self.wf(),
        ensures
            r.wf(),
            forall|a: Point| #[trigger] self.represents(a) ==> r.represents(curve::neg(a)),
    {
        let r = AffineCachedPoint {
            y_plus_x: self.y_minus_x,
            y_minus_x: self.y_plus_x,
            t2d: self.t2d.negate(),
        };
        proof {
            assert forall|a: Point| #[trigger] self.represents(a) implies r.represents(
                curve::neg(a),
            ) by {
                projective::lemma_affine_cached_neg(
                    self.y_plus_x.fe(),
                    self.y_minus_x.fe(),
                    self.t2d.fe(),
                    a,
                );
            }
        }
        r
    }

    /// The coordinates.
    pub fn coords(&self) -> (r: (&Fe51, &Fe51, &Fe51))
        ensures
            *r.0 == self.y_plus_x,
            *r.1 == self.y_minus_x,
            *r.2 == self.t2d,
    {
        (&self.y_plus_x, &self.y_minus_x, &self.t2d)
    }
}

/// Product of the first `n` denominators.
spec fn z_product(points: Seq<EdwardsPoint>, n: nat) -> int
    decreases n,
{
    if n == 0 {
        1
    } else {
        fp::fmul(z_product(points, (n - 1) as nat), points[n - 1].z.fe())
    }
}

proof fn lemma_z_product_nonzero(points: Seq<EdwardsPoint>, n: nat)
    requires
        n <= points.len(),
        forall|i: int| 0 <= i < points.len() ==> (#[trigger] points[i]).valid(),
    ensures
        z_product(points, n) % fp::p() != 0,
        0 <= z_product(points, n) < fp::p(),
    decreases n,
{
    broadcast use fp::group_field_ops;

    if n > 0 {
        let m = (n - 1) as nat;
        lemma_z_product_nonzero(points, m);
        assert(points[n - 1].valid());
        let u = z_product(points, m);
        let z = points[n - 1].z.fe();
        if fp::fmul(u, z) % fp::p() == 0 {
            field_laws::lemma_no_zero_divisors(u, z);
        }
    }
}

/// One step of the backward pass of batch inversion.
proof fn lemma_batch_step(acc: int, u: int, z: int)
    requires
        (acc * fp::fmul(u, z)) % fp::p() == 1,
    ensures
        (fp::fmul(u, acc) * z) % fp::p() == 1,
        (fp::fmul(acc, z) * u) % fp::p() == 1,
{
    broadcast use fp::group_field_ops;

    fp::lemma_cong_mul(acc, acc, fp::fmul(u, z), u * z);
    fp::lemma_cong_mul(fp::fmul(u, acc), u * acc, z, z);
    fp::lemma_cong_mul(fp::fmul(acc, z), acc * z, u, u);
    assert(u * acc * z == acc * (u * z)) by (nonlinear_arith);
    assert(acc * z * u == acc * (u * z)) by (nonlinear_arith);
}

/// An element with `i * z = 1` is the inverse of `z`.
proof fn lemma_inverse_unique(i: int, z: int)
    requires
        0 <= i < fp::p(),
        (i * z) % fp::p() == 1,
    ensures
        i == field_laws::finv(z),
{
    broadcast use fp::group_field_ops;

    if z % fp::p() == 0 {
        fp::lemma_zero_mul(z, i);
    }
    field_laws::lemma_inverse(z);
    lemma_mul_is_commutative(z, field_laws::finv(z));
    field_laws::lemma_cancel(i, field_laws::finv(z), z);
    fp::lemma_small_residue(i);
    fp::lemma_small_residue(field_laws::finv(z));
}

/// Normalizes points to affine cached form, with one inversion of the product of all `Z`.
pub fn to_affine_cached_batch(points: &Vec<EdwardsPoint>) -> (r: Vec<AffineCachedPoint>)
    requires
        forall|i: int| 0 <= i < points.len() ==> (#[trigger] points[i]).valid(),
    ensures
        r.len() == points.len(),
        forall|i: int| 0 <= i < points.len() ==> (#[trigger] r[i]).represents(points[i].point()),
{
    let n = points.len();
    let mut zinv: Vec<Fe51> = Vec::new();
    let mut acc = Fe51::one();
    let mut i: usize = 0;
    while i < n
        invariant
            i <= n,
            n == points.len(),
            zinv.len() == i,
            acc.wf(),
            acc.fe() == z_product(points@, i as nat),
            forall|j: int| 0 <= j < points.len() ==> (#[trigger] points[j]).valid(),
            forall|j: int|
                0 <= j < i ==> (#[trigger] zinv[j]).wf() && zinv[j].fe() == z_product(
                    points@,
                    j as nat,
                ),
        decreases n - i,
    {
        assert(points[i as int].valid());
        zinv.push(acc);
        acc = acc.multiply(&points[i].z);
        i += 1;
    }
    proof {
        lemma_z_product_nonzero(points@, n as nat);
        field_laws::lemma_inverse(acc.fe());
        lemma_mul_is_commutative(acc.fe(), field_laws::finv(acc.fe()));
        fp::lemma_fmul_def(acc.fe(), field_laws::finv(acc.fe()));
    }
    acc = acc.invert();
    while i > 0
        invariant
            i <= n,
            n == points.len(),
            zinv.len() == n,
            acc.wf(),
            (acc.fe() * z_product(points@, i as nat)) % fp::p() == 1,
            forall|j: int| 0 <= j < points.len() ==> (#[trigger] points[j]).valid(),
            forall|j: int| 0 <= j < n ==> (#[trigger] zinv[j]).wf(),
            forall|j: int|
                0 <= j < i ==> (#[trigger] zinv[j]).fe() == z_product(points@, j as nat),
            forall|j: int|
                i <= j < n ==> (#[trigger] zinv[j]).fe() == field_laws::finv(points[j].z.fe()),
        decreases i,
    {
        i -= 1;
        proof {
            assert(points[i as int].valid());
            lemma_batch_step(acc.fe(), z_product(points@, i as nat), points[i as int].z.fe());
        }
        let inv = zinv[i].multiply(&acc);
        proof {
            lemma_inverse_unique(inv.fe(), points[i as int].z.fe());
        }
        zinv.set(i, inv);
        acc = acc.multiply(&points[i].z);
    }
    let mut r: Vec<AffineCachedPoint> = Vec::new();
    while i < n
        invariant
            i <= n,
            n == points.len(),
            zinv.len() == n,
            r.len() == i,
            forall|j: int| 0 <= j < points.len() ==> (#[trigger] points[j]).valid(),
            forall|j: int| 0 <= j < n ==> (#[trigger] zinv[j]).wf(),
            forall|j: int|
                0 <= j < n ==> (#[trigger] zinv[j]).fe() == field_laws::finv(points[j].z.fe()),
            forall|j: int| 0 <= j < i ==> (#[trigger] r[j]).represents(points[j].point()),
        decreases n - i,
    {
        assert(points[i as int].valid());
        let x = points[i].x.multiply(&zinv[i]);
        let y = points[i].y.multiply(&zinv[i]);
        proof {
            assert(points[i as int].point() == (Point { x: x.fe(), y: y.fe() }));
        }
        r.push(AffineCachedPoint::from_affine(&x, &y));
        i += 1;
    }
    r
}

/// `2N + 1` table entries in signed-digit order: digit `d` at index `d + N`.
pub open spec fn signed_entries<T>(cached: Seq<T>, negative: Seq<T>, identity: T) -> Seq<T> {
    let n = cached.len();
    Seq::new(
        2 * n + 1,
        |i: int|
            if i < n {
                negative[n - 1 - i]
            } else if i == n {
                identity
            } else {
                cached[i - n - 1]
            },
    )
}

/// Lays out `2N + 1` table entries in signed-digit order.
pub fn signed_cached_entries<T: Copy>(cached: &Vec<T>, negative: &Vec<T>, identity: T) -> (r: Vec<T>)
    requires
        cached.len() == negative.len(),
        2 * cached.len() + 1 <= usize::MAX,
    ensures
        r@ == signed_entries(cached@, negative@, identity),
{
    let n = cached.len();
    let mut r: Vec<T> = Vec::new();
    let mut i: usize = 0;
    while i < 2 * n + 1
        invariant
            n == cached.len(),
            n == negative.len(),
            2 * n + 1 <= usize::MAX,
            i <= 2 * n + 1,
            r@ == signed_entries(cached@, negative@, identity).subrange(0, i as int),
        decreases 2 * n + 1 - i,
    {
        if i < n {
            r.push(negative[n - 1 - i]);
        } else if i == n {
            r.push(identity);
        } else {
            r.push(cached[i - n - 1]);
        }
        i += 1;
        assert(r@ =~= signed_entries(cached@, negative@, identity).subrange(0, i as int));
    }
    assert(r@ =~= signed_entries(cached@, negative@, identity));
    r
}

/// Largest radix-16 digit.
pub const POINT_TABLE_SIZE: usize = 8;

/// Largest digit of two folded radix-16 digits: `8 + 8 * 16`.
pub const BASEPOINT_TABLE_SIZE: usize = 136;

/// Largest digit of three folded radix-16 digits: `8 + 8 * 16 + 8 * 256`.
pub const BASEPOINT_TABLE_4096_SIZE: usize = 2184;

/// The multiples `-8P, ..., 8P` of a point. Digit `d` is at index `d + 8`, which avoids a branch
/// on the sign of the digit.
#[derive(Debug)]
pub struct PointTable {
    pub entries: Vec<CachedPoint>,
}

/// The multiples `P, ..., 8P`.
pub fn multiples_of(point: &EdwardsPoint) -> (r: Vec<EdwardsPoint>)
    requires
        point.valid(),
    ensures
        r.len() == 8,
        forall|i: int|
            0 <= i < 8 ==> (#[trigger] r[i]).valid() && r[i].point() == curve::smul(i + 1, point.point()),
{
    let p2 = point.double();
    let p3 = p2.add(point);
    let p4 = p2.double();
    let p5 = p4.add(point);
    let p6 = p3.double();
    let p7 = p6.add(point);
    let p8 = p4.double();
    proof {
        let a = point.point();
        curve::lemma_smul_base(a);
        curve::lemma_smul_add(2, 1, a);
        curve::lemma_smul_add(2, 2, a);
        curve::lemma_smul_add(4, 1, a);
        curve::lemma_smul_add(3, 3, a);
        curve::lemma_smul_add(6, 1, a);
        curve::lemma_smul_add(4, 4, a);
    }
    vec![*point, p2, p3, p4, p5, p6, p7, p8]
}

impl PointTable {
    /// The entry for digit `d`.
    pub open spec fn entry(&self, d: int) -> CachedPoint {
        self.entries[d + 8]
    }

    /// The entries are the multiples of `a`.
    pub open spec fn is_table_of(&self, a: Point) -> bool {
        &&& curve::on_curve(a)
        &&& self.entries.len() == 17
        &&& forall|d: int| -8 <= d <= 8 ==> (#[trigger] self.entry(d)).represents(curve::smul(d, a))
    }

    /// The point whose multiples the entries are.
    pub open spec fn point(&self) -> Point {
        self.entry(1).point()
    }

    /// The entries are the multiples of some point, which is [`Self::point`].
    pub open spec fn valid(&self) -> bool {
        self.is_table_of(self.point())
    }

    /// A table of multiples of `a` is valid, and `a` is its point.
    pub proof fn lemma_is_table_of(&self, a: Point)
        requires
            self.is_table_of(a),
        ensures
            self.valid(),
            self.point() == a,
    {
        assert(self.entry(1).represents(curve::smul(1, a)));
        curve::lemma_smul_base(a);
        self.entry(1).lemma_represents(a);
    }

    /// The table of given multiples.
    pub fn from_cached(
        cached_points: Vec<CachedPoint>,
        negative_cached_points: Vec<CachedPoint>,
        identity_cached: CachedPoint,
    ) -> (r: Self)
        requires
            cached_points.len() == 8,
            negative_cached_points.len() == 8,
        ensures
            r.entries@ == signed_entries(cached_points@, negative_cached_points@, identity_cached),
            forall|a: Point| #[trigger]
                curve::on_curve(a) && identity_cached.represents(curve::identity()) && (forall|i: int|
                    0 <= i < 8 ==> (#[trigger] cached_points[i]).represents(curve::smul(i + 1, a)))
                    && (forall|i: int|
                    0 <= i < 8 ==> (#[trigger] negative_cached_points[i]).represents(
                        curve::smul(-(i + 1), a),
                    )) ==> r.is_table_of(a),
    {
        let entries = signed_cached_entries(
            &cached_points,
            &negative_cached_points,
            identity_cached,
        );
        let r = PointTable { entries };
        proof {
            assert forall|a: Point| #[trigger]
                curve::on_curve(a) && identity_cached.represents(curve::identity()) && (forall|i: int|
                    0 <= i < 8 ==> (#[trigger] cached_points[i]).represents(curve::smul(i + 1, a)))
                    && (forall|i: int|
                    0 <= i < 8 ==> (#[trigger] negative_cached_points[i]).represents(
                        curve::smul(-(i + 1), a),
                    )) implies r.is_table_of(a) by {
                curve::lemma_smul_base(a);
                assert forall|d: int| -8 <= d <= 8 implies (#[trigger] r.entry(d)).represents(
                    curve::smul(d, a),
                ) by {
                    if d < 0 {
                        assert(r.entry(d) == negative_cached_points[-d - 1]);
                    } else if d > 0 {
                        assert(r.entry(d) == cached_points[d - 1]);
                    }
                }
            }
        }
        r
    }

    /// The table of a point.
    pub fn new(point: &EdwardsPoint) -> (r: Self)
        requires
            point.valid(),
        ensures
            r.is_table_of(point.point()),
    {
        let points = multiples_of(point);
        let ghost a = point.point();
        let mut cached_points: Vec<CachedPoint> = Vec::new();
        let mut negative_cached_points: Vec<CachedPoint> = Vec::new();
        let mut i: usize = 0;
        while i < 8
            invariant
                i <= 8,
                points.len() == 8,
                curve::on_curve(a),
                forall|j: int|
                    0 <= j < 8 ==> (#[trigger] points[j]).valid() && points[j].point() == curve::smul(
                        j + 1,
                        a,
                    ),
                cached_points.len() == i,
                negative_cached_points.len() == i,
                forall|j: int|
                    0 <= j < i ==> (#[trigger] cached_points[j]).represents(curve::smul(j + 1, a)),
                forall|j: int|
                    0 <= j < i ==> (#[trigger] negative_cached_points[j]).represents(
                        curve::smul(-(j + 1), a),
                    ),
            decreases 8 - i,
        {
            assert(points[i as int].valid());
            let cached = CachedPoint::new(&points[i]);
            let negative = cached.negate();
            proof {
                curve::lemma_smul_neg(i + 1, a);
            }
            cached_points.push(cached);
            negative_cached_points.push(negative);
            i += 1;
        }
        Self::from_cached(cached_points, negative_cached_points, CachedPoint::identity())
    }

    /// The entry for a signed digit in `-8..=8`.
    pub fn select_signed_cached_ref(&self, digit: i8) -> (r: &CachedPoint)
        requires
            self.valid(),
            -8 <= digit <= 8,
        ensures
            *r == self.entry(digit as int),
            r.represents(curve::smul(digit as int, self.point())),
    {
        assert(self.entry(digit as int).represents(curve::smul(digit as int, self.point())));
        &self.entries[(digit + 8) as usize]
    }
}

/// The affine multiples `-nP, ..., nP` of a point in signed-digit order.
pub open spec fn is_affine_table(entries: Seq<AffineCachedPoint>, n: int, a: Point) -> bool {
    &&& curve::on_curve(a)
    &&& entries.len() == 2 * n + 1
    &&& forall|i: int|
        0 <= i < entries.len() ==> (#[trigger] entries[i]).represents(curve::smul(i - n, a))
}

fn signed_affine_multiples(point: &EdwardsPoint, n: usize) -> (r: Vec<AffineCachedPoint>)
    requires
        point.valid(),
        n >= 1,
        2 * n + 1 <= usize::MAX,
    ensures
        is_affine_table(r@, n as int, point.point()),
{
    let ghost a = point.point();
    let mut points: Vec<EdwardsPoint> = Vec::new();
    let mut next = *point;
    let mut i: usize = 0;
    proof {
        curve::lemma_smul_base(a);
    }
    while i < n
        invariant
            i <= n,
            point.valid(),
            a == point.point(),
            next.valid(),
            next.point() == curve::smul(i + 1, a),
            points.len() == i,
            forall|j: int|
                0 <= j < i ==> (#[trigger] points[j]).valid() && points[j].point() == curve::smul(
                    j + 1,
                    a,
                ),
        decreases n - i,
    {
        points.push(next);
        next = next.add(point);
        proof {
            curve::lemma_smul_step(i + 1, a);
        }
        i += 1;
    }
    let cached = to_affine_cached_batch(&points);
    let mut negative: Vec<AffineCachedPoint> = Vec::new();
    i = 0;
    while i < n
        invariant
            i <= n,
            curve::on_curve(a),
            cached.len() == n,
            forall|j: int| 0 <= j < n ==> (#[trigger] cached[j]).represents(curve::smul(j + 1, a)),
            negative.len() == i,
            forall|j: int|
                0 <= j < i ==> (#[trigger] negative[j]).represents(curve::smul(-(j + 1), a)),
        decreases n - i,
    {
        assert(cached[i as int].represents(curve::smul(i + 1, a)));
        proof {
            curve::lemma_smul_neg(i + 1, a);
        }
        negative.push(cached[i].negate());
        i += 1;
    }
    let r = signed_cached_entries(&cached, &negative, AffineCachedPoint::identity());
    proof {
        assert forall|k: int| 0 <= k < r.len() implies (#[trigger] r[k]).represents(
            curve::smul(k - n, a),
        ) by {
            if k < n {
                assert(r[k] == negative[n - 1 - k]);
                assert(-((n - 1 - k) + 1) == k - n);
            } else if k > n {
                assert(r[k] == cached[k - n - 1]);
            }
        }
    }
    r
}

/// The affine multiples `-136B, ..., 136B` of the base point, for two folded digits.
#[derive(Debug)]
pub struct BasepointTable {
    pub entries: Vec<AffineCachedPoint>,
}

impl BasepointTable {
    pub open spec fn valid(&self) -> bool {
        is_affine_table(self.entries@, 136, curve::basepoint())
    }

    pub fn new() -> (r: Self)
        ensures
            r.valid(),
    {
        BasepointTable { entries: signed_affine_multiples(&EdwardsPoint::basepoint(), BASEPOINT_TABLE_SIZE) }
    }

    /// The entry for a signed digit in `-136..=136`.
    pub fn select_signed_affine_cached_ref(&self, digit: i16) -> (r: &AffineCachedPoint)
        requires
            self.valid(),
            -136 <= digit <= 136,
        ensures
            r.represents(curve::smul(digit as int, curve::basepoint())),
    {
        &self.entries[(digit + 136) as usize]
    }
}

/// The affine multiples `-2184P, ..., 2184P` of a point, for three folded digits.
#[derive(Debug)]
pub struct BasepointTable4096 {
    pub entries: Vec<AffineCachedPoint>,
    pub base: EdwardsPoint,
}

impl BasepointTable4096 {
    /// The point whose multiples the entries are.
    pub open spec fn point(&self) -> Point {
        self.base.point()
    }

    pub open spec fn valid(&self) -> bool {
        is_affine_table(self.entries@, 2184, self.point())
    }

    /// The table of a point.
    pub fn from_point(point: &EdwardsPoint) -> (r: Self)
        requires
            point.valid(),
        ensures
            r.valid(),
            r.point() == point.point(),
    {
        BasepointTable4096 {
            entries: signed_affine_multiples(point, BASEPOINT_TABLE_4096_SIZE),
            base: *point,
        }
    }

    /// The entry for a signed digit in `-2184..=2184`.
    pub fn select_signed_affine_ref(&self, digit: i16) -> (r: &AffineCachedPoint)
        requires
            self.valid(),
            -2184 <= digit <= 2184,
        ensures
            r.represents(curve::smul(digit as int, self.point())),
    {
        &self.entries[(digit + 2184) as usize]
    }
}

} // verus!
