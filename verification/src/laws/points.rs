//! Points in extended coordinates, from encodings to encodings.
use crate::bytes;
use crate::curve;
use crate::curve::Point;
use crate::edwards::{
    multiples_of, to_affine_cached_batch, AffineCachedPoint, BasepointTable, BasepointTable4096, CachedPoint,
    EdwardsPoint,
};
use crate::encoding;
use crate::fp;
use vstd::prelude::*;

verus! {

/// Extended coordinates are valid exactly if `Z` is not zero and `(X / Z, Y / Z)` is a point of
/// the curve with `T = X Y / Z`; then [`EdwardsPoint::point`] is that point.
pub proof fn lemma_coordinates(e: EdwardsPoint, a: Point)
    requires
        e.wf(),
        curve::on_curve(a),
    ensures
        (e.valid() && e.point() == a) == (e.z.fe() != 0 && e.x.fe() == (a.x * e.z.fe()) % fp::p() && e.y.fe()
            == (a.y * e.z.fe()) % fp::p() && e.t.fe() == (a.x * a.y * e.z.fe()) % fp::p()),
{
    e.x.lemma_fe_range();
    e.y.lemma_fe_range();
    e.z.lemma_fe_range();
    e.t.lemma_fe_range();
    fp::lemma_small_residue(e.x.fe());
    fp::lemma_small_residue(e.y.fe());
    fp::lemma_small_residue(e.z.fe());
    fp::lemma_small_residue(e.t.fe());
    if e.represents(a) {
        e.lemma_represents(a);
    }
}

/// Decompression succeeds exactly on the byte strings that name a point of the curve: some
/// abscissa `x` goes with the ordinate that the low 255 bits give modulo `p`, and has the parity
/// that the top bit says, unless it is zero. The result has the coordinates `(x : y : 1 : x y)`.
pub proof fn lemma_decompress(b: [u8; 32], r: Option<EdwardsPoint>)
    requires
        call_ensures(EdwardsPoint::decompress, (&b,), r),
    ensures
        ({
            let y = (bytes::le_value(b@)
                % 0x8000000000000000000000000000000000000000000000000000000000000000int) % fp::p();
            let sign = bytes::le_value(b@)
                / 0x8000000000000000000000000000000000000000000000000000000000000000int;
            &&& r is Some == exists|x: int|
                0 <= x < fp::p() && (y * y - x * x - (1 + fp::d() * (#[trigger] (x * x) * (y * y)))) % fp::p()
                    == 0
            &&& r matches Some(q) ==> {
                let x = q.x.fe();
                &&& 0 <= x < fp::p()
                &&& (y * y - x * x - (1 + fp::d() * (x * x * (y * y)))) % fp::p() == 0
                &&& x == 0 || x % 2 == sign
                &&& q.y.fe() == y
                &&& q.z.fe() == 1
                &&& q.t.fe() == (x * y) % fp::p()
                &&& q.valid()
                &&& q.point() == (Point { x, y })
            }
        }),
{
    broadcast use fp::group_field_ops;

    let v = bytes::le_value(b@);
    let t = 0x8000000000000000000000000000000000000000000000000000000000000000int;
    let y = (v % t) % fp::p();
    bytes::lemma_le_bound(b@);
    bytes::lemma_pow2_256();
    assert((v / t) % 2 == v / t);
    if exists|x: int|
        0 <= x < fp::p() && (y * y - x * x - (1 + fp::d() * (#[trigger] (x * x) * (y * y)))) % fp::p() == 0 {
        let x = choose|x: int|
            0 <= x < fp::p() && (y * y - x * x - (1 + fp::d() * (#[trigger] (x * x) * (y * y)))) % fp::p() == 0;
        assert(curve::on_curve(Point { x, y }));
        encoding::lemma_ordinate_decodes(b@, Point { x, y });
    }
    if encoding::decodable(b@) {
        let a = encoding::decoded(b@);
        assert(encoding::decodes_to(b@, a));
        assert(curve::on_curve(a));
        assert((y * y - a.x * a.x - (1 + fp::d() * (a.x * a.x * (y * y)))) % fp::p() == 0);
    }
}

/// What the group operations do, read off the encodings of their results: for points `P` and `Q`
/// the encodings of `P + Q`, `P - Q`, `P + P`, `-P`, of the neutral element and of the base point,
/// each as its ordinate plus `2^255` for an odd abscissa; and small order means that `[8]P` is
/// `(0, 1)`.
pub proof fn lemma_operations(p: EdwardsPoint, q: EdwardsPoint)
    requires
        p.valid(),
        q.valid(),
    ensures
        forall|r: EdwardsPoint, b: [u8; 32]| #[trigger]
            call_ensures(EdwardsPoint::add, (&p, &q), r) && #[trigger] call_ensures(
                EdwardsPoint::compress,
                (&r,),
                b,
            ) ==> bytes::le_value(b@) == curve::sum(p.point(), q.point()).y
                + 0x8000000000000000000000000000000000000000000000000000000000000000int * (curve::sum(
                p.point(),
                q.point(),
            ).x % 2),
        forall|r: EdwardsPoint, b: [u8; 32]| #[trigger]
            call_ensures(EdwardsPoint::subtract, (&p, &q), r) && #[trigger] call_ensures(
                EdwardsPoint::compress,
                (&r,),
                b,
            ) ==> exists|c: Point|
                #[trigger] curve::on_curve(c) && curve::sum(c, q.point()) == p.point() && bytes::le_value(b@)
                    == c.y + 0x8000000000000000000000000000000000000000000000000000000000000000int * (c.x % 2),
        forall|r: EdwardsPoint, b: [u8; 32]| #[trigger]
            call_ensures(EdwardsPoint::double, (&p,), r) && #[trigger] call_ensures(
                EdwardsPoint::compress,
                (&r,),
                b,
            ) ==> bytes::le_value(b@) == curve::sum(p.point(), p.point()).y
                + 0x8000000000000000000000000000000000000000000000000000000000000000int * (curve::sum(
                p.point(),
                p.point(),
            ).x % 2),
        forall|r: EdwardsPoint, b: [u8; 32]| #[trigger]
            call_ensures(EdwardsPoint::negate, (&p,), r) && #[trigger] call_ensures(
                EdwardsPoint::compress,
                (&r,),
                b,
            ) ==> exists|c: Point|
                #[trigger] curve::on_curve(c) && curve::sum(c, p.point()) == (Point { x: 0, y: 1 })
                    && bytes::le_value(b@) == c.y
                    + 0x8000000000000000000000000000000000000000000000000000000000000000int * (c.x % 2),
        forall|b: [u8; 32]| #[trigger]
            call_ensures(EdwardsPoint::compress, (&p,), b) ==> bytes::le_value(b@) == p.point().y
                + 0x8000000000000000000000000000000000000000000000000000000000000000int * (p.point().x % 2),
        forall|small: bool| #[trigger]
            call_ensures(EdwardsPoint::is_small_order, (&p,), small) ==> small == (curve::smul(8, p.point())
                == (Point { x: 0, y: 1 })),
{
    let (a, c) = (p.point(), q.point());
    assert(curve::on_curve(a) && curve::on_curve(c));
    curve::lemma_closed(a, c);
    curve::lemma_closed(a, a);
    curve::lemma_inverse(a);
    curve::lemma_inverse(c);
    curve::lemma_closed(a, curve::neg(c));
    curve::lemma_associative(a, curve::neg(c), c);
    curve::lemma_identity(a);
    encoding::lemma_encode_value(curve::sum(a, c));
    encoding::lemma_encode_value(curve::diff(a, c));
    encoding::lemma_encode_value(curve::sum(a, a));
    encoding::lemma_encode_value(curve::neg(a));
    encoding::lemma_encode_value(a);
}

/// The neutral element and the base point.
pub proof fn lemma_fixed_points(identity: EdwardsPoint, base: EdwardsPoint)
    requires
        call_ensures(EdwardsPoint::identity, (), identity),
        call_ensures(EdwardsPoint::basepoint, (), base),
    ensures
        identity.valid(),
        identity.point() == (Point { x: 0, y: 1 }),
        base.valid(),
        (5 * base.point().y) % fp::p() == 4,
        base.point().x % 2 == 0,
        base.point() == curve::basepoint(),
{
    crate::laws::group::lemma_base_point();
}

proof fn lemma_affine_residues(e: AffineCachedPoint)
    ensures
        e.y_plus_x.fe() % fp::p() == e.y_plus_x.fe(),
        e.y_minus_x.fe() % fp::p() == e.y_minus_x.fe(),
        e.t2d.fe() % fp::p() == e.t2d.fe(),
{
    e.y_plus_x.lemma_fe_range();
    e.y_minus_x.lemma_fe_range();
    e.t2d.lemma_fe_range();
    fp::lemma_small_residue(e.y_plus_x.fe());
    fp::lemma_small_residue(e.y_minus_x.fe());
    fp::lemma_small_residue(e.t2d.fe());
}

/// The cached form of a point: `Y + X`, `Y - X`, `2Z` and `2dT` of some of its coordinates.
pub proof fn lemma_cached_form(p: EdwardsPoint, e: CachedPoint)
    requires
        p.valid(),
        call_ensures(CachedPoint::new, (&p,), e),
    ensures
        ({
            let m = p.point();
            &&& e.z2.fe() != 0
            &&& (2 * e.y_plus_x.fe()) % fp::p() == ((m.y + m.x) * e.z2.fe()) % fp::p()
            &&& (2 * e.y_minus_x.fe()) % fp::p() == ((m.y - m.x) * e.z2.fe()) % fp::p()
            &&& e.t2d.fe() == (fp::d() * (m.x * m.y) * e.z2.fe()) % fp::p()
        }),
{
    e.z2.lemma_fe_range();
    e.t2d.lemma_fe_range();
    fp::lemma_small_residue(e.z2.fe());
    fp::lemma_small_residue(e.t2d.fe());
}

/// The affine cached form of every point of a list, in the order of the list: `y + x`, `y - x` and
/// `2 d x y`.
pub proof fn lemma_affine_forms(points: Vec<EdwardsPoint>, r: Vec<AffineCachedPoint>, i: int)
    requires
        forall|j: int| 0 <= j < points@.len() ==> (#[trigger] points@[j]).valid(),
        call_ensures(to_affine_cached_batch, (&points,), r),
        0 <= i < points@.len(),
    ensures
        r@.len() == points@.len(),
        ({
            let m = points@[i].point();
            let e = r@[i];
            &&& e.y_plus_x.fe() == (m.y + m.x) % fp::p()
            &&& e.y_minus_x.fe() == (m.y - m.x) % fp::p()
            &&& e.t2d.fe() == (2 * (fp::d() * (m.x * m.y))) % fp::p()
        }),
{
    assert(r[i].represents(points[i].point()));
    lemma_affine_residues(r@[i]);
}

/// The entry of a table of a point for a folded digit is the multiple by that digit, in affine
/// cached form.
pub proof fn lemma_base_table_entry(p: EdwardsPoint, table: BasepointTable4096, digit: i16, e: &AffineCachedPoint)
    requires
        p.valid(),
        -2184 <= digit <= 2184,
        call_ensures(BasepointTable4096::from_point, (&p,), table),
        call_ensures(BasepointTable4096::select_signed_affine_ref, (&table, digit), e),
    ensures
        ({
            let m = curve::smul(digit as int, p.point());
            &&& e.y_plus_x.fe() == (m.y + m.x) % fp::p()
            &&& e.y_minus_x.fe() == (m.y - m.x) % fp::p()
            &&& e.t2d.fe() == (2 * (fp::d() * (m.x * m.y))) % fp::p()
        }),
{
    lemma_affine_residues(*e);
}

/// The same for the table of the base point for two folded digits.
pub proof fn lemma_pair_table_entry(table: BasepointTable, digit: i16, e: &AffineCachedPoint)
    requires
        -136 <= digit <= 136,
        call_ensures(BasepointTable::new, (), table),
        call_ensures(BasepointTable::select_signed_affine_cached_ref, (&table, digit), e),
    ensures
        ({
            let m = curve::smul(digit as int, curve::basepoint());
            &&& e.y_plus_x.fe() == (m.y + m.x) % fp::p()
            &&& e.y_minus_x.fe() == (m.y - m.x) % fp::p()
            &&& e.t2d.fe() == (2 * (fp::d() * (m.x * m.y))) % fp::p()
        }),
{
    lemma_affine_residues(*e);
}

/// The multiples of a point, from one to eight.
pub proof fn lemma_small_multiples(p: EdwardsPoint, r: Vec<EdwardsPoint>, i: int)
    requires
        p.valid(),
        call_ensures(multiples_of, (&p,), r),
        0 <= i < 8,
    ensures
        r@.len() == 8,
        r@[i].valid(),
        r@[i].point() == curve::smul(i + 1, p.point()),
{
    assert(r[i].valid());
}

} // verus!
