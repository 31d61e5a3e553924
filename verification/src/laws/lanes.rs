//! Eight lanes, each against what one element, point or signature gives.
use crate::batch::PreparedBatch;
use crate::curve;
use crate::curve::Point;
use crate::edwards::{BasepointTable, BasepointTable4096, CachedPoint, EdwardsPoint, PointTable};
use crate::encoding;
use crate::field::Fe51;
use crate::fp;
use crate::lanes;
use crate::laws;
use crate::wide;
use crate::wide::{WidePoint, WideRPoints};
use crate::wide_field::WideFe;
use vstd::arithmetic::power::*;
use vstd::arithmetic::power2::*;
use vstd::prelude::*;

verus! {

/// The field operations work lane by lane: lane `i` of a result is the residue of the sum,
/// difference, product and so on of the values in lane `i` of the operands, for limbs below
/// `2^52`.
pub proof fn lemma_lane_fields(xs: [Fe51; 8], ys: [Fe51; 8], wx: WideFe, wy: WideFe, i: int)
    requires
        0 <= i < 8,
        forall|j: int, k: int| 0 <= j < 8 && 0 <= k < 5 ==> #[trigger] xs@[j].limbs@[k] < 0x10000000000000,
        forall|j: int, k: int| 0 <= j < 8 && 0 <= k < 5 ==> #[trigger] ys@[j].limbs@[k] < 0x10000000000000,
        call_ensures(WideFe::from_fields, (&xs,), wx),
        call_ensures(WideFe::from_fields, (&ys,), wy),
    ensures
        ({
            let p = 0x7fffffffffffffffffffffffffffffffffffffffffffffffffffffffffffffedint;
            let u = xs@[i].value();
            let v = ys@[i].value();
            &&& forall|w: WideFe, out: [Fe51; 8]| #[trigger]
                call_ensures(WideFe::add, (&wx, &wy), w) && #[trigger] call_ensures(WideFe::to_fields, (&w,), out)
                    ==> out@[i].value() == (u + v) % p
            &&& forall|w: WideFe, out: [Fe51; 8]| #[trigger]
                call_ensures(WideFe::add_loose, (&wx, &wy), w) && #[trigger] call_ensures(WideFe::to_fields, (&w,), out)
                    ==> out@[i].value() == (u + v) % p
            &&& forall|w: WideFe, out: [Fe51; 8]| #[trigger]
                call_ensures(WideFe::subtract, (&wx, &wy), w) && #[trigger] call_ensures(WideFe::to_fields, (&w,), out)
                    ==> out@[i].value() == (u - v) % p
            &&& forall|w: WideFe, out: [Fe51; 8]| #[trigger]
                call_ensures(WideFe::multiply, (&wx, &wy), w) && #[trigger] call_ensures(WideFe::to_fields, (&w,), out)
                    ==> out@[i].value() == (u * v) % p
            &&& forall|w: WideFe, out: [Fe51; 8]| #[trigger]
                call_ensures(WideFe::multiply_loose, (&wx, &wy), w) && #[trigger] call_ensures(WideFe::to_fields, (&w,), out)
                    ==> out@[i].value() == (u * v) % p
            &&& forall|w: WideFe, out: [Fe51; 8]| #[trigger]
                call_ensures(WideFe::negate, (&wx,), w) && #[trigger] call_ensures(WideFe::to_fields, (&w,), out)
                    ==> out@[i].value() == (-u) % p
            &&& forall|w: WideFe, out: [Fe51; 8]| #[trigger]
                call_ensures(WideFe::double, (&wx,), w) && #[trigger] call_ensures(WideFe::to_fields, (&w,), out)
                    ==> out@[i].value() == (2 * u) % p
            &&& forall|w: WideFe, out: [Fe51; 8]| #[trigger]
                call_ensures(WideFe::double_loose, (&wx,), w) && #[trigger] call_ensures(WideFe::to_fields, (&w,), out)
                    ==> out@[i].value() == (2 * u) % p
            &&& forall|out: [Fe51; 8]| #[trigger]
                call_ensures(WideFe::to_fields, (&wx,), out) ==> out@[i].value() == u % p
            &&& forall|out: [Fe51; 8]| #[trigger]
                call_ensures(WideFe::to_fields_loose, (&wx,), out) ==> out@[i].limbs@ == xs@[i].limbs@
            &&& forall|r: [bool; 8]| #[trigger]
                call_ensures(WideFe::is_zero_lanes, (&wx,), r) ==> r@[i] == (u % p == 0)
            &&& forall|r: [bool; 8]| #[trigger]
                call_ensures(WideFe::is_odd_lanes, (&wx,), r) ==> r@[i] == ((u % p) % 2 == 1)
            &&& forall|r: [bool; 8]| #[trigger]
                call_ensures(WideFe::equals_lanes, (&wx, &wy), r) ==> r@[i] == ((u - v) % p == 0)
        }),
{
    lemma_lane_values(xs, ys, wx, wy, i);
    assert forall|out: [Fe51; 8]| #[trigger] call_ensures(WideFe::to_fields_loose, (&wx,), out) implies out@[i].limbs@
        == xs@[i].limbs@ by {
        assert forall|k: int| 0 <= k < 5 implies out@[i].limbs@[k] == xs@[i].limbs@[k] by {
            assert(out[i].limbs[k] == wx.limbs[k].at(i));
            assert(wx.limbs[k].at(i) == xs[i].limbs[k]);
        }
    }
}

proof fn lemma_lane_values(xs: [Fe51; 8], ys: [Fe51; 8], wx: WideFe, wy: WideFe, i: int)
    requires
        0 <= i < 8,
        call_ensures(WideFe::from_fields, (&xs,), wx),
        call_ensures(WideFe::from_fields, (&ys,), wy),
    ensures
        ({
            let p = fp::p();
            let u = xs@[i].value();
            let v = ys@[i].value();
            &&& wx.fe(i) == u % p
            &&& wy.fe(i) == v % p
            &&& fp::fadd(wx.fe(i), wy.fe(i)) == (u + v) % p
            &&& fp::fadd(wx.fe(i), wx.fe(i)) == (2 * u) % p
            &&& fp::fsub(wx.fe(i), wy.fe(i)) == (u - v) % p
            &&& fp::fneg(wx.fe(i)) == (-u) % p
            &&& fp::fmul(wx.fe(i), wy.fe(i)) == (u * v) % p
            &&& fp::fmul(wx.fe(i), wx.fe(i)) == (u * u) % p
            &&& ((u - v) % p == 0) == (wx.fe(i) == wy.fe(i))
        }),
{
    assert(wx.fe(i) == xs[i].fe());
    assert(wy.fe(i) == ys[i].fe());
    xs@[i].lemma_fe();
    ys@[i].lemma_fe();
    laws::fields::lemma_residues(xs@[i].value(), ys@[i].value());
}

/// The same for squares, inverses and the difference with a loose right operand, for limbs whose
/// lowest is below `2^52` and the others below `2^51`.
pub proof fn lemma_lane_powers(xs: [Fe51; 8], ys: [Fe51; 8], wx: WideFe, wy: WideFe, i: int)
    requires
        0 <= i < 8,
        forall|j: int| 0 <= j < 8 ==> (#[trigger] xs@[j]).carried(),
        forall|j: int| 0 <= j < 8 ==> (#[trigger] ys@[j]).carried(),
        call_ensures(WideFe::from_fields, (&xs,), wx),
        call_ensures(WideFe::from_fields, (&ys,), wy),
    ensures
        ({
            let p = 0x7fffffffffffffffffffffffffffffffffffffffffffffffffffffffffffffedint;
            let u = xs@[i].value();
            let v = ys@[i].value();
            &&& forall|w: WideFe, out: [Fe51; 8]| #[trigger]
                call_ensures(WideFe::square, (&wx,), w) && #[trigger] call_ensures(WideFe::to_fields, (&w,), out)
                    ==> out@[i].value() == (u * u) % p
            &&& forall|w: WideFe, out: [Fe51; 8]| #[trigger]
                call_ensures(WideFe::square_loose, (&wx,), w) && #[trigger] call_ensures(WideFe::to_fields, (&w,), out)
                    ==> out@[i].value() == (u * u) % p
            &&& forall|w: WideFe, out: [Fe51; 8]| #[trigger]
                call_ensures(WideFe::subtract_wide, (&wx, &wy), w) && #[trigger] call_ensures(WideFe::to_fields, (&w,), out)
                    ==> out@[i].value() == (u - v) % p
            &&& forall|w: WideFe, out: [Fe51; 8]| #[trigger]
                call_ensures(WideFe::invert, (&wx,), w) && #[trigger] call_ensures(
                    WideFe::to_fields,
                    (&w,),
                    out,
                ) ==> 0 <= out@[i].value() < p && (if u % p == 0 {
                    out@[i].value() == 0
                } else {
                    (u * out@[i].value()) % p == 1
                })
        }),
{
    lemma_lane_values(xs, ys, wx, wy, i);
    laws::fields::lemma_inverse(xs@[i].value());
}

/// The group operations work lane by lane: for lanes that hold points, the encodings of the
/// results are those of `P + Q`, `P - Q`, `-P`, `P + P` and `[16]P`, and the order is told.
pub proof fn lemma_lane_points(ps: [EdwardsPoint; 8], qs: [EdwardsPoint; 8], wp: WidePoint, wq: WidePoint, i: int)
    requires
        0 <= i < 8,
        ps@[i].valid(),
        qs@[i].valid(),
        call_ensures(WidePoint::from_points, (&ps,), wp),
        call_ensures(WidePoint::from_points, (&qs,), wq),
    ensures
        ({
            let p = ps@[i].point();
            let q = qs@[i].point();
            &&& forall|w: WidePoint, b: [[u8; 32]; 8]| #[trigger]
                call_ensures(WidePoint::add, (&wp, &wq), w) && #[trigger] call_ensures(
                    WidePoint::compress,
                    (&w,),
                    b,
                ) ==> b@[i]@ == encoding::encode(curve::sum(p, q))
            &&& forall|w: WidePoint, b: [[u8; 32]; 8]| #[trigger]
                call_ensures(WidePoint::subtract, (&wp, &wq), w) && #[trigger] call_ensures(
                    WidePoint::compress,
                    (&w,),
                    b,
                ) ==> b@[i]@ == encoding::encode(curve::diff(p, q))
            &&& forall|w: WidePoint, b: [[u8; 32]; 8]| #[trigger]
                call_ensures(WidePoint::negate, (&wp,), w) && #[trigger] call_ensures(
                    WidePoint::compress,
                    (&w,),
                    b,
                ) ==> b@[i]@ == encoding::encode(curve::neg(p))
            &&& forall|w: WidePoint, b: [[u8; 32]; 8]| (#[trigger] call_ensures(WidePoint::double, (&wp,), w))
                && #[trigger] call_ensures(WidePoint::compress, (&w,), b) ==> b@[i]@ == encoding::encode(
                curve::sum(p, p),
            )
            &&& forall|w: WidePoint, b: [[u8; 32]; 8]| #[trigger]
                call_ensures(WidePoint::double_without_t, (&wp,), w) && #[trigger] call_ensures(
                    WidePoint::compress,
                    (&w,),
                    b,
                ) ==> b@[i]@ == encoding::encode(curve::sum(p, p)) && w.t.fe(i) == 0
            &&& forall|w: WidePoint, b: [[u8; 32]; 8]| #[trigger]
                call_ensures(WidePoint::double4, (&wp,), w) && #[trigger] call_ensures(
                    WidePoint::compress,
                    (&w,),
                    b,
                ) ==> b@[i]@ == encoding::encode(curve::smul(16, p))
            &&& forall|b: [[u8; 32]; 8]| #[trigger]
                call_ensures(WidePoint::compress, (&wp,), b) ==> b@[i]@ == encoding::encode(p)
            &&& forall|r: [bool; 8]| #[trigger]
                call_ensures(WidePoint::identity_lanes, (&wp,), r) ==> r@[i] == (p == (Point { x: 0, y: 1 }))
            &&& forall|r: [bool; 8]| #[trigger]
                call_ensures(WidePoint::small_order_lanes, (&wp,), r) ==> r@[i] == (curve::smul(8, p) == (
                Point { x: 0, y: 1 }))
        }),
{
    assert(wp.valid(i) == ps[i].valid() && wp.point(i) == ps[i].point());
    assert(wq.valid(i) == qs[i].valid() && wq.point(i) == qs[i].point());
    assert(wp.valid_xyz(i));
}

/// Decompression works lane by lane: bit `i` of the mask says whether one-point decompression of
/// lane `i` succeeds, and then the lane has its coordinates.
pub proof fn lemma_lane_decompression(bytes: [[u8; 32]; 8], point: WidePoint, mask: u8, i: int, one: Option<EdwardsPoint>)
    requires
        0 <= i < 8,
        call_ensures(wide::decompress_points_wide, (&bytes,), (point, mask)) || call_ensures(
            wide::decompress_r_points,
            (&bytes,),
            (WideRPoints { point }, mask),
        ),
        call_ensures(EdwardsPoint::decompress, (&bytes[i],), one),
    ensures
        ((mask as int / pow2(i as nat) as int) % 2 == 1) == (one is Some),
        one matches Some(q) ==> point.x.fe(i) == q.x.fe() && point.y.fe(i) == q.y.fe() && point.z.fe(i) == 1
            && point.t.fe(i) == q.t.fe(),
{
    broadcast use fp::group_field_ops;

    let args = (&bytes,);
    let result = (point, mask);
    let r_result = (WideRPoints { point }, mask);
    assert(args.0 == bytes && result.0 == point && result.1 == mask);
    assert(r_result.0.point == point && r_result.1 == mask);
    assert(wide::decompressed_lane(point, mask, i, bytes[i]@));
    lemma2_to64();
    assert(pow2(i as nat) == lanes::pow2_of(i));
    if let Some(q) = one {
        let a = encoding::decoded(bytes[i]@);
        assert(wide::holds_affine(point, i, a));
        point.t.lemma_fe_range(i);
        fp::lemma_small_residue(point.t.fe(i));
        assert(a.x * a.y * 1 == a.x * a.y);
        assert(point.t.fe(i) % fp::p() == (a.x * a.y * point.z.fe(i)) % fp::p());
    }
}

/// Both batches of a double decompression are decompressed as if alone.
pub proof fn lemma_lane_decompression_x2(
    a_bytes: [[u8; 32]; 8],
    b_bytes: [[u8; 32]; 8],
    a: (WidePoint, u8),
    b: (WidePoint, u8),
    i: int,
    one_a: Option<EdwardsPoint>,
    one_b: Option<EdwardsPoint>,
)
    requires
        0 <= i < 8,
        call_ensures(wide::decompress_point_batches_wide, (&a_bytes, &b_bytes), (a, b)),
        call_ensures(EdwardsPoint::decompress, (&a_bytes[i],), one_a),
        call_ensures(EdwardsPoint::decompress, (&b_bytes[i],), one_b),
    ensures
        ((a.1 as int / pow2(i as nat) as int) % 2 == 1) == (one_a is Some),
        one_a matches Some(q) ==> a.0.x.fe(i) == q.x.fe() && a.0.y.fe(i) == q.y.fe() && a.0.z.fe(i) == 1,
        ((b.1 as int / pow2(i as nat) as int) % 2 == 1) == (one_b is Some),
        one_b matches Some(q) ==> b.0.x.fe(i) == q.x.fe() && b.0.y.fe(i) == q.y.fe() && b.0.z.fe(i) == 1,
{
    let args = (&a_bytes, &b_bytes);
    let result = (a, b);
    assert(args.0 == a_bytes && args.1 == b_bytes && result.0 == a && result.1 == b);
    assert(wide::decompressed_lane(a.0, a.1, i, a_bytes[i]@));
    assert(wide::decompressed_lane(b.0, b.1, i, b_bytes[i]@));
    lemma2_to64();
    assert(pow2(i as nat) == lanes::pow2_of(i));
}

/// The entry of a table for a digit is the multiple of the point by that digit, in cached
/// coordinates: `Y + X`, `Y - X`, `2Z` and `2dT`.
pub proof fn lemma_table_entry(key: EdwardsPoint, table: PointTable, digit: i8, e: &CachedPoint)
    requires
        key.valid(),
        -8 <= digit <= 8,
        call_ensures(PointTable::new, (&key,), table),
        call_ensures(PointTable::select_signed_cached_ref, (&table, digit), e),
    ensures
        ({
            let m = curve::smul(digit as int, key.point());
            &&& e.z2.fe() != 0
            &&& (2 * e.y_plus_x.fe()) % fp::p() == ((m.y + m.x) * e.z2.fe()) % fp::p()
            &&& (2 * e.y_minus_x.fe()) % fp::p() == ((m.y - m.x) * e.z2.fe()) % fp::p()
            &&& e.t2d.fe() == (fp::d() * (m.x * m.y) * e.z2.fe()) % fp::p()
        }),
{
    table.lemma_is_table_of(key.point());
    lemma_cached_residues(*e);
}

/// The tables of eight lanes hold the same multiples as the tables of single points.
pub proof fn lemma_lane_table_entry(
    ps: [EdwardsPoint; 8],
    wp: WidePoint,
    tables: [PointTable; 8],
    i: int,
    digit: i8,
    e: &CachedPoint,
)
    requires
        0 <= i < 8,
        ps@[i].valid(),
        -8 <= digit <= 8,
        call_ensures(WidePoint::from_points, (&ps,), wp),
        call_ensures(wide::build_tables_from_point, (&wp,), tables),
        call_ensures(PointTable::select_signed_cached_ref, (&tables[i], digit), e),
    ensures
        ({
            let m = curve::smul(digit as int, ps@[i].point());
            &&& e.z2.fe() != 0
            &&& (2 * e.y_plus_x.fe()) % fp::p() == ((m.y + m.x) * e.z2.fe()) % fp::p()
            &&& (2 * e.y_minus_x.fe()) % fp::p() == ((m.y - m.x) * e.z2.fe()) % fp::p()
            &&& e.t2d.fe() == (fp::d() * (m.x * m.y) * e.z2.fe()) % fp::p()
        }),
{
    assert(wp.valid(i) == ps[i].valid() && wp.point(i) == ps[i].point());
    assert(tables[i].is_table_of(wp.point(i)));
    tables[i].lemma_is_table_of(ps@[i].point());
    lemma_cached_residues(*e);
}

proof fn lemma_cached_residues(e: CachedPoint)
    ensures
        e.z2.fe() % fp::p() == e.z2.fe(),
        e.t2d.fe() % fp::p() == e.t2d.fe(),
{
    e.z2.lemma_fe_range();
    e.t2d.lemma_fe_range();
    fp::lemma_small_residue(e.z2.fe());
    fp::lemma_small_residue(e.t2d.fe());
}

/// The ladders compute `[s]B - [k]A` in every lane: the point `C` with `C + [k]A = [s]B`, where
/// `s` and `k` are the values of the digits.
pub proof fn lemma_ladder(
    base: EdwardsPoint,
    base_table: BasepointTable4096,
    pair_table: BasepointTable,
    keys: [EdwardsPoint; 8],
    prepared: PreparedBatch,
    i: int,
)
    requires
        0 <= i < 8,
        base.valid(),
        call_ensures(BasepointTable4096::from_point, (&base,), base_table),
        call_ensures(BasepointTable::new, (), pair_table),
        forall|j: int| 0 <= j < 8 ==> (#[trigger] keys@[j]).valid(),
        forall|j: int|
            0 <= j < 8 ==> call_ensures(PointTable::new, (&#[trigger] keys[j],), *prepared.public_key_tables[j]),
        prepared.valid(),
    ensures
        ({
            let s = prepared.s_digits@[i]@.fold_right(|digit: i8, above: int| digit + 16 * above, 0int);
            let k = prepared.k_digits@[i]@.fold_right(|digit: i8, above: int| digit + 16 * above, 0int);
            &&& forall|w: WidePoint, b: [[u8; 32]; 8]| #[trigger]
                call_ensures(wide::mul_base_minus_public, (&base_table, &prepared), w) && #[trigger] call_ensures(
                    WidePoint::compress,
                    (&w,),
                    b,
                ) ==> exists|c: Point|
                    #[trigger] curve::on_curve(c) && curve::sum(c, curve::smul(k, keys@[i].point()))
                        == curve::smul(s, base.point()) && b@[i]@ == encoding::encode(c)
            &&& forall|w: WidePoint, b: [[u8; 32]; 8]| #[trigger]
                call_ensures(wide::mul_base_minus_public_pairfold, (&pair_table, &prepared), w) && #[trigger]
                call_ensures(WidePoint::compress, (&w,), b) ==> exists|c: Point|
                    #[trigger] curve::on_curve(c) && curve::sum(c, curve::smul(k, keys@[i].point()))
                        == curve::smul(s, curve::basepoint()) && b@[i]@ == encoding::encode(c)
        }),
{
    let a = keys@[i].point();
    assert(call_ensures(PointTable::new, (&keys[i],), *prepared.public_key_tables[i]));
    prepared.public_key_tables[i].lemma_is_table_of(a);
    laws::scalars::lemma_digits(prepared.s_digits@[i]@);
    laws::scalars::lemma_digits(prepared.k_digits@[i]@);
    let (s, k) = (prepared.s(i), prepared.k(i));
    curve::lemma_basepoint_on_curve();
    lemma_difference(curve::smul(s, base.point()), curve::smul(k, a), s, base.point(), k, a);
    lemma_difference(curve::smul(s, curve::basepoint()), curve::smul(k, a), s, curve::basepoint(), k, a);
    assert forall|w: WidePoint| #[trigger]
        call_ensures(wide::mul_base_minus_public, (&base_table, &prepared), w) implies w.valid_xyz(i)
        && w.point(i) == wide::recovered(prepared, base.point(), i) by {
        assert(w.valid(i));
    }
    assert forall|w: WidePoint| #[trigger]
        call_ensures(wide::mul_base_minus_public_pairfold, (&pair_table, &prepared), w) implies w.valid_xyz(i)
        && w.point(i) == wide::recovered(prepared, curve::basepoint(), i) by {
        assert(w.valid(i));
    }
}

proof fn lemma_difference(u: Point, v: Point, s: int, b: Point, k: int, a: Point)
    requires
        curve::on_curve(a),
        curve::on_curve(b),
        u == curve::smul(s, b),
        v == curve::smul(k, a),
    ensures
        curve::on_curve(curve::diff(u, v)),
        curve::sum(curve::diff(u, v), v) == u,
{
    curve::lemma_smul_on_curve(s, b);
    curve::lemma_smul_on_curve(k, a);
    curve::lemma_inverse(v);
    curve::lemma_closed(u, curve::neg(v));
    laws::group::lemma_group(u, v, v);
}

/// Taking points out of lanes gives their coordinates, reduced.
pub proof fn lemma_lane_coordinates(ps: [EdwardsPoint; 8], wp: WidePoint, out: [EdwardsPoint; 8], i: int)
    requires
        0 <= i < 8,
        call_ensures(WidePoint::from_points, (&ps,), wp),
        call_ensures(WidePoint::to_points, (&wp,), out),
    ensures
        out@[i].x.value() == ps@[i].x.value() % fp::p(),
        out@[i].y.value() == ps@[i].y.value() % fp::p(),
        out@[i].z.value() == ps@[i].z.value() % fp::p(),
        out@[i].t.value() == ps@[i].t.value() % fp::p(),
{
    assert(out[i].carried());
    assert(wp.x.fe(i) == ps[i].x.fe() && wp.y.fe(i) == ps[i].y.fe());
    assert(wp.z.fe(i) == ps[i].z.fe() && wp.t.fe(i) == ps[i].t.fe());
    ps@[i].x.lemma_fe();
    ps@[i].y.lemma_fe();
    ps@[i].z.lemma_fe();
    ps@[i].t.lemma_fe();
}

/// A blend takes lane `i` from the second operand exactly if bit `i` of the mask is set.
pub proof fn lemma_lane_blend(xs: [Fe51; 8], ys: [Fe51; 8], wx: WideFe, wy: WideFe, mask: u8, w: WideFe, out: [Fe51; 8], i: int)
    requires
        0 <= i < 8,
        call_ensures(WideFe::from_fields, (&xs,), wx),
        call_ensures(WideFe::from_fields, (&ys,), wy),
        call_ensures(WideFe::blend, (&wx, mask, &wy), w),
        call_ensures(WideFe::to_fields, (&w,), out),
    ensures
        out@[i].value() == (if (mask as int / pow2(i as nat) as int) % 2 == 1 {
            ys@[i].value()
        } else {
            xs@[i].value()
        }) % fp::p(),
{
    lemma_lane_values(xs, ys, wx, wy, i);
    lemma2_to64();
    assert(pow2(i as nat) == lanes::pow2_of(i));
    assert(out[i].value() == w.fe(i));
}

/// Decoding keys and points `R` together: the masks say what decodes, a key that decodes gets the
/// table of its multiples and the right order flag, and a point `R` that decodes its coordinates.
pub proof fn lemma_lane_keys(
    keys: [[u8; 32]; 8],
    r_bytes: [[u8; 32]; 8],
    tables: [PointTable; 8],
    key_mask: u8,
    small_order: [bool; 8],
    r_points: WideRPoints,
    r_mask: u8,
    i: int,
    key: Option<EdwardsPoint>,
    r: Option<EdwardsPoint>,
)
    requires
        0 <= i < 8,
        call_ensures(
            wide::decode_keys_and_decompress_r,
            (&keys, &r_bytes),
            (tables, key_mask, small_order, r_points, r_mask),
        ),
        call_ensures(EdwardsPoint::decompress, (&keys[i],), key),
        call_ensures(EdwardsPoint::decompress, (&r_bytes[i],), r),
    ensures
        ((key_mask as int / pow2(i as nat) as int) % 2 == 1) == (key is Some),
        key matches Some(q) ==> tables@[i].valid() && tables@[i].point() == q.point() && small_order@[i] == (
        curve::smul(8, q.point()) == (Point { x: 0, y: 1 })),
        ((r_mask as int / pow2(i as nat) as int) % 2 == 1) == (r is Some),
        r matches Some(q) ==> r_points.point.x.fe(i) == q.x.fe() && r_points.point.y.fe(i) == q.y.fe()
            && r_points.point.z.fe(i) == 1,
{
    let args = (&keys, &r_bytes);
    let result = (tables, key_mask, small_order, r_points, r_mask);
    assert(args.0 == keys && args.1 == r_bytes);
    assert(result.0 == tables && result.1 == key_mask && result.2 == small_order && result.3 == r_points
        && result.4 == r_mask);
    lemma2_to64();
    assert(pow2(i as nat) == lanes::pow2_of(i));
    assert(lanes::mask_bit(key_mask, i) == encoding::decodable(keys[i]@));
    assert(wide::decompressed_lane(r_points.point, r_mask, i, r_bytes[i]@));
    if key is Some {
        let a = encoding::decoded(keys[i]@);
        assert(tables[i].is_table_of(a));
        tables[i].lemma_is_table_of(a);
        assert(small_order[i] == (curve::smul(8, a) == curve::identity()));
    }
}

/// Repeated squaring raises every lane to a power of two, alone or two at a time.
pub proof fn lemma_lane_square_repeat<const N: usize>(a: WideFe, b: WideFe, i: int)
    requires
        0 <= i < 8,
        a.loose(),
        b.loose(),
    ensures
        forall|r: WideFe| #[trigger]
            call_ensures(WideFe::square_repeat::<N>, (&a,), r) ==> r.fe(i) == pow(a.fe(i), pow2(N as nat)) % fp::p(),
        forall|r: (WideFe, WideFe)| #[trigger]
            call_ensures(WideFe::square_repeat_x2::<N>, (&a, &b), r) ==> r.0.fe(i) == pow(a.fe(i), pow2(N as nat))
                % fp::p() && r.1.fe(i) == pow(b.fe(i), pow2(N as nat)) % fp::p(),
{
}

/// The exponentiation of square roots raises every lane to the power `(p - 5) / 8`, alone or two at
/// a time.
pub proof fn lemma_lane_root_power(a: WideFe, b: WideFe, i: int)
    requires
        0 <= i < 8,
        a.strict(),
        b.strict(),
    ensures
        forall|r: WideFe| #[trigger]
            call_ensures(WideFe::pow_p_minus_5_over_8, (&a,), r) ==> r.fe(i) == pow(
                a.fe(i),
                0xffffffffffffffffffffffffffffffffffffffffffffffffffffffffffffffdnat,
            ) % fp::p(),
        forall|r: (WideFe, WideFe)| #[trigger]
            call_ensures(WideFe::pow_p_minus_5_over_8_x2, (&a, &b), r) ==> r.0.fe(i) == pow(
                a.fe(i),
                0xffffffffffffffffffffffffffffffffffffffffffffffffffffffffffffffdnat,
            ) % fp::p() && r.1.fe(i) == pow(
                b.fe(i),
                0xffffffffffffffffffffffffffffffffffffffffffffffffffffffffffffffdnat,
            ) % fp::p(),
{
}

/// Every way of doubling doubles: `(X / Z, Y / Z)` of the result is the point plus itself. With `T`
/// it is `X Y / Z`, without it is zero.
pub proof fn lemma_lane_doubling<const COMPUTE_T: bool, const LOOSE_OUT: bool>(
    wp: WidePoint,
    p: Point,
    w: WidePoint,
    i: int,
)
    requires
        0 <= i < 8,
        curve::on_curve(p),
        wp.z.fe(i) != 0,
        wp.x.fe(i) == (p.x * wp.z.fe(i)) % fp::p(),
        wp.y.fe(i) == (p.y * wp.z.fe(i)) % fp::p(),
        call_ensures(WidePoint::double_impl::<COMPUTE_T, LOOSE_OUT>, (&wp,), w),
    ensures
        ({
            let q = curve::sum(p, p);
            &&& w.z.fe(i) != 0
            &&& w.x.fe(i) == (q.x * w.z.fe(i)) % fp::p()
            &&& w.y.fe(i) == (q.y * w.z.fe(i)) % fp::p()
            &&& COMPUTE_T ==> w.t.fe(i) == (q.x * q.y * w.z.fe(i)) % fp::p()
            &&& !COMPUTE_T ==> w.t.fe(i) == 0
        }),
{
    wp.z.lemma_fe_range(i);
    wp.x.lemma_fe_range(i);
    wp.y.lemma_fe_range(i);
    fp::lemma_small_residue(wp.z.fe(i));
    fp::lemma_small_residue(wp.x.fe(i));
    fp::lemma_small_residue(wp.y.fe(i));
    assert(wp.represents_xyz(i, p));
    wp.lemma_represents_xyz(i, p);
    assert(w.valid_xyz(i) && w.point(i) == curve::sum(p, p));
    w.x.lemma_fe_range(i);
    w.y.lemma_fe_range(i);
    w.z.lemma_fe_range(i);
    w.t.lemma_fe_range(i);
    fp::lemma_small_residue(w.x.fe(i));
    fp::lemma_small_residue(w.y.fe(i));
    fp::lemma_small_residue(w.z.fe(i));
    fp::lemma_small_residue(w.t.fe(i));
    if COMPUTE_T {
        assert(w.valid(i));
    }
}

} // verus!
