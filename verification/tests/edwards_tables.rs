//! Scalar points and their tables.
use solana_ed25519::edwards::{
    to_affine_cached_batch, AffineCachedPoint, BasepointTable, BasepointTable4096, CachedPoint,
    EdwardsPoint, PointTable, BASEPOINT_TABLE_4096_SIZE, BASEPOINT_TABLE_SIZE,
};
use solana_ed25519::encoding::ED25519_BASEPOINT_COMPRESSED;
use solana_ed25519::field::Fe51;

const ORD8: [u8; 32] = [
    0x26, 0xe8, 0x95, 0x8f, 0xc2, 0xb2, 0x27, 0xb0, 0x45, 0xc3, 0xf4, 0x89, 0xf2, 0xef, 0x98, 0xf0,
    0xd5, 0xdf, 0xac, 0x05, 0xd3, 0xc6, 0x33, 0x39, 0xb1, 0x38, 0x02, 0x88, 0x6d, 0x53, 0xfc, 0x05,
];

fn check_affine(entry: &AffineCachedPoint, reference: &EdwardsPoint, d: i16) {
    let zinv = reference.z.invert();
    let x = reference.x.multiply(&zinv);
    let y = reference.y.multiply(&zinv);
    let expect_ypx = y.add(&x);
    let expect_ymx = y.subtract(&x);
    let expect_t2d = x.multiply(&y).multiply(&Fe51::two_d());
    let (ypx, ymx, t2d) = entry.coords();
    assert!(ypx.equals(&expect_ypx), "y+x mismatch at digit {d}");
    assert!(ymx.equals(&expect_ymx), "y-x mismatch at digit {d}");
    assert!(t2d.equals(&expect_t2d), "t2d mismatch at digit {d}");
}

fn multiples(n: usize) -> Vec<EdwardsPoint> {
    let basepoint = EdwardsPoint::basepoint();
    let mut multiples = vec![basepoint.clone()];
    for _ in 1..n {
        multiples.push(multiples.last().unwrap().add(&basepoint));
    }
    multiples
}

fn signed(multiples: &[EdwardsPoint], d: i16) -> EdwardsPoint {
    if d == 0 {
        EdwardsPoint::identity()
    } else {
        let m = multiples[(d.unsigned_abs() as usize) - 1].clone();
        if d < 0 {
            m.negate()
        } else {
            m
        }
    }
}

/// Every entry of the affine-cached basepoint table represents exactly `[d]B` for its signed
/// digit `d`.
#[test]
fn affine_basepoint_table_matches_projective_multiples() {
    let table = BasepointTable::new();
    let multiples = multiples(BASEPOINT_TABLE_SIZE);
    let n = BASEPOINT_TABLE_SIZE as i16;
    for d in -n..=n {
        check_affine(table.select_signed_affine_cached_ref(d), &signed(&multiples, d), d);
    }
}

#[test]
fn radix4096_table_holds_signed_multiples() {
    let table = BasepointTable4096::from_point(&EdwardsPoint::basepoint());
    let multiples = multiples(BASEPOINT_TABLE_4096_SIZE);
    let n = BASEPOINT_TABLE_4096_SIZE as i16;
    for d in [-n, -1366, -8, -1, 0, 1, 2, 16, 2047, n] {
        check_affine(table.select_signed_affine_ref(d), &signed(&multiples, d), d);
    }
}

#[test]
fn point_table_holds_signed_multiples() {
    let p = EdwardsPoint::decompress(&ORD8).unwrap().add(&EdwardsPoint::basepoint());
    let table = PointTable::new(&p);
    let mut m = EdwardsPoint::identity();
    for d in 0..=8i8 {
        for (digit, point) in [(d, m), (-d, m.negate())] {
            let (ypx, ymx, z2, t2d) = table.select_signed_cached_ref(digit).coords();
            let expect = CachedPoint::new(&point);
            let (e0, e1, e2, e3) = expect.coords();
            // Projective coordinates agree up to a common factor.
            assert!(ypx.multiply(e2).equals(&e0.multiply(z2)));
            assert!(ymx.multiply(e2).equals(&e1.multiply(z2)));
            assert!(t2d.multiply(e2).equals(&e3.multiply(z2)));
        }
        m = m.add(&p);
    }
}

#[test]
fn batch_normalization_matches_single_inversions() {
    let points = multiples(20);
    let affine = to_affine_cached_batch(&points);
    assert_eq!(affine.len(), 20);
    for (i, point) in points.iter().enumerate() {
        check_affine(&affine[i], point, i as i16);
    }
    assert_eq!(to_affine_cached_batch(&Vec::new()).len(), 0);
}

#[test]
fn basepoint_encodes_as_published() {
    assert_eq!(EdwardsPoint::basepoint().compress(), ED25519_BASEPOINT_COMPRESSED);
    let decoded = EdwardsPoint::decompress(&ED25519_BASEPOINT_COMPRESSED).unwrap();
    assert_eq!(decoded.compress(), ED25519_BASEPOINT_COMPRESSED);
}

#[test]
fn group_laws_on_points() {
    let b = EdwardsPoint::basepoint();
    let t = EdwardsPoint::decompress(&ORD8).unwrap();
    let p = b.double().add(&t);
    let id = EdwardsPoint::identity();
    assert_eq!(b.add(&t).compress(), t.add(&b).compress());
    assert_eq!(b.add(&t).add(&p).compress(), b.add(&t.add(&p)).compress());
    assert_eq!(p.add(&id).compress(), p.compress());
    assert_eq!(p.subtract(&p).compress(), id.compress());
    assert_eq!(p.add(&p).compress(), p.double().compress());
}

#[test]
fn small_order_is_recognized() {
    let t = EdwardsPoint::decompress(&ORD8).unwrap();
    let b = EdwardsPoint::basepoint();
    assert!(t.is_small_order());
    assert!(EdwardsPoint::identity().is_small_order());
    assert!(!b.is_small_order());
    assert!(!b.add(&t).is_small_order());
}

#[test]
fn basepoint_has_the_group_order() {
    // 2^252 + 27742317777372353535851937790883648493, highest bit first.
    let order: [u64; 4] = [0x5812631a5cf5d3ed, 0x14def9dea2f79cd6, 0, 0x1000000000000000];
    let b = EdwardsPoint::basepoint();
    let mut acc = EdwardsPoint::identity();
    for i in (0..253).rev() {
        acc = acc.double();
        if (order[i / 64] >> (i % 64)) & 1 == 1 {
            acc = acc.add(&b);
        }
    }
    assert_eq!(acc.compress(), EdwardsPoint::identity().compress());
}

#[test]
fn decompression_is_liberal() {
    // y = 1 with the sign bit set: x = 0 accepts both signs.
    let mut negative_zero = [0u8; 32];
    negative_zero[0] = 1;
    negative_zero[31] = 0x80;
    let id = EdwardsPoint::decompress(&negative_zero).unwrap();
    assert_eq!(id.compress(), EdwardsPoint::identity().compress());
    // y = p + 1 is read as y = 1.
    let mut unreduced = [0xffu8; 32];
    unreduced[0] = 0xee;
    unreduced[31] = 0x7f;
    let id = EdwardsPoint::decompress(&unreduced).unwrap();
    assert_eq!(id.compress(), EdwardsPoint::identity().compress());
    // No point has y = 2.
    let mut two = [0u8; 32];
    two[0] = 2;
    assert!(EdwardsPoint::decompress(&two).is_none());
}

#[test]
fn decompression_gives_affine_coordinates() {
    let t = EdwardsPoint::decompress(&ORD8).unwrap();
    let mut p = EdwardsPoint::basepoint().double().add(&t);
    for _ in 0..5 {
        let bytes = p.compress();
        let q = EdwardsPoint::decompress(&bytes).unwrap();
        let (x, y, z, t) = q.coords();
        assert!(z.equals(&Fe51::one()));
        assert!(t.equals(&x.multiply(y)));
        let (px, py, pz, _) = p.coords();
        assert!(px.equals(&x.multiply(pz)));
        assert!(py.equals(&y.multiply(pz)));
        assert_eq!(q.compress(), bytes);
        p = p.double().add(&EdwardsPoint::basepoint());
    }
}
