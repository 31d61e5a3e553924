//! Eight-lane arithmetic against one-lane references.
use solana_ed25519::batch::PreparedBatch;
use solana_ed25519::edwards::{BasepointTable, BasepointTable4096, EdwardsPoint, PointTable};
use solana_ed25519::field::{Fe51, D_LIMBS, LIMB_COUNT, LIMB_MASK, SQRT_M1_LIMBS};
use solana_ed25519::lanes::U64x8;
use solana_ed25519::limbs::{
    canonicalize_field_limbs, cmp_field_limbs, sub_field_limbs, FIELD_P_LIMBS,
};
use solana_ed25519::scalar::Scalar;
use solana_ed25519::sha512::hash_slices;
use solana_ed25519::wide::{
    base_triple_digit, build_tables_from_point, decompress_point_batches_wide, decompress_points_wide,
    decompress_r_points, mul_base_minus_public, mul_base_minus_public_pairfold,
    verify_prepared_dalek, verify_prepared_dalek_projective, verify_prepared_zip215, WidePoint,
    WideRPoints,
};
use solana_ed25519::wide_field::WideFe;
use std::cmp::Ordering;

const LANES: usize = 8;

fn strict_square_n(x: &WideFe, n: usize) -> WideFe {
    let mut out = *x;
    for _ in 0..n {
        out = out.square();
    }
    out
}

fn wide_from_rows(rows: [[u64; LANES]; LIMB_COUNT]) -> WideFe {
    WideFe { limbs: core::array::from_fn(|i| U64x8::load(&rows[i])) }
}

/// Cross-check vectorized canonical predicates against scalar references.
fn check_canonical(rows: [[u64; LANES]; LIMB_COUNT]) {
    let wide = wide_from_rows(rows);
    let canonical = wide.canonical();
    let mut canonical_rows = [[0u64; LANES]; LIMB_COUNT];
    for (limb, row) in canonical_rows.iter_mut().enumerate() {
        canonical.limbs[limb].store(row);
    }
    let is_zero = wide.is_zero_lanes();
    let is_odd = wide.is_odd_lanes();

    for lane in 0..LANES {
        let input: [u64; LIMB_COUNT] = core::array::from_fn(|limb| rows[limb][lane]);
        let expected = canonicalize_field_limbs(input);
        let actual: [u64; LIMB_COUNT] = core::array::from_fn(|limb| canonical_rows[limb][lane]);
        assert_eq!(actual, expected, "lane {lane} diverged from scalar reference");
        assert_eq!(is_zero[lane], expected == [0u64; LIMB_COUNT], "is_zero_lanes lane {lane}");
        assert_eq!(is_odd[lane], (expected[0] & 1) != 0, "is_odd_lanes lane {lane}");

        let expected_bytes = Fe51::from_limbs(input).to_bytes();
        let actual_bytes = Fe51::from_limbs(actual).to_bytes();
        assert_eq!(
            actual_bytes, expected_bytes,
            "lane {lane} diverged from the Fe51 reference"
        );
    }
}

#[test]
fn canonical_matches_references_on_boundary_values() {
    let zero = [0u64; LIMB_COUNT];
    let p = FIELD_P_LIMBS;
    let p_minus_1 = {
        let mut l = p;
        l[0] -= 1;
        l
    };
    let p_plus_1 = {
        let mut l = p;
        l[0] += 1;
        l
    };
    // Every limb at its documented max input bound (2^52 - 1).
    let max_limbs = [(1u64 << 52) - 1; LIMB_COUNT];
    let hand_picked = [zero, p, p_minus_1, p_plus_1, max_limbs];

    let mut state = 0x2545f4914f6cdd1du64;
    let mut next = || {
        state = state.wrapping_mul(0xd1342543de82ef95).wrapping_add(0x9e3779b97f4a7c15);
        state
    };

    let mut rows = [[0u64; LANES]; LIMB_COUNT];
    for lane in 0..LANES {
        let limbs = if lane < hand_picked.len() {
            hand_picked[lane]
        } else {
            core::array::from_fn(|_| next() & ((1u64 << 52) - 1))
        };
        for limb in 0..5 {
            rows[limb][lane] = limbs[limb];
        }
    }
    check_canonical(rows);
}

#[test]
fn canonical_matches_references_on_random_values() {
    let mut state = 0x9e3779b97f4a7c15u64;
    let mut next = || {
        state = state.wrapping_mul(0xd1342543de82ef95).wrapping_add(0x2545f4914f6cdd1d);
        state
    };

    let mut round = 0;
    while round < 512 {
        let mut rows = [[0u64; LANES]; LIMB_COUNT];
        for row in &mut rows {
            for value in row {
                *value = next() & ((1u64 << 52) - 1);
            }
        }
        check_canonical(rows);
        round += 1;
    }
}

fn check_square_repeat<const N: usize>(x: &WideFe) {
    assert!(
        x.square_repeat::<N>().equals_lanes(&strict_square_n(x, N)).iter().all(|&v| v),
        "square_repeat::<{}> diverged from strict reference",
        N
    );
}

#[test]
fn square_repeat_matches_strict_reference() {
    // square_repeat keeps every squaring but the last loose; the result is that of N strict
    // squarings for every N the exponentiations use, and for the boundary cases 0 and 1.
    for x in [WideFe::constant(D_LIMBS), WideFe::constant(SQRT_M1_LIMBS)] {
        check_square_repeat::<0>(&x);
        check_square_repeat::<1>(&x);
        check_square_repeat::<2>(&x);
        check_square_repeat::<5>(&x);
        check_square_repeat::<10>(&x);
        check_square_repeat::<20>(&x);
        check_square_repeat::<50>(&x);
        check_square_repeat::<100>(&x);
    }
}

fn check_square_repeat_x2<const N: usize>(a: &WideFe, b: &WideFe) {
    let (xa, xb) = WideFe::square_repeat_x2::<N>(a, b);
    assert!(
        xa.equals_lanes(&strict_square_n(a, N)).iter().all(|&v| v),
        "square_repeat_x2::<{}> diverged from strict reference (lane a)",
        N
    );
    assert!(
        xb.equals_lanes(&strict_square_n(b, N)).iter().all(|&v| v),
        "square_repeat_x2::<{}> diverged from strict reference (lane b)",
        N
    );
}

#[test]
fn square_repeat_x2_matches_strict_reference() {
    let a = WideFe::constant(D_LIMBS);
    let b = WideFe::constant(SQRT_M1_LIMBS);
    check_square_repeat_x2::<0>(&a, &b);
    check_square_repeat_x2::<1>(&a, &b);
    check_square_repeat_x2::<2>(&a, &b);
    check_square_repeat_x2::<5>(&a, &b);
    check_square_repeat_x2::<10>(&a, &b);
    check_square_repeat_x2::<20>(&a, &b);
    check_square_repeat_x2::<50>(&a, &b);
    check_square_repeat_x2::<100>(&a, &b);
}

#[test]
fn pow_x2_matches_sequential() {
    // The interleaved two-input exponentiation is identical to two independent ones on every
    // lane.
    let a = WideFe::constant(D_LIMBS);
    let b = WideFe::constant(SQRT_M1_LIMBS);
    let (xa, xb) = WideFe::pow_p_minus_5_over_8_x2(&a, &b);
    assert!(xa.equals_lanes(&a.pow_p_minus_5_over_8()).iter().all(|&v| v));
    assert!(xb.equals_lanes(&b.pow_p_minus_5_over_8()).iter().all(|&v| v));
}

#[test]
fn wide_pow_matches_scalar_reference() {
    // Keeps scalar and lane decompression exponent chains in sync.
    let mut state = 0x9e3779b97f4a7c15u64;
    let mut next = move || {
        state = state.wrapping_mul(0xd1342543de82ef95).wrapping_add(0x9e3779b97f4a7c15);
        state
    };

    let mut round = 0;
    while round < 200 {
        let fields: [Fe51; LANES] = core::array::from_fn(|_| {
            let limbs: [u64; LIMB_COUNT] = core::array::from_fn(|_| next() & LIMB_MASK);
            Fe51::from_limbs(limbs)
        });
        let wide_result = WideFe::from_fields(&fields).pow_p_minus_5_over_8().to_fields();

        for (lane, field) in fields.iter().enumerate() {
            assert!(
                field.pow_p_minus_5_over_8().equals(&wide_result[lane]),
                "lane {lane} diverged from scalar reference at round {round}"
            );
        }
        round += 1;
    }
}

fn ord8a() -> EdwardsPoint {
    let bytes = [
        0x26, 0xe8, 0x95, 0x8f, 0xc2, 0xb2, 0x27, 0xb0, 0x45, 0xc3, 0xf4, 0x89, 0xf2, 0xef, 0x98,
        0xf0, 0xd5, 0xdf, 0xac, 0x05, 0xd3, 0xc6, 0x33, 0x39, 0xb1, 0x38, 0x02, 0x88, 0x6d, 0x53,
        0xfc, 0x05,
    ];
    EdwardsPoint::decompress(&bytes).expect("ord8a decodes")
}

#[test]
fn wide_double_matches_scalar_on_torsion() {
    let p = ord8a();
    let scalar_doubled = p.double();
    let wide = WidePoint::from_points(&core::array::from_fn(|_| p.clone()));
    let wide_doubled = wide.double().to_points();
    assert_eq!(
        wide_doubled[0].compress(),
        scalar_doubled.compress(),
        "wide double diverges from scalar on an order-8 point"
    );
}

#[test]
fn wide_multiscalar_identity_key_is_identity() {
    let id = EdwardsPoint::identity();
    let table = PointTable::new(&id);
    let base_table = BasepointTable4096::from_point(&EdwardsPoint::basepoint());
    let s_digits = [[0i8; 64]; LANES];
    let mut one_bytes = [0u8; 32];
    one_bytes[0] = 1;
    let k = Scalar::from_canonical_bytes(one_bytes);
    let k_digits = [k.to_radix16(); LANES];
    let prepared = PreparedBatch {
        public_key_tables: [&table; LANES],
        s_digits: &s_digits,
        k_digits: &k_digits,
    };
    let combined = mul_base_minus_public(&base_table, &prepared);
    let pts = combined.to_points();
    assert_eq!(
        pts[0].compress(),
        id.compress(),
        "sB - kA for s=0, A=identity must be identity"
    );
}

/// The radix-4096 triple-fold ladder produces the same point as the pair-fold ladder, on
/// ordinary and order-8 torsion keys and boundary and random scalars.
#[test]
fn radix4096_ladder_matches_pairfold_ladder() {
    let base_pair = BasepointTable::new();
    let base_4096 = BasepointTable4096::from_point(&EdwardsPoint::basepoint());

    let mut scalar_cases: Vec<[u8; 32]> = vec![[0u8; 32]];
    let mut one = [0u8; 32];
    one[0] = 1;
    scalar_cases.push(one);
    scalar_cases.push([
        0xec, 0xd3, 0xf5, 0x5c, 0x1a, 0x63, 0x12, 0x58, 0xd6, 0x9c, 0xf7, 0xa2, 0xde, 0xf9, 0xde,
        0x14, 0x00, 0x00, 0x00, 0x00, 0x00, 0x00, 0x00, 0x00, 0x00, 0x00, 0x00, 0x00, 0x00, 0x00,
        0x00, 0x10,
    ]); // the group order minus one
    let mut st = 0x5eed_4096u64;
    for _ in 0..5 {
        let mut bytes = [0u8; 32];
        for chunk in bytes.chunks_mut(8) {
            st = st.wrapping_mul(0xd134_2543_de82_ef95).wrapping_add(1);
            chunk.copy_from_slice(&st.to_le_bytes());
        }
        bytes[31] &= 0x0f;
        scalar_cases.push(bytes);
    }

    for a_point in [EdwardsPoint::basepoint(), ord8a()] {
        let table = PointTable::new(&a_point);
        for s_bytes in &scalar_cases {
            for k_bytes in &scalar_cases {
                let s = Scalar::from_canonical_bytes(*s_bytes);
                let k = Scalar::from_canonical_bytes(*k_bytes);
                let s_digits = [s.to_radix16(); LANES];
                let k_digits = [k.to_radix16(); LANES];
                let prepared = PreparedBatch {
                    public_key_tables: [&table; LANES],
                    s_digits: &s_digits,
                    k_digits: &k_digits,
                };
                let new = mul_base_minus_public(&base_4096, &prepared);
                let old = mul_base_minus_public_pairfold(&base_pair, &prepared);
                assert_eq!(
                    new.to_points()[0].compress(),
                    old.to_points()[0].compress(),
                    "triple-fold ladder diverges from pair-fold"
                );
            }
        }
    }
}

#[test]
fn wide_subtract_then_cofactor_on_torsion() {
    let p = ord8a();
    let id = EdwardsPoint::identity();
    let scalar = id.subtract(&p).double().double().double();
    let wide_id = WidePoint::from_points(&core::array::from_fn(|_| id.clone()));
    let wide_p = WidePoint::from_points(&core::array::from_fn(|_| p.clone()));
    let wide_chain = wide_id.subtract(&wide_p).double().double().double().to_points();
    assert_eq!(scalar.compress(), id.compress(), "sanity: scalar -8p = id");
    assert_eq!(
        wide_chain[0].compress(),
        scalar.compress(),
        "wide subtract+cofactor diverges on order-8 point"
    );
}

#[test]
fn wide_zip215_exact_failing_case() {
    let r_bytes = [
        0x26, 0xe8, 0x95, 0x8f, 0xc2, 0xb2, 0x27, 0xb0, 0x45, 0xc3, 0xf4, 0x89, 0xf2, 0xef, 0x98,
        0xf0, 0xd5, 0xdf, 0xac, 0x05, 0xd3, 0xc6, 0x33, 0x39, 0xb1, 0x38, 0x02, 0x88, 0x6d, 0x53,
        0xfc, 0x05,
    ];
    let mut a_bytes = [0u8; 32];
    a_bytes[0] = 1;
    let id = EdwardsPoint::decompress(&a_bytes).unwrap();
    let table = PointTable::new(&id);
    let base_table = BasepointTable4096::from_point(&EdwardsPoint::basepoint());
    let s_digits = [[0i8; 64]; LANES];
    let digest = hash_slices(&[&r_bytes, &a_bytes, b"taming the many eddsas"]);
    let k = Scalar::from_wide_bytes(digest);
    let k_digits = [k.to_radix16(); LANES];
    let prepared = PreparedBatch {
        public_key_tables: [&table; LANES],
        s_digits: &s_digits,
        k_digits: &k_digits,
    };
    let (r_point, r_mask) = decompress_points_wide(&[r_bytes; LANES]);
    assert_eq!(r_mask, 0xff, "torsion R must decode");
    let r = WideRPoints { point: r_point };
    let result = verify_prepared_zip215(&prepared, &r, &base_table);
    assert!(result[0], "zip215 SIMD must accept this cofactored small-order case");
    // The same point is not equal to the recomputed one, so strict verification rejects it.
    assert!(!verify_prepared_dalek_projective(&prepared, &r, &base_table)[0]);
    let (matches, small_order) = verify_prepared_dalek(&prepared, &[r_bytes; LANES], &base_table);
    assert!(!matches[0]);
    assert!(small_order[0]);
}

#[test]
fn wide_decompress_matches_scalar_on_torsion() {
    let bytes = [
        0x26, 0xe8, 0x95, 0x8f, 0xc2, 0xb2, 0x27, 0xb0, 0x45, 0xc3, 0xf4, 0x89, 0xf2, 0xef, 0x98,
        0xf0, 0xd5, 0xdf, 0xac, 0x05, 0xd3, 0xc6, 0x33, 0x39, 0xb1, 0x38, 0x02, 0x88, 0x6d, 0x53,
        0xfc, 0x05,
    ];
    let scalar = EdwardsPoint::decompress(&bytes).unwrap();
    let (wide, mask) = decompress_points_wide(&[bytes; LANES]);
    assert_eq!(mask, 0xff, "wide decode must succeed");
    let wide_pts = wide.to_points();
    assert_eq!(
        wide_pts[0].compress(),
        scalar.compress(),
        "wide decompress diverges from scalar on an order-8 point"
    );
}

#[test]
fn wide_decompress_masks_undecodable_lanes() {
    let mut lanes = [[0u8; 32]; LANES];
    for (lane, bytes) in lanes.iter_mut().enumerate() {
        bytes[0] = lane as u8;
    }
    let others = [ord8a().compress(); LANES];
    let ((points, mask), (other_points, other_mask)) =
        decompress_point_batches_wide(&lanes, &others);
    assert_eq!(other_mask, 0xff);
    assert_eq!(other_points.compress()[7], others[7]);
    let compressed = points.compress();
    for lane in 0..LANES {
        match EdwardsPoint::decompress(&lanes[lane]) {
            Some(p) => {
                assert_eq!(mask >> lane & 1, 1);
                assert_eq!(compressed[lane], p.compress());
            }
            None => assert_eq!(mask >> lane & 1, 0),
        }
    }
    assert_eq!(decompress_r_points(&lanes).1, mask);
    assert!(mask != 0 && mask != 0xff);
}

#[test]
fn wide_points_match_scalar_points() {
    let b = EdwardsPoint::basepoint();
    let mut points = [b; LANES];
    let mut others = [ord8a(); LANES];
    for i in 1..LANES {
        points[i] = points[i - 1].add(&b);
        others[i] = others[i - 1].double().add(&b);
    }
    let wp = WidePoint::from_points(&points);
    let wo = WidePoint::from_points(&others);
    let sum = wp.add(&wo).compress();
    let difference = wp.subtract(&wo).compress();
    let times16 = wp.double4().to_points();
    for i in 0..LANES {
        assert_eq!(sum[i], points[i].add(&others[i]).compress());
        assert_eq!(difference[i], points[i].subtract(&others[i]).compress());
        let p16 = points[i].double().double().double().double();
        assert_eq!(times16[i].compress(), p16.compress());
    }
    assert_eq!(wp.subtract(&wp).identity_lanes(), [true; LANES]);
    assert_eq!(wp.identity_lanes(), [false; LANES]);
    assert_eq!(wo.small_order_lanes()[0], true);
    assert_eq!(wo.small_order_lanes()[1], false);
}

#[test]
fn wide_tables_match_scalar_tables() {
    let mut points = [ord8a(); LANES];
    for i in 1..LANES {
        points[i] = points[i - 1].add(&EdwardsPoint::basepoint());
    }
    let tables = build_tables_from_point(&WidePoint::from_points(&points));
    for i in 0..LANES {
        let reference = PointTable::new(&points[i]);
        for digit in -8..=8i8 {
            let (a0, a1, a2, a3) = tables[i].select_signed_cached_ref(digit).coords();
            let (b0, b1, b2, b3) = reference.select_signed_cached_ref(digit).coords();
            assert!(a0.multiply(b2).equals(&b0.multiply(a2)));
            assert!(a1.multiply(b2).equals(&b1.multiply(a2)));
            assert!(a3.multiply(b2).equals(&b3.multiply(a2)));
        }
    }
}

#[test]
fn wide_field_operations_match_scalar_operations() {
    let a: [Fe51; LANES] = core::array::from_fn(|i| Fe51::from_limbs([i as u64 + 2, 7, 1, 0, 9]));
    let b: [Fe51; LANES] =
        core::array::from_fn(|i| Fe51::from_limbs([LIMB_MASK - i as u64, LIMB_MASK, 3, 5, 8]));
    let wa = WideFe::from_fields(&a);
    let wb = WideFe::from_fields(&b);
    let sum = wa.add(&wb).to_fields();
    let difference = wa.subtract(&wb).to_fields();
    let product = wa.multiply(&wb).to_fields();
    let square = wa.square().to_fields();
    let inverse = wa.invert().to_fields();
    let negated = wa.negate().to_fields();
    for i in 0..LANES {
        assert!(sum[i].equals(&a[i].add(&b[i])));
        assert!(difference[i].equals(&a[i].subtract(&b[i])));
        assert!(product[i].equals(&a[i].multiply(&b[i])));
        assert!(square[i].equals(&a[i].square()));
        assert!(inverse[i].equals(&a[i].invert()));
        assert!(inverse[i].multiply(&a[i]).equals(&Fe51::one()));
        assert!(negated[i].add(&a[i]).equals(&Fe51::zero()));
    }
}

#[test]
fn canonical_limbs_on_a_full_carry_ripple() {
    // The carry out of the top limb ripples through all lower limbs.
    let limbs = [LIMB_MASK, LIMB_MASK, LIMB_MASK, 0, (1u64 << 51) + 5];
    assert_eq!(canonicalize_field_limbs(limbs), [18, 0, 0, 1, 5]);
    let rows: [[u64; LANES]; LIMB_COUNT] = core::array::from_fn(|limb| [limbs[limb]; LANES]);
    check_canonical(rows);
}

#[test]
fn limb_comparison_and_subtraction() {
    let p = FIELD_P_LIMBS;
    let mut low = p;
    low[0] -= 1;
    assert_eq!(cmp_field_limbs(&p, &p), Ordering::Equal);
    assert_eq!(cmp_field_limbs(&low, &p), Ordering::Less);
    assert_eq!(cmp_field_limbs(&p, &low), Ordering::Greater);
    // The highest limb decides.
    assert_eq!(cmp_field_limbs(&[9, 9, 9, 9, 0], &[0, 0, 0, 0, 1]), Ordering::Less);
    let mut x = [0, 0, 1, 0, 0];
    sub_field_limbs(&mut x, &[1, 0, 0, 0, 0]);
    assert_eq!(x, [LIMB_MASK, LIMB_MASK, 0, 0, 0]);
    // Below zero it wraps modulo 2^255.
    let mut x = [0, 0, 0, 0, 0];
    sub_field_limbs(&mut x, &[1, 0, 0, 0, 0]);
    assert_eq!(x, [LIMB_MASK; 5]);
}

fn rows(planes: &[U64x8; LIMB_COUNT]) -> [[u64; LANES]; LIMB_COUNT] {
    core::array::from_fn(|k| {
        let mut row = [0u64; LANES];
        planes[k].store(&mut row);
        row
    })
}

#[test]
fn products_take_operands_of_full_limbs() {
    let top = (1u64 << 52) - 1;
    let a: [Fe51; LANES] =
        core::array::from_fn(|i| Fe51::from_limbs_unchecked([top, top - i as u64, top, top, top]));
    let b: [Fe51; LANES] = core::array::from_fn(|i| {
        let i = i as u64;
        Fe51::from_limbs_unchecked([top - i, top, top - 3 * i, top - 5, top - i * i])
    });
    let wa = WideFe::from_fields(&a);
    let wb = WideFe::from_fields(&b);
    let product = wa.multiply(&wb).to_fields();
    let loose = wa.multiply_loose(&wb).to_fields();
    let difference = wa.subtract(&wb).to_fields();
    for i in 0..LANES {
        assert!(product[i].equals(&a[i].multiply(&b[i])));
        assert!(loose[i].equals(&a[i].multiply(&b[i])));
        assert!(difference[i].equals(&a[i].subtract(&b[i])));
    }
    let (lo, hi) = wa.multiply_accum(&wb);
    for row in rows(&lo).iter().chain(rows(&hi).iter()) {
        for column in row {
            assert!(*column < 77 << 52);
        }
    }
}

#[test]
fn loose_fields_keep_their_limbs() {
    let limbs = [(1u64 << 52) - 1, 1 << 51, (1 << 52) - 19, 7, 0];
    let fields: [Fe51; LANES] =
        core::array::from_fn(|i| Fe51::from_limbs_unchecked(limbs.map(|l| l.saturating_sub(i as u64))));
    let back = WideFe::from_fields(&fields).to_fields_loose();
    for i in 0..LANES {
        assert_eq!(back[i].limbs_ref(), fields[i].limbs_ref());
    }
}

#[test]
fn doublings_without_t_leave_it_zero() {
    let b = EdwardsPoint::basepoint();
    let points: [EdwardsPoint; LANES] =
        core::array::from_fn(|i| if i % 2 == 0 { b } else { ord8a().add(&b) });
    let wide = WidePoint::from_points(&points);
    for doubled in [wide.double_without_t(), wide.double_impl::<false, false>()] {
        assert_eq!(doubled.t.is_zero_lanes(), [true; LANES]);
        let encodings = doubled.compress();
        for i in 0..LANES {
            assert_eq!(encodings[i], points[i].double().compress());
        }
    }
    // A loose result is an operand of further doublings only.
    let loose = wide.double_impl::<false, true>();
    assert_eq!(loose.t.is_zero_lanes(), [true; LANES]);
    let encodings = loose.double().compress();
    for i in 0..LANES {
        assert_eq!(encodings[i], points[i].double().double().compress());
    }
    assert_eq!(wide.double().t.is_zero_lanes(), [false; LANES]);
}

#[test]
fn points_keep_their_coordinates_in_lanes() {
    let mut points = [ord8a(); LANES];
    for i in 1..LANES {
        points[i] = points[i - 1].double().add(&EdwardsPoint::basepoint());
    }
    let back = WidePoint::from_points(&points).to_points();
    for i in 0..LANES {
        let (x, y, z, t) = points[i].coords();
        let (bx, by, bz, bt) = back[i].coords();
        for (before, after) in [(x, bx), (y, by), (z, bz), (t, bt)] {
            assert_eq!(after.limbs_ref(), before.canonical().limbs_ref());
        }
    }
}

#[test]
fn folded_digits_keep_the_value() {
    let order_minus_one = [
        0xec, 0xd3, 0xf5, 0x5c, 0x1a, 0x63, 0x12, 0x58, 0xd6, 0x9c, 0xf7, 0xa2, 0xde, 0xf9, 0xde,
        0x14, 0, 0, 0, 0, 0, 0, 0, 0, 0, 0, 0, 0, 0, 0, 0, 0x10,
    ];
    let mut small = [0u8; 32];
    small[..8].copy_from_slice(&0x8888_8888_8888_8888u64.to_le_bytes());
    for bytes in [order_minus_one, small, [0u8; 32]] {
        let digits = Scalar::from_canonical_bytes(bytes).to_radix16();
        let mut value = [0i64; 22];
        for t in 0..22 {
            let folded = base_triple_digit(&digits, t);
            assert!((-2184..=2184).contains(&folded));
            value[t] = folded as i64;
        }
        // Normalize to nonnegative radix-4096 digits and compare with the bytes.
        let mut carry = 0i64;
        let mut bits = Vec::new();
        for v in value {
            let sum = v + carry;
            let digit = sum.rem_euclid(4096);
            carry = (sum - digit) / 4096;
            for b in 0..12 {
                bits.push((digit >> b) & 1);
            }
        }
        assert_eq!(carry, 0);
        for (i, bit) in bits.iter().enumerate() {
            let expected = if i < 256 { (bytes[i / 8] >> (i % 8)) & 1 } else { 0 };
            assert_eq!(*bit, expected as i64);
        }
    }
}

#[test]
fn tables_take_points_of_full_limbs() {
    // The same points, with `p` added to coordinates so that limbs pass 51 bits.
    let p = [LIMB_MASK - 18, LIMB_MASK, LIMB_MASK, LIMB_MASK, LIMB_MASK];
    let full = |f: &Fe51| {
        let limbs = f.canonical();
        let limbs = limbs.limbs_ref();
        Fe51::from_limbs_unchecked(core::array::from_fn(|k| limbs[k] + p[k]))
    };
    let mut points = [ord8a(); LANES];
    for i in 1..LANES {
        points[i] = points[i - 1].double().add(&EdwardsPoint::basepoint());
    }
    let widened = points.map(|point| {
        let (x, y, z, t) = point.coords();
        EdwardsPoint::from_coords_unchecked(full(x), full(y), full(z), full(t))
    });
    let tables = build_tables_from_point(&WidePoint::from_points(&widened));
    for i in 0..LANES {
        let reference = PointTable::new(&points[i]);
        for digit in -8..=8i8 {
            let (a0, a1, a2, a3) = tables[i].select_signed_cached_ref(digit).coords();
            let (b0, b1, b2, b3) = reference.select_signed_cached_ref(digit).coords();
            assert!(a0.multiply(b2).equals(&b0.multiply(a2)));
            assert!(a1.multiply(b2).equals(&b1.multiply(a2)));
            assert!(a3.multiply(b2).equals(&b3.multiply(a2)));
        }
    }
}

#[test]
fn zero_abscissas_are_found_in_every_lane() {
    let zero = Fe51::zero();
    let p = Fe51::from_limbs_unchecked(FIELD_P_LIMBS);
    let xs = [zero, Fe51::one(), p, Fe51::d(), zero, Fe51::sqrt_m1(), p, Fe51::one()];
    // Only `X` is looked at: the lanes need not hold points.
    let point = WidePoint {
        x: WideFe::from_fields(&xs),
        y: WideFe::zero(),
        z: WideFe::zero(),
        t: WideFe::zero(),
    };
    assert_eq!(
        WideRPoints { point }.x_zero_lanes(),
        [true, false, true, false, true, false, true, false]
    );
}
