//! Eight-lane vectors of 64-bit words.
//!
//! Every operation acts on the lanes with the wrapping semantics of 512-bit
//! SIMD integer instructions; masks are bytes whose bit `i` belongs to lane `i`.
use vstd::prelude::*;

verus! {

/// Number of lanes of a [`U64x8`].
pub const LANES: usize = 8;

/// Eight 64-bit words.
#[derive(Clone, Copy)]
pub struct U64x8 {
    pub lanes: [u64; 8],
}

/// Low 52 bits of the product of the low 52 bits of `a` and `b`.
pub open spec fn product_lo52(a: int, b: int) -> int {
    ((a % 0x10000000000000) * (b % 0x10000000000000)) % 0x10000000000000
}

/// High 52 bits of the 104-bit product of the low 52 bits of `a` and `b`.
pub open spec fn product_hi52(a: int, b: int) -> int {
    ((a % 0x10000000000000) * (b % 0x10000000000000)) / 0x10000000000000
}

/// For operands below `2^52` the two halves recombine to the exact product.
pub proof fn lemma_product52(a: int, b: int)
    requires
        0 <= a < 0x10000000000000,
        0 <= b < 0x10000000000000,
    ensures
        product_lo52(a, b) + 0x10000000000000 * product_hi52(a, b) == a * b,
        0 <= product_lo52(a, b) < 0x10000000000000,
        0 <= product_hi52(a, b) < 0x10000000000000,
{
    assert(0 <= a * b < 0x10000000000000 * 0x10000000000000) by (nonlinear_arith)
        requires
            0 <= a < 0x10000000000000,
            0 <= b < 0x10000000000000,
    ;
}

fn lo52(a: u64, b: u64) -> (r: u64)
    ensures
        r == product_lo52(a as int, b as int),
{
    let x: u128 = (a % 0x10000000000000) as u128;
    let y: u128 = (b % 0x10000000000000) as u128;
    proof {
        lemma_product52(x as int, y as int);
    }
    ((x * y) % 0x10000000000000) as u64
}

fn hi52(a: u64, b: u64) -> (r: u64)
    ensures
        r == product_hi52(a as int, b as int),
{
    let x: u128 = (a % 0x10000000000000) as u128;
    let y: u128 = (b % 0x10000000000000) as u128;
    proof {
        lemma_product52(x as int, y as int);
    }
    ((x * y) / 0x10000000000000) as u64
}

/// Bit `i` of a lane mask.
pub open spec fn mask_bit(mask: u8, i: int) -> bool {
    (mask as int / pow2_of(i)) % 2 == 1
}

/// `2^i` for a lane index.
pub open spec fn pow2_of(i: int) -> int {
    if i == 0 {
        1
    } else if i == 1 {
        2
    } else if i == 2 {
        4
    } else if i == 3 {
        8
    } else if i == 4 {
        16
    } else if i == 5 {
        32
    } else if i == 6 {
        64
    } else {
        128
    }
}

/// The mask whose bit `i` is `flags[i]`.
pub fn mask_from_lanes(flags: &[bool; 8]) -> (mask: u8)
    ensures
        forall|i: int| 0 <= i < 8 ==> #[trigger] mask_bit(mask, i) == flags[i],
{
    let n7: u8 = if flags[7] { 1 } else { 0 };
    let n6: u8 = 2 * n7 + if flags[6] { 1u8 } else { 0u8 };
    let n5: u8 = 2 * n6 + if flags[5] { 1u8 } else { 0u8 };
    let n4: u8 = 2 * n5 + if flags[4] { 1u8 } else { 0u8 };
    let n3: u8 = 2 * n4 + if flags[3] { 1u8 } else { 0u8 };
    let n2: u8 = 2 * n3 + if flags[2] { 1u8 } else { 0u8 };
    let n1: u8 = 2 * n2 + if flags[1] { 1u8 } else { 0u8 };
    let n0: u8 = 2 * n1 + if flags[0] { 1u8 } else { 0u8 };
    let mask: u8 = n0;
    assert(n0 / 2 == n1 && n1 / 2 == n2 && n2 / 2 == n3 && n3 / 2 == n4 && n4 / 2 == n5 && n5 / 2 == n6
        && n6 / 2 == n7);
    assert(n0 % 2 == (if flags[0] { 1int } else { 0int }));
    assert(mask_bit(mask, 0) == flags[0]);
    assert(n0 / 2 == n1 && n1 % 2 == (if flags[1] { 1int } else { 0int }));
    assert(mask_bit(mask, 1) == flags[1]);
    assert(n0 / 4 == n2 && n2 % 2 == (if flags[2] { 1int } else { 0int }));
    assert(mask_bit(mask, 2) == flags[2]);
    assert(n0 / 8 == n3 && n3 % 2 == (if flags[3] { 1int } else { 0int }));
    assert(mask_bit(mask, 3) == flags[3]);
    assert(n0 / 16 == n4 && n4 % 2 == (if flags[4] { 1int } else { 0int }));
    assert(mask_bit(mask, 4) == flags[4]);
    assert(n0 / 32 == n5 && n5 % 2 == (if flags[5] { 1int } else { 0int }));
    assert(mask_bit(mask, 5) == flags[5]);
    assert(n0 / 64 == n6 && n6 % 2 == (if flags[6] { 1int } else { 0int }));
    assert(mask_bit(mask, 6) == flags[6]);
    assert(n0 / 128 == n7 && n7 % 2 == (if flags[7] { 1int } else { 0int }));
    assert(mask_bit(mask, 7) == flags[7]);
    mask
}

/// The lanes selected by both masks.
pub fn mask_and(a: u8, b: u8) -> (mask: u8)
    ensures
        forall|i: int| 0 <= i < 8 ==> #[trigger] mask_bit(mask, i) == (mask_bit(a, i) && mask_bit(b, i)),
{
    let mask: u8 = a & b;
    assert(((mask / 1) % 2 == 1) == ((a / 1) % 2 == 1 && (b / 1) % 2 == 1)) by (bit_vector)
        requires
            mask == a & b,
    ;
    assert(mask_bit(mask, 0) == (mask_bit(a, 0) && mask_bit(b, 0)));
    assert(((mask / 2) % 2 == 1) == ((a / 2) % 2 == 1 && (b / 2) % 2 == 1)) by (bit_vector)
        requires
            mask == a & b,
    ;
    assert(mask_bit(mask, 1) == (mask_bit(a, 1) && mask_bit(b, 1)));
    assert(((mask / 4) % 2 == 1) == ((a / 4) % 2 == 1 && (b / 4) % 2 == 1)) by (bit_vector)
        requires
            mask == a & b,
    ;
    assert(mask_bit(mask, 2) == (mask_bit(a, 2) && mask_bit(b, 2)));
    assert(((mask / 8) % 2 == 1) == ((a / 8) % 2 == 1 && (b / 8) % 2 == 1)) by (bit_vector)
        requires
            mask == a & b,
    ;
    assert(mask_bit(mask, 3) == (mask_bit(a, 3) && mask_bit(b, 3)));
    assert(((mask / 16) % 2 == 1) == ((a / 16) % 2 == 1 && (b / 16) % 2 == 1)) by (bit_vector)
        requires
            mask == a & b,
    ;
    assert(mask_bit(mask, 4) == (mask_bit(a, 4) && mask_bit(b, 4)));
    assert(((mask / 32) % 2 == 1) == ((a / 32) % 2 == 1 && (b / 32) % 2 == 1)) by (bit_vector)
        requires
            mask == a & b,
    ;
    assert(mask_bit(mask, 5) == (mask_bit(a, 5) && mask_bit(b, 5)));
    assert(((mask / 64) % 2 == 1) == ((a / 64) % 2 == 1 && (b / 64) % 2 == 1)) by (bit_vector)
        requires
            mask == a & b,
    ;
    assert(mask_bit(mask, 6) == (mask_bit(a, 6) && mask_bit(b, 6)));
    assert(((mask / 128) % 2 == 1) == ((a / 128) % 2 == 1 && (b / 128) % 2 == 1)) by (bit_vector)
        requires
            mask == a & b,
    ;
    assert(mask_bit(mask, 7) == (mask_bit(a, 7) && mask_bit(b, 7)));
    mask
}

/// The flags whose entry `i` is bit `i` of `mask`.
pub fn mask_to_lanes(mask: u8) -> (flags: [bool; 8])
    ensures
        forall|i: int| 0 <= i < 8 ==> #[trigger] flags[i] == mask_bit(mask, i),
{
    [
        mask % 2 == 1,
        (mask / 2) % 2 == 1,
        (mask / 4) % 2 == 1,
        (mask / 8) % 2 == 1,
        (mask / 16) % 2 == 1,
        (mask / 32) % 2 == 1,
        (mask / 64) % 2 == 1,
        (mask / 128) % 2 == 1,
    ]
}

/// Lane-wise conjunction.
pub fn and_lanes(a: &[bool; 8], b: &[bool; 8]) -> (r: [bool; 8])
    ensures
        forall|i: int| 0 <= i < 8 ==> #[trigger] r[i] == (a[i] && b[i]),
{
    [
        a[0] && b[0],
        a[1] && b[1],
        a[2] && b[2],
        a[3] && b[3],
        a[4] && b[4],
        a[5] && b[5],
        a[6] && b[6],
        a[7] && b[7],
    ]
}

/// Lane-wise disjunction.
pub fn or_lanes(a: &[bool; 8], b: &[bool; 8]) -> (r: [bool; 8])
    ensures
        forall|i: int| 0 <= i < 8 ==> #[trigger] r[i] == (a[i] || b[i]),
{
    [
        a[0] || b[0],
        a[1] || b[1],
        a[2] || b[2],
        a[3] || b[3],
        a[4] || b[4],
        a[5] || b[5],
        a[6] || b[6],
        a[7] || b[7],
    ]
}

/// Lane-wise `a && !b`.
pub fn and_not_lanes(a: &[bool; 8], b: &[bool; 8]) -> (r: [bool; 8])
    ensures
        forall|i: int| 0 <= i < 8 ==> #[trigger] r[i] == (a[i] && !b[i]),
{
    [
        a[0] && !b[0],
        a[1] && !b[1],
        a[2] && !b[2],
        a[3] && !b[3],
        a[4] && !b[4],
        a[5] && !b[5],
        a[6] && !b[6],
        a[7] && !b[7],
    ]
}

/// Lane-wise inequality.
pub fn ne_lanes(a: &[bool; 8], b: &[bool; 8]) -> (r: [bool; 8])
    ensures
        forall|i: int| 0 <= i < 8 ==> #[trigger] r[i] == (a[i] != b[i]),
{
    [
        a[0] != b[0],
        a[1] != b[1],
        a[2] != b[2],
        a[3] != b[3],
        a[4] != b[4],
        a[5] != b[5],
        a[6] != b[6],
        a[7] != b[7],
    ]
}

impl U64x8 {
    /// The lane at index `i`.
    pub open spec fn at(&self, i: int) -> u64 {
        self.lanes[i]
    }

    /// The same value in every lane.
    pub fn splat(value: u64) -> (r: Self)
        ensures
            forall|i: int| 0 <= i < 8 ==> #[trigger] r.at(i) == value,
    {
        U64x8 { lanes: [value; 8] }
    }

    /// The vector with the given lanes.
    pub fn load(values: &[u64; 8]) -> (r: Self)
        ensures
            forall|i: int| 0 <= i < 8 ==> #[trigger] r.at(i) == values[i],
    {
        U64x8 { lanes: *values }
    }

    /// Five words in the low lanes, zero in the upper three.
    pub fn load_low5(values: &[u64; 5]) -> (r: Self)
        ensures
            forall|i: int| 0 <= i < 5 ==> #[trigger] r.at(i) == values[i],
            forall|i: int| 5 <= i < 8 ==> #[trigger] r.at(i) == 0,
    {
        U64x8 { lanes: [values[0], values[1], values[2], values[3], values[4], 0, 0, 0] }
    }

    /// Writes the lanes to `out`.
    pub fn store(&self, out: &mut [u64; 8])
        ensures
            forall|i: int| 0 <= i < 8 ==> #[trigger] final(out)[i] == self.at(i),
    {
        *out = self.lanes;
    }

    /// Lane-wise wrapping sum.
    pub fn add(&self, y: &Self) -> (r: Self)
        ensures
            forall|i: int| 0 <= i < 8 ==> #[trigger] r.at(i) == self.at(i).wrapping_add(y.at(i)),
    {
        let x = &self.lanes;
        let y = &y.lanes;
        U64x8 {
            lanes: [
                x[0].wrapping_add(y[0]),
                x[1].wrapping_add(y[1]),
                x[2].wrapping_add(y[2]),
                x[3].wrapping_add(y[3]),
                x[4].wrapping_add(y[4]),
                x[5].wrapping_add(y[5]),
                x[6].wrapping_add(y[6]),
                x[7].wrapping_add(y[7]),
            ],
        }
    }

    /// Lane-wise wrapping difference.
    pub fn sub(&self, y: &Self) -> (r: Self)
        ensures
            forall|i: int| 0 <= i < 8 ==> #[trigger] r.at(i) == self.at(i).wrapping_sub(y.at(i)),
    {
        let x = &self.lanes;
        let y = &y.lanes;
        U64x8 {
            lanes: [
                x[0].wrapping_sub(y[0]),
                x[1].wrapping_sub(y[1]),
                x[2].wrapping_sub(y[2]),
                x[3].wrapping_sub(y[3]),
                x[4].wrapping_sub(y[4]),
                x[5].wrapping_sub(y[5]),
                x[6].wrapping_sub(y[6]),
                x[7].wrapping_sub(y[7]),
            ],
        }
    }

    /// Lane-wise low 64 bits of the product.
    pub fn mul_lo(&self, y: &Self) -> (r: Self)
        ensures
            forall|i: int| 0 <= i < 8 ==> #[trigger] r.at(i) == self.at(i).wrapping_mul(y.at(i)),
    {
        let x = &self.lanes;
        let y = &y.lanes;
        U64x8 {
            lanes: [
                x[0].wrapping_mul(y[0]),
                x[1].wrapping_mul(y[1]),
                x[2].wrapping_mul(y[2]),
                x[3].wrapping_mul(y[3]),
                x[4].wrapping_mul(y[4]),
                x[5].wrapping_mul(y[5]),
                x[6].wrapping_mul(y[6]),
                x[7].wrapping_mul(y[7]),
            ],
        }
    }

    /// Lane-wise logical shift right by 51 bits.
    pub fn shr51(&self) -> (r: Self)
        ensures
            forall|i: int| 0 <= i < 8 ==> #[trigger] r.at(i) == self.at(i) / 0x8000000000000,
    {
        let x = &self.lanes;
        U64x8 {
            lanes: [
                x[0] / 0x8000000000000,
                x[1] / 0x8000000000000,
                x[2] / 0x8000000000000,
                x[3] / 0x8000000000000,
                x[4] / 0x8000000000000,
                x[5] / 0x8000000000000,
                x[6] / 0x8000000000000,
                x[7] / 0x8000000000000,
            ],
        }
    }

    /// The low 51 bits of every lane.
    pub fn low51(&self) -> (r: Self)
        ensures
            forall|i: int| 0 <= i < 8 ==> #[trigger] r.at(i) == self.at(i) % 0x8000000000000,
    {
        let x = &self.lanes;
        U64x8 {
            lanes: [
                x[0] % 0x8000000000000,
                x[1] % 0x8000000000000,
                x[2] % 0x8000000000000,
                x[3] % 0x8000000000000,
                x[4] % 0x8000000000000,
                x[5] % 0x8000000000000,
                x[6] % 0x8000000000000,
                x[7] % 0x8000000000000,
            ],
        }
    }

    /// Lane-wise logical shift left by one bit.
    pub fn shl1(&self) -> (r: Self)
        ensures
            forall|i: int| 0 <= i < 8 ==> #[trigger] r.at(i) == self.at(i).wrapping_mul(2),
    {
        let x = &self.lanes;
        U64x8 {
            lanes: [
                x[0].wrapping_mul(2),
                x[1].wrapping_mul(2),
                x[2].wrapping_mul(2),
                x[3].wrapping_mul(2),
                x[4].wrapping_mul(2),
                x[5].wrapping_mul(2),
                x[6].wrapping_mul(2),
                x[7].wrapping_mul(2),
            ],
        }
    }

    /// `self` plus the low 52 bits of the 104-bit product of the low 52 bits of `a` and `b`.
    pub fn madd52lo(&self, a: &Self, b: &Self) -> (r: Self)
        ensures
            forall|i: int|
                0 <= i < 8 ==> #[trigger] r.at(i) == self.at(i).wrapping_add(
                    product_lo52(a.at(i) as int, b.at(i) as int) as u64,
                ),
    {
        let x = &self.lanes;
        let a = &a.lanes;
        let b = &b.lanes;
        U64x8 {
            lanes: [
                x[0].wrapping_add(lo52(a[0], b[0])),
                x[1].wrapping_add(lo52(a[1], b[1])),
                x[2].wrapping_add(lo52(a[2], b[2])),
                x[3].wrapping_add(lo52(a[3], b[3])),
                x[4].wrapping_add(lo52(a[4], b[4])),
                x[5].wrapping_add(lo52(a[5], b[5])),
                x[6].wrapping_add(lo52(a[6], b[6])),
                x[7].wrapping_add(lo52(a[7], b[7])),
            ],
        }
    }

    /// `self` plus the high 52 bits of the 104-bit product of the low 52 bits of `a` and `b`.
    pub fn madd52hi(&self, a: &Self, b: &Self) -> (r: Self)
        ensures
            forall|i: int|
                0 <= i < 8 ==> #[trigger] r.at(i) == self.at(i).wrapping_add(
                    product_hi52(a.at(i) as int, b.at(i) as int) as u64,
                ),
    {
        let x = &self.lanes;
        let a = &a.lanes;
        let b = &b.lanes;
        U64x8 {
            lanes: [
                x[0].wrapping_add(hi52(a[0], b[0])),
                x[1].wrapping_add(hi52(a[1], b[1])),
                x[2].wrapping_add(hi52(a[2], b[2])),
                x[3].wrapping_add(hi52(a[3], b[3])),
                x[4].wrapping_add(hi52(a[4], b[4])),
                x[5].wrapping_add(hi52(a[5], b[5])),
                x[6].wrapping_add(hi52(a[6], b[6])),
                x[7].wrapping_add(hi52(a[7], b[7])),
            ],
        }
    }

    /// Mask of the lanes where both vectors agree.
    pub fn eq_mask(&self, y: &Self) -> (mask: u8)
        ensures
            forall|i: int| 0 <= i < 8 ==> #[trigger] mask_bit(mask, i) == (self.at(i) == y.at(i)),
    {
        let x = &self.lanes;
        let y = &y.lanes;
        mask_from_lanes(
            &[
                x[0] == y[0],
                x[1] == y[1],
                x[2] == y[2],
                x[3] == y[3],
                x[4] == y[4],
                x[5] == y[5],
                x[6] == y[6],
                x[7] == y[7],
            ],
        )
    }

    /// Mask of the lanes where `self` is at least `y`.
    pub fn ge_mask(&self, y: &Self) -> (mask: u8)
        ensures
            forall|i: int| 0 <= i < 8 ==> #[trigger] mask_bit(mask, i) == (self.at(i) >= y.at(i)),
    {
        let x = &self.lanes;
        let y = &y.lanes;
        mask_from_lanes(
            &[
                x[0] >= y[0],
                x[1] >= y[1],
                x[2] >= y[2],
                x[3] >= y[3],
                x[4] >= y[4],
                x[5] >= y[5],
                x[6] >= y[6],
                x[7] >= y[7],
            ],
        )
    }

    /// Mask of the lanes whose lowest bit is set.
    pub fn odd_mask(&self) -> (mask: u8)
        ensures
            forall|i: int| 0 <= i < 8 ==> #[trigger] mask_bit(mask, i) == (self.at(i) % 2 == 1),
    {
        let x = &self.lanes;
        mask_from_lanes(
            &[
                x[0] % 2 == 1,
                x[1] % 2 == 1,
                x[2] % 2 == 1,
                x[3] % 2 == 1,
                x[4] % 2 == 1,
                x[5] % 2 == 1,
                x[6] % 2 == 1,
                x[7] % 2 == 1,
            ],
        )
    }

    /// Takes `y` in the lanes selected by `mask` and `self` in the others.
    pub fn blend(&self, mask: u8, y: &Self) -> (r: Self)
        ensures
            forall|i: int|
                0 <= i < 8 ==> #[trigger] r.at(i) == (if mask_bit(mask, i) {
                    y.at(i)
                } else {
                    self.at(i)
                }),
    {
        let m = mask_to_lanes(mask);
        let x = &self.lanes;
        let y = &y.lanes;
        U64x8 {
            lanes: [
                if m[0] { y[0] } else { x[0] },
                if m[1] { y[1] } else { x[1] },
                if m[2] { y[2] } else { x[2] },
                if m[3] { y[3] } else { x[3] },
                if m[4] { y[4] } else { x[4] },
                if m[5] { y[5] } else { x[5] },
                if m[6] { y[6] } else { x[6] },
                if m[7] { y[7] } else { x[7] },
            ],
        }
    }

    /// Interleaves the even words of each 128-bit block.
    pub fn unpack_lo(&self, y: &Self) -> (r: Self)
        ensures
            r.lanes@ == seq![
                self.at(0), y.at(0), self.at(2), y.at(2),
                self.at(4), y.at(4), self.at(6), y.at(6),
            ],
    {
        let x = &self.lanes;
        let y = &y.lanes;
        U64x8 { lanes: [x[0], y[0], x[2], y[2], x[4], y[4], x[6], y[6]] }
    }

    /// Interleaves the odd words of each 128-bit block.
    pub fn unpack_hi(&self, y: &Self) -> (r: Self)
        ensures
            r.lanes@ == seq![
                self.at(1), y.at(1), self.at(3), y.at(3),
                self.at(5), y.at(5), self.at(7), y.at(7),
            ],
    {
        let x = &self.lanes;
        let y = &y.lanes;
        U64x8 { lanes: [x[1], y[1], x[3], y[3], x[5], y[5], x[7], y[7]] }
    }

    /// The even 128-bit blocks of `self`, then those of `y` (shuffle pattern `0x88`).
    pub fn shuffle_even_blocks(&self, y: &Self) -> (r: Self)
        ensures
            r.lanes@ == seq![
                self.at(0), self.at(1), self.at(4), self.at(5),
                y.at(0), y.at(1), y.at(4), y.at(5),
            ],
    {
        let x = &self.lanes;
        let y = &y.lanes;
        U64x8 { lanes: [x[0], x[1], x[4], x[5], y[0], y[1], y[4], y[5]] }
    }

    /// The odd 128-bit blocks of `self`, then those of `y` (shuffle pattern `0xDD`).
    pub fn shuffle_odd_blocks(&self, y: &Self) -> (r: Self)
        ensures
            r.lanes@ == seq![
                self.at(2), self.at(3), self.at(6), self.at(7),
                y.at(2), y.at(3), y.at(6), y.at(7),
            ],
    {
        let x = &self.lanes;
        let y = &y.lanes;
        U64x8 { lanes: [x[2], x[3], x[6], x[7], y[2], y[3], y[6], y[7]] }
    }
}

} // verus!
