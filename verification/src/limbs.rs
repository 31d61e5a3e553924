//! Limbs of field elements, one element at a time: comparison, subtraction and the canonical
//! representative.
use crate::fp;
use std::cmp::Ordering;
use vstd::prelude::*;

verus! {

/// Limbs of `p = 2^255 - 19`.
pub const FIELD_P_LIMBS: [u64; 5] = [
    0x7ffffffffffed,
    0x7ffffffffffff,
    0x7ffffffffffff,
    0x7ffffffffffff,
    0x7ffffffffffff,
];

/// The integer that limbs stand for.
pub open spec fn value(l: Seq<u64>) -> int {
    fp::limbs_value(l[0] as int, l[1] as int, l[2] as int, l[3] as int, l[4] as int)
}

/// Every limb is below `2^51`.
pub open spec fn reduced(l: Seq<u64>) -> bool {
    l.len() == 5 && forall|i: int| 0 <= i < 5 ==> #[trigger] l[i] < 0x8000000000000
}

/// Limbs `0..n` of `a` are below those of `b`, read from the highest down.
pub open spec fn precedes(a: Seq<u64>, b: Seq<u64>, n: nat) -> bool
    decreases n,
{
    n > 0 && (a[n - 1] < b[n - 1] || (a[n - 1] == b[n - 1] && precedes(a, b, (n - 1) as nat)))
}

/// Of reduced limbs, the order from the highest limb down is the order of the values.
pub proof fn lemma_precedes(a: Seq<u64>, b: Seq<u64>)
    requires
        reduced(a),
        reduced(b),
    ensures
        precedes(a, b, 5) == (value(a) < value(b)),
{
    reveal_with_fuel(precedes, 6);
    assert(a[0] < 0x8000000000000 && a[1] < 0x8000000000000 && a[2] < 0x8000000000000 && a[3]
        < 0x8000000000000 && a[4] < 0x8000000000000);
    assert(b[0] < 0x8000000000000 && b[1] < 0x8000000000000 && b[2] < 0x8000000000000 && b[3]
        < 0x8000000000000 && b[4] < 0x8000000000000);
}

/// Compares limbs from the highest down.
pub fn cmp_field_limbs(lhs: &[u64; 5], rhs: &[u64; 5]) -> (r: Ordering)
    ensures
        (r == Ordering::Less) == precedes(lhs@, rhs@, 5),
        (r == Ordering::Greater) == precedes(rhs@, lhs@, 5),
        (r == Ordering::Equal) == (lhs@ == rhs@),
{
    let mut i: usize = 5;
    proof {
        reveal_with_fuel(precedes, 6);
    }
    while i > 0
        invariant
            i <= 5,
            i == 5 || lhs[4] == rhs[4],
            i >= 4 || lhs[3] == rhs[3],
            i >= 3 || lhs[2] == rhs[2],
            i >= 2 || lhs[1] == rhs[1],
            i >= 1 || lhs[0] == rhs[0],
        decreases i,
    {
        i -= 1;
        proof {
            reveal_with_fuel(precedes, 6);
        }
        if lhs[i] < rhs[i] {
            return Ordering::Less;
        }
        if lhs[i] > rhs[i] {
            return Ordering::Greater;
        }
    }
    assert(lhs@ =~= rhs@);
    Ordering::Equal
}

/// Subtracts limbs with borrows, modulo `2^255`.
pub fn sub_field_limbs(lhs: &mut [u64; 5], rhs: &[u64; 5])
    requires
        reduced(old(lhs)@),
        reduced(rhs@),
    ensures
        reduced(final(lhs)@),
        value(final(lhs)@) == value(old(lhs)@) - value(rhs@) + (if value(old(lhs)@) < value(rhs@) {
            0x8000000000000000000000000000000000000000000000000000000000000000int
        } else {
            0
        }),
{
    let ghost before = lhs@;
    let mut borrow: u64 = 0;
    let mut i: usize = 0;
    while i < 5
        invariant
            i <= 5,
            borrow <= 1,
            reduced(before),
            reduced(rhs@),
            reduced(lhs@),
            forall|j: int| i <= j < 5 ==> lhs[j] == before[j],
            partial(lhs@, i as int) == partial(before, i as int) - partial(rhs@, i as int) + weight(i as int) * borrow,
        decreases 5 - i,
    {
        let a: u64 = lhs[i];
        let b: u64 = rhs[i];
        let ghost old_lhs = lhs@;
        assert(before[i as int] < 0x8000000000000 && rhs[i as int] < 0x8000000000000);
        if a < b + borrow {
            lhs[i] = a + 0x8000000000000 - b - borrow;
            borrow = 1;
        } else {
            lhs[i] = a - b - borrow;
            borrow = 0;
        }
        assert forall|j: int| 0 <= j < 5 implies #[trigger] lhs@[j] < 0x8000000000000 by {
            if j != i {
                assert(lhs@[j] == old_lhs[j]);
            }
        }
        i += 1;
    }
    proof {
        assert(lhs@[0] < 0x8000000000000 && lhs@[1] < 0x8000000000000 && lhs@[2] < 0x8000000000000
            && lhs@[3] < 0x8000000000000 && lhs@[4] < 0x8000000000000);
    }
}

/// `2^(51 i)`.
spec fn weight(i: int) -> int {
    if i == 0 {
        1
    } else if i == 1 {
        0x8000000000000
    } else if i == 2 {
        0x40000000000000000000000000int
    } else if i == 3 {
        0x200000000000000000000000000000000000000int
    } else if i == 4 {
        0x1000000000000000000000000000000000000000000000000000int
    } else {
        0x8000000000000000000000000000000000000000000000000000000000000000int
    }
}

/// The value of the lowest `i` limbs.
spec fn partial(l: Seq<u64>, i: int) -> int {
    (if i > 0 {
        l[0] as int
    } else {
        0
    }) + (if i > 1 {
        0x8000000000000 * l[1]
    } else {
        0
    }) + (if i > 2 {
        0x40000000000000000000000000int * l[2]
    } else {
        0
    }) + (if i > 3 {
        0x200000000000000000000000000000000000000int * l[3]
    } else {
        0
    }) + (if i > 4 {
        0x1000000000000000000000000000000000000000000000000000int * l[4]
    } else {
        0
    })
}

/// One carry pass over limbs below `2^52`.
fn carry_limbs(h: &[u64; 5]) -> (r: [u64; 5])
    requires
        forall|i: int| 0 <= i < 5 ==> #[trigger] h[i] < 0x10000000000000,
    ensures
        value(r@) % fp::p() == value(h@) % fp::p(),
        r[0] < 0x8000000000000 + 38,
        r[1] < 0x8000000000000,
        r[2] < 0x8000000000000,
        r[3] < 0x8000000000000,
        r[4] < 0x8000000000000,
        h[0] < 0x8000000000000 + 38 && h[1] < 0x8000000000000 && h[2] < 0x8000000000000 && h[3]
            < 0x8000000000000 && h[4] < 0x8000000000000 ==> r[0] < 0x8000000000000,
{
    assert(h[0] < 0x10000000000000 && h[1] < 0x10000000000000 && h[2] < 0x10000000000000 && h[3]
        < 0x10000000000000 && h[4] < 0x10000000000000);
    let g1: u64 = h[1] + h[0] / 0x8000000000000;
    let g2: u64 = h[2] + g1 / 0x8000000000000;
    let g3: u64 = h[3] + g2 / 0x8000000000000;
    let g4: u64 = h[4] + g3 / 0x8000000000000;
    proof {
        fp::lemma_carry_pass(h[0] as int, h[1] as int, h[2] as int, h[3] as int, h[4] as int);
    }
    [
        h[0] % 0x8000000000000 + 19 * (g4 / 0x8000000000000),
        g1 % 0x8000000000000,
        g2 % 0x8000000000000,
        g3 % 0x8000000000000,
        g4 % 0x8000000000000,
    ]
}

/// The canonical limbs of the residue modulo `p` of limbs below `2^52`.
pub fn canonicalize_field_limbs(limbs: [u64; 5]) -> (r: [u64; 5])
    requires
        forall|i: int| 0 <= i < 5 ==> #[trigger] limbs[i] < 0x10000000000000,
    ensures
        reduced(r@),
        value(r@) == value(limbs@) % fp::p(),
{
    let h = carry_limbs(&limbs);
    let mut out = carry_limbs(&h);
    let ghost v = value(out@);
    proof {
        assert(reduced(out@));
        assert(reduced(FIELD_P_LIMBS@));
        assert(value(FIELD_P_LIMBS@) == fp::p());
        lemma_precedes(out@, FIELD_P_LIMBS@);
        if v < fp::p() {
            fp::lemma_small_residue(v);
        } else {
            fp::lemma_small_residue(v - fp::p());
        }
    }
    match cmp_field_limbs(&out, &FIELD_P_LIMBS) {
        Ordering::Less => {},
        _ => sub_field_limbs(&mut out, &FIELD_P_LIMBS),
    }
    out
}

} // verus!
