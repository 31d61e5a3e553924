//! Integers modulo the order of the base point, and their signed radix-16 digits.
use crate::bytes;
use vstd::arithmetic::div_mod::*;
use vstd::arithmetic::mul::*;
use vstd::arithmetic::power2::*;
use vstd::prelude::*;

verus! {

/// The order `2^252 + 27742317777372353535851937790883648493` of the base point.
pub open spec fn group_order() -> int {
    0x1000000000000000000000000000000014def9dea2f79cd65812631a5cf5d3edint
}

/// 64-bit words of the order.
pub const ORDER_WORDS: [u64; 4] = [0x5812631a5cf5d3ed, 0x14def9dea2f79cd6, 0, 0x1000000000000000];

/// Signed radix-16 digits, lowest first.
pub type Radix16 = [i8; 64];

/// Every digit is in `-8..=8`.
pub open spec fn digits_bounded(d: Seq<i8>) -> bool {
    d.len() == 64 && forall|j: int| 0 <= j < 64 ==> -8 <= #[trigger] d[j] <= 8
}

/// Value of the digits from `pos` upwards, in units of `16^pos`.
pub open spec fn digits_above(d: Seq<i8>, pos: nat) -> int
    decreases 64 - pos,
{
    if pos >= 64 {
        0
    } else {
        d[pos as int] + 16 * digits_above(d, pos + 1)
    }
}

/// The value of the digits: the sum of `d[j] * 16^j`.
pub open spec fn digits_value(d: Seq<i8>) -> int {
    digits_above(d, 0)
}

/// Value of the lowest `n` digits.
spec fn digits_below(d: Seq<i8>, n: nat) -> int
    decreases n,
{
    if n == 0 {
        0
    } else {
        digits_below(d, (n - 1) as nat) + pow2(4 * ((n - 1) as nat)) * d[n - 1]
    }
}

proof fn lemma_digits_split(d: Seq<i8>, n: nat)
    requires
        n <= 64,
    ensures
        digits_value(d) == digits_below(d, n) + pow2(4 * n) * digits_above(d, n),
    decreases n,
{
    lemma2_to64();
    if n > 0 {
        let m = (n - 1) as nat;
        lemma_digits_split(d, m);
        lemma_pow2_adds(4 * m, 4);
        let w = pow2(4 * m) as int;
        let h = digits_above(d, n);
        assert(digits_above(d, m) == d[m as int] + 16 * h);
        lemma_mul_is_distributive_add(w, d[m as int] as int, 16 * h);
        lemma_mul_is_associative(w, 16, h);
        assert(pow2(4 * n) == w * 16);
        assert(pow2(4 * n) * h == w * 16 * h);
    } else {
        assert(pow2(4 * n) == 1);
        assert(1 * digits_above(d, 0) == digits_above(d, 0));
    }
}

/// Value of four words.
pub open spec fn words_value(w: Seq<u64>) -> int {
    w[0] + 0x10000000000000000 * w[1] + 0x100000000000000000000000000000000int * w[2]
        + 0x1000000000000000000000000000000000000000000000000int * w[3]
}

/// An integer modulo the order of the base point, in canonical form.
#[derive(Clone, Copy, Debug)]
pub struct Scalar {
    words: [u64; 4],
}

/// Whether the value of the words is at least the group order.
fn at_least_order(w: &[u64; 4]) -> (r: bool)
    ensures
        r == (words_value(w@) >= group_order()),
{
    if w[3] != ORDER_WORDS[3] {
        w[3] > ORDER_WORDS[3]
    } else if w[2] != ORDER_WORDS[2] {
        w[2] > ORDER_WORDS[2]
    } else if w[1] != ORDER_WORDS[1] {
        w[1] > ORDER_WORDS[1]
    } else {
        w[0] >= ORDER_WORDS[0]
    }
}

/// `w - order`.
fn subtract_order(w: &[u64; 4]) -> (r: [u64; 4])
    requires
        words_value(w@) >= group_order(),
    ensures
        words_value(r@) == words_value(w@) - group_order(),
{
    let t0: u128 = w[0] as u128 + 0x10000000000000000 - ORDER_WORDS[0] as u128;
    let b0: u128 = 1 - t0 / 0x10000000000000000;
    let t1: u128 = w[1] as u128 + 0x10000000000000000 - ORDER_WORDS[1] as u128 - b0;
    let b1: u128 = 1 - t1 / 0x10000000000000000;
    let t2: u128 = w[2] as u128 + 0x10000000000000000 - ORDER_WORDS[2] as u128 - b1;
    let b2: u128 = 1 - t2 / 0x10000000000000000;
    let t3: u128 = w[3] as u128 + 0x10000000000000000 - ORDER_WORDS[3] as u128 - b2;
    let r = [
        (t0 % 0x10000000000000000) as u64,
        (t1 % 0x10000000000000000) as u64,
        (t2 % 0x10000000000000000) as u64,
        (t3 % 0x10000000000000000) as u64,
    ];
    proof {
        let b3 = 1 - t3 / 0x10000000000000000;
        assert(words_value(r@) == words_value(w@) - group_order() + b3
            * 0x10000000000000000000000000000000000000000000000000000000000000000int);
        assert(0 <= words_value(r@) < 0x10000000000000000000000000000000000000000000000000000000000000000int);
        assert(b3 == 0 || b3 == 1);
    }
    r
}

/// `(2 w + bit) mod order`.
fn double_add_bit(w: &[u64; 4], bit: u64) -> (r: [u64; 4])
    requires
        words_value(w@) < group_order(),
        bit <= 1,
    ensures
        words_value(r@) == (2 * words_value(w@) + bit) % group_order(),
        words_value(r@) < group_order(),
{
    let t0: u128 = 2 * (w[0] as u128) + bit as u128;
    let t1: u128 = 2 * (w[1] as u128) + t0 / 0x10000000000000000;
    let t2: u128 = 2 * (w[2] as u128) + t1 / 0x10000000000000000;
    let t3: u128 = 2 * (w[3] as u128) + t2 / 0x10000000000000000;
    assert(w[3] <= 0x1000000000000000);
    assert(t3 < 0x10000000000000000);
    let d = [
        (t0 % 0x10000000000000000) as u64,
        (t1 % 0x10000000000000000) as u64,
        (t2 % 0x10000000000000000) as u64,
        t3 as u64,
    ];
    assert(words_value(d@) == 2 * words_value(w@) + bit);
    if at_least_order(&d) {
        subtract_order(&d)
    } else {
        d
    }
}

/// Reducing the leading part first does not change a residue.
proof fn lemma_horner(x: int, m: int, c: int)
    ensures
        ((x % group_order()) * m + c) % group_order() == (x * m + c) % group_order(),
{
    let l = group_order();
    lemma_mul_mod_noop_left(x, m, l);
    lemma_add_mod_noop((x % l) * m, c, l);
    lemma_add_mod_noop(x * m, c, l);
}

/// `(2^64 r + w) mod order`, one bit of `w` at a time.
fn absorb_word(r: &[u64; 4], w: u64) -> (out: [u64; 4])
    requires
        words_value(r@) < group_order(),
    ensures
        words_value(out@) == (0x10000000000000000 * words_value(r@) + w) % group_order(),
        words_value(out@) < group_order(),
{
    let mut acc = *r;
    let mut p: u128 = 0x10000000000000000;
    let ghost mut n: nat = 0;
    let ghost v = words_value(r@);
    proof {
        assert(0 <= v);
        lemma_absorb_start(v, w as int);
    }
    while p > 1
        invariant
            n <= 64,
            p == pow2((64 - n) as nat),
            v == words_value(r@),
            words_value(acc@) < group_order(),
            words_value(acc@) == (v * pow2(n) + w as int / p as int) % group_order(),
        decreases p,
    {
        proof {
            lemma2_to64();
            assert(n < 64) by {
                if n == 64 {
                    assert(pow2(0) == 1);
                }
            }
            lemma_pow2_unfold((64 - n) as nat);
            lemma_pow2_unfold((n + 1) as nat);
        }
        let q: u128 = p / 2;
        let bit: u64 = (((w as u128) / q) % 2) as u64;
        proof {
            let hi = w as int / p as int;
            lemma_div_denominator(w as int, q as int, 2);
            assert(w as int / q as int == 2 * hi + bit);
            let x = v * pow2(n) + hi;
            lemma_horner(x, 2, bit as int);
            lemma_mul_is_associative(v, pow2(n) as int, 2);
            assert(x * 2 + bit == v * pow2(n + 1) + w as int / q as int);
        }
        acc = double_add_bit(&acc, bit);
        p = q;
        proof {
            n = n + 1;
        }
    }
    proof {
        lemma_absorb_end(v, w as int, p as int, n);
    }
    acc
}

proof fn lemma_absorb_start(v: int, w: int)
    requires
        0 <= v < group_order(),
        0 <= w < 0x10000000000000000,
    ensures
        v == (v * pow2(0) + w / 0x10000000000000000) % group_order(),
        pow2(64) == 0x10000000000000000,
{
    lemma2_to64();
    lemma_small_mod(v as nat, group_order() as nat);
    assert(w / 0x10000000000000000 == 0);
    assert(v * 1 == v);
}

proof fn lemma_absorb_end(v: int, w: int, p: int, n: nat)
    requires
        n <= 64,
        p == pow2((64 - n) as nat),
        p <= 1,
    ensures
        v * pow2(n) + w / p == 0x10000000000000000 * v + w,
{
    lemma2_to64();
    lemma_pow2_pos((64 - n) as nat);
    if n < 64 {
        lemma_pow2_unfold((64 - n) as nat);
        lemma_pow2_pos((63 - n) as nat);
    }
    assert(n == 64 && p == 1);
    assert(w / 1 == w);
    assert(v * pow2(n) == 0x10000000000000000 * v);
}

/// Value of eight words.
pub open spec fn wide_value(w: Seq<u64>) -> int {
    words_value(w) + 0x10000000000000000000000000000000000000000000000000000000000000000int * (w[4]
        + 0x10000000000000000 * w[5] + 0x100000000000000000000000000000000int * w[6]
        + 0x1000000000000000000000000000000000000000000000000int * w[7])
}

impl Scalar {
    /// The integer value.
    pub closed spec fn value(&self) -> int {
        words_value(self.words@)
    }

    #[verifier::type_invariant]
    closed spec fn canonical(self) -> bool {
        words_value(self.words@) < group_order()
    }

    /// Reads a canonical little-endian encoding.
    pub fn from_canonical_bytes(b: [u8; 32]) -> (r: Self)
        requires
            bytes::le_value(b@) < group_order(),
        ensures
            r.value() == bytes::le_value(b@),
    {
        proof {
            bytes::lemma_le_words(b@);
        }
        let words = [
            bytes::load64(&b, 0),
            bytes::load64(&b, 8),
            bytes::load64(&b, 16),
            bytes::load64(&b, 24),
        ];
        Scalar { words }
    }

    /// Signed radix-16 digits of the value.
    pub fn to_radix16(&self) -> (r: Radix16)
        ensures
            digits_bounded(r@),
            digits_value(r@) == self.value(),
    {
        proof {
            use_type_invariant(self);
        }
        let b = bytes::words_bytes(self.words);
        let mut digits: Radix16 = [0i8; 64];
        let mut carry: i8 = 0;
        let mut j: usize = 0;
        while j < 63
            invariant
                j <= 63,
                0 <= carry <= 1,
                forall|k: int| 0 <= k < j ==> -8 <= #[trigger] digits[k] <= 8,
                digits_below(digits@, j as nat) + pow2(4 * j as nat) * carry == nibbles_below(b@, j as nat),
            decreases 63 - j,
        {
            let byte: u8 = b[j / 2];
            let nib: u8 = if j % 2 == 0 {
                byte % 16
            } else {
                byte / 16
            };
            let d: i8 = nib as i8 + carry;
            let next: i8 = if d >= 8 {
                1
            } else {
                0
            };
            let ghost before = digits@;
            let ghost old_carry = carry as int;
            digits[j] = d - 16 * next;
            carry = next;
            proof {
                lemma_below_unchanged(before, digits@, j as nat, j as int);
                lemma_carry_digit(
                    before,
                    digits@,
                    b@,
                    j as nat,
                    old_carry,
                    next as int,
                    nib as int,
                );
            }
            j += 1;
        }
        let top: u8 = b[31] / 16;
        proof {
            lemma_top_nibble(b@);
        }
        let ghost before = digits@;
        digits[63] = top as i8 + carry;
        proof {
            lemma_below_unchanged(before, digits@, 63, 63);
            lemma_carry_digit(before, digits@, b@, 63, carry as int, 0, top as int);
            lemma_nibbles(b@, 32);
            assert(b@.subrange(0, 32) =~= b@);
            lemma_digits_split(digits@, 64);
            assert(pow2(256) * 0 == 0);
        }
        digits
    }

    /// The residue of a 512-bit value, given as words, lowest first.
    pub fn from_wide_words(w: [u64; 8]) -> (r: Self)
        ensures
            r.value() == wide_value(w@) % group_order(),
    {
        let zero = [0u64; 4];
        let a7 = absorb_word(&zero, w[7]);
        let a6 = absorb_word(&a7, w[6]);
        let a5 = absorb_word(&a6, w[5]);
        let a4 = absorb_word(&a5, w[4]);
        let a3 = absorb_word(&a4, w[3]);
        let a2 = absorb_word(&a3, w[2]);
        let a1 = absorb_word(&a2, w[1]);
        let a0 = absorb_word(&a1, w[0]);
        proof {
            let m = 0x10000000000000000int;
            let v7 = w[7] as int;
            let v6 = v7 * m + w[6];
            let v5 = v6 * m + w[5];
            let v4 = v5 * m + w[4];
            let v3 = v4 * m + w[3];
            let v2 = v3 * m + w[2];
            let v1 = v2 * m + w[1];
            lemma_horner(v7, m, w[6] as int);
            lemma_horner(v6, m, w[5] as int);
            lemma_horner(v5, m, w[4] as int);
            lemma_horner(v4, m, w[3] as int);
            lemma_horner(v3, m, w[2] as int);
            lemma_horner(v2, m, w[1] as int);
            lemma_horner(v1, m, w[0] as int);
            assert(wide_value(w@) == v1 * m + w[0]);
        }
        Scalar { words: a0 }
    }

    /// The residue of a 64-byte little-endian value.
    pub fn from_wide_bytes(b: [u8; 64]) -> (r: Self)
        ensures
            r.value() == bytes::le_value(b@) % group_order(),
    {
        let w = [
            bytes::load64(&b, 0),
            bytes::load64(&b, 8),
            bytes::load64(&b, 16),
            bytes::load64(&b, 24),
            bytes::load64(&b, 32),
            bytes::load64(&b, 40),
            bytes::load64(&b, 48),
            bytes::load64(&b, 56),
        ];
        proof {
            lemma_wide_words(b@, w@);
        }
        Self::from_wide_words(w)
    }
}

/// Value of the lowest `n` nibbles of a byte string.
spec fn nibbles_below(b: Seq<u8>, n: nat) -> int
    decreases n,
{
    if n == 0 {
        0
    } else {
        nibbles_below(b, (n - 1) as nat) + pow2(4 * ((n - 1) as nat)) * nibble(b, n - 1)
    }
}

/// Nibble `j` of a byte string.
spec fn nibble(b: Seq<u8>, j: int) -> int {
    if j % 2 == 0 {
        b[j / 2] as int % 16
    } else {
        b[j / 2] as int / 16
    }
}

proof fn lemma_nibbles(b: Seq<u8>, k: nat)
    requires
        k <= b.len(),
    ensures
        nibbles_below(b, 2 * k) == bytes::le_value(b.subrange(0, k as int)),
    decreases k,
{
    if k == 0 {
        assert(b.subrange(0, 0).len() == 0);
    } else {
        let m = (k - 1) as nat;
        let w = pow2(8 * m) as int;
        let c = b[m as int] as int;
        lemma_nibbles(b, m);
        lemma2_to64();
        lemma_pow2_adds(8 * m, 4);
        assert(4 * (2 * m) == 8 * m);
        assert(4 * ((2 * m) + 1) == 8 * m + 4);
        assert(nibbles_below(b, 2 * m + 1) == nibbles_below(b, 2 * m) + w * (c % 16));
        assert(nibbles_below(b, 2 * k) == nibbles_below(b, 2 * m + 1) + pow2(8 * m + 4) * (c / 16));
        lemma_mul_is_associative(w, 16, c / 16);
        lemma_mul_is_distributive_add(w, c % 16, 16 * (c / 16));
        assert(w * (c % 16) + pow2(8 * m + 4) * (c / 16) == w * c);
        let lo = b.subrange(0, m as int);
        let top = b.subrange(m as int, k as int);
        assert(b.subrange(0, k as int) =~= lo + top);
        bytes::lemma_le_concat(lo, top, w);
        bytes::lemma_le_1(top);
    }
}

/// The top nibble of a value below the group order is at most one.
proof fn lemma_top_nibble(b: Seq<u8>)
    requires
        b.len() == 32,
        bytes::le_value(b) < group_order(),
    ensures
        b[31] / 16 <= 1,
{
    let lo = b.subrange(0, 31);
    let top = b.subrange(31, 32);
    assert(b =~= lo + top);
    bytes::lemma_pow2_248();
    bytes::lemma_le_concat(
        lo,
        top,
        0x100000000000000000000000000000000000000000000000000000000000000int,
    );
    bytes::lemma_le_1(top);
    bytes::lemma_le_bound(lo);
}

proof fn lemma_below_unchanged(a: Seq<i8>, b: Seq<i8>, n: nat, at: int)
    requires
        a.len() == 64,
        b.len() == 64,
        n <= at < 64,
        forall|k: int| 0 <= k < 64 && k != at ==> a[k] == b[k],
    ensures
        digits_below(a, n) == digits_below(b, n),
    decreases n,
{
    if n > 0 {
        lemma_below_unchanged(a, b, (n - 1) as nat, at);
    }
}

/// Moving a carry of 16 from a digit to the next keeps the value.
proof fn lemma_carry_digit(
    before: Seq<i8>,
    after: Seq<i8>,
    b: Seq<u8>,
    j: nat,
    carry: int,
    next: int,
    nib: int,
)
    requires
        j < 64,
        b.len() == 32,
        digits_below(before, j) == digits_below(after, j),
        digits_below(before, j) + pow2(4 * j) * carry == nibbles_below(b, j),
        after[j as int] == nib + carry - 16 * next,
        nib == nibble(b, j as int),
    ensures
        digits_below(after, j + 1) + pow2(4 * (j + 1)) * next == nibbles_below(b, j + 1),
{
    let w = pow2(4 * j) as int;
    lemma2_to64();
    lemma_pow2_adds(4 * j, 4);
    assert(pow2(4 * (j + 1)) == w * 16);
    lemma_mul_is_associative(w, 16, next);
    lemma_mul_is_distributive_add(w, nib, carry);
    lemma_mul_is_distributive_sub(w, nib + carry, 16 * next);
}

/// The words of 64 bytes have the value of the bytes.
pub proof fn lemma_wide_words(b: Seq<u8>, w: Seq<u64>)
    requires
        b.len() == 64,
        w.len() == 8,
        forall|k: int| 0 <= k < 8 ==> #[trigger] w[k] == bytes::le_value(b.subrange(8 * k, 8 * k + 8)),
    ensures
        wide_value(w) == bytes::le_value(b),
{
    let lo = b.subrange(0, 32);
    let hi = b.subrange(32, 64);
    assert(b =~= lo + hi);
    bytes::lemma_pow2_256();
    bytes::lemma_le_concat(
        lo,
        hi,
        0x10000000000000000000000000000000000000000000000000000000000000000int,
    );
    bytes::lemma_le_words(lo);
    bytes::lemma_le_words(hi);
    assert(lo.subrange(0, 8) =~= b.subrange(0, 8));
    assert(lo.subrange(8, 16) =~= b.subrange(8, 16));
    assert(lo.subrange(16, 24) =~= b.subrange(16, 24));
    assert(lo.subrange(24, 32) =~= b.subrange(24, 32));
    assert(hi.subrange(0, 8) =~= b.subrange(32, 40));
    assert(hi.subrange(8, 16) =~= b.subrange(40, 48));
    assert(hi.subrange(16, 24) =~= b.subrange(48, 56));
    assert(hi.subrange(24, 32) =~= b.subrange(56, 64));
}

/// Whether a little-endian encoding is below the group order.
pub fn is_canonical(b: &[u8; 32]) -> (r: bool)
    ensures
        r == (bytes::le_value(b@) < group_order()),
{
    proof {
        bytes::lemma_le_words(b@);
    }
    let words = [
        bytes::load64(b, 0),
        bytes::load64(b, 8),
        bytes::load64(b, 16),
        bytes::load64(b, 24),
    ];
    !at_least_order(&words)
}

} // verus!
