//! Little-endian byte strings.
use vstd::arithmetic::mul::*;
use vstd::arithmetic::power2::*;
use vstd::prelude::*;

verus! {

/// Value of a little-endian byte string.
pub open spec fn le_value(b: Seq<u8>) -> int
    decreases b.len(),
{
    if b.len() == 0 {
        0
    } else {
        b[0] as int + 256 * le_value(b.subrange(1, b.len() as int))
    }
}

/// A byte string of length `n` has a value below `256^n`.
pub proof fn lemma_le_bound(b: Seq<u8>)
    ensures
        0 <= le_value(b) < pow2(8 * b.len()),
    decreases b.len(),
{
    lemma2_to64();
    if b.len() > 0 {
        let tail = b.subrange(1, b.len() as int);
        lemma_le_bound(tail);
        lemma_pow2_adds(8, 8 * tail.len());
    }
}

/// The value of a concatenation, where `w` is `256^n` for a first part of length `n`.
pub proof fn lemma_le_concat(a: Seq<u8>, b: Seq<u8>, w: int)
    requires
        w == pow2(8 * a.len()),
    ensures
        le_value(a + b) == le_value(a) + w * le_value(b),
    decreases a.len(),
{
    lemma2_to64();
    if a.len() == 0 {
        assert(a + b =~= b);
        assert(w == 1);
    } else {
        let tail = a.subrange(1, a.len() as int);
        let v = pow2(8 * tail.len()) as int;
        assert((a + b).subrange(1, (a + b).len() as int) =~= tail + b);
        lemma_le_concat(tail, b, v);
        lemma_pow2_adds(8, 8 * tail.len());
        lemma_mul_is_associative(256, v, le_value(b));
        assert(w == 256 * v);
        assert(w * le_value(b) == 256 * (v * le_value(b)));
    }
}

/// The value of a single byte.
pub proof fn lemma_le_1(b: Seq<u8>)
    requires
        b.len() == 1,
    ensures
        le_value(b) == b[0],
{
    reveal_with_fuel(le_value, 2);
}

/// `2^248`.
pub proof fn lemma_pow2_248()
    ensures
        pow2(248) == 0x100000000000000000000000000000000000000000000000000000000000000int,
{
    lemma2_to64();
    lemma2_to64_rest();
    lemma_pow2_adds(62, 62);
    assert(pow2(124) == 0x4000000000000000int * 0x4000000000000000int);
    lemma_pow2_adds(124, 124);
    assert(pow2(248) == 0x10000000000000000000000000000000int * 0x10000000000000000000000000000000int);
}

/// `2^256`.
pub proof fn lemma_pow2_256()
    ensures
        pow2(256) == 0x10000000000000000000000000000000000000000000000000000000000000000int,
{
    lemma2_to64();
    lemma2_to64_rest();
    lemma_pow2_adds(64, 64);
    assert(pow2(128) == 0x10000000000000000int * 0x10000000000000000int);
    lemma_pow2_adds(128, 128);
    assert(pow2(256) == 0x100000000000000000000000000000000int * 0x100000000000000000000000000000000int);
}

/// Byte strings of one length with one value are equal.
pub proof fn lemma_le_injective(a: Seq<u8>, b: Seq<u8>)
    requires
        a.len() == b.len(),
        le_value(a) == le_value(b),
    ensures
        a == b,
    decreases a.len(),
{
    if a.len() > 0 {
        let ta = a.subrange(1, a.len() as int);
        let tb = b.subrange(1, b.len() as int);
        lemma_le_injective(ta, tb);
        assert forall|i: int| 0 <= i < a.len() implies a[i] == b[i] by {
            if i > 0 {
                assert(ta[i - 1] == tb[i - 1]);
            }
        }
        assert(a =~= b);
    } else {
        assert(a =~= b);
    }
}

/// The `n` low bytes of `v`.
pub open spec fn le_bytes(v: int, n: nat) -> Seq<u8>
    decreases n,
{
    if n == 0 {
        Seq::empty()
    } else {
        seq![(v % 256) as u8] + le_bytes(v / 256, (n - 1) as nat)
    }
}

/// The bytes of a value give the value back.
pub proof fn lemma_le_bytes(v: int, n: nat)
    requires
        0 <= v < pow2(8 * n),
    ensures
        le_bytes(v, n).len() == n,
        le_value(le_bytes(v, n)) == v,
    decreases n,
{
    lemma2_to64();
    if n > 0 {
        let m = (n - 1) as nat;
        lemma_pow2_adds(8, 8 * m);
        assert(v / 256 < pow2(8 * m)) by {
            assert(v < 256 * pow2(8 * m));
        }
        lemma_le_bytes(v / 256, m);
        let b = le_bytes(v, n);
        assert(b.subrange(1, b.len() as int) =~= le_bytes(v / 256, m));
    }
}

/// A byte string is determined by its length and value.
pub proof fn lemma_le_bytes_unique(b: Seq<u8>, v: int, n: nat)
    requires
        b.len() == n,
        le_value(b) == v,
    ensures
        b == le_bytes(v, n),
{
    lemma_le_bound(b);
    lemma_le_bytes(v, n);
    lemma_le_injective(b, le_bytes(v, n));
}

/// The value of 32 bytes in terms of their four words.
pub proof fn lemma_le_words(b: Seq<u8>)
    requires
        b.len() == 32,
    ensures
        le_value(b) == le_value(b.subrange(0, 8)) + 0x10000000000000000 * le_value(b.subrange(8, 16))
            + 0x100000000000000000000000000000000int * le_value(b.subrange(16, 24))
            + 0x1000000000000000000000000000000000000000000000000int * le_value(b.subrange(24, 32)),
{
    let b0 = b.subrange(0, 8);
    let b1 = b.subrange(8, 16);
    let b2 = b.subrange(16, 24);
    let b3 = b.subrange(24, 32);
    assert(b =~= b0 + (b1 + (b2 + b3)));
    lemma2_to64();
    lemma_le_concat(b0, b1 + (b2 + b3), 0x10000000000000000);
    lemma_le_concat(b1, b2 + b3, 0x10000000000000000);
    lemma_le_concat(b2, b3, 0x10000000000000000);
}

/// The value of eight bytes.
pub proof fn lemma_le_8(b: Seq<u8>)
    requires
        b.len() == 8,
    ensures
        le_value(b) == b[0] + 0x100 * b[1] + 0x10000 * b[2] + 0x1000000 * b[3] + 0x100000000 * b[4]
            + 0x10000000000 * b[5] + 0x1000000000000 * b[6] + 0x100000000000000 * b[7],
{
    let t1 = b.subrange(1, 8);
    let t2 = t1.subrange(1, 7);
    let t3 = t2.subrange(1, 6);
    let t4 = t3.subrange(1, 5);
    let t5 = t4.subrange(1, 4);
    let t6 = t5.subrange(1, 3);
    let t7 = t6.subrange(1, 2);
    let t8 = t7.subrange(1, 1);
    assert(le_value(t8) == 0);
    assert(le_value(t7) == b[7]);
    assert(le_value(t6) == b[6] + 256 * le_value(t7));
    assert(le_value(t5) == b[5] + 256 * le_value(t6));
    assert(le_value(t4) == b[4] + 256 * le_value(t5));
    assert(le_value(t3) == b[3] + 256 * le_value(t4));
    assert(le_value(t2) == b[2] + 256 * le_value(t3));
    assert(le_value(t1) == b[1] + 256 * le_value(t2));
}

/// The 64-bit word at byte offset `at`.
pub fn load64(b: &[u8], at: usize) -> (r: u64)
    requires
        at + 8 <= b.len(),
    ensures
        r == le_value(b@.subrange(at as int, at + 8)),
{
    proof {
        lemma_le_8(b@.subrange(at as int, at + 8));
    }
    b[at] as u64 + 0x100 * (b[at + 1] as u64) + 0x10000 * (b[at + 2] as u64) + 0x1000000 * (b[at
        + 3] as u64) + 0x100000000 * (b[at + 4] as u64) + 0x10000000000 * (b[at + 5] as u64)
        + 0x1000000000000 * (b[at + 6] as u64) + 0x100000000000000 * (b[at + 7] as u64)
}

/// The bytes of a 64-bit word.
pub fn word_bytes(w: u64) -> (r: [u8; 8])
    ensures
        le_value(r@) == w,
{
    let r = [
        (w % 0x100) as u8,
        ((w / 0x100) % 0x100) as u8,
        ((w / 0x10000) % 0x100) as u8,
        ((w / 0x1000000) % 0x100) as u8,
        ((w / 0x100000000) % 0x100) as u8,
        ((w / 0x10000000000) % 0x100) as u8,
        ((w / 0x1000000000000) % 0x100) as u8,
        ((w / 0x100000000000000) % 0x100) as u8,
    ];
    proof {
        lemma_le_8(r@);
        let w1 = w / 0x100;
        let w2 = w1 / 0x100;
        let w3 = w2 / 0x100;
        let w4 = w3 / 0x100;
        let w5 = w4 / 0x100;
        let w6 = w5 / 0x100;
        let w7 = w6 / 0x100;
        assert(w / 0x10000 == w2);
        assert(w / 0x1000000 == w3);
        assert(w / 0x100000000 == w4);
        assert(w / 0x10000000000 == w5);
        assert(w / 0x1000000000000 == w6);
        assert(w / 0x100000000000000 == w7);
        assert(w7 < 0x100);
    }
    r
}

/// The bytes of four words.
pub fn words_bytes(w: [u64; 4]) -> (r: [u8; 32])
    ensures
        le_value(r@) == w[0] + 0x10000000000000000 * w[1] + 0x100000000000000000000000000000000int
            * w[2] + 0x1000000000000000000000000000000000000000000000000int * w[3],
{
    let a = word_bytes(w[0]);
    let b = word_bytes(w[1]);
    let c = word_bytes(w[2]);
    let d = word_bytes(w[3]);
    let r = [
        a[0], a[1], a[2], a[3], a[4], a[5], a[6], a[7],
        b[0], b[1], b[2], b[3], b[4], b[5], b[6], b[7],
        c[0], c[1], c[2], c[3], c[4], c[5], c[6], c[7],
        d[0], d[1], d[2], d[3], d[4], d[5], d[6], d[7],
    ];
    proof {
        assert(r@.subrange(0, 8) =~= a@);
        assert(r@.subrange(8, 16) =~= b@);
        assert(r@.subrange(16, 24) =~= c@);
        assert(r@.subrange(24, 32) =~= d@);
        lemma_le_words(r@);
    }
    r
}

} // verus!
