//! Primes: inverses, Fermat's theorem, and a primality criterion.
use vstd::arithmetic::div_mod::*;
use vstd::arithmetic::mul::*;
use vstd::arithmetic::power::*;
use vstd::prelude::*;
use vstd::set_lib::*;

verus! {

/// `a` divides `n`.
pub open spec fn divides(a: int, n: int) -> bool {
    n % a == 0
}

/// `n` is prime.
pub open spec fn is_prime(n: int) -> bool {
    n > 1 && forall|a: int| 1 < a < n ==> !#[trigger] divides(a, n)
}

/// Adding a multiple of the modulus keeps the residue.
proof fn lemma_shift(a: int, k: int, n: int)
    requires
        n > 0,
    ensures
        (a + n * k) % n == a % n,
        (a - n * k) % n == a % n,
{
    lemma_mod_multiples_vanish(k, a, n);
    lemma_mod_multiples_vanish(-k, a, n);
    assert(n * (-k) == -(n * k)) by (nonlinear_arith);
}

/// A multiplicative inverse of `a` modulo the prime `n`.
pub proof fn lemma_inverse(a: int, n: int) -> (x: int)
    requires
        is_prime(n),
        0 < a < n,
    ensures
        (a * x) % n == 1,
        0 <= x < n,
    decreases a,
{
    if a == 1 {
        lemma_small_mod(1, n as nat);
        1
    } else {
        let r = n % a;
        let q = n / a;
        assert(!divides(a, n));
        lemma_fundamental_div_mod(n, a);
        lemma_mod_bound(n, a);
        let y = lemma_inverse(r, n);
        let x = -q * y;
        assert(a * x == r * y - n * y) by (nonlinear_arith)
            requires
                n == a * q + r,
                x == -q * y,
        ;
        lemma_shift(r * y, y, n);
        lemma_mul_mod_noop_right(a, x, n);
        lemma_mod_bound(x, n);
        x % n
    }
}

/// A prime that divides a product divides one of its factors.
pub proof fn lemma_euclid(a: int, b: int, n: int)
    requires
        is_prime(n),
        (a * b) % n == 0,
    ensures
        a % n == 0 || b % n == 0,
{
    if a % n != 0 {
        lemma_mod_bound(a, n);
        let x = lemma_inverse(a % n, n);
        // b = (a * x) * b = x * (a * b) = 0
        lemma_mul_mod_noop_left(a, x, n);
        lemma_mul_mod_noop_left(a * x, b, n);
        assert((a * x) * b == x * (a * b)) by (nonlinear_arith);
        lemma_mul_mod_noop_right(x, a * b, n);
        lemma_small_mod(0, n as nat);
        assert(((a * x) % n) * b == b);
    }
}

/// The product of a finite set of integers.
spec fn product(s: Set<int>) -> int
    decreases s.len(),
    when s.finite()
{
    if s.len() == 0 {
        1
    } else {
        s.choose() * product(s.remove(s.choose()))
    }
}

proof fn lemma_product_remove(s: Set<int>, x: int)
    requires
        s.finite(),
        s.contains(x),
    ensures
        product(s) == x * product(s.remove(x)),
    decreases s.len(),
{
    lemma_set_empty_equivalency_len(s);
    assert(s.len() != 0) by {
        if s.len() == 0 {
            assert(s =~= Set::empty());
        }
    }
    let c = s.choose();
    if x != c {
        lemma_product_remove(s.remove(c), x);
        lemma_product_remove(s.remove(x), c);
        assert(s.remove(c).remove(x) =~= s.remove(x).remove(c));
        let rest = product(s.remove(x).remove(c));
        assert(c * (x * rest) == x * (c * rest)) by (nonlinear_arith);
    }
}

proof fn lemma_product_insert(s: Set<int>, x: int)
    requires
        s.finite(),
        !s.contains(x),
    ensures
        product(s.insert(x)) == x * product(s),
{
    lemma_product_remove(s.insert(x), x);
    assert(s.insert(x).remove(x) =~= s);
}

/// The first `m` multiples of `a` modulo `n`.
spec fn multiples(a: int, n: int, m: nat) -> Set<int>
    decreases m,
{
    if m == 0 {
        Set::empty()
    } else {
        multiples(a, n, (m - 1) as nat).insert((a * (m as int)) % n)
    }
}

/// `m!`
spec fn factorial(m: nat) -> int
    decreases m,
{
    if m == 0 {
        1
    } else {
        m * factorial((m - 1) as nat)
    }
}

proof fn lemma_range_product(m: nat)
    ensures
        product(set_int_range(1, m as int + 1)) == factorial(m),
    decreases m,
{
    lemma_int_range(1, m as int + 1);
    if m == 0 {
        assert(set_int_range(1, 1) =~= Set::empty());
    } else {
        lemma_range_product((m - 1) as nat);
        lemma_int_range(1, m as int);
        assert(set_int_range(1, m as int + 1) =~= set_int_range(1, m as int).insert(m as int));
        lemma_product_insert(set_int_range(1, m as int), m as int);
    }
}

/// Distinct factors below the prime give distinct, nonzero multiples.
proof fn lemma_multiples(a: int, n: int, m: nat)
    requires
        is_prime(n),
        a % n != 0,
        m < n,
    ensures
        multiples(a, n, m).finite(),
        multiples(a, n, m).len() == m,
        multiples(a, n, m).subset_of(set_int_range(1, n)),
        forall|y: int|
            multiples(a, n, m).contains(y) ==> exists|k: int|
                1 <= k <= m && y == #[trigger] (a * k) % n,
        product(multiples(a, n, m)) % n == (pow(a, m) * factorial(m)) % n,
    decreases m,
{
    if m == 0 {
        lemma_pow0(a);
    } else {
        let k = (m - 1) as nat;
        let prev = multiples(a, n, k);
        let x = (a * (m as int)) % n;
        lemma_multiples(a, n, k);
        lemma_mod_bound(a * (m as int), n);
        if x == 0 {
            lemma_euclid(a, m as int, n);
            lemma_small_mod(m, n as nat);
        }
        if prev.contains(x) {
            let j = choose|j: int| 1 <= j <= k && x == #[trigger] (a * j) % n;
            // a * (m - j) would vanish
            lemma_mod_equivalence(a * (m as int), a * j, n);
            assert(a * (m as int) - a * j == a * (m - j)) by (nonlinear_arith);
            lemma_euclid(a, m - j, n);
            lemma_small_mod((m - j) as nat, n as nat);
        }
        lemma_product_insert(prev, x);
        let f = factorial(k);
        let q = product(prev);
        // x * q = (a * m) * (a^k * k!) = a^m * m!
        lemma_mul_mod_noop(a * (m as int), q, n);
        lemma_mul_mod_noop_left(a * (m as int), q, n);
        lemma_mul_mod_noop_right(a * (m as int), q, n);
        lemma_mul_mod_noop_right(a * (m as int), pow(a, k) * f, n);
        reveal(pow);
        assert(pow(a, m) == a * pow(a, k));
        let w = pow(a, k);
        assert((a * (m as int)) * (w * f) == (a * w) * ((m as int) * f)) by (nonlinear_arith);
    }
}

proof fn lemma_factorial_coprime(m: nat, n: int)
    requires
        is_prime(n),
        m < n,
    ensures
        factorial(m) % n != 0,
    decreases m,
{
    if m == 0 {
        lemma_small_mod(1, n as nat);
    } else {
        lemma_factorial_coprime((m - 1) as nat, n);
        if factorial(m) % n == 0 {
            lemma_euclid(m as int, factorial((m - 1) as nat), n);
            lemma_small_mod(m, n as nat);
        }
    }
}

/// Fermat: `a^(n-1) = 1` modulo a prime `n` that does not divide `a`.
pub proof fn lemma_fermat(a: int, n: int)
    requires
        is_prime(n),
        a % n != 0,
    ensures
        pow(a, (n - 1) as nat) % n == 1,
{
    let m = (n - 1) as nat;
    let s = multiples(a, n, m);
    lemma_multiples(a, n, m);
    lemma_int_range(1, n);
    lemma_subset_equality(s, set_int_range(1, n));
    lemma_range_product(m);
    let f = factorial(m);
    let w = pow(a, m);
    lemma_factorial_coprime(m, n);
    lemma_mod_equivalence(w * f, f, n);
    assert((w - 1) * f == w * f - f) by (nonlinear_arith);
    lemma_euclid(w - 1, f, n);
    lemma_mod_equivalence(w, 1, n);
    lemma_small_mod(1, n as nat);
}

/// The least divisor above one, searched from `k` upwards.
proof fn lemma_least_divisor(n: int, k: int) -> (r: int)
    requires
        1 < k <= n,
        forall|a: int| 1 < a < k ==> !#[trigger] divides(a, n),
    ensures
        k <= r <= n,
        divides(r, n),
        forall|a: int| 1 < a < r ==> !#[trigger] divides(a, n),
    decreases n - k,
{
    if divides(k, n) {
        k
    } else {
        if k == n {
            lemma_mod_self_0(n);
        }
        lemma_least_divisor(n, k + 1)
    }
}

/// A number that is not prime has a prime divisor no larger than its square root.
pub proof fn lemma_small_prime_divisor(n: int) -> (r: int)
    requires
        n > 1,
        !is_prime(n),
    ensures
        is_prime(r),
        divides(r, n),
        r * r <= n,
{
    let r = lemma_least_divisor(n, 2);
    let m = n / r;
    lemma_fundamental_div_mod(n, r);
    assert(r < n) by {
        let a = choose|a: int| 1 < a < n && divides(a, n);
        assert(r <= a);
    }
    assert forall|a: int| 1 < a < r implies !#[trigger] divides(a, r) by {
        if divides(a, r) {
            lemma_fundamental_div_mod(r, a);
            let k = r / a;
            assert(n == a * (k * m)) by (nonlinear_arith)
                requires
                    n == r * m,
                    r == a * k,
            ;
            lemma_mod_multiples_basic(k * m, a);
            assert(a * (k * m) == (k * m) * a) by (nonlinear_arith);
            assert(divides(a, n));
        }
    }
    assert(1 < m) by (nonlinear_arith)
        requires
            n == r * m,
            1 < r < n,
    ;
    assert(m < n) by (nonlinear_arith)
        requires
            n == r * m,
            1 < r < n,
            1 < m,
    ;
    assert(divides(m, n)) by {
        lemma_mod_multiples_basic(r, m);
    }
    assert(r <= m);
    assert(r * r <= n) by (nonlinear_arith)
        requires
            n == r * m,
            0 < r <= m,
    ;
    r
}

/// If `b^l = 1` and `b - 1` is invertible modulo `n`, then `l` divides `r - 1` for every prime
/// divisor `r` of `n`.
pub proof fn lemma_order_divides(n: int, r: int, l: int, b: int, inv: int)
    requires
        n > 1,
        is_prime(r),
        divides(r, n),
        is_prime(l),
        pow(b, l as nat) % n == 1,
        ((b - 1) * inv) % n == 1,
    ensures
        (r - 1) % l == 0,
{
    // the two facts also hold modulo r
    lemma_residue_of_divisor(pow(b, l as nat), n, r);
    lemma_residue_of_divisor((b - 1) * inv, n, r);
    lemma_small_mod(1, r as nat);
    assert((b - 1) % r != 0) by {
        if (b - 1) % r == 0 {
            lemma_mul_mod_noop_left(b - 1, inv, r);
            lemma_small_mod(0, r as nat);
        }
    }
    assert(b % r != 0) by {
        if b % r == 0 {
            lemma_pow_mod_noop(b, l as nat, r);
            lemma0_pow(l as nat);
            lemma_small_mod(0, r as nat);
        }
    }
    if (r - 1) % l != 0 {
        lemma_mod_bound(r - 1, l);
        let v = lemma_inverse((r - 1) % l, l);
        lemma_mul_mod_noop_left(r - 1, v, l);
        let m = (r - 1) * v;
        let u = m / l;
        lemma_fundamental_div_mod(m, l);
        assert(m == l * u + 1);
        assert(0 <= m) by (nonlinear_arith)
            requires
                m == (r - 1) * v,
                r > 1,
                v >= 0,
        ;
        assert(0 <= u) by (nonlinear_arith)
            requires
                m == l * u + 1,
                0 <= m,
                l > 1,
        ;
        // b^m = (b^(r-1))^v = 1
        lemma_fermat(b, r);
        lemma_pow_multiplies(b, (r - 1) as nat, v as nat);
        lemma_pow_mod_noop(pow(b, (r - 1) as nat), v as nat, r);
        lemma1_pow(v as nat);
        // b^m = (b^l)^u * b = b
        lemma_pow_multiplies(b, l as nat, u as nat);
        lemma_pow_mod_noop(pow(b, l as nat), u as nat, r);
        lemma1_pow(u as nat);
        lemma_pow_adds(b, (l * u) as nat, 1);
        lemma_pow1(b);
        lemma_mul_mod_noop_left(pow(b, (l * u) as nat), b, r);
        assert((l as nat) * (u as nat) == (l * u) as nat);
        assert(((r - 1) as nat) * (v as nat) == m as nat);
        assert((l * u) as nat + 1 == m as nat);
        let w = pow(b, (l * u) as nat);
        assert(pow(b, m as nat) % r == 1);
        assert(w % r == 1);
        assert(pow(b, m as nat) == w * b);
        assert((w * b) % r == ((w % r) * b) % r);
        assert((1 * b) % r == b % r);
        lemma_mod_equivalence(b, 1, r);
    }
}

/// A residue of one modulo `n` is one modulo every divisor of `n`.
proof fn lemma_residue_of_divisor(x: int, n: int, r: int)
    requires
        n > 1,
        r > 1,
        divides(r, n),
        x % n == 1,
    ensures
        x % r == 1,
{
    lemma_fundamental_div_mod(x, n);
    lemma_fundamental_div_mod(n, r);
    let k = n / r;
    let y = x / n;
    assert(x == r * (k * y) + 1) by (nonlinear_arith)
        requires
            x == n * y + 1,
            n == r * k,
    ;
    lemma_shift(1, k * y, r);
    lemma_small_mod(1, r as nat);
}

/// A multiple of `f` and of a prime `l` that does not divide `f` is a multiple of `f * l`.
pub proof fn lemma_combine_divisors(m: int, f: int, l: int)
    requires
        f > 0,
        is_prime(l),
        m % f == 0,
        m % l == 0,
        f % l != 0,
    ensures
        m % (f * l) == 0,
{
    lemma_fundamental_div_mod(m, f);
    let k = m / f;
    lemma_euclid(f, k, l);
    lemma_fundamental_div_mod(k, l);
    let j = k / l;
    assert(m == (f * l) * j) by (nonlinear_arith)
        requires
            m == f * k,
            k == l * j,
    ;
    assert(f * l > 0) by (nonlinear_arith)
        requires
            f > 0,
            l > 0,
    ;
    lemma_mod_multiples_basic(j, f * l);
    assert((f * l) * j == j * (f * l)) by (nonlinear_arith);
}

/// A prime divisor `r` with `f` dividing `r - 1` exceeds `f`, so none is small when
/// `f * f >= n`.
pub proof fn lemma_divisor_too_large(n: int, r: int, f: int)
    requires
        f > 0,
        r > 1,
        (r - 1) % f == 0,
        f * f >= n,
    ensures
        r * r > n,
{
    lemma_fundamental_div_mod(r - 1, f);
    let k = (r - 1) / f;
    assert(k >= 1) by (nonlinear_arith)
        requires
            r - 1 == f * k,
            r > 1,
            f > 0,
    ;
    assert(r > f) by (nonlinear_arith)
        requires
            r - 1 == f * k,
            k >= 1,
            f > 0,
    ;
    assert(r * r > f * f) by (nonlinear_arith)
        requires
            r > f,
            f > 0,
    ;
}

/// One squaring in the computation of a power modulo `n`.
pub proof fn lemma_square_step(n: int, b: int, e: nat, x: int, y: int) -> (f: nat)
    requires
        n > 1,
        pow(b, e) % n == x,
        (x * x) % n == y,
    ensures
        f == 2 * e,
        pow(b, f) % n == y,
{
    lemma_pow_adds(b, e, e);
    lemma_mul_mod_noop(pow(b, e), pow(b, e), n);
    2 * e
}

/// One squaring and multiplication in the computation of a power modulo `n`.
pub proof fn lemma_square_multiply_step(n: int, b: int, e: nat, x: int, y: int) -> (f: nat)
    requires
        n > 1,
        pow(b, e) % n == x,
        (x * x * b) % n == y,
    ensures
        f == 2 * e + 1,
        pow(b, f) % n == y,
{
    let w = pow(b, e);
    lemma_pow_adds(b, e, e);
    lemma_pow_adds(b, e + e, 1);
    lemma_pow1(b);
    lemma_mul_mod_noop(w, w, n);
    lemma_mul_mod_noop_left(w * w, b, n);
    lemma_mul_mod_noop_left(x * x, b, n);
    2 * e + 1
}

} // verus!
