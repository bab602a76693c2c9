//! Small arithmetic helpers: sums, powers of three, the greatest common
//! divisor, binomial coefficients, and Fibonacci numbers.

use vstd::prelude::*;

verus! {

/// The greatest common divisor, defined by Euclid's recursion.
pub open spec fn gcd_spec(a: nat, b: nat) -> nat
    decreases b,
{
    if b == 0 {
        a
    } else {
        gcd_spec(b, a % b)
    }
}

/// Returns the greatest common divisor of two non-negative integers.
pub fn gcd(lhs: u64, rhs: u64) -> (r: u64)
    ensures
        r == gcd_spec(lhs as nat, rhs as nat),
    decreases rhs,
{
    if rhs == 0 {
        return lhs;
    }
    gcd(rhs, lhs % rhs)
}

/// The sum of the elements of `s`.
pub open spec fn sum_spec(s: Seq<u64>) -> int
    decreases s.len(),
{
    if s.len() == 0 {
        0
    } else {
        sum_spec(s.drop_last()) + s.last()
    }
}

/// Returns the sum of the given array. The sum must not overflow.
pub fn sum_array(input: &[u64]) -> (r: u64)
    requires
        sum_spec(input@) <= u64::MAX,
    ensures
        r == sum_spec(input@),
{
    let mut ans: u64 = 0;
    let mut i: usize = 0;
    while i < input.len()
        invariant
            i <= input@.len(),
            ans == sum_spec(input@.take(i as int)),
            sum_spec(input@) <= u64::MAX,
        decreases input@.len() - i,
    {
        proof {
            lemma_sum_take_bound(input@, i as int + 1);
            assert(input@.take(i as int + 1).drop_last() =~= input@.take(i as int));
            assert(input@.take(i as int + 1).last() == input@[i as int]);
        }
        ans = ans + input[i];
        i = i + 1;
    }
    proof {
        assert(input@.take(input@.len() as int) =~= input@);
    }
    ans
}

/// Every element is non-negative, so partial sums stay below the total.
proof fn lemma_sum_take_bound(s: Seq<u64>, i: int)
    requires
        0 <= i <= s.len(),
    ensures
        sum_spec(s.take(i)) <= sum_spec(s),
    decreases s.len() - i,
{
    if i < s.len() {
        lemma_sum_take_bound(s, i + 1);
        assert(s.take(i + 1).drop_last() =~= s.take(i));
        assert(sum_spec(s.take(i + 1)) == sum_spec(s.take(i)) + s[i]);
    } else {
        assert(s.take(i) =~= s);
    }
}

/// `3^m`, the `m`-th power of three.
pub open spec fn pow3(m: nat) -> nat
    decreases m,
{
    if m == 0 {
        1
    } else {
        3 * pow3((m - 1) as nat)
    }
}

/// Returns the smallest integer of the form `3^m` that is greater than or
/// equal to `n`. To rule out overflow, `n` may not exceed the largest power
/// of three a `u64` holds, `3^40`.
pub fn up3(n: u64) -> (r: u64)
    requires
        n <= pow3(40),
    ensures
        exists|m: nat| r == #[trigger] pow3(m) && (m == 0 || pow3((m - 1) as nat) < n),
        r >= n,
{
    let mut pow: u64 = 1;
    let ghost mut m: nat = 0;
    while pow < n
        invariant
            pow >= 1,
            pow == pow3(m),
            m == 0 || pow3((m - 1) as nat) < n,
            m <= 40,
            n <= pow3(40),
        decreases 40 - m,
    {
        proof {
            if m >= 40 {
                lemma_pow3_mono(40, m);
            }
            lemma_pow3_mono(m + 1, 40);
            lemma_pow3_40();
        }
        pow = pow * 3;
        proof {
            m = m + 1;
        }
    }
    pow
}

/// Powers of three grow with the exponent.
proof fn lemma_pow3_mono(a: nat, b: nat)
    requires
        a <= b,
    ensures
        pow3(a) <= pow3(b),
    decreases b - a,
{
    if a < b {
        lemma_pow3_mono(a, (b - 1) as nat);
        assert(pow3((b - 1) as nat) <= 3 * pow3((b - 1) as nat));
    }
}

/// The largest power of three a `u64` holds.
proof fn lemma_pow3_40()
    ensures
        pow3(40) == 12157665459056928801,
{
    reveal_with_fuel(pow3, 41);
}

/// Returns the elementwise pairing of the two vectors; elements of the longer
/// one without a partner are dropped.
pub fn zip(lhs: Vec<u64>, rhs: Vec<u64>) -> (r: Vec<(u64, u64)>)
    ensures
        r@.len() == vstd::math::min(lhs@.len() as int, rhs@.len() as int),
        forall|i: int| 0 <= i < r@.len() ==> r@[i] == (lhs@[i], rhs@[i]),
{
    let n = if lhs.len() < rhs.len() {
        lhs.len()
    } else {
        rhs.len()
    };
    let mut r: Vec<(u64, u64)> = Vec::new();
    let mut i: usize = 0;
    while i < n
        invariant
            n == vstd::math::min(lhs@.len() as int, rhs@.len() as int),
            i <= n,
            r@.len() == i,
            forall|j: int| 0 <= j < i ==> r@[j] == (lhs@[j], rhs@[j]),
        decreases n - i,
    {
        r.push((lhs[i], rhs[i]));
        i = i + 1;
    }
    r
}

/// The binomial coefficient, by Pascal's rule.
pub open spec fn binom(n: nat, k: nat) -> nat
    decreases n,
{
    if k == 0 {
        1
    } else if k > n {
        0
    } else {
        binom((n - 1) as nat, (k - 1) as nat) + binom((n - 1) as nat, k)
    }
}

/// The multiplicative step of Pascal's triangle:
/// `i * binom(n, i) == (n + 1 - i) * binom(n, i - 1)`.
proof fn lemma_binom_mult(n: nat, i: nat)
    requires
        1 <= i <= n,
    ensures
        i * binom(n, i) == (n + 1 - i) * binom(n, (i - 1) as nat),
    decreases n,
{
    let b1 = binom((n - 1) as nat, (i - 1) as nat);
    if n == 1 {
        assert(binom(1, 1) == binom(0, 0) + binom(0, 1));
    } else {
        // The left side reduces to n * binom(n - 1, i - 1).
        if i <= n - 1 {
            lemma_binom_mult((n - 1) as nat, i);
            let b2 = binom((n - 1) as nat, i);
            assert(binom(n, i) == b1 + b2);
            assert(i * (b1 + b2) == i * b1 + i * b2) by (nonlinear_arith);
            assert(i * binom(n, i) == i * b1 + (n - i) * b1);
            assert(i * b1 + (n - i) * b1 == n * b1) by (nonlinear_arith);
        } else {
            assert(binom(n, i) == b1 + binom((n - 1) as nat, i));
            assert(binom((n - 1) as nat, i) == 0);
            assert(i * binom(n, i) == n * b1);
        }
        // The right side reduces to the same product.
        if i >= 2 {
            lemma_binom_mult((n - 1) as nat, (i - 1) as nat);
            let b0 = binom((n - 1) as nat, (i - 2) as nat);
            assert((i - 1) * b1 == (n + 1 - i) * b0);
            assert(binom(n, (i - 1) as nat) == b0 + b1);
            assert((n + 1 - i) * (b0 + b1) == (n + 1 - i) * b0 + (n + 1 - i) * b1)
                by (nonlinear_arith);
            assert((n + 1 - i) * binom(n, (i - 1) as nat) == (i - 1) * b1 + (n + 1 - i) * b1);
            assert((i - 1) * b1 + (n + 1 - i) * b1 == n * b1) by (nonlinear_arith);
        } else {
            assert(binom(n, 0) == 1);
            assert(binom(n, 1) == binom((n - 1) as nat, 0) + binom((n - 1) as nat, 1));
            lemma_binom_row_one(n);
        }
    }
}

/// `binom(n, 1) == n`.
proof fn lemma_binom_row_one(n: nat)
    ensures
        binom(n, 1) == n,
    decreases n,
{
    if n == 0 {
        assert(binom(0, 1) == 0);
    } else {
        lemma_binom_row_one((n - 1) as nat);
        assert(binom(n, 1) == binom((n - 1) as nat, 0) + binom((n - 1) as nat, 1));
    }
}

/// Returns the row `n` of Pascal's triangle: `binom(n, 0)` through
/// `binom(n, n)`. No entry of the row may exceed a `u64`.
pub fn chooses(n: u64) -> (r: Vec<u64>)
    requires
        n < u64::MAX,
        forall|k: nat| k <= n ==> #[trigger] binom(n as nat, k) <= u64::MAX,
    ensures
        r@.len() == n + 1,
        forall|k: int| 0 <= k <= n ==> r@[k] == binom(n as nat, k as nat),
{
    let mut v: Vec<u64> = Vec::new();
    v.push(1u64);
    let mut last: u128 = 1;
    let mut i: u64 = 1;
    while i <= n
        invariant
            n < u64::MAX,
            1 <= i <= n + 1,
            v@.len() == i,
            last == binom(n as nat, (i - 1) as nat),
            forall|k: int| 0 <= k < i ==> v@[k] == binom(n as nat, k as nat),
            forall|k: nat| k <= n ==> #[trigger] binom(n as nat, k) <= u64::MAX,
        decreases n + 1 - i,
    {
        let factor = (n - i) + 1;
        proof {
            lemma_binom_mult(n as nat, i as nat);
            assert(last * factor <= u64::MAX * u64::MAX) by (nonlinear_arith)
                requires
                    last <= u64::MAX && factor <= u64::MAX,
            ;
            assert(last as int * factor as int == (n + 1 - i) * binom(n as nat, (i - 1) as nat))
                by (nonlinear_arith)
                requires
                    last == binom(n as nat, (i - 1) as nat) && factor == n + 1 - i,
            ;
            assert((last * factor) as int == i as int * binom(n as nat, i as nat));
            vstd::arithmetic::div_mod::lemma_div_multiples_vanish(
                binom(n as nat, i as nat) as int,
                i as int,
            );
        }
        last = last * (factor as u128) / (i as u128);
        v.push(last as u64);
        i = i + 1;
    }
    v
}

/// The Fibonacci numbers: 0, 1, 1, 2, 3, 5, ...
pub open spec fn fib(n: nat) -> nat
    decreases n,
{
    if n == 0 {
        0
    } else if n == 1 {
        1
    } else {
        fib((n - 1) as nat) + fib((n - 2) as nat)
    }
}

/// Fibonacci numbers grow with the index.
proof fn lemma_fib_mono(a: nat, b: nat)
    requires
        a <= b,
    ensures
        fib(a) <= fib(b),
    decreases b - a,
{
    if a < b {
        lemma_fib_mono(a, (b - 1) as nat);
        if b >= 2 {
            assert(fib(b) == fib((b - 1) as nat) + fib((b - 2) as nat));
        }
    }
}

/// Calculates the Fibonacci number one past `n`: the sequence starts with
/// `fibonacci(0) == fibonacci(1) == 1`. The result must fit in a `u64`.
pub fn fibonacci(n: u64) -> (r: u64)
    requires
        fib(n as nat + 1) <= u64::MAX,
    ensures
        r == fib(n as nat + 1),
{
    let mut a: u64 = 0;
    let mut b: u64 = 1;
    let mut i: u64 = 0;
    while i < n
        invariant
            i <= n,
            a == fib(i as nat),
            b == fib(i as nat + 1),
            fib(n as nat + 1) <= u64::MAX,
        decreases n - i,
    {
        proof {
            lemma_fib_mono(i as nat + 2, n as nat + 1);
        }
        let next = a + b;
        a = b;
        b = next;
        i = i + 1;
    }
    b
}

} // verus!
