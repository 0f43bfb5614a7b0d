//! Factorials and binomial coefficients.
use vstd::prelude::*;

verus! {

/// The factorial of `n`: `n * (n - 1) * ... * 1`.
pub open spec fn factorial(n: nat) -> nat
    decreases n,
{
    if n == 0 {
        1
    } else {
        n * factorial((n - 1) as nat)
    }
}

/// The number of ways to pick `m` things out of `n`, by Pascal's rule.
pub open spec fn binomial(n: nat, m: nat) -> nat
    decreases n,
{
    if m == 0 {
        1
    } else if n == 0 {
        0
    } else {
        binomial((n - 1) as nat, (m - 1) as nat) + binomial((n - 1) as nat, m)
    }
}

/// Two to the power `n`.
pub open spec fn pow2(n: nat) -> nat
    decreases n,
{
    if n == 0 {
        1
    } else {
        2 * pow2((n - 1) as nat)
    }
}

/// A binomial coefficient of `n` is at most two to the power `n`.
pub proof fn lemma_binomial_bound(n: nat, m: nat)
    ensures
        binomial(n, m) <= pow2(n),
    decreases n,
{
    lemma_pow2_monotonic(0, n);
    if m != 0 && n != 0 {
        lemma_binomial_bound((n - 1) as nat, (m - 1) as nat);
        lemma_binomial_bound((n - 1) as nat, m);
    }
}

/// Powers of two grow.
pub proof fn lemma_pow2_monotonic(a: nat, b: nat)
    requires
        a <= b,
    ensures
        pow2(a) <= pow2(b),
        pow2(a) >= 1,
    decreases b,
{
    if a < b {
        lemma_pow2_monotonic(a, (b - 1) as nat);
    } else if a > 0 {
        lemma_pow2_monotonic((a - 1) as nat, (a - 1) as nat);
    }
}

/// There is no way to pick more things than there are.
pub proof fn lemma_binomial_zero(n: nat, m: nat)
    requires
        n < m,
    ensures
        binomial(n, m) == 0,
    decreases n,
{
    if n != 0 {
        lemma_binomial_zero((n - 1) as nat, (m - 1) as nat);
        lemma_binomial_zero((n - 1) as nat, m);
    }
}

/// The factorial of `n`, for `n` up to 12, whose factorial is the last to fit in 32 bits.
pub fn fac(n: usize) -> (f: usize)
    requires
        n <= 12,
    ensures
        f == factorial(n as nat),
{
    let mut f: usize = 1;
    let mut i: usize = 0;
    while i < n
        invariant
            i <= n <= 12,
            f == factorial(i as nat),
            f <= 479001600,
        decreases n - i,
    {
        proof {
            lemma_factorial_bound((i + 1) as nat);
            assert(factorial((i + 1) as nat) == (i + 1) * factorial(i as nat));
        }
        i += 1;
        f = f * i;
    }
    f
}

/// The factorials up to that of 12 fit in 32 bits.
pub proof fn lemma_factorial_bound(n: nat)
    requires
        n <= 12,
    ensures
        factorial(n) <= 479001600,
        n == 4 ==> factorial(n) == 24,
        n == 8 ==> factorial(n) == 40320,
{
    reveal_with_fuel(factorial, 2);
    assert(factorial(0) == 1);
    assert(factorial(1) == 1);
    assert(factorial(2) == 2);
    assert(factorial(3) == 6);
    assert(factorial(4) == 24);
    assert(factorial(5) == 120);
    assert(factorial(6) == 720);
    assert(factorial(7) == 5040);
    assert(factorial(8) == 40320);
    assert(factorial(9) == 362880);
    assert(factorial(10) == 3628800);
    assert(factorial(11) == 39916800);
    assert(factorial(12) == 479001600);
}

/// `n` choose `m`: the number of ways to pick `m` things out of `n`, for `n`
/// up to 30, so that the whole of Pascal's triangle down to row `n` fits in
/// 32 bits.
pub fn binomial_coefficient(n: usize, m: usize) -> (c: usize)
    requires
        n <= 30,
    ensures
        c == binomial(n as nat, m as nat),
{
    if m > n {
        proof {
            lemma_binomial_zero(n as nat, m as nat);
        }
        return 0;
    }
    // The row of Pascal's triangle that has been reached, up to the entry `m`.
    let mut row: Vec<usize> = Vec::new();
    let mut j: usize = 0;
    while j <= m
        invariant
            j <= m + 1,
            m <= n <= 30,
            row.len() == j,
            forall|k: int| 0 <= k < j ==> row[k] == binomial(0, k as nat),
        decreases m + 1 - j,
    {
        row.push(if j == 0 {
            1
        } else {
            0
        });
        j += 1;
    }
    let mut i: usize = 0;
    while i < n
        invariant
            i <= n <= 30,
            m <= n,
            row.len() == m + 1,
            forall|k: int| 0 <= k <= m ==> row[k] == binomial(i as nat, k as nat),
        decreases n - i,
    {
        let mut j: usize = m;
        while j > 0
            invariant
                i < n <= 30,
                j <= m,
                row.len() == m + 1,
                forall|k: int| 0 <= k <= j ==> row[k] == binomial(i as nat, k as nat),
                forall|k: int| j < k <= m ==> row[k] == binomial((i + 1) as nat, k as nat),
            decreases j,
        {
            proof {
                lemma_binomial_bound((i + 1) as nat, j as nat);
                lemma_pow2_monotonic((i + 1) as nat, 30);
                assert(pow2(30) == 1073741824) by {
                    reveal_with_fuel(pow2, 31);
                }
            }
            let sum = row[j] + row[j - 1];
            row[j] = sum;
            j -= 1;
        }
        i += 1;
    }
    row[m]
}

} // verus!
