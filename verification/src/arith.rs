//! Division with a rest: steps of a fixed length along a distance.

use vstd::prelude::*;

verus! {

/// The least number of steps of length `b` that span `a`.
pub open spec fn div_ceil(a: int, b: int) -> int {
    (a + b - 1) / b
}

/// The lesser of two numbers.
pub open spec fn least(a: int, b: int) -> int {
    if a <= b {
        a
    } else {
        b
    }
}

/// The quotient `a / c` is the one multiple of `c` from which `a` is less
/// than `c` away, and the remainder is that distance.
pub proof fn lemma_quotient(a: int, c: int, j: int)
    requires
        c > 0,
    ensures
        a / c == j <==> j * c <= a < j * c + c,
        a % c == a - (a / c) * c,
{
    let q = a / c;
    assert(q * c <= a < q * c + c && a % c == a - q * c) by (nonlinear_arith)
        requires
            q == a / c,
            c > 0,
    ;
    assert(q == j <==> j * c <= a < j * c + c) by (nonlinear_arith)
        requires
            q * c <= a < q * c + c,
            c > 0,
    ;
}

/// Fewer than the spanning number of steps end before `n`, all others reach
/// it.
pub proof fn lemma_div_ceil_steps(n: int, c: int, k: int)
    requires
        c > 0,
        n >= 0,
        k >= 0,
    ensures
        k < div_ceil(n, c) <==> k * c < n,
{
    let q = div_ceil(n, c);
    assert(q * c <= n + c - 1 < (q + 1) * c) by (nonlinear_arith)
        requires
            q == (n + c - 1) / c,
            c > 0,
    ;
    assert(k < q <==> k * c < n) by (nonlinear_arith)
        requires
            q * c <= n + c - 1 < (q + 1) * c,
            c > 0,
            n >= 0,
            k >= 0,
    ;
}

/// Between the multiples of `c` that enclose `n` lies one count of steps.
pub proof fn lemma_div_ceil_unique(n: int, c: int, k: int)
    requires
        c > 0,
        n >= 0,
        k >= 0,
        k * c >= n,
        k == 0 || (k - 1) * c < n,
    ensures
        k == div_ceil(n, c),
{
    let q = div_ceil(n, c);
    assert(q * c <= n + c - 1 < (q + 1) * c) by (nonlinear_arith)
        requires
            q == (n + c - 1) / c,
            c > 0,
    ;
    assert(k == q) by (nonlinear_arith)
        requires
            q * c <= n + c - 1 < (q + 1) * c,
            k * c >= n,
            k == 0 || (k - 1) * c < n,
            c > 0,
            n >= 0,
            k >= 0,
    ;
}

/// Of the steps of length `c` that span `n`, all are whole but the last,
/// which is as long as the rest of `n` where `c` does not divide it.
pub proof fn lemma_last_step(n: int, c: int, k: int)
    requires
        c > 0,
        n >= 0,
        0 <= k < div_ceil(n, c),
    ensures
        least(c, n - k * c) == if k == div_ceil(n, c) - 1 && n % c != 0 {
            n % c
        } else {
            c
        },
{
    let q = div_ceil(n, c);
    lemma_div_ceil_steps(n, c, k);
    lemma_div_ceil_steps(n, c, k + 1);
    lemma_quotient(n, c, k);
    lemma_quotient(n, c, k + 1);
    assert((k + 1) * c == k * c + c) by (nonlinear_arith);
    if k == q - 1 && n % c == 0 {
        let m = n / c;
        assert(m == k + 1) by (nonlinear_arith)
            requires
                n == m * c,
                k * c < n <= k * c + c,
                c > 0,
        ;
    }
}

} // verus!
