//! Products of ranges and Fibonacci numbers on `usize`.

use vstd::prelude::*;

verus! {

/// The product of the integers `i` with `lo <= i < hi`; `1` where there are none.
pub open spec fn range_product(lo: nat, hi: nat) -> nat
    decreases hi,
{
    if hi <= lo {
        1
    } else {
        range_product(lo, (hi - 1) as nat) * ((hi - 1) as nat)
    }
}

/// `n!`, the product of `1, 2, .., n`.
pub open spec fn factorial(n: nat) -> nat
    decreases n,
{
    if n == 0 {
        1
    } else {
        n * factorial((n - 1) as nat)
    }
}

/// The Fibonacci numbers in their usual numbering: `0, 1, 1, 2, 3, 5, ..`.
pub open spec fn fib(n: nat) -> nat
    decreases n,
{
    if n == 0 {
        0
    } else if n == 1 {
        1
    } else {
        fib((n - 1) as nat) + fib((n - 2) as nat)
    }
}

/// A range product is at least 1 once its lower end is.
pub proof fn lemma_range_product_positive(lo: nat, hi: nat)
    requires
        lo >= 1,
    ensures
        range_product(lo, hi) >= 1,
    decreases hi,
{
    if hi > lo {
        lemma_range_product_positive(lo, (hi - 1) as nat);
        assert(range_product(lo, (hi - 1) as nat) * ((hi - 1) as nat) >= 1) by (nonlinear_arith)
            requires
                range_product(lo, (hi - 1) as nat) >= 1,
                (hi - 1) as nat >= 1,
        ;
    }
}

/// Widening a range upwards never shrinks its product, once its lower end is at least 1.
pub proof fn lemma_range_product_monotonic(lo: nat, mid: nat, hi: nat)
    requires
        lo >= 1,
        mid <= hi,
    ensures
        range_product(lo, mid) <= range_product(lo, hi),
    decreases hi,
{
    if mid < hi {
        lemma_range_product_monotonic(lo, mid, (hi - 1) as nat);
        if hi > lo {
            lemma_range_product_positive(lo, (hi - 1) as nat);
            assert(range_product(lo, (hi - 1) as nat) <= range_product(lo, (hi - 1) as nat) * ((hi
                - 1) as nat)) by (nonlinear_arith)
                requires
                    (hi - 1) as nat >= 1,
            ;
        } else {
            assert(range_product(lo, mid) == 1);
        }
    }
}

/// Leaving the factor 1 out changes nothing.
pub proof fn lemma_range_product_from_two(hi: nat)
    ensures
        range_product(2, hi) == range_product(1, hi),
    decreases hi,
{
    if hi > 2 {
        lemma_range_product_from_two((hi - 1) as nat);
    } else if hi == 2 {
        assert(range_product(1, 1) == 1);
        assert(range_product(1, 2) == range_product(1, 1) * 1);
    }
}

/// The product of `1, .., n` is `n!`.
pub proof fn lemma_range_product_is_factorial(n: nat)
    ensures
        range_product(1, n + 1) == factorial(n),
    decreases n,
{
    if n > 0 {
        lemma_range_product_is_factorial((n - 1) as nat);
        assert(range_product(1, n + 1) == range_product(1, n) * n);
        assert(range_product(1, n) * n == n * factorial((n - 1) as nat)) by (nonlinear_arith)
            requires
                range_product(1, n) == factorial((n - 1) as nat),
        ;
    }
}

/// The Fibonacci numbers never decrease.
pub proof fn lemma_fib_monotonic(i: nat, j: nat)
    requires
        i <= j,
    ensures
        fib(i) <= fib(j),
    decreases j,
{
    if i < j {
        if j >= 2 {
            lemma_fib_monotonic(i, (j - 1) as nat);
        }
    }
}

/// The product of the integers from 1 up to, but not including, `num`:
/// `(num - 1)!` for a positive `num`, and 1 for 0.
pub fn factorial_iter(num: usize) -> (prod: usize)
    requires
        range_product(1, num as nat) <= usize::MAX,
    ensures
        prod == range_product(1, num as nat),
        num >= 1 ==> prod == factorial((num - 1) as nat),
{
    let mut acc: usize = 1;
    let mut x: usize = 1;
    assert(range_product(1, 1) == 1);
    while x < num
        invariant
            1 <= x,
            x <= num || x == 1,
            acc == range_product(1, x as nat),
            range_product(1, num as nat) <= usize::MAX,
        decreases num - x,
    {
        proof {
            lemma_range_product_monotonic(1, (x + 1) as nat, num as nat);
            assert(range_product(1, (x + 1) as nat) == range_product(1, x as nat) * (x as nat));
        }
        acc = acc * x;
        x = x + 1;
    }
    proof {
        assert(num == 0 ==> range_product(1, 0) == range_product(1, 1));
        if num >= 1 {
            lemma_range_product_is_factorial((num - 1) as nat);
        }
    }
    acc
}

/// The same product, with the factor 1 left out of the loop.
pub fn factorial_loop(num: usize) -> (prod: usize)
    requires
        range_product(1, num as nat) <= usize::MAX,
    ensures
        prod == range_product(1, num as nat),
        num >= 1 ==> prod == factorial((num - 1) as nat),
{
    let mut prod: usize = 1;
    let mut x: usize = 2;
    proof {
        lemma_range_product_from_two(num as nat);
        assert(range_product(2, 2) == 1);
    }
    while x < num
        invariant
            2 <= x,
            x <= num || x == 2,
            prod == range_product(2, x as nat),
            range_product(2, num as nat) <= usize::MAX,
        decreases num - x,
    {
        proof {
            lemma_range_product_monotonic(2, (x + 1) as nat, num as nat);
            assert(range_product(2, (x + 1) as nat) == range_product(2, x as nat) * (x as nat));
        }
        prod *= x;
        x += 1;
    }
    proof {
        lemma_range_product_from_two(num as nat);
        assert(num < 2 ==> range_product(2, num as nat) == range_product(2, 2));
        if num >= 1 {
            lemma_range_product_is_factorial((num - 1) as nat);
        }
    }
    prod
}

/// The Fibonacci number that follows the `n`-th: 1, 1, 2, 3, 5, .. for
/// `n` = 0, 1, 2, 3, 4, ..
pub fn fibonacci(n: usize) -> (b: usize)
    requires
        fib(n as nat + 1) <= usize::MAX,
    ensures
        b == fib(n as nat + 1),
{
    let mut a: usize = 1;
    let mut b: usize = 1;
    let mut i: usize = 1;
    assert(fib(1) == 1 && fib(2) == 1) by {
        reveal_with_fuel(fib, 3);
    }
    while i < n
        invariant
            1 <= i,
            i <= n || i == 1,
            a == fib(i as nat),
            b == fib(i as nat + 1),
            fib(n as nat + 1) <= usize::MAX,
        decreases n - i,
    {
        proof {
            lemma_fib_monotonic(i as nat + 2, n as nat + 1);
        }
        let old_a: usize = a;
        a = b;
        b += old_a;
        i += 1;
    }
    assert(n == 0 ==> fib(1) == fib(2)) by {
        reveal_with_fuel(fib, 3);
    }
    b
}

} // verus!
