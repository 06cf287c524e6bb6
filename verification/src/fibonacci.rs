//! Fibonacci numbers.
use vstd::prelude::*;

verus! {

/// The `n`-th Fibonacci number: 0, 1, then each the sum of the two before.
pub open spec fn fib(n: nat) -> nat
    decreases n,
{
    if n == 0 {
        0
    } else if n == 1 {
        1
    } else {
        fib((n - 2) as nat) + fib((n - 1) as nat)
    }
}

/// Fibonacci numbers never decrease.
pub proof fn lemma_fib_monotone(i: nat, j: nat)
    requires
        i <= j,
    ensures
        fib(i) <= fib(j),
    decreases j - i,
{
    if i < j {
        lemma_fib_monotone(i, (j - 1) as nat);
        if j >= 2 {
            assert(fib(j) == fib((j - 2) as nat) + fib((j - 1) as nat));
        }
    }
}

/// The `n`-th Fibonacci number.
pub fn fibonacci(n: usize) -> (f: usize)
    requires
        fib(n as nat) <= usize::MAX,
    ensures
        f == fib(n as nat),
{
    if n == 0 {
        return 0;
    }
    if n == 1 {
        return 1;
    }
    let mut a: usize = 0;
    let mut b: usize = 1;
    let mut i: usize = 1;
    while i < n
        invariant
            1 <= i <= n,
            a == fib((i - 1) as nat),
            b == fib(i as nat),
            fib(n as nat) <= usize::MAX,
        decreases n - i,
    {
        proof {
            lemma_fib_monotone((i + 1) as nat, n as nat);
        }
        let c = a + b;
        a = b;
        b = c;
        i = i + 1;
    }
    b
}

/// The Fibonacci numbers start with 0 and 1, and each later one is the sum
/// of the two before it; `fibonacci` computes them wherever they fit in a
/// `usize`.
pub proof fn law_fibonacci_recurrence(n: nat)
    ensures
        fib(0) == 0,
        fib(1) == 1,
        n >= 2 ==> fib(n) == fib((n - 1) as nat) + fib((n - 2) as nat),
{
}

} // verus!
