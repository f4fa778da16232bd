//! Fibonacci numbers.

use vstd::prelude::*;

verus! {

/// The Fibonacci number of index `n`: zero, one, and from there on the sum of
/// the two before.
pub open spec fn fib(n: nat) -> nat
    decreases n,
{
    if n < 2 {
        n
    } else {
        fib((n - 1) as nat) + fib((n - 2) as nat)
    }
}

/// Fibonacci numbers never get smaller as the index grows.
pub proof fn lemma_fib_grows(i: nat, j: nat)
    requires
        i <= j,
    ensures
        fib(i) <= fib(j),
    decreases j,
{
    if i < j {
        lemma_fib_grows(i, (j - 1) as nat);
        if j >= 2 {
            assert(fib(j) == fib((j - 1) as nat) + fib((j - 2) as nat));
        }
    }
}

/// Computes the Fibonacci number of index `n`, or `None` where it does not
/// fit in 64 bits.
pub fn fibonnaci(n: u32) -> (value: Option<u64>)
    ensures
        value matches Some(v) ==> v == fib(n as nat),
        value is None <==> fib(n as nat) > u64::MAX,
{
    if n == 0 {
        return Some(0);
    }
    let mut before: u64 = 0;
    let mut current: u64 = 1;
    let mut index: u32 = 1;
    while index < n
        invariant
            1 <= index <= n,
            before == fib((index - 1) as nat),
            current == fib(index as nat),
        decreases n - index,
    {
        match before.checked_add(current) {
            Some(sum) => {
                before = current;
                current = sum;
                index += 1;
            },
            None => {
                proof {
                    lemma_fib_grows((index + 1) as nat, n as nat);
                }
                return None;
            },
        }
    }
    Some(current)
}

} // verus!
