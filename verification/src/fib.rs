use vstd::prelude::*;

verus! {

/// The Fibonacci numbers: 0, 1, and each further one the sum of the two
/// before it.
pub open spec fn spec_fib(n: nat) -> nat
    decreases n,
{
    if n < 2 {
        n
    } else {
        spec_fib((n - 1) as nat) + spec_fib((n - 2) as nat)
    }
}

/// The base cases of the recursion: the number itself below two, `None`
/// where it must be split into two smaller jobs.
pub fn fib_base(num: usize) -> (r: Option<usize>)
    ensures
        (num < 2) == (r is Some),
        r matches Some(x) ==> x == num && x == spec_fib(num as nat),
{
    if num < 2 {
        Some(num)
    } else {
        None
    }
}

/// Joins the results of the two smaller jobs into the Fibonacci number of
/// `num`.
pub fn fib_join(num: usize, a: usize, b: usize) -> (r: usize)
    requires
        2 <= num,
        a == spec_fib((num - 1) as nat),
        b == spec_fib((num - 2) as nat),
        spec_fib(num as nat) <= usize::MAX,
    ensures
        r == spec_fib(num as nat),
{
    a + b
}

} // verus!
