//! Small numeric routines written with loops: powers, a counter, and
//! Fibonacci numbers.

use vstd::arithmetic::power::{lemma_pow0, lemma_pow_strictly_increases};
use vstd::prelude::*;

verus! {

/// Whether `v` can be held in an `i64`.
pub open spec fn fits_i64(v: int) -> bool {
    i64::MIN <= v <= i64::MAX
}

/// The magnitude of `v`.
pub open spec fn magnitude(v: int) -> nat {
    if v < 0 {
        (-v) as nat
    } else {
        v as nat
    }
}

/// One more factor: `x` to the `e + 1` is `x` to the `e`, times `x`.
pub proof fn lemma_power_step(x: int, e: nat)
    ensures
        vstd::arithmetic::power::pow(x, e + 1) == vstd::arithmetic::power::pow(x, e) * x,
{
    reveal(vstd::arithmetic::power::pow);
    assert(x * vstd::arithmetic::power::pow(x, e) == vstd::arithmetic::power::pow(x, e) * x)
        by (nonlinear_arith);
}

/// The magnitude of a power is the power of the magnitude.
pub proof fn lemma_power_magnitude(x: int, e: nat)
    ensures
        magnitude(vstd::arithmetic::power::pow(x, e)) == vstd::arithmetic::power::pow(
            magnitude(x) as int,
            e,
        ),
    decreases e,
{
    if e == 0 {
        lemma_pow0(x);
        lemma_pow0(magnitude(x) as int);
    } else {
        let d = (e - 1) as nat;
        lemma_power_magnitude(x, d);
        lemma_power_step(x, d);
        lemma_power_step(magnitude(x) as int, d);
        let a = vstd::arithmetic::power::pow(x, d);
        let m = magnitude(x) as int;
        assert(magnitude(a * x) == magnitude(a) * m) by (nonlinear_arith)
            requires
                m == magnitude(x),
        ;
    }
}

/// If a power can be held in an `i64`, so can every lower power of the
/// same base.
pub proof fn lemma_lower_power_fits(x: int, k: nat, p: nat)
    requires
        k <= p,
        fits_i64(vstd::arithmetic::power::pow(x, p)),
    ensures
        fits_i64(vstd::arithmetic::power::pow(x, k)),
{
    let m = magnitude(x);
    lemma_power_magnitude(x, k);
    lemma_power_magnitude(x, p);
    if k < p {
        if m >= 2 {
            lemma_pow_strictly_increases(m, k, p);
        } else if m == 1 {
            lemma_one_to_any_power(k);
        } else {
            lemma_zero_to_any_power(k);
        }
    }
}

proof fn lemma_one_to_any_power(e: nat)
    ensures
        vstd::arithmetic::power::pow(1, e) == 1,
    decreases e,
{
    if e == 0 {
        lemma_pow0(1);
    } else {
        lemma_one_to_any_power((e - 1) as nat);
        lemma_power_step(1, (e - 1) as nat);
    }
}

proof fn lemma_zero_to_any_power(e: nat)
    ensures
        vstd::arithmetic::power::pow(0, e) == if e == 0 {
            1int
        } else {
            0int
        },
{
    if e == 0 {
        lemma_pow0(0);
    } else {
        lemma_power_step(0, (e - 1) as nat);
    }
}

/// `x` to the power `p`, by repeated multiplication.
///
/// The result has to fit in an `i64`; every product on the way then fits
/// as well.
pub fn pow(x: i32, p: u32) -> (result: i64)
    requires
        fits_i64(vstd::arithmetic::power::pow(x as int, p as nat)),
    ensures
        result == vstd::arithmetic::power::pow(x as int, p as nat),
{
    let mut result: i64 = 1;
    proof {
        lemma_pow0(x as int);
    }
    for i in 0..p
        invariant
            result == vstd::arithmetic::power::pow(x as int, i as nat),
            fits_i64(vstd::arithmetic::power::pow(x as int, p as nat)),
    {
        proof {
            lemma_lower_power_fits(x as int, (i + 1) as nat, p as nat);
            lemma_power_step(x as int, i as nat);
        }
        result = result * (x as i64);
    }
    result
}

/// Counts up to ten and returns twice the count: always 20.
pub fn always_running() -> (result: i32)
    ensures
        result == 20,
{
    let mut counter: i32 = 0;
    let mut result: i32 = 0;
    loop
        invariant_except_break
            0 <= counter < 10,
        ensures
            result == 20,
        decreases 10 - counter,
    {
        counter += 1;
        if counter == 10 {
            result = counter * 2;
            break;
        }
    }
    result
}

/// The Fibonacci numbers: 0, 1, 1, 2, 3, 5, ...
pub open spec fn fib(n: nat) -> nat
    decreases n,
{
    if n == 0 {
        0
    } else if n == 1 {
        1
    } else {
        fib((n - 2) as nat) + fib((n - 1) as nat)
    }
}

/// What `fibonaci` returns: the Fibonacci number of `index`, and 1 for an
/// index below zero, where the loop has nothing to run over.
pub open spec fn fibonaci_spec(index: int) -> nat {
    if index < 0 {
        1
    } else {
        fib(index as nat)
    }
}

/// The largest index whose Fibonacci number fits in an `i32`.
pub const LAST_FIBONACCI_INDEX: i32 = 46;

/// Fibonacci numbers do not go down.
pub proof fn lemma_fib_monotone(i: nat, j: nat)
    requires
        i <= j,
    ensures
        fib(i) <= fib(j),
    decreases j,
{
    if i < j {
        lemma_fib_monotone(i, (j - 1) as nat);
    }
}

/// The Fibonacci number of index 46, the last that fits in an `i32`.
pub proof fn lemma_fib_last()
    ensures
        fib(46) == 1836311903,
{
    reveal_with_fuel(fib, 4);
    assert(fib(4) == 3 && fib(5) == 5);
    assert(fib(7) == 13 && fib(8) == 21);
    assert(fib(10) == 55 && fib(11) == 89);
    assert(fib(13) == 233 && fib(14) == 377);
    assert(fib(16) == 987 && fib(17) == 1597);
    assert(fib(19) == 4181 && fib(20) == 6765);
    assert(fib(22) == 17711 && fib(23) == 28657);
    assert(fib(25) == 75025 && fib(26) == 121393);
    assert(fib(28) == 317811 && fib(29) == 514229);
    assert(fib(31) == 1346269 && fib(32) == 2178309);
    assert(fib(34) == 5702887 && fib(35) == 9227465);
    assert(fib(37) == 24157817 && fib(38) == 39088169);
    assert(fib(40) == 102334155 && fib(41) == 165580141);
    assert(fib(43) == 433494437 && fib(44) == 701408733);
    assert(fib(45) == 1134903170);
}

/// The Fibonacci number of `index`, by iteration; 1 for a negative index.
///
/// From index 47 on the number no longer fits in an `i32`.
pub fn fibonaci(index: i32) -> (result: i32)
    requires
        index <= LAST_FIBONACCI_INDEX,
    ensures
        result == fibonaci_spec(index as int),
{
    if index == 0 {
        return 0;
    };
    if index == 1 {
        return 1;
    }
    let mut pre: i32 = 1;
    let mut pre_pre: i32 = 0;
    proof {
        lemma_fib_last();
    }
    let mut i: i32 = 2;
    while i <= index
        invariant
            index <= LAST_FIBONACCI_INDEX,
            fib(46) == 1836311903,
            2 <= i,
            index >= 2 ==> i <= index + 1,
            index >= 2 ==> pre == fib((i - 1) as nat) && pre_pre == fib((i - 2) as nat),
            index < 2 ==> pre == 1,
        decreases index - i + 1,
    {
        proof {
            lemma_fib_monotone(i as nat, 46);
        }
        let next = pre + pre_pre;
        pre_pre = pre;
        pre = next;
        i += 1;
    }
    pre
}

} // verus!
