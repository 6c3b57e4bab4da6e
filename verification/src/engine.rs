//! The accumulation engine: the sum of the squares of a sequence of `i32`,
//! computed without any bound on its size and written in decimal notation.

use crate::bigint::{add_assign, from_i32, int_value, product, to_decimal};
use crate::decimal::{
    decimal_digits, decimal_string, is_digit, lemma_decimal_digits_shape,
    lemma_decimal_string_injective,
};
use vstd::prelude::*;

verus! {

/// The sum of `v * v` over the elements `v` of `s`, as a mathematical
/// integer.
pub open spec fn sum_of_squares_spec(s: Seq<i32>) -> int
    decreases s.len(),
{
    if s.len() == 0 {
        0
    } else {
        sum_of_squares_spec(s.drop_last()) + s.last() * s.last()
    }
}

/// Decimal notation of the sum of the squares of `elements`.
///
/// Every element is widened to an unbounded integer before it is squared,
/// and the running total is unbounded too: no element and no length makes
/// the result wrap. An empty slice gives `"0"`.
pub fn compute(elements: &[i32]) -> (text: String)
    ensures
        text@ == decimal_string(sum_of_squares_spec(elements@)),
{
    let mut sum = from_i32(0);
    let n = elements.len();
    let mut i: usize = 0;
    while i < n
        invariant
            n == elements@.len(),
            i <= n,
            int_value(sum) == sum_of_squares_spec(elements@.take(i as int)),
        decreases n - i,
    {
        let big_val = from_i32(elements[i]);
        let term = product(&big_val, &big_val);
        add_assign(&mut sum, term);
        proof {
            assert(elements@.take(i + 1).drop_last() =~= elements@.take(i as int));
        }
        i += 1;
    }
    proof {
        assert(elements@.take(n as int) =~= elements@);
    }
    to_decimal(&sum)
}

} // verus!

verus! {

/// A sum of squares is never negative.
pub proof fn lemma_sum_of_squares_nonnegative(s: Seq<i32>)
    ensures
        sum_of_squares_spec(s) >= 0,
    decreases s.len(),
{
    if s.len() > 0 {
        lemma_sum_of_squares_nonnegative(s.drop_last());
        let v = s.last() as int;
        assert(v * v >= 0) by (nonlinear_arith);
    }
}

/// The sum over two sequences laid end to end is the sum of their sums.
pub proof fn lemma_sum_of_squares_concat(a: Seq<i32>, b: Seq<i32>)
    ensures
        sum_of_squares_spec(a + b) == sum_of_squares_spec(a) + sum_of_squares_spec(b),
    decreases b.len(),
{
    if b.len() == 0 {
        assert(a + b =~= a);
    } else {
        assert((a + b).drop_last() =~= a + b.drop_last());
        lemma_sum_of_squares_concat(a, b.drop_last());
    }
}

/// The running total never goes down: the sum over a shorter prefix is at
/// most the sum over a longer one.
pub proof fn lemma_running_total_monotone(s: Seq<i32>, i: int, j: int)
    requires
        0 <= i <= j <= s.len(),
    ensures
        sum_of_squares_spec(s.take(i)) <= sum_of_squares_spec(s.take(j)),
{
    let rest = s.subrange(i, j);
    assert(s.take(j) =~= s.take(i) + rest);
    lemma_sum_of_squares_concat(s.take(i), rest);
    lemma_sum_of_squares_nonnegative(rest);
}

/// Taking one element out lowers the sum by that element's square.
pub proof fn lemma_sum_of_squares_remove(s: Seq<i32>, i: int)
    requires
        0 <= i < s.len(),
    ensures
        sum_of_squares_spec(s) == sum_of_squares_spec(s.remove(i)) + s[i] * s[i],
{
    let head = s.take(i);
    let tail = s.skip(i + 1);
    assert(s =~= head + seq![s[i]] + tail);
    assert(s.remove(i) =~= head + tail);
    lemma_sum_of_squares_concat(head + seq![s[i]], tail);
    lemma_sum_of_squares_concat(head, seq![s[i]]);
    lemma_sum_of_squares_concat(head, tail);
    assert(seq![s[i]].drop_last() =~= Seq::<i32>::empty());
    reveal_with_fuel(sum_of_squares_spec, 2);
}

/// The sum does not depend on the order of the elements: two sequences
/// with the same elements, each as often in one as in the other, have the
/// same sum of squares.
pub proof fn lemma_sum_of_squares_order_independent(a: Seq<i32>, b: Seq<i32>)
    requires
        a.to_multiset() == b.to_multiset(),
    ensures
        sum_of_squares_spec(a) == sum_of_squares_spec(b),
    decreases a.len(),
{
    broadcast use vstd::seq_lib::group_to_multiset_ensures;

    a.to_multiset_ensures();
    b.to_multiset_ensures();
    if a.len() == 0 {
        assert(b.len() == 0);
    } else {
        let last = a.len() - 1;
        let x = a[last];
        assert(a.to_multiset().count(x) > 0);
        assert(b.contains(x));
        let j = choose|j: int| 0 <= j < b.len() && b[j] == x;
        assert(a.remove(last).to_multiset() == b.remove(j).to_multiset());
        lemma_sum_of_squares_order_independent(a.remove(last), b.remove(j));
        lemma_sum_of_squares_remove(a, last);
        lemma_sum_of_squares_remove(b, j);
    }
}

/// What `compute` returns holds digits only.
pub proof fn lemma_rendered_sum_is_digits(s: Seq<i32>)
    ensures
        decimal_string(sum_of_squares_spec(s)) == decimal_digits(sum_of_squares_spec(s) as nat),
        decimal_string(sum_of_squares_spec(s)).len() >= 1,
        forall|i: int|
            0 <= i < decimal_string(sum_of_squares_spec(s)).len() ==> is_digit(
                #[trigger] decimal_string(sum_of_squares_spec(s))[i],
            ),
{
    lemma_sum_of_squares_nonnegative(s);
    lemma_decimal_digits_shape(sum_of_squares_spec(s) as nat);
}

/// The output is a function of the input: whatever two calls of `compute`
/// return on the same elements is the same text, character for character.
pub proof fn lemma_compute_deterministic(
    first_input: Seq<i32>,
    second_input: Seq<i32>,
    first_output: Seq<char>,
    second_output: Seq<char>,
)
    requires
        first_input == second_input,
        first_output == decimal_string(sum_of_squares_spec(first_input)),
        second_output == decimal_string(sum_of_squares_spec(second_input)),
    ensures
        first_output == second_output,
{
}

/// Two inputs give the same text only if their sums of squares are equal:
/// the text carries the whole number.
pub proof fn lemma_rendered_sum_is_faithful(a: Seq<i32>, b: Seq<i32>)
    requires
        decimal_string(sum_of_squares_spec(a)) == decimal_string(sum_of_squares_spec(b)),
    ensures
        sum_of_squares_spec(a) == sum_of_squares_spec(b),
{
    lemma_decimal_string_injective(sum_of_squares_spec(a), sum_of_squares_spec(b));
}

} // verus!
