//! Decimal notation of mathematical integers, as a sequence of characters.

use vstd::prelude::*;

verus! {

/// The character of one decimal digit.
pub open spec fn digit_char(d: nat) -> char
    recommends
        d < 10,
{
    ('0' as nat + d) as char
}

/// Whether `c` is one of `'0'` to `'9'`.
pub open spec fn is_digit(c: char) -> bool {
    '0' <= c <= '9'
}

/// The digits of `n`, most significant first, without leading zeros;
/// `"0"` for zero.
pub open spec fn decimal_digits(n: nat) -> Seq<char>
    decreases n,
{
    if n < 10 {
        seq![digit_char(n)]
    } else {
        decimal_digits(n / 10).push(digit_char(n % 10))
    }
}

/// Decimal notation of `v`: the digits of its magnitude, behind a `'-'`
/// when `v` is negative.
pub open spec fn decimal_string(v: int) -> Seq<char> {
    if v < 0 {
        seq!['-'] + decimal_digits((-v) as nat)
    } else {
        decimal_digits(v as nat)
    }
}

/// The number that a sequence of digits denotes.
pub open spec fn digits_value(s: Seq<char>) -> nat
    decreases s.len(),
{
    if s.len() == 0 {
        0
    } else {
        (digits_value(s.drop_last()) * 10 + (s.last() as nat - '0' as nat)) as nat
    }
}

/// The digits of a number are at least one, all of them digits, and the
/// first is `'0'` only for zero itself.
pub proof fn lemma_decimal_digits_shape(n: nat)
    ensures
        decimal_digits(n).len() >= 1,
        forall|i: int| 0 <= i < decimal_digits(n).len() ==> is_digit(#[trigger] decimal_digits(n)[i]),
        decimal_digits(n)[0] == '0' <==> n == 0,
    decreases n,
{
    if n >= 10 {
        lemma_decimal_digits_shape(n / 10);
    }
}

/// Reading the digits of `n` gives `n` back.
pub proof fn lemma_digits_value_of_decimal_digits(n: nat)
    ensures
        digits_value(decimal_digits(n)) == n,
    decreases n,
{
    reveal_with_fuel(digits_value, 2);
    if n < 10 {
        assert(decimal_digits(n).drop_last() =~= Seq::<char>::empty());
    } else {
        lemma_digits_value_of_decimal_digits(n / 10);
        assert(decimal_digits(n).drop_last() =~= decimal_digits(n / 10));
    }
}

/// Two numbers with the same digits are the same number.
pub proof fn lemma_decimal_digits_injective(a: nat, b: nat)
    requires
        decimal_digits(a) == decimal_digits(b),
    ensures
        a == b,
{
    lemma_digits_value_of_decimal_digits(a);
    lemma_digits_value_of_decimal_digits(b);
}

/// Decimal notation tells integers apart: equal strings, equal integers.
pub proof fn lemma_decimal_string_injective(a: int, b: int)
    requires
        decimal_string(a) == decimal_string(b),
    ensures
        a == b,
{
    let ma: nat = if a < 0 { (-a) as nat } else { a as nat };
    let mb: nat = if b < 0 { (-b) as nat } else { b as nat };
    lemma_decimal_digits_shape(ma);
    lemma_decimal_digits_shape(mb);
    if a < 0 && b < 0 {
        assert(decimal_digits(ma) =~= decimal_string(a).subrange(1, decimal_string(a).len() as int));
        assert(decimal_digits(mb) =~= decimal_string(b).subrange(1, decimal_string(b).len() as int));
        lemma_decimal_digits_injective(ma, mb);
    } else if a >= 0 && b >= 0 {
        lemma_decimal_digits_injective(ma, mb);
    } else if a < 0 {
        assert(decimal_string(a)[0] == '-');
        assert(is_digit(decimal_string(b)[0]));
    } else {
        assert(decimal_string(b)[0] == '-');
        assert(is_digit(decimal_string(a)[0]));
    }
}

} // verus!
