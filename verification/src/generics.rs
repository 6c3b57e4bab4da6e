//! Code over any type: a pair of coordinates, and the greatest element of
//! a vector, a slice or an iterator.

use core::cmp::Ordering;
use vstd::laws_cmp::{
    obeys_cmp, obeys_cmp_ord, obeys_cmp_partial_ord, obeys_partial_cmp_spec_properties,
};
use vstd::laws_eq::obeys_eq_spec_properties;
use vstd::prelude::*;
use vstd::std_specs::cmp::{OrdSpec, PartialEqSpec, PartialOrdSpec};
use vstd::std_specs::iter::IteratorSpec;

verus! {

pub struct Point<T> {
    pub x: T,
    pub y: T,
}

impl<T> Point<T> {
    /// The first coordinate.
    pub fn get_x(&self) -> (x: &T)
        ensures
            *x == self.x,
    {
        &self.x
    }

    /// The first coordinate of this point beside the second of `other`,
    /// both points given up.
    pub fn mixed_point<X>(self, other: Point<X>) -> (pair: (T, X))
        ensures
            pair.0 == self.x,
            pair.1 == other.y,
    {
        (self.x, other.y)
    }

    /// The first coordinate of this point beside the second of `other`,
    /// both borrowed.
    pub fn mixed_point_life<'a, 'b, X>(&'a self, other: &'b Point<X>) -> (pair: (&'a T, &'b X))
        ensures
            *pair.0 == self.x,
            *pair.1 == other.y,
    {
        (&self.x, &other.y)
    }
}

impl Point<i32> {
    /// The first coordinate of a point of `i32`.
    pub fn spec_for_i32(&self) -> (x: &i32)
        ensures
            *x == self.x,
    {
        &self.x
    }
}

} // verus!

verus! {

/// The message of `find_max_value` for an empty vector.
pub open spec fn empty_input_message() -> Seq<char> {
    "The input vector cannot be empty."@
}

/// Whether `s[k]` is the greatest number of `s`, and the first of its size.
pub open spec fn is_first_greatest_number(s: Seq<i32>, k: int) -> bool {
    &&& 0 <= k < s.len()
    &&& forall|i: int| 0 <= i < k ==> s[i] < s[k]
    &&& forall|i: int| k <= i < s.len() ==> s[i] <= s[k]
}

/// The greatest of `numbers`, or a message that says why there is none.
///
/// Where the greatest number occurs more than once, the reference is to
/// its first occurrence.
pub fn find_max_value(numbers: &Vec<i32>) -> (found: Result<&i32, String>)
    ensures
        numbers@.len() == 0 ==> (found matches Err(message) && message@
            == empty_input_message()),
        numbers@.len() > 0 ==> (found matches Ok(max) && exists|k: int|
            is_first_greatest_number(numbers@, k) && *max == #[trigger] numbers@[k]),
{
    if numbers.is_empty() {
        return Err("The input vector cannot be empty.".to_string());
    }
    let mut max_num = &numbers[0];
    let ghost mut at: int = 0;
    for num in it: numbers.iter()
        invariant
            it.seq().len() == numbers@.len(),
            forall|i: int| 0 <= i < numbers@.len() ==> *it.seq()[i] == numbers@[i],
            0 <= at < numbers@.len(),
            at <= it.index(),
            *max_num == numbers@[at],
            forall|i: int| 0 <= i < at ==> numbers@[i] < numbers@[at],
            forall|i: int| at <= i < it.index() ==> numbers@[i] <= numbers@[at],
    {
        if num > max_num {
            max_num = num;
            proof {
                at = it.index();
            }
        }
    }
    proof {
        assert(is_first_greatest_number(numbers@, at));
    }
    Ok(max_num)
}

} // verus!

verus! {

/// Whether `a` compares as greater than `b`.
pub open spec fn exceeds<T: PartialOrd>(a: T, b: T) -> bool {
    a.partial_cmp_spec(&b) == Some(Ordering::Greater)
}

/// Whether `a` compares as less than `b`.
pub open spec fn precedes<T: PartialOrd>(a: T, b: T) -> bool {
    a.partial_cmp_spec(&b) == Some(Ordering::Less)
}

/// Whether `a` compares as less than or equal to `b`.
pub open spec fn at_most<T: PartialOrd>(a: T, b: T) -> bool {
    a.partial_cmp_spec(&b) matches Some(Ordering::Less | Ordering::Equal)
}

/// Where a scan of the first `n` elements of `s` from the left settles:
/// it starts at the first element and moves on to each element that
/// exceeds the one it stands at.
pub open spec fn scan_greatest<T: PartialOrd>(s: Seq<T>, n: int) -> int
    decreases n,
{
    if n <= 1 {
        0
    } else {
        let best = scan_greatest(s, n - 1);
        if exceeds(s[n - 1], s[best]) {
            n - 1
        } else {
            best
        }
    }
}

/// Where a scan of the whole of `s` settles.
pub open spec fn greatest_index<T: PartialOrd>(s: Seq<T>) -> int {
    scan_greatest(s, s.len() as int)
}

/// Whether comparing two values of `T` gives what `T` says it gives.
pub open spec fn comparison_is_specified<T: PartialOrd>() -> bool {
    T::obeys_partial_cmp_spec()
}

/// Whether `s[k]` is a greatest element of `s` and the first such: every
/// element before it is less, and none after it is greater.
pub open spec fn is_first_greatest<T: PartialOrd>(s: Seq<T>, k: int) -> bool {
    &&& 0 <= k < s.len()
    &&& forall|i: int| 0 <= i < k ==> precedes(#[trigger] s[i], s[k])
    &&& forall|i: int| k <= i < s.len() ==> at_most(#[trigger] s[i], s[k])
}

/// The length of `s`, as an integer.
pub open spec fn whole<T>(s: Seq<T>) -> int {
    s.len() as int
}

/// The scan stays inside the part that it has looked at.
pub proof fn lemma_scan_greatest_in_range<T: PartialOrd>(s: Seq<T>, n: int)
    requires
        1 <= n,
    ensures
        0 <= scan_greatest(s, n) < n,
    decreases n,
{
    if n > 1 {
        lemma_scan_greatest_in_range(s, n - 1);
    }
}

/// In a lawful total order, what is equal to something less is less.
proof fn lemma_equal_then_less<T: Ord>(a: T, b: T, c: T)
    requires
        obeys_cmp::<T>(),
        a.partial_cmp_spec(&b) == Some(Ordering::Equal),
        precedes(b, c),
    ensures
        precedes(a, c),
{
    reveal(obeys_partial_cmp_spec_properties);
    reveal(obeys_eq_spec_properties);
    reveal(obeys_cmp_partial_ord);
    reveal(obeys_cmp_ord);
    assert(a.partial_cmp_spec(&c) == Some(a.cmp_spec(&c)));
    if a.partial_cmp_spec(&c) == Some(Ordering::Equal) {
        assert(a.eq_spec(&c));
        assert(a.eq_spec(&b));
        assert(b.eq_spec(&a));
        assert(b.eq_spec(&c));
    } else if a.partial_cmp_spec(&c) == Some(Ordering::Greater) {
        assert(precedes(c, a));
        assert(precedes(b, a));
        assert(a.eq_spec(&b));
        assert(b.eq_spec(&a));
    }
}

/// In a lawful total order the scan finds the greatest element, and the
/// first one where several are equal.
pub proof fn lemma_greatest_index_is_first_greatest<T: Ord>(s: Seq<T>)
    requires
        obeys_cmp::<T>(),
        1 <= s.len(),
    ensures
        is_first_greatest(s, greatest_index(s)),
{
    lemma_scan_greatest_is_first_greatest(s, whole(s));
    assert(s.take(whole(s)) =~= s);
}

proof fn lemma_scan_greatest_is_first_greatest<T: Ord>(s: Seq<T>, n: int)
    requires
        obeys_cmp::<T>(),
        1 <= n <= s.len(),
    ensures
        is_first_greatest(s.take(n), scan_greatest(s, n)),
    decreases n,
{
    reveal(obeys_partial_cmp_spec_properties);
    reveal(obeys_eq_spec_properties);
    reveal(obeys_cmp_partial_ord);
    reveal(obeys_cmp_ord);
    let k = scan_greatest(s, n);
    let t = s.take(n);
    if n == 1 {
        assert(t[0].partial_cmp_spec(&t[0]) == Some(t[0].cmp_spec(&t[0])));
        assert(t[0].eq_spec(&t[0]) || precedes(t[0], t[0]) || exceeds(t[0], t[0]));
        assert(at_most(t[0], t[0]));
    } else {
        lemma_scan_greatest_is_first_greatest(s, n - 1);
        lemma_scan_greatest_in_range(s, n - 1);
        let best = scan_greatest(s, n - 1);
        let u = s.take(n - 1);
        let last = s[n - 1];
        assert(last.partial_cmp_spec(&s[best]) == Some(last.cmp_spec(&s[best])));
        assert(last.partial_cmp_spec(&last) == Some(last.cmp_spec(&last)));
        if exceeds(last, s[best]) {
            assert(precedes(s[best], last));
            assert forall|i: int| 0 <= i < k implies precedes(#[trigger] t[i], t[k]) by {
                assert(t[i] == u[i]);
                if i < best {
                    assert(precedes(u[i], u[best]));
                } else {
                    assert(at_most(u[i], u[best]));
                    if u[i].partial_cmp_spec(&u[best]) == Some(Ordering::Equal) {
                        lemma_equal_then_less(u[i], s[best], last);
                    }
                }
            }
            assert(at_most(last, last));
        } else {
            assert forall|i: int| k <= i < t.len() implies at_most(#[trigger] t[i], t[k]) by {
                if i < n - 1 {
                    assert(t[i] == u[i]);
                    assert(at_most(u[i], u[best]));
                }
            }
            assert forall|i: int| 0 <= i < k implies precedes(#[trigger] t[i], t[k]) by {
                assert(t[i] == u[i]);
                assert(precedes(u[i], u[best]));
            }
        }
    }
}

/// The greatest element of a vector, or nothing for an empty one.
///
/// The result is the element on which a scan from the left settles. For a
/// type whose comparison is a lawful total order that is the greatest
/// element, at its first occurrence.
pub fn find_max_for_vec<T: Ord>(numbers: &Vec<T>) -> (found: Option<&T>)
    ensures
        found is None <==> numbers@.len() == 0,
        found matches Some(max) ==> exists|k: int|
            0 <= k < numbers@.len() && *max == #[trigger] numbers@[k],
        comparison_is_specified::<T>() ==> (found matches Some(max) ==> *max
            == numbers@[greatest_index(numbers@)]),
        obeys_cmp::<T>() ==> (found matches Some(max) ==> is_first_greatest(
            numbers@,
            greatest_index(numbers@),
        )),
{
    if numbers.is_empty() {
        return None;
    }
    let mut max_num = &numbers[0];
    let ghost mut at: int = 0;
    for num in it: numbers.iter()
        invariant
            it.seq().len() == numbers@.len(),
            forall|i: int| 0 <= i < numbers@.len() ==> *it.seq()[i] == numbers@[i],
            0 <= at < numbers@.len(),
            *max_num == numbers@[at],
            T::obeys_partial_cmp_spec() ==> at == scan_greatest(numbers@, it.index()),
    {
        if num > max_num {
            max_num = num;
            proof {
                at = it.index();
            }
        }
    }
    proof {
        if obeys_cmp::<T>() {
            reveal(obeys_cmp_partial_ord);
            lemma_greatest_index_is_first_greatest(numbers@);
        }
    }
    Some(max_num)
}

} // verus!

verus! {

/// The greatest element of a slice, or nothing for an empty one.
///
/// The result is the element on which a scan from the left settles. For a
/// type whose comparison is a lawful total order that is the greatest
/// element, at its first occurrence.
pub fn find_max_for_list<T: Ord>(numbers: &[T]) -> (found: Option<&T>)
    ensures
        found is None <==> numbers@.len() == 0,
        found matches Some(max) ==> exists|k: int|
            0 <= k < numbers@.len() && *max == #[trigger] numbers@[k],
        comparison_is_specified::<T>() ==> (found matches Some(max) ==> *max
            == numbers@[greatest_index(numbers@)]),
        obeys_cmp::<T>() ==> (found matches Some(max) ==> is_first_greatest(
            numbers@,
            greatest_index(numbers@),
        )),
{
    if numbers.is_empty() {
        return None;
    }
    let mut max_num = &numbers[0];
    let ghost mut at: int = 0;
    for num in it: numbers.iter()
        invariant
            it.seq().len() == numbers@.len(),
            forall|i: int| 0 <= i < numbers@.len() ==> *it.seq()[i] == numbers@[i],
            0 <= at < numbers@.len(),
            *max_num == numbers@[at],
            T::obeys_partial_cmp_spec() ==> at == scan_greatest(numbers@, it.index()),
    {
        if num > max_num {
            max_num = num;
            proof {
                at = it.index();
            }
        }
    }
    proof {
        if obeys_cmp::<T>() {
            reveal(obeys_cmp_partial_ord);
            lemma_greatest_index_is_first_greatest(numbers@);
        }
    }
    Some(max_num)
}

/// The greatest of the elements that an iterator hands out, or nothing
/// where it hands out none.
///
/// The iterator has to end: it hands out a finite sequence and then says
/// that it is done. The result is the element of that sequence on which a
/// scan from the left settles; for a lawful total order that is the
/// greatest element, at its first occurrence.
pub fn find_max_value_gen<'a, I, T>(numbers: I) -> (found: Option<&'a T>) where
    I: Iterator<Item = &'a T>,
    T: Ord + 'a,

    requires
        numbers.obeys_prophetic_iter_laws(),
        numbers.decrease() is Some,
    ensures
        found is None <==> numbers.remaining().len() == 0,
        found matches Some(max) ==> exists|k: int|
            0 <= k < numbers.remaining().len() && max == #[trigger] numbers.remaining()[k],
        comparison_is_specified::<T>() ==> (found matches Some(max) ==> max
            == numbers.remaining()[greatest_index(numbers.remaining())]),
        obeys_cmp::<T>() ==> (found matches Some(max) ==> is_first_greatest(
            numbers.remaining(),
            greatest_index(numbers.remaining()),
        )),
{
    let ghost items = numbers.remaining();
    let mut numbers_iter = numbers;
    if let Some(mut max_num) = numbers_iter.next() {
        let ghost mut at: int = 0;
        let ghost mut seen: int = 1;
        loop
            invariant
                numbers_iter.obeys_prophetic_iter_laws(),
                numbers_iter.decrease() is Some,
                1 <= seen <= items.len(),
                numbers_iter.remaining() == items.skip(seen),
                0 <= at < seen,
                max_num == items[at],
                T::obeys_partial_cmp_spec() ==> at == scan_greatest(items, seen),
            ensures
                seen == items.len(),
                0 <= at < seen,
                max_num == items[at],
                T::obeys_partial_cmp_spec() ==> at == scan_greatest(items, seen),
            decreases numbers_iter.decrease()->0,
        {
            let next = numbers_iter.next();
            match next {
                None => {
                    break ;
                },
                Some(num) => {
                    proof {
                        assert(items.skip(seen)[0] == items[seen]);
                        assert(items.skip(seen).drop_first() =~= items.skip(seen + 1));
                    }
                    if num > max_num {
                        max_num = num;
                        proof {
                            at = seen;
                        }
                    }
                    proof {
                        seen = seen + 1;
                    }
                },
            }
        }
        proof {
            if obeys_cmp::<T>() {
                reveal(obeys_cmp_partial_ord);
                lemma_greatest_index_is_first_greatest(items);
            }
        }
        Some(max_num)
    } else {
        None
    }
}

} // verus!
