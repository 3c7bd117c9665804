//! Small closed vocabularies that can be compared by a one-byte code, and the
//! order-preserving set operations the capability records are built from.

use vstd::prelude::*;

verus! {

/// A closed `Copy` vocabulary whose values are told apart by a byte.
pub trait Coded: Copy + Sized {
    /// The byte that names this value.
    spec fn spec_code(self) -> u8;

    /// Executable form of [`Coded::spec_code`].
    fn code(self) -> (c: u8)
        ensures
            c == self.spec_code(),
    ;

    /// Two values with one code are one value.
    proof fn lemma_code_injective(a: Self, b: Self)
        ensures
            a.spec_code() == b.spec_code() ==> a == b,
    ;
}

/// `s` with every value after its first occurrence removed, order kept.
pub open spec fn distinct_in_order<T>(s: Seq<T>) -> Seq<T>
    decreases s.len(),
{
    if s.len() == 0 {
        Seq::empty()
    } else {
        let before = distinct_in_order(s.drop_last());
        if before.contains(s.last()) {
            before
        } else {
            before.push(s.last())
        }
    }
}

/// The values of `ordered` that `allowed` also holds, in `ordered`'s order.
pub open spec fn kept_in<T>(ordered: Seq<T>, allowed: Seq<T>) -> Seq<T>
    decreases ordered.len(),
{
    if ordered.len() == 0 {
        Seq::empty()
    } else {
        let before = kept_in(ordered.drop_last(), allowed);
        if allowed.contains(ordered.last()) {
            before.push(ordered.last())
        } else {
            before
        }
    }
}

/// Whether no value occurs twice in `s`.
pub open spec fn no_repeats<T>(s: Seq<T>) -> bool {
    forall|i: int, j: int| 0 <= i < j < s.len() ==> s[i] != s[j]
}

/// Everything [`distinct_in_order`] keeps was in its input, and the reverse.
pub proof fn lemma_distinct_in_order_members<T>(s: Seq<T>)
    ensures
        forall|x: T| distinct_in_order(s).contains(x) <==> s.contains(x),
        no_repeats(distinct_in_order(s)),
        distinct_in_order(s).len() <= s.len(),
    decreases s.len(),
{
    if s.len() > 0 {
        lemma_distinct_in_order_members(s.drop_last());
        let before = distinct_in_order(s.drop_last());
        assert forall|x: T| distinct_in_order(s).contains(x) <==> s.contains(x) by {
            if s.contains(x) && x != s.last() {
                let k = choose|k: int| 0 <= k < s.len() && s[k] == x;
                assert(s.drop_last()[k] == x);
            }
            if s.drop_last().contains(x) {
                let k = choose|k: int| 0 <= k < s.drop_last().len() && s.drop_last()[k] == x;
                assert(s[k] == x);
            }
            if !before.contains(s.last()) && distinct_in_order(s).contains(x) && !before.contains(x) {
                assert(x == s.last());
                assert(s[s.len() - 1] == x);
            }
            if x == s.last() {
                assert(s[s.len() - 1] == x);
                if !before.contains(s.last()) {
                    assert(before.push(s.last())[before.len() as int] == x);
                }
            }
            if before.contains(x) && !before.contains(s.last()) {
                let k = choose|k: int| 0 <= k < before.len() && before[k] == x;
                assert(before.push(s.last())[k] == x);
            }
        }
    }
}

/// Everything [`kept_in`] keeps is in both sequences.
pub proof fn lemma_kept_in_members<T>(ordered: Seq<T>, allowed: Seq<T>)
    ensures
        forall|x: T| kept_in(ordered, allowed).contains(x) <==> (ordered.contains(x) && allowed.contains(x)),
        kept_in(ordered, allowed).len() <= ordered.len(),
    decreases ordered.len(),
{
    if ordered.len() > 0 {
        lemma_kept_in_members(ordered.drop_last(), allowed);
        let before = kept_in(ordered.drop_last(), allowed);
        assert forall|x: T| kept_in(ordered, allowed).contains(x) <==> (ordered.contains(x) && allowed.contains(x)) by {
            if ordered.contains(x) && x != ordered.last() {
                let k = choose|k: int| 0 <= k < ordered.len() && ordered[k] == x;
                assert(ordered.drop_last()[k] == x);
            }
            if ordered.drop_last().contains(x) {
                let k = choose|k: int| 0 <= k < ordered.drop_last().len() && ordered.drop_last()[k] == x;
                assert(ordered[k] == x);
            }
            if x == ordered.last() {
                assert(ordered[ordered.len() - 1] == x);
                if allowed.contains(x) {
                    assert(before.push(ordered.last())[before.len() as int] == x);
                }
            }
            if before.contains(x) && allowed.contains(ordered.last()) {
                let k = choose|k: int| 0 <= k < before.len() && before[k] == x;
                assert(before.push(ordered.last())[k] == x);
            }
            if allowed.contains(ordered.last()) && kept_in(ordered, allowed).contains(x) && !before.contains(x) {
                let k = choose|k: int| 0 <= k < before.len() + 1 && before.push(ordered.last())[k] == x;
                assert(k == before.len());
            }
        }
    }
}

/// Whether `values` holds `value`.
pub fn contains_coded<T: Coded>(values: &[T], value: T) -> (found: bool)
    ensures
        found == values@.contains(value),
{
    let mut i: usize = 0;
    while i < values.len()
        invariant
            0 <= i <= values@.len(),
            forall|j: int| 0 <= j < i ==> values@[j] != value,
        decreases values@.len() - i,
    {
        let candidate = values[i];
        if candidate.code() == value.code() {
            proof {
                T::lemma_code_injective(candidate, value);
            }
            return true;
        }
        proof {
            T::lemma_code_injective(candidate, value);
        }
        i = i + 1;
    }
    false
}

/// `values` without repeats, first occurrences kept in order.
pub fn unique<T: Coded>(values: &[T]) -> (out: Vec<T>)
    ensures
        out@ == distinct_in_order(values@),
{
    let mut out: Vec<T> = Vec::new();
    let mut i: usize = 0;
    while i < values.len()
        invariant
            0 <= i <= values@.len(),
            out@ == distinct_in_order(values@.take(i as int)),
        decreases values@.len() - i,
    {
        let value = values[i];
        assert(values@.take(i + 1).drop_last() =~= values@.take(i as int));
        assert(values@.take(i + 1).last() == value);
        if !contains_coded(out.as_slice(), value) {
            out.push(value);
        }
        i = i + 1;
    }
    assert(values@.take(values@.len() as int) =~= values@);
    out
}

/// The values of `ordered` that `allowed` also holds, in `ordered`'s order.
pub fn common<T: Coded>(ordered: &[T], allowed: &[T]) -> (out: Vec<T>)
    ensures
        out@ == kept_in(ordered@, allowed@),
{
    let mut out: Vec<T> = Vec::new();
    let mut i: usize = 0;
    while i < ordered.len()
        invariant
            0 <= i <= ordered@.len(),
            out@ == kept_in(ordered@.take(i as int), allowed@),
        decreases ordered@.len() - i,
    {
        let value = ordered[i];
        assert(ordered@.take(i + 1).drop_last() =~= ordered@.take(i as int));
        assert(ordered@.take(i + 1).last() == value);
        if contains_coded(allowed, value) {
            out.push(value);
        }
        i = i + 1;
    }
    assert(ordered@.take(ordered@.len() as int) =~= ordered@);
    out
}

/// An exact copy of a slice of codes.
pub fn copied<T: Coded>(values: &[T]) -> (out: Vec<T>)
    ensures
        out@ == values@,
{
    let mut out: Vec<T> = Vec::new();
    let mut i: usize = 0;
    while i < values.len()
        invariant
            0 <= i <= values@.len(),
            out@ == values@.take(i as int),
        decreases values@.len() - i,
    {
        out.push(values[i]);
        assert(values@.take(i + 1) =~= values@.take(i as int).push(values@[i as int]));
        i = i + 1;
    }
    assert(values@.take(values@.len() as int) =~= values@);
    out
}

} // verus!
