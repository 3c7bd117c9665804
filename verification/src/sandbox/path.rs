//! Paths as their parts, the way a Unix path compares.
//!
//! A path names a sequence of parts: the runs of characters between `/`
//! separators, leaving out empty runs and a lone `.`. Two spellings of one
//! sequence (`a//b/` and `a/b`) are one path; one path starts with another
//! when its parts do; and paths are ordered part by part, each part by its
//! characters.

use vstd::prelude::*;
use crate::text::chars_of;

verus! {

/// Whether a run between separators names something: it is not empty and is
/// not a lone `.`.
pub open spec fn named_part(run: Seq<char>) -> bool {
    run.len() > 0 && run != seq!['.']
}

/// `parts`, with `run` added when it names something.
pub open spec fn with_part(parts: Seq<Seq<char>>, run: Seq<char>) -> Seq<Seq<char>> {
    if named_part(run) {
        parts.push(run)
    } else {
        parts
    }
}

/// The parts of `s` from position `i` on, where the current run began at
/// `start` and `parts` were already found.
pub open spec fn parts_from(s: Seq<char>, i: int, start: int, parts: Seq<Seq<char>>) -> Seq<
    Seq<char>,
>
    decreases s.len() - i,
{
    if i < 0 || i >= s.len() {
        with_part(parts, s.subrange(start, s.len() as int))
    } else if s[i] == '/' {
        parts_from(s, i + 1, i + 1, with_part(parts, s.subrange(start, i)))
    } else {
        parts_from(s, i + 1, start, parts)
    }
}

/// The parts `s` names, in order.
pub open spec fn path_parts(s: Seq<char>) -> Seq<Seq<char>> {
    parts_from(s, 0, 0, Seq::empty())
}

/// The contents of a sequence of character vectors.
pub open spec fn char_runs(runs: Seq<Vec<char>>) -> Seq<Seq<char>> {
    Seq::new(runs.len(), |i: int| runs[i]@)
}

fn copy_run(chars: &Vec<char>, start: usize, end: usize) -> (run: Vec<char>)
    requires
        start <= end <= chars@.len(),
    ensures
        run@ == chars@.subrange(start as int, end as int),
{
    let mut run: Vec<char> = Vec::new();
    let mut i = start;
    while i < end
        invariant
            start <= i <= end <= chars@.len(),
            run@ == chars@.subrange(start as int, i as int),
        decreases end - i,
    {
        run.push(chars[i]);
        i = i + 1;
    }
    run
}

fn names_something(run: &Vec<char>) -> (named: bool)
    ensures
        named == named_part(run@),
{
    if run.len() == 0 {
        return false;
    }
    if run.len() == 1 && run[0] == '.' {
        assert(run@ =~= seq!['.']);
        return false;
    }
    if run.len() == 1 {
        assert(run@ != seq!['.']) by {
            assert(seq!['.'][0] == '.');
        }
    }
    true
}

/// The parts `text` names, in order.
pub fn parts_of(text: &str) -> (parts: Vec<Vec<char>>)
    ensures
        char_runs(parts@) == path_parts(text@),
{
    let chars = chars_of(text);
    let mut parts: Vec<Vec<char>> = Vec::new();
    let mut start: usize = 0;
    let mut i: usize = 0;
    assert(char_runs(parts@) =~= Seq::<Seq<char>>::empty());
    while i < chars.len()
        invariant
            chars@ == text@,
            start <= i <= chars@.len(),
            path_parts(text@) == parts_from(text@, i as int, start as int, char_runs(parts@)),
        decreases chars@.len() - i,
    {
        if chars[i] == '/' {
            let run = copy_run(&chars, start, i);
            if names_something(&run) {
                let ghost before = char_runs(parts@);
                parts.push(run);
                assert(char_runs(parts@) =~= before.push(chars@.subrange(start as int, i as int)));
            }
            start = i + 1;
        }
        i = i + 1;
    }
    let run = copy_run(&chars, start, chars.len());
    if names_something(&run) {
        let ghost before = char_runs(parts@);
        parts.push(run);
        assert(char_runs(parts@) =~= before.push(chars@.subrange(start as int, chars@.len() as int)));
    }
    parts
}

/// `a` comes before `b` when, at the first place they differ, `a`'s element
/// is `less` than `b`'s, or when `a` runs out first.
pub open spec fn lex_before<T>(a: Seq<T>, b: Seq<T>, less: spec_fn(T, T) -> bool) -> bool
    decreases a.len(),
{
    if a.len() == 0 {
        b.len() > 0
    } else if b.len() == 0 {
        false
    } else if a[0] != b[0] {
        less(a[0], b[0])
    } else {
        lex_before(a.drop_first(), b.drop_first(), less)
    }
}

/// `less` is a strict total order.
pub open spec fn strict_total<T>(less: spec_fn(T, T) -> bool) -> bool {
    &&& forall|a: T| !#[trigger] less(a, a)
    &&& forall|a: T, b: T, c: T| #[trigger] less(a, b) && #[trigger] less(b, c) ==> less(a, c)
    &&& forall|a: T, b: T| a != b ==> #[trigger] less(a, b) || #[trigger] less(b, a)
}

/// Comparing element by element keeps a strict total order strict and total.
pub proof fn lemma_lex_strict_total<T>(less: spec_fn(T, T) -> bool)
    requires
        strict_total(less),
    ensures
        strict_total(|a: Seq<T>, b: Seq<T>| lex_before(a, b, less)),
{
    assert forall|a: Seq<T>| !lex_before(a, a, less) by {
        lemma_lex_irreflexive(a, less);
    }
    assert forall|a: Seq<T>, b: Seq<T>, c: Seq<T>|
        lex_before(a, b, less) && lex_before(b, c, less) implies lex_before(a, c, less) by {
        lemma_lex_transitive(a, b, c, less);
    }
    assert forall|a: Seq<T>, b: Seq<T>| a != b implies lex_before(a, b, less) || lex_before(
        b,
        a,
        less,
    ) by {
        lemma_lex_total(a, b, less);
    }
}

proof fn lemma_lex_irreflexive<T>(a: Seq<T>, less: spec_fn(T, T) -> bool)
    ensures
        !lex_before(a, a, less),
    decreases a.len(),
{
    if a.len() > 0 {
        lemma_lex_irreflexive(a.drop_first(), less);
    }
}

proof fn lemma_lex_transitive<T>(a: Seq<T>, b: Seq<T>, c: Seq<T>, less: spec_fn(T, T) -> bool)
    requires
        strict_total(less),
        lex_before(a, b, less),
        lex_before(b, c, less),
    ensures
        lex_before(a, c, less),
    decreases a.len(),
{
    if a.len() > 0 && b.len() > 0 && c.len() > 0 {
        if a[0] == b[0] && b[0] == c[0] {
            lemma_lex_transitive(a.drop_first(), b.drop_first(), c.drop_first(), less);
        } else if a[0] != b[0] && b[0] != c[0] {
            assert(less(a[0], b[0]) && less(b[0], c[0]));
            if a[0] == c[0] {
                assert(less(a[0], a[0]));
            }
        }
    }
}

proof fn lemma_lex_total<T>(a: Seq<T>, b: Seq<T>, less: spec_fn(T, T) -> bool)
    requires
        strict_total(less),
        a != b,
    ensures
        lex_before(a, b, less) || lex_before(b, a, less),
    decreases a.len(),
{
    if a.len() == 0 {
        assert(b.len() > 0) by {
            if b.len() == 0 {
                assert(a =~= b);
            }
        }
    } else if b.len() > 0 {
        if a[0] == b[0] {
            assert(a.drop_first() != b.drop_first()) by {
                if a.drop_first() =~= b.drop_first() {
                    assert(a.len() == b.len());
                    assert(a =~= b) by {
                        assert forall|i: int| 0 <= i < a.len() implies a[i] == b[i] by {
                            if i > 0 {
                                assert(a[i] == a.drop_first()[i - 1]);
                                assert(b[i] == b.drop_first()[i - 1]);
                            }
                        }
                    }
                }
            }
            lemma_lex_total(a.drop_first(), b.drop_first(), less);
        } else {
            assert(less(a[0], b[0]) || less(b[0], a[0]));
        }
    }
}

/// One character before another by code point.
pub open spec fn char_less(a: char, b: char) -> bool {
    a < b
}

/// One part before another: character by character.
pub open spec fn part_before(a: Seq<char>, b: Seq<char>) -> bool {
    lex_before(a, b, |x: char, y: char| char_less(x, y))
}

/// One path before another: part by part.
pub open spec fn parts_before(a: Seq<Seq<char>>, b: Seq<Seq<char>>) -> bool {
    lex_before(a, b, |x: Seq<char>, y: Seq<char>| part_before(x, y))
}

/// Parts ordered character by character are a strict total order.
pub proof fn lemma_part_order_strict_total()
    ensures
        strict_total(|a: Seq<char>, b: Seq<char>| part_before(a, b)),
{
    let chars = |x: char, y: char| char_less(x, y);
    assert(strict_total(chars)) by {
        assert forall|a: char, b: char| a != b implies #[trigger] chars(a, b) || #[trigger] chars(
            b,
            a,
        ) by {
        }
    }
    lemma_lex_strict_total(chars);
    assert((|a: Seq<char>, b: Seq<char>| part_before(a, b)) == (|a: Seq<char>, b: Seq<char>|
        lex_before(a, b, chars)));
}

/// Paths ordered part by part are a strict total order.
pub proof fn lemma_parts_order_strict_total()
    ensures
        strict_total(|a: Seq<Seq<char>>, b: Seq<Seq<char>>| parts_before(a, b)),
{
    let chars = |x: char, y: char| char_less(x, y);
    assert(strict_total(chars)) by {
        assert forall|a: char, b: char| a != b implies #[trigger] chars(a, b) || #[trigger] chars(
            b,
            a,
        ) by {
        }
    }
    lemma_lex_strict_total(chars);
    let parts = |x: Seq<char>, y: Seq<char>| part_before(x, y);
    assert(parts == |x: Seq<char>, y: Seq<char>| lex_before(x, y, chars));
    lemma_lex_strict_total(parts);
    assert((|a: Seq<Seq<char>>, b: Seq<Seq<char>>| parts_before(a, b)) == (|
        a: Seq<Seq<char>>,
        b: Seq<Seq<char>>,
    | lex_before(a, b, parts)));
}

pub(crate) fn run_before(a: &Vec<char>, b: &Vec<char>) -> (before: bool)
    ensures
        before == part_before(a@, b@),
{
    let mut i: usize = 0;
    assert(a@.skip(0) =~= a@ && b@.skip(0) =~= b@);
    while i < a.len() && i < b.len() && a[i] == b[i]
        invariant
            i <= a@.len(),
            i <= b@.len(),
            a@.take(i as int) == b@.take(i as int),
            part_before(a@, b@) == part_before(a@.skip(i as int), b@.skip(i as int)),
        decreases a@.len() - i,
    {
        proof {
            let (x, y) = (a@.skip(i as int), b@.skip(i as int));
            assert(x.drop_first() =~= a@.skip(i as int + 1));
            assert(y.drop_first() =~= b@.skip(i as int + 1));
            assert(a@.take(i as int + 1) =~= a@.take(i as int).push(a@[i as int]));
            assert(b@.take(i as int + 1) =~= b@.take(i as int).push(b@[i as int]));
        }
        i = i + 1;
    }
    if i == a.len() {
        i < b.len()
    } else if i == b.len() {
        false
    } else {
        a[i] < b[i]
    }
}

fn same_run(a: &Vec<char>, b: &Vec<char>) -> (same: bool)
    ensures
        same == (a@ == b@),
{
    if a.len() != b.len() {
        return false;
    }
    let mut i: usize = 0;
    while i < a.len()
        invariant
            a@.len() == b@.len(),
            i <= a@.len(),
            forall|j: int| 0 <= j < i ==> a@[j] == b@[j],
        decreases a@.len() - i,
    {
        if a[i] != b[i] {
            return false;
        }
        i = i + 1;
    }
    assert(a@ =~= b@);
    true
}

/// Whether the path of parts `a` comes before the path of parts `b`.
pub fn path_before(a: &Vec<Vec<char>>, b: &Vec<Vec<char>>) -> (before: bool)
    ensures
        before == parts_before(char_runs(a@), char_runs(b@)),
{
    let ghost (pa, pb) = (char_runs(a@), char_runs(b@));
    let mut i: usize = 0;
    assert(pa.skip(0) =~= pa && pb.skip(0) =~= pb);
    while i < a.len() && i < b.len() && same_run(&a[i], &b[i])
        invariant
            pa == char_runs(a@),
            pb == char_runs(b@),
            i <= a@.len(),
            i <= b@.len(),
            parts_before(pa, pb) == parts_before(pa.skip(i as int), pb.skip(i as int)),
        decreases a@.len() - i,
    {
        proof {
            assert(pa.skip(i as int).drop_first() =~= pa.skip(i as int + 1));
            assert(pb.skip(i as int).drop_first() =~= pb.skip(i as int + 1));
        }
        i = i + 1;
    }
    if i == a.len() {
        i < b.len()
    } else if i == b.len() {
        false
    } else {
        run_before(&a[i], &b[i])
    }
}

/// Whether the path of parts `a` names the same path as `b`.
pub fn same_path(a: &Vec<Vec<char>>, b: &Vec<Vec<char>>) -> (same: bool)
    ensures
        same == (char_runs(a@) == char_runs(b@)),
{
    if a.len() != b.len() {
        assert(char_runs(a@).len() != char_runs(b@).len());
        return false;
    }
    let mut i: usize = 0;
    while i < a.len()
        invariant
            a@.len() == b@.len(),
            i <= a@.len(),
            forall|j: int| 0 <= j < i ==> #[trigger] char_runs(a@)[j] == char_runs(b@)[j],
        decreases a@.len() - i,
    {
        if !same_run(&a[i], &b[i]) {
            assert(char_runs(a@)[i as int] != char_runs(b@)[i as int]);
            return false;
        }
        i = i + 1;
    }
    assert(char_runs(a@) =~= char_runs(b@));
    true
}

/// Whether `path` starts with every part of `prefix`.
pub open spec fn parts_start_with(path: Seq<Seq<char>>, prefix: Seq<Seq<char>>) -> bool {
    prefix.len() <= path.len() && path.take(prefix.len() as int) == prefix
}

/// Whether the path of parts `path` starts with the path of parts `prefix`.
pub fn path_starts_with(path: &Vec<Vec<char>>, prefix: &Vec<Vec<char>>) -> (starts: bool)
    ensures
        starts == parts_start_with(char_runs(path@), char_runs(prefix@)),
{
    if prefix.len() > path.len() {
        return false;
    }
    let mut i: usize = 0;
    while i < prefix.len()
        invariant
            prefix@.len() <= path@.len(),
            i <= prefix@.len(),
            forall|j: int| 0 <= j < i ==> #[trigger] char_runs(path@)[j] == char_runs(prefix@)[j],
        decreases prefix@.len() - i,
    {
        if !same_run(&path[i], &prefix[i]) {
            assert(char_runs(path@).take(prefix@.len() as int)[i as int] != char_runs(prefix@)[i as int]);
            return false;
        }
        i = i + 1;
    }
    assert(char_runs(path@).take(prefix@.len() as int) =~= char_runs(prefix@));
    true
}

/// Each element of `s` strictly before every later one.
pub open spec fn ascending_by<T>(s: Seq<T>, before: spec_fn(T, T) -> bool) -> bool {
    forall|i: int, j: int| 0 <= i < j < s.len() ==> before(#[trigger] s[i], #[trigger] s[j])
}

/// `before` is irreflexive and transitive.
pub open spec fn strict_order<T>(before: spec_fn(T, T) -> bool) -> bool {
    &&& forall|a: T| !#[trigger] before(a, a)
    &&& forall|a: T, b: T, c: T| #[trigger] before(a, b) && #[trigger] before(b, c) ==> before(a, c)
}

/// Putting `x` where everything before it is before it, and it is before
/// what follows, keeps a sequence ascending.
pub proof fn lemma_insert_ascending_by<T>(s: Seq<T>, at: int, x: T, before: spec_fn(T, T) -> bool)
    requires
        strict_order(before),
        0 <= at <= s.len(),
        ascending_by(s, before),
        forall|k: int| 0 <= k < at ==> before(#[trigger] s[k], x),
        at < s.len() ==> before(x, s[at]),
    ensures
        ascending_by(s.insert(at, x), before),
{
    let w = s.insert(at, x);
    assert forall|i: int, j: int| 0 <= i < j < w.len() implies before(#[trigger] w[i], #[trigger] w[j]) by {
        if j < at {
            assert(w[i] == s[i] && w[j] == s[j]);
        } else if j == at {
            assert(w[i] == s[i] && w[j] == x);
        } else if i == at {
            assert(w[i] == x && w[j] == s[j - 1]);
            if j - 1 > at {
                assert(before(s[at], s[j - 1]));
            }
        } else if i < at {
            assert(w[i] == s[i] && w[j] == s[j - 1]);
        } else {
            assert(w[i] == s[i - 1] && w[j] == s[j - 1]);
        }
    }
}

/// Two ascending sequences with the same elements are one sequence: there is
/// only one way to put a set of elements in ascending order.
pub proof fn lemma_ascending_order_is_unique<T>(a: Seq<T>, b: Seq<T>, before: spec_fn(T, T) -> bool)
    requires
        strict_order(before),
        ascending_by(a, before),
        ascending_by(b, before),
        forall|x: T| a.contains(x) <==> #[trigger] b.contains(x),
    ensures
        a == b,
    decreases a.len(),
{
    if a.len() == 0 {
        if b.len() > 0 {
            assert(b.contains(b[0]));
        }
        assert(a =~= b);
    } else {
        assert(a.contains(a[0]));
        assert(b.contains(a[0]));
        assert(b.len() > 0);
        assert(b.contains(b[0]));
        assert(a.contains(b[0]));
        let i = choose|i: int| 0 <= i < b.len() && b[i] == a[0];
        let j = choose|j: int| 0 <= j < a.len() && a[j] == b[0];
        if i > 0 && j > 0 {
            assert(before(b[0], b[i]));
            assert(before(a[0], a[j]));
            assert(before(a[0], a[0]));
        }
        assert(a[0] == b[0]);
        let (ra, rb) = (a.drop_first(), b.drop_first());
        assert(ascending_by(ra, before)) by {
            assert forall|p: int, q: int| 0 <= p < q < ra.len() implies before(#[trigger] ra[p], #[trigger] ra[q]) by {
                assert(ra[p] == a[p + 1] && ra[q] == a[q + 1]);
            }
        }
        assert(ascending_by(rb, before)) by {
            assert forall|p: int, q: int| 0 <= p < q < rb.len() implies before(#[trigger] rb[p], #[trigger] rb[q]) by {
                assert(rb[p] == b[p + 1] && rb[q] == b[q + 1]);
            }
        }
        assert forall|x: T| ra.contains(x) <==> #[trigger] rb.contains(x) by {
            if ra.contains(x) {
                let k = choose|k: int| 0 <= k < ra.len() && ra[k] == x;
                assert(a[k + 1] == x);
                assert(before(a[0], a[k + 1]));
                assert(b.contains(x));
                let m = choose|m: int| 0 <= m < b.len() && b[m] == x;
                if m == 0 {
                    assert(before(x, x));
                }
                assert(rb[m - 1] == x);
            }
            if rb.contains(x) {
                let k = choose|k: int| 0 <= k < rb.len() && rb[k] == x;
                assert(b[k + 1] == x);
                assert(before(b[0], b[k + 1]));
                assert(b.contains(x));
                assert(a.contains(x));
                let m = choose|m: int| 0 <= m < a.len() && a[m] == x;
                if m == 0 {
                    assert(before(x, x));
                }
                assert(ra[m - 1] == x);
            }
        }
        lemma_ascending_order_is_unique(ra, rb, before);
        assert(a =~= b) by {
            assert forall|k: int| 0 <= k < a.len() implies a[k] == b[k] by {
                if k > 0 {
                    assert(a[k] == ra[k - 1] && b[k] == rb[k - 1]);
                }
            }
        }
    }
}

} // verus!
