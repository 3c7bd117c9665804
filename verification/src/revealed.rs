//! Which deferred tools the model has asked for.
//!
//! A tool may be registered without being advertised: it is held back until
//! the model looks it up, and from then on it is offered like any other. The
//! revision says which material state this is: it moves exactly when the set
//! of revealed names changes, so looking a name up twice does not churn a
//! tool snapshot generation. Sharing one set between the tool that reveals a
//! name and the roster that reads it is the holder's, which puts it behind a
//! lock.

use vstd::prelude::*;
use crate::text::same_text;

verus! {

/// The deferred tools that have been asked for.
#[derive(Debug, Clone, Default)]
pub struct Revealed {
    held: Vec<String>,
    revision: u64,
}

/// The content of a [`Revealed`]: the names asked for, and the revision.
pub struct RevealedView {
    pub held: Set<Seq<char>>,
    pub revision: u64,
}

impl View for Revealed {
    type V = RevealedView;

    closed spec fn view(&self) -> RevealedView {
        RevealedView {
            held: Set::new(|name: Seq<char>| exists|i: int| 0 <= i < self.held@.len() && #[trigger] self.held@[i]@ == name),
            revision: self.revision,
        }
    }
}

/// The revision after one more change of membership.
pub open spec fn next_revision(revision: u64) -> u64 {
    if revision == u64::MAX {
        0
    } else {
        (revision + 1) as u64
    }
}

impl Revealed {
    /// Nothing asked for yet.
    pub fn new() -> (revealed: Self)
        ensures
            revealed@.held == Set::<Seq<char>>::empty(),
            revealed@.revision == 0,
    {
        let revealed = Self { held: Vec::new(), revision: 0 };
        assert(revealed@.held =~= Set::<Seq<char>>::empty());
        revealed
    }

    /// Offers `name` from now on. Silent about whether it was already there;
    /// the revision moves only if it was not.
    pub fn reveal_name(&mut self, name: &str)
        ensures
            final(self)@.held == old(self)@.held.insert(name@),
            final(self)@.revision == if old(self)@.held.contains(name@) {
                old(self)@.revision
            } else {
                next_revision(old(self)@.revision)
            },
    {
        if self.holds(name) {
            assert(self@.held =~= old(self)@.held.insert(name@));
            return;
        }
        let ghost before = self@.held;
        self.held.push(name.to_owned());
        self.revision = self.revision.wrapping_add(1);
        assert(self@.held =~= before.insert(name@)) by {
            assert forall|n: Seq<char>| self@.held.contains(n) <==> before.insert(name@).contains(n) by {
                if self@.held.contains(n) {
                    let i = choose|i: int| 0 <= i < self.held@.len() && #[trigger] self.held@[i]@ == n;
                    if i < old(self).held@.len() {
                        assert(old(self).held@[i] == self.held@[i]);
                    }
                }
                if before.contains(n) {
                    let i = choose|i: int| 0 <= i < old(self).held@.len() && #[trigger] old(self).held@[i]@ == n;
                    assert(self.held@[i] == old(self).held@[i]);
                }
                if n == name@ {
                    let last = self.held@.len() - 1;
                    assert(self.held@[last]@ == n);
                }
            }
        }
    }

    /// Whether `name` has been asked for.
    pub fn holds(&self, name: &str) -> (held: bool)
        ensures
            held == self@.held.contains(name@),
    {
        let mut i: usize = 0;
        while i < self.held.len()
            invariant
                i <= self.held@.len(),
                forall|j: int| 0 <= j < i ==> #[trigger] self.held@[j]@ != name@,
            decreases self.held@.len() - i,
        {
            if same_text(self.held[i].as_str(), name) {
                assert(self.held@[i as int]@ == name@);
                return true;
            }
            i = i + 1;
        }
        false
    }

    /// Which material reveal state this is. Equality is the contract: the
    /// number has no ordering meaning.
    pub fn revision(&self) -> (revision: u64)
        ensures
            revision == self@.revision,
    {
        self.revision
    }

    /// Forgets everything asked for; the revision moves only if anything was.
    pub fn forget(&mut self)
        ensures
            final(self)@.held == Set::<Seq<char>>::empty(),
            final(self)@.revision == if old(self)@.held.is_empty() {
                old(self)@.revision
            } else {
                next_revision(old(self)@.revision)
            },
    {
        if self.held.len() == 0 {
            assert(self@.held =~= Set::<Seq<char>>::empty());
            return;
        }
        assert(self@.held.contains(self.held@[0]@));
        self.held.clear();
        self.revision = self.revision.wrapping_add(1);
        assert(self@.held =~= Set::<Seq<char>>::empty());
    }
}

/// The revision moves exactly when membership changes: revealing a name
/// already held and forgetting an empty set leave it where it is, and every
/// other reveal or forget moves it to a revision it was not.
pub proof fn lemma_revision_moves_exactly_with_membership(
    before: RevealedView,
    name: Seq<char>,
)
    ensures
        ({
            let held = before.held.insert(name);
            let revision = if before.held.contains(name) {
                before.revision
            } else {
                next_revision(before.revision)
            };
            (revision != before.revision) <==> (held != before.held)
        }),
        ({
            let revision = if before.held.is_empty() {
                before.revision
            } else {
                next_revision(before.revision)
            };
            (revision != before.revision) <==> (Set::<Seq<char>>::empty() != before.held)
        }),
{
    if !before.held.contains(name) {
        assert(before.held.insert(name).contains(name));
    } else {
        assert(before.held.insert(name) =~= before.held);
    }
    if !before.held.is_empty() {
        let some = before.held.choose();
        assert(before.held.contains(some));
        assert(!Set::<Seq<char>>::empty().contains(some));
    } else {
        assert(before.held =~= Set::<Seq<char>>::empty());
    }
}

} // verus!
