//! What a confined process has said, as something a frame reader can read.
//!
//! A sandbox hands out its streams as reads that answer with whatever is
//! available and never wait, and a frame reader wants reads that wait.
//! Something has to hold the difference, and this is it: the bytes already
//! heard and not yet consumed, and what to do with each answer the stream
//! gives. The waiting itself (sleeping, the clock, the stream) is the host's.
//!
//! Neither of two answers is an ordinary read. *Nothing yet* is what a
//! program thinking looks like, so it cannot be an ending; but it is also what
//! a program that has wedged looks like, so a patience is spent on it and then
//! the reader says so. *Bytes were dropped* is worse than a short read: the
//! bytes past the output ceiling took the newline somebody was going to use
//! as a boundary, so the stream is unframeable.

use vstd::prelude::*;
use crate::sandbox::service::SandboxRead;

verus! {

/// What the reader does with one answer.
#[derive(Debug, Clone, Copy, PartialEq, Eq, Structural)]
pub enum HeardAction {
    /// Hold this many arrived bytes for the frame reader.
    Hold(usize),
    /// End the wait: the reader was asked to stop.
    Abandoned,
    /// End the wait: the program said nothing for the whole patience.
    Silent,
    /// End the conversation: this many bytes, and a boundary, were lost.
    Lost(usize),
    /// The stream ended; hold nothing.
    Ended,
    /// Sleep one pause, then read again.
    Pause,
}

/// What the reader does with `read`, where `abandon` says whether it was
/// asked to stop and `silence_spent` whether the patience is out. An empty
/// answer ends the wait for a stop before the patience, because that answer
/// is already true: a caller who asked to stop is not waiting to find out
/// how long the program was allowed to be quiet for.
pub open spec fn heard_decision(read: SandboxRead, abandon: bool, silence_spent: bool) -> HeardAction {
    match read {
        SandboxRead::Bytes(count) => if count == 0 {
            if abandon {
                HeardAction::Abandoned
            } else if silence_spent {
                HeardAction::Silent
            } else {
                HeardAction::Pause
            }
        } else {
            HeardAction::Hold(count)
        },
        SandboxRead::Pending => if abandon {
            HeardAction::Abandoned
        } else if silence_spent {
            HeardAction::Silent
        } else {
            HeardAction::Pause
        },
        SandboxRead::Limited { discarded, .. } => HeardAction::Lost(discarded),
        SandboxRead::End => HeardAction::Ended,
    }
}

/// The action [`heard_decision`] gives for one answer.
pub fn heard_action(read: SandboxRead, abandon: bool, silence_spent: bool) -> (action: HeardAction)
    ensures
        action == heard_decision(read, abandon, silence_spent),
{
    match read {
        SandboxRead::Bytes(count) if count > 0 => HeardAction::Hold(count),
        SandboxRead::Bytes(_) | SandboxRead::Pending => {
            if abandon {
                HeardAction::Abandoned
            } else if silence_spent {
                HeardAction::Silent
            } else {
                HeardAction::Pause
            }
        },
        SandboxRead::Limited { discarded, .. } => HeardAction::Lost(discarded),
        SandboxRead::End => HeardAction::Ended,
    }
}

/// The bytes most recently heard, and how many of them were consumed.
pub struct HeardBuffer {
    held: Vec<u8>,
    at: usize,
}

/// A buffer's content: what it holds and how far it was consumed.
pub struct HeardBufferView {
    pub held: Seq<u8>,
    pub at: nat,
}

impl View for HeardBuffer {
    type V = HeardBufferView;

    closed spec fn view(&self) -> HeardBufferView {
        HeardBufferView { held: self.held@, at: self.at as nat }
    }
}

impl HeardBuffer {
    #[verifier::type_invariant]
    spec fn consumed_within(self) -> bool {
        self.at <= self.held@.len()
    }

    /// A buffer that has heard nothing.
    pub fn new() -> (buffer: Self)
        ensures
            buffer@.held.len() == 0,
            buffer@.at == 0,
    {
        Self { held: Vec::new(), at: 0 }
    }

    /// Whether every held byte was consumed, so that the stream has to be
    /// heard again before the next read.
    pub fn spent(&self) -> (spent: bool)
        ensures
            spent == (self@.at >= self@.held.len()),
    {
        self.at >= self.held.len()
    }

    /// Replaces what is held with `bytes`, none of them consumed; an empty
    /// `bytes` is how the end of the stream is said.
    pub fn hold(&mut self, bytes: &[u8])
        ensures
            final(self)@.held == bytes@,
            final(self)@.at == 0,
    {
        let mut held: Vec<u8> = Vec::new();
        let mut i: usize = 0;
        while i < bytes.len()
            invariant
                i <= bytes@.len(),
                held@ == bytes@.take(i as int),
            decreases bytes@.len() - i,
        {
            held.push(bytes[i]);
            assert(bytes@.take(i as int + 1) =~= bytes@.take(i as int).push(bytes@[i as int]));
            i = i + 1;
        }
        assert(bytes@.take(bytes@.len() as int) =~= bytes@);
        *self = Self { held, at: 0 };
    }

    /// The held bytes not yet consumed.
    pub fn available(&self) -> (bytes: &[u8])
        ensures
            bytes@ == self@.held.skip(self@.at as int),
    {
        proof {
            use_type_invariant(self);
        }
        slice_from(self.held.as_slice(), self.at)
    }

    /// Marks `amount` more bytes consumed, never past what is held.
    pub fn consume(&mut self, amount: usize)
        ensures
            final(self)@.held == old(self)@.held,
            final(self)@.at == if old(self)@.at + amount <= old(self)@.held.len() {
                (old(self)@.at + amount) as nat
            } else {
                old(self)@.held.len()
            },
    {
        proof {
            use_type_invariant(&*self);
        }
        let left = self.held.len() - self.at;
        let at = if amount <= left {
            self.at + amount
        } else {
            self.held.len()
        };
        self.at = at;
    }

    /// Copies as many available bytes as fit into `buffer`, consumes them,
    /// and says how many there were.
    pub fn read_into(&mut self, buffer: &mut [u8]) -> (taken: usize)
        ensures
            taken == if old(self)@.held.len() - old(self)@.at <= old(buffer)@.len() {
                (old(self)@.held.len() - old(self)@.at) as int
            } else {
                old(buffer)@.len() as int
            },
            final(buffer)@.len() == old(buffer)@.len(),
            final(buffer)@.take(taken as int) == old(self)@.held.subrange(
                old(self)@.at as int,
                old(self)@.at + taken,
            ),
            final(buffer)@.skip(taken as int) == old(buffer)@.skip(taken as int),
            final(self)@.held == old(self)@.held,
            final(self)@.at == old(self)@.at + taken,
    {
        proof {
            use_type_invariant(&*self);
        }
        let left = self.held.len() - self.at;
        let taken = if left <= buffer.len() {
            left
        } else {
            buffer.len()
        };
        let end: usize = self.at + taken;
        let mut i: usize = 0;
        while i < taken
            invariant
                end == self.at + taken,
                self.at + taken <= self.held@.len(),
                taken <= buffer@.len(),
                buffer@.len() == old(buffer)@.len(),
                i <= taken,
                forall|k: int| 0 <= k < i ==> buffer@[k] == self.held@[self.at + k],
                forall|k: int| i <= k < buffer@.len() ==> buffer@[k] == old(buffer)@[k],
            decreases taken - i,
        {
            buffer[i] = self.held[self.at + i];
            i = i + 1;
        }
        assert(buffer@.take(taken as int) =~= self.held@.subrange(self.at as int, self.at + taken));
        assert(buffer@.skip(taken as int) =~= old(buffer)@.skip(taken as int));
        self.at = self.at + taken;
        taken
    }
}

/// `bytes` from `start` on.
fn slice_from(bytes: &[u8], start: usize) -> (rest: &[u8])
    requires
        start <= bytes@.len(),
    ensures
        rest@ == bytes@.skip(start as int),
{
    let (_, rest) = bytes.split_at(start);
    rest
}

} // verus!
