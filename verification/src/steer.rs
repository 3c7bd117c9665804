//! Steering: a line handed to a turn already running.
//!
//! A prompt typed while a turn is going does not wait for that turn to end:
//! it is pushed here, and the turn takes it at the next boundary it can, so
//! the agent adjusts course mid-work. The queue is the state; sharing it
//! between the thread that reads the keyboard and the thread the turn runs on
//! is the holder's, which puts it behind a lock.

use vstd::prelude::*;
use std::collections::VecDeque;

verus! {

/// The lines waiting to be worked into a running turn, oldest first.
#[derive(Debug, Clone, Default)]
pub struct Steer {
    waiting: VecDeque<String>,
}

/// The contents of a sequence of lines.
pub open spec fn line_views(lines: Seq<String>) -> Seq<Seq<char>> {
    Seq::new(lines.len(), |i: int| lines[i]@)
}

impl View for Steer {
    type V = Seq<Seq<char>>;

    closed spec fn view(&self) -> Seq<Seq<char>> {
        line_views(self.waiting@)
    }
}

impl Steer {
    /// An empty queue.
    pub fn new() -> (steer: Self)
        ensures
            steer@.len() == 0,
    {
        let steer = Self { waiting: VecDeque::new() };
        assert(steer@ =~= Seq::<Seq<char>>::empty());
        steer
    }

    /// Pushes a line the turn should work in, after the ones already waiting.
    /// The line is taken whole: trimming and the empty case are the caller's.
    pub fn say(&mut self, line: String)
        ensures
            final(self)@ == old(self)@.push(line@),
    {
        self.waiting.push_back(line);
        assert(self@ =~= old(self)@.push(line@));
    }

    /// Whether a line is waiting to be worked in.
    pub fn any(&self) -> (any: bool)
        ensures
            any == (self@.len() > 0),
    {
        self.waiting.len() > 0
    }

    /// Takes every line waiting, oldest first, and leaves none behind: a
    /// burst of lines typed in one pass is one course-correction.
    pub fn take(&mut self) -> (lines: Vec<String>)
        ensures
            line_views(lines@) == old(self)@,
            final(self)@.len() == 0,
    {
        let mut lines: Vec<String> = Vec::new();
        let ghost all = self@;
        while self.waiting.len() > 0
            invariant
                line_views(lines@) + self@ == all,
            decreases self.waiting@.len(),
        {
            let ghost rest = self@;
            match self.waiting.pop_front() {
                Some(line) => {
                    let ghost taken = line_views(lines@);
                    lines.push(line);
                    assert(line_views(lines@) =~= taken.push(line@));
                    assert(rest =~= seq![line@] + self@);
                    assert(line_views(lines@) + self@ =~= taken + rest);
                },
                None => {},
            }
        }
        assert(line_views(lines@) + self@ =~= line_views(lines@));
        lines
    }
}

} // verus!
