//! The candidates that download slots draw from.

use crate::text::texts;
use vstd::prelude::*;

verus! {

/// A pool as contracts speak of it: every candidate it was made with, in
/// order, and how many of them have been handed out.
pub struct PoolView {
    pub all: Seq<Seq<char>>,
    pub taken: nat,
}

impl PoolView {
    /// No more candidates are handed out than there are.
    pub open spec fn wf(self) -> bool {
        self.taken <= self.all.len()
    }

    /// The candidates that have been handed out, in the order in which they
    /// were.
    pub open spec fn attempted(self) -> Seq<Seq<char>> {
        self.all.take(self.taken as int)
    }

    /// The candidates that are left, the next one first.
    pub open spec fn remaining(self) -> Seq<Seq<char>> {
        self.all.skip(self.taken as int)
    }

    /// The pool after one more candidate is asked for, and that candidate:
    /// the first that is left. An exhausted pool stays as it is and gives
    /// none.
    pub open spec fn take(self) -> (PoolView, Option<Seq<char>>) {
        if self.taken < self.all.len() {
            (PoolView { all: self.all, taken: self.taken + 1 }, Some(self.all[self.taken as int]))
        } else {
            (self, None)
        }
    }
}

/// The candidate addresses of one download, handed out in their order, each
/// one once.
#[derive(Debug)]
pub struct CandidatePool {
    urls: Vec<String>,
    next: usize,
}

impl View for CandidatePool {
    type V = PoolView;

    closed spec fn view(&self) -> PoolView {
        PoolView { all: texts(self.urls@), taken: self.next as nat }
    }
}

impl CandidatePool {
    #[verifier::type_invariant]
    spec fn inv(self) -> bool {
        self.next <= self.urls@.len()
    }

    /// A pool of the given candidates, none of them handed out.
    pub fn new(urls: Vec<String>) -> (pool: CandidatePool)
        ensures
            pool@ == (PoolView { all: texts(urls@), taken: 0 }),
            pool@.wf(),
    {
        CandidatePool { urls, next: 0 }
    }

    /// Hands out the next candidate, or `None` where none is left.
    pub fn take_next(&mut self) -> (url: Option<String>)
        ensures
            final(self)@ == old(self)@.take().0,
            match url {
                Some(text) => old(self)@.take().1 == Some(text@),
                None => old(self)@.take().1 is None,
            },
            old(self)@.wf(),
            final(self)@.wf(),
    {
        proof {
            use_type_invariant(&*self);
        }
        if self.next < self.urls.len() {
            let url = self.urls[self.next].clone();
            self.next = self.next + 1;
            Some(url)
        } else {
            None
        }
    }

    /// How many candidates are left.
    pub fn remaining(&self) -> (left: usize)
        ensures
            self@.wf(),
            left == self@.all.len() - self@.taken,
    {
        proof {
            use_type_invariant(self);
        }
        self.urls.len() - self.next
    }

    /// How many candidates have been handed out.
    pub fn attempted(&self) -> (taken: usize)
        ensures
            self@.wf(),
            taken == self@.taken,
    {
        proof {
            use_type_invariant(self);
        }
        self.next
    }
}

} // verus!
