//! The table of confirmation requests that wait for an answer.
//!
//! The engine registers a request and waits; whoever answers does so by the
//! request's number. The two sides share nothing but this table, and neither
//! needs to know the other.

use std::collections::HashMap;
use vstd::prelude::*;

verus! {

broadcast use vstd::std_specs::hash::group_hash_axioms;

/// What the table holds for a request.
#[derive(Debug, Clone, Copy, PartialEq, Eq, Structural)]
pub enum Slot {
    /// Nobody has answered yet.
    Waiting,
    /// The answer, not yet fetched by the one who asked.
    Answered(bool),
}

/// What the one who asked finds when looking for the answer.
#[derive(Debug, Clone, Copy, PartialEq, Eq, Structural)]
pub enum Answer {
    /// Nobody has answered yet.
    Waiting,
    /// The request was accepted or declined.
    Answered(bool),
    /// The table does not know the request: it was cancelled, or its answer
    /// was fetched before.
    Gone,
}

/// The table of pending confirmation requests.
pub struct ConfirmBridge {
    next_id: u64,
    pending: HashMap<u64, Slot>,
}

impl ConfirmBridge {
    /// The number the next request gets.
    pub closed spec fn next_id(&self) -> u64 {
        self.next_id
    }

    /// The requests in the table.
    pub closed spec fn slots(&self) -> Map<u64, Slot> {
        self.pending@
    }

    /// Every request in the table has a number below the next one, so the
    /// next request's number is new.
    pub open spec fn numbers_unused(&self) -> bool {
        forall|id: u64| self.slots().contains_key(id) ==> id < self.next_id()
    }

    /// An empty table. Requests are numbered from 1.
    pub fn new() -> (bridge: Self)
        ensures
            bridge.next_id() == 1,
            bridge.slots() == Map::<u64, Slot>::empty(),
            bridge.numbers_unused(),
    {
        ConfirmBridge { next_id: 1, pending: HashMap::new() }
    }

    /// Registers a request that waits for its answer, and returns its
    /// number. Numbers are given in order; after the largest number the
    /// count starts again at 0.
    pub fn register(&mut self) -> (request_id: u64)
        ensures
            request_id == old(self).next_id(),
            final(self).slots() == old(self).slots().insert(request_id, Slot::Waiting),
            final(self).next_id() == if request_id == u64::MAX {
                0
            } else {
                (request_id + 1) as u64
            },
            old(self).numbers_unused() ==> !old(self).slots().contains_key(request_id),
            old(self).numbers_unused() && request_id < u64::MAX ==> final(self).numbers_unused(),
    {
        let request_id = self.next_id;
        self.next_id = if request_id == u64::MAX {
            0
        } else {
            request_id + 1
        };
        self.pending.insert(request_id, Slot::Waiting);
        request_id
    }

    /// Answers the request `request_id`. Returns whether the request was
    /// waiting for an answer; an answer to any other number changes nothing.
    pub fn respond(&mut self, request_id: u64, accepted: bool) -> (matched: bool)
        ensures
            matched == (old(self).slots().contains_key(request_id)
                && old(self).slots()[request_id] == Slot::Waiting),
            final(self).slots() == if matched {
                old(self).slots().insert(request_id, Slot::Answered(accepted))
            } else {
                old(self).slots()
            },
            final(self).next_id() == old(self).next_id(),
            old(self).numbers_unused() ==> final(self).numbers_unused(),
    {
        let waiting = match self.pending.get(&request_id) {
            Some(slot) => match slot {
                Slot::Waiting => true,
                Slot::Answered(_) => false,
            },
            None => false,
        };
        if waiting {
            self.pending.insert(request_id, Slot::Answered(accepted));
        }
        waiting
    }

    /// Removes the request `request_id`, answered or not.
    pub fn cancel(&mut self, request_id: u64)
        ensures
            final(self).slots() == old(self).slots().remove(request_id),
            final(self).next_id() == old(self).next_id(),
            old(self).numbers_unused() ==> final(self).numbers_unused(),
    {
        self.pending.remove(&request_id);
    }

    /// Looks for the answer to the request `request_id`. An answer that is
    /// there is handed out and the request leaves the table.
    pub fn take_answer(&mut self, request_id: u64) -> (answer: Answer)
        ensures
            answer == if !old(self).slots().contains_key(request_id) {
                Answer::Gone
            } else {
                match old(self).slots()[request_id] {
                    Slot::Waiting => Answer::Waiting,
                    Slot::Answered(accepted) => Answer::Answered(accepted),
                }
            },
            final(self).slots() == if answer is Answered {
                old(self).slots().remove(request_id)
            } else {
                old(self).slots()
            },
            final(self).next_id() == old(self).next_id(),
            old(self).numbers_unused() ==> final(self).numbers_unused(),
    {
        let answer = match self.pending.get(&request_id) {
            Some(slot) => match slot {
                Slot::Waiting => Answer::Waiting,
                Slot::Answered(accepted) => Answer::Answered(*accepted),
            },
            None => Answer::Gone,
        };
        match answer {
            Answer::Answered(_) => {
                self.pending.remove(&request_id);
            },
            _ => {},
        }
        answer
    }
}

} // verus!
