//! The index of check-ins in progress: a set of events.

use crate::event::{Check, CheckView};
use std::rc::Rc;
use vstd::prelude::*;

verus! {

/// A finite set of check events, compared by station and timestamp.
///
/// The events are kept in the order in which they came, each one once.
#[derive(Debug)]
pub struct OpenCheckIns {
    events: Vec<Rc<Check>>,
}

impl View for OpenCheckIns {
    type V = Set<CheckView>;

    closed spec fn view(&self) -> Set<CheckView> {
        Set::new(|event: CheckView| self.holds(event))
    }
}

impl OpenCheckIns {
    #[verifier::type_invariant]
    spec fn each_once(self) -> bool {
        forall|i: int, j: int|
            0 <= i < j < self.events.len() ==> (#[trigger] self.events[i])@
                != (#[trigger] self.events[j])@
    }

    spec fn holds(self, event: CheckView) -> bool {
        exists|i: int| 0 <= i < self.events.len() && (#[trigger] self.events[i])@ == event
    }

    /// The set without any event.
    pub fn new() -> (set: OpenCheckIns)
        ensures
            set@ == Set::<CheckView>::empty(),
    {
        OpenCheckIns { events: Vec::new() }
    }

    /// The place of `check` among the events, if it is there.
    fn position(&self, check: &Check) -> (place: Option<usize>)
        ensures
            match place {
                Some(i) => i < self.events.len() && self.events[i as int]@ == check@,
                None => !self.holds(check@),
            },
    {
        let mut i: usize = 0;
        while i < self.events.len()
            invariant
                i <= self.events.len(),
                forall|j: int| 0 <= j < i ==> (#[trigger] self.events[j])@ != check@,
            decreases self.events.len() - i,
        {
            if *self.events[i] == *check {
                return Some(i);
            }
            i += 1;
        }
        None
    }

    /// Tells whether an event equal to `check` is in the set.
    pub fn contains(&self, check: &Check) -> (found: bool)
        ensures
            found == self@.contains(check@),
    {
        self.position(check).is_some()
    }

    /// Adds `check` to the set. Returns `true` if no event equal to it was
    /// there; otherwise the set stays as it is.
    pub fn insert(&mut self, check: Rc<Check>) -> (added: bool)
        ensures
            final(self)@ == old(self)@.insert(check@),
            added == !old(self)@.contains(check@),
    {
        proof {
            use_type_invariant(&*self);
        }
        if self.contains(&check) {
            return false;
        }
        let mut events: Vec<Rc<Check>> = Vec::new();
        std::mem::swap(&mut events, &mut self.events);
        events.push(check);
        self.events = events;
        proof {
            let before = old(self).events@;
            assert forall|event: CheckView| #[trigger]
                self@.contains(event) == old(self)@.insert(check@).contains(event) by {
                if old(self).holds(event) {
                    let i = choose|i: int|
                        0 <= i < before.len() && (#[trigger] before[i])@ == event;
                    assert(self.events[i]@ == event);
                }
                if event == check@ {
                    assert(self.events[before.len() as int]@ == event);
                }
            }
        }
        true
    }

    /// Takes the event equal to `check` out of the set. Returns `true` if it
    /// was there.
    pub fn remove(&mut self, check: &Check) -> (removed: bool)
        ensures
            final(self)@ == old(self)@.remove(check@),
            removed == old(self)@.contains(check@),
    {
        proof {
            use_type_invariant(&*self);
        }
        match self.position(check) {
            Some(i) => {
                let mut events: Vec<Rc<Check>> = Vec::new();
                std::mem::swap(&mut events, &mut self.events);
                events.remove(i);
                self.events = events;
                proof {
                    let before = old(self).events@;
                    assert forall|event: CheckView| #[trigger]
                        self@.contains(event) == old(self)@.remove(check@).contains(event) by {
                        if old(self).holds(event) && event != check@ {
                            let j = choose|j: int|
                                0 <= j < before.len() && (#[trigger] before[j])@ == event;
                            if j < i {
                                assert(self.events[j]@ == event);
                            } else {
                                assert(self.events[j - 1]@ == event);
                            }
                        }
                    }
                }
                true
            },
            None => false,
        }
    }
}

} // verus!
