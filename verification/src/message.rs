//! A mail message as the client lists it. Messages are told apart, and
//! ordered, by their id alone.

use core::cmp::Ordering;
use vstd::prelude::*;

verus! {

/// A received message.
#[derive(Debug, Clone)]
pub struct Message {
    pub id: u64,
    pub from: String,
    pub title: String,
    pub content: String,
    pub read: bool,
}

impl PartialEq for Message {
    /// Two messages are the same message when their ids agree.
    fn eq(&self, other: &Self) -> (r: bool) {
        self.id == other.id
    }
}

impl vstd::std_specs::cmp::PartialEqSpecImpl for Message {
    open spec fn obeys_eq_spec() -> bool {
        true
    }

    open spec fn eq_spec(&self, other: &Message) -> bool {
        self.id == other.id
    }
}

impl Eq for Message {

}

/// Messages in the order of their ids.
pub open spec fn id_order(a: u64, b: u64) -> Option<Ordering> {
    if a < b {
        Some(Ordering::Less)
    } else if a == b {
        Some(Ordering::Equal)
    } else {
        Some(Ordering::Greater)
    }
}

impl PartialOrd for Message {
    /// Messages are ordered by their ids.
    fn partial_cmp(&self, other: &Self) -> (r: Option<Ordering>) {
        if self.id < other.id {
            Some(Ordering::Less)
        } else if self.id == other.id {
            Some(Ordering::Equal)
        } else {
            Some(Ordering::Greater)
        }
    }
}

impl vstd::std_specs::cmp::PartialOrdSpecImpl for Message {
    open spec fn obeys_partial_cmp_spec() -> bool {
        true
    }

    open spec fn partial_cmp_spec(&self, other: &Message) -> Option<Ordering> {
        id_order(self.id, other.id)
    }
}

impl Message {
    /// The order of two messages: the order of their ids.
    pub fn cmp_by_id(&self, other: &Self) -> (o: Ordering)
        ensures
            Some(o) == id_order(self.id, other.id),
    {
        if self.id < other.id {
            Ordering::Less
        } else if self.id == other.id {
            Ordering::Equal
        } else {
            Ordering::Greater
        }
    }
}

} // verus!
