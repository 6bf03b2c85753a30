//! Walking a chain of moments, forwards or backwards.

use super::Moment;
use std::sync::Arc;
use vstd::prelude::*;

verus! {

/// Calls `Arc::clone`, which gives another pointer to the same moment.
#[verifier::external_body]
fn share(moment: &Arc<Moment>) -> (copy: Arc<Moment>)
    ensures
        copy == *moment,
{
    Arc::clone(moment)
}

/// Another pointer to the same moment, if any.
fn share_option(moment: &Option<Arc<Moment>>) -> (copy: Option<Arc<Moment>>)
    ensures
        copy == *moment,
{
    match moment {
        Some(m) => Some(share(m)),
        None => None,
    }
}

/// A Timeline walks a chain of [Moment]s, from a given one, forwards or
/// backwards.
pub struct Timeline {
    pub next: Option<Arc<Moment>>,
}

impl From<Arc<Moment>> for Timeline {
    fn from(value: Arc<Moment>) -> (timeline: Self) {
        Timeline { next: Some(value) }
    }
}

impl vstd::std_specs::convert::FromSpecImpl<Arc<Moment>> for Timeline {
    open spec fn obeys_from_spec() -> bool {
        true
    }

    open spec fn from_spec(value: Arc<Moment>) -> Timeline {
        Timeline { next: Some(value) }
    }
}

impl Timeline {
    /// Returns the current moment, if any, and moves to the one after it.
    pub fn next(&mut self) -> (current: Option<Arc<Moment>>)
        ensures
            current == old(self).next,
            final(self).next == match old(self).next {
                Some(m) => m.after,
                None => None,
            },
    {
        let current = self.next.take();
        if let Some(moment) = &current {
            self.next = share_option(&moment.after);
        }
        current
    }

    /// Returns the current moment, if any, and moves to the one before it.
    pub fn next_back(&mut self) -> (current: Option<Arc<Moment>>)
        ensures
            current == old(self).next,
            final(self).next == match old(self).next {
                Some(m) => m.before,
                None => None,
            },
    {
        let current = self.next.take();
        if let Some(moment) = &current {
            self.next = share_option(&moment.before);
        }
        current
    }
}

} // verus!
