//! Moments: the points of time, each linked to the one immediately before
//! it and to the one immediately after.

mod iterator;

pub use iterator::Timeline;

use core::cmp::Ordering;
use std::sync::Arc;
use vstd::prelude::*;

verus! {

/// A Moment answers the "when", giving the order of time.
#[derive(Debug, Default)]
pub struct Moment {
    /// The previous moment immediately before self.
    pub before: Option<Arc<Moment>>,
    /// The next moment immediately after self.
    pub after: Option<Arc<Moment>>,
}

/// Calls `std::ptr::eq`, which tells whether both references point to the
/// same place in memory: two references to one place see one moment, so
/// they hold the same value. What the addresses are is up to the machine, so
/// a `false` says nothing of the values.
#[verifier::external_body]
fn same_place(a: &Moment, b: &Moment) -> (same: bool)
    ensures
        same ==> *a == *b,
{
    std::ptr::eq(a, b)
}

impl PartialEq for Moment {
    /// A Moment equals no other moment but itself, even if both share the
    /// exact same values.
    fn eq(&self, other: &Self) -> (equal: bool) {
        same_place(self, other)
    }
}

/// Moments are told apart by where they are, not by what they hold: `==`
/// compares their places in memory, of which nothing can be said.
impl vstd::std_specs::cmp::PartialEqSpecImpl for Moment {
    open spec fn obeys_eq_spec() -> bool {
        false
    }

    open spec fn eq_spec(&self, other: &Self) -> bool {
        false
    }
}

/// Returns true if, and only if, `other` is one of the moments that follow
/// `from` along its chain of moments after.
fn comes_after(from: &Moment, other: &Moment) -> (found: bool)
    decreases from,
{
    match &from.after {
        Some(next) => {
            assert(decreases_to!(*from => from.after->0));
            if same_place(next, other) {
                true
            } else {
                comes_after(next, other)
            }
        },
        None => false,
    }
}

/// Returns true if, and only if, `other` is one of the moments that precede
/// `from` along its chain of moments before.
fn comes_before(from: &Moment, other: &Moment) -> (found: bool)
    decreases from,
{
    match &from.before {
        Some(previous) => {
            assert(decreases_to!(*from => from.before->0));
            if same_place(previous, other) {
                true
            } else {
                comes_before(previous, other)
            }
        },
        None => false,
    }
}

impl PartialOrd for Moment {
    /// A Moment is comparable to another as long as both belong to the same
    /// timeline: it is less than the moments that follow it, and greater
    /// than those that precede it.
    fn partial_cmp(&self, other: &Self) -> (order: Option<Ordering>) {
        if same_place(self, other) {
            return Some(Ordering::Equal);
        }
        if comes_after(self, other) {
            return Some(Ordering::Less);
        }
        if comes_before(self, other) {
            return Some(Ordering::Greater);
        }
        None
    }
}

/// As with `==`, what `partial_cmp` answers depends on where the moments
/// are, of which nothing can be said.
impl vstd::std_specs::cmp::PartialOrdSpecImpl for Moment {
    open spec fn obeys_partial_cmp_spec() -> bool {
        false
    }

    open spec fn partial_cmp_spec(&self, other: &Self) -> Option<Ordering> {
        None
    }
}

impl Moment {
    /// Sets the moment immediately before self.
    pub fn with_before(self, before: Arc<Moment>) -> (moment: Self)
        ensures
            moment.before == Some(before),
            moment.after == self.after,
    {
        Moment { before: Some(before), after: self.after }
    }

    /// Sets the moment immediately after self.
    pub fn with_after(self, after: Arc<Moment>) -> (moment: Self)
        ensures
            moment.before == self.before,
            moment.after == Some(after),
    {
        Moment { before: self.before, after: Some(after) }
    }
}

/// A Period represents the time being between two different [Moment]s in
/// time.
pub struct Period(pub [Arc<Moment>; 2]);

/// A Duration represents the time during which something takes place.
pub enum Duration {
    Moment(Arc<Moment>),
    Period(Arc<Period>),
}

} // verus!
