//! The rules that the succession of the experiences of an entity follows.

use super::{failure, Constraint, ConstraintResult, Error, Result};
use crate::event::Event;
use crate::experience::query::{SelectNextExperience, SelectPreviousExperience};
use crate::experience::{kind_of, ExperienceKind, ExperiencedEvent, Profile};
use crate::id::Id;
use crate::interval::{overlaps, Interval};
use vstd::prelude::*;

verus! {

/// The entity is listed among the profiles after the previous experience,
/// unless there is no previous experience or no profile after it.
pub open spec fn listed_in_previous<'a, Intv>(
    entity: Id,
    previous: Option<ExperiencedEvent<'a, Intv>>,
) -> bool {
    match previous {
        None => true,
        Some(p) => p.experience.after@.len() == 0 || exists|k: int|
            0 <= k < p.experience.after@.len() && (#[trigger] p.experience.after@[k]).entity@
                == entity@,
    }
}

/// Both the experienced event and its neighbour, if any, are terminal.
pub open spec fn both_terminal<'a, Intv>(
    experienced_event: ExperiencedEvent<'a, Intv>,
    neighbour: Option<ExperiencedEvent<'a, Intv>>,
) -> bool {
    &&& kind_of(*experienced_event.experience) == ExperienceKind::Terminal
    &&& neighbour matches Some(n) && kind_of(*n.experience) == ExperienceKind::Terminal
}

/// Returns true if, and only if, the entity is listed among the profiles
/// after the given experience, or there is none.
fn is_listed(after: &Vec<Profile>, entity: Id) -> (listed: bool)
    ensures
        listed == (after@.len() == 0 || exists|k: int|
            0 <= k < after@.len() && (#[trigger] after@[k]).entity@ == entity@),
{
    if after.len() == 0 {
        return true;
    }
    let mut i: usize = 0;
    while i < after.len()
        invariant
            i <= after@.len(),
            forall|k: int| 0 <= k < i ==> (#[trigger] after@[k]).entity@ != entity@,
        decreases after@.len() - i,
    {
        if after[i].entity.as_u128() == entity.as_u128() {
            assert(after@[i as int].entity@ == entity@);
            return true;
        }
        i = i + 1;
    }
    false
}

/// An experience belongs to an entity listed in the previous experience,
/// when there is one with profiles after it.
pub struct ExperienceBelongsToOneOfPrevious<'a, Intv> {
    pub experienced_event: &'a ExperiencedEvent<'a, Intv>,
    pub previous: SelectPreviousExperience<'a, 'a, Intv>,
}

impl<'a, Intv: Interval + Copy> Constraint<'a, Intv> for ExperienceBelongsToOneOfPrevious<'a, Intv> {
    open spec fn spec_next(self, experienced_event: ExperiencedEvent<'a, Intv>) -> Self {
        ExperienceBelongsToOneOfPrevious {
            experienced_event: self.experienced_event,
            previous: self.previous.spec_add(&experienced_event),
        }
    }

    open spec fn spec_violation(self, experienced_event: ExperiencedEvent<'a, Intv>) -> Option<
        (bool, Seq<Error>),
    > {
        None
    }

    open spec fn spec_verdict(self) -> Option<(bool, Seq<Error>)> {
        if listed_in_previous(self.experienced_event.experience.entity, self.previous.spec_value()) {
            None
        } else {
            Some(failure(Error::NotInPreviousExperience))
        }
    }

    fn with(self, experienced_event: &'a ExperiencedEvent<'a, Intv>) -> (next: ConstraintResult<
        Self,
    >) {
        let mut constraint = self;
        constraint.previous.add(experienced_event);
        Ok(constraint)
    }

    fn result(self) -> (verdict: Result<()>) {
        let entity = self.experienced_event.experience.entity;
        match self.previous.value() {
            None => Ok(()),
            Some(previous) => if is_listed(&previous.experience.after, entity) {
                Ok(())
            } else {
                Err(Error::NotInPreviousExperience)
            },
        }
    }
}

impl<'a, Intv: Interval + Copy> ExperienceBelongsToOneOfPrevious<'a, Intv> {
    pub fn new(experienced_event: &'a ExperiencedEvent<'a, Intv>) -> (constraint: Self)
        ensures
            constraint.experienced_event == experienced_event,
            constraint.previous.event == experienced_event.event,
            constraint.previous.previous is None,
    {
        Self { experienced_event, previous: SelectPreviousExperience::new(experienced_event.event) }
    }
}

/// A terminal experience does not follow a terminal one.
pub struct ExperienceKindFollowsPrevious<'a, Intv> {
    pub experienced_event: &'a ExperiencedEvent<'a, Intv>,
    pub previous: SelectPreviousExperience<'a, 'a, Intv>,
}

impl<'a, Intv: Interval + Copy> Constraint<'a, Intv> for ExperienceKindFollowsPrevious<'a, Intv> {
    open spec fn spec_next(self, experienced_event: ExperiencedEvent<'a, Intv>) -> Self {
        ExperienceKindFollowsPrevious {
            experienced_event: self.experienced_event,
            previous: self.previous.spec_add(&experienced_event),
        }
    }

    open spec fn spec_violation(self, experienced_event: ExperiencedEvent<'a, Intv>) -> Option<
        (bool, Seq<Error>),
    > {
        None
    }

    open spec fn spec_verdict(self) -> Option<(bool, Seq<Error>)> {
        if both_terminal(*self.experienced_event, self.previous.spec_value()) {
            Some(failure(Error::TerminalFollowsTerminal))
        } else {
            None
        }
    }

    fn with(self, experienced_event: &'a ExperiencedEvent<'a, Intv>) -> (next: ConstraintResult<
        Self,
    >) {
        let mut constraint = self;
        constraint.previous.add(experienced_event);
        Ok(constraint)
    }

    fn result(self) -> (verdict: Result<()>) {
        let follows_terminal = match self.previous.value() {
            Some(previous) => ExperienceKind::from(previous.experience).is_terminal(),
            None => false,
        };
        if ExperienceKind::from(self.experienced_event.experience).is_terminal() && follows_terminal {
            Err(Error::TerminalFollowsTerminal)
        } else {
            Ok(())
        }
    }
}

impl<'a, Intv: Interval + Copy> ExperienceKindFollowsPrevious<'a, Intv> {
    pub fn new(experienced_event: &'a ExperiencedEvent<'a, Intv>) -> (constraint: Self)
        ensures
            constraint.experienced_event == experienced_event,
            constraint.previous.event == experienced_event.event,
            constraint.previous.previous is None,
    {
        Self { experienced_event, previous: SelectPreviousExperience::new(experienced_event.event) }
    }
}

/// A terminal experience does not precede a terminal one.
pub struct ExperienceKindPrecedesNext<'a, Intv> {
    pub experienced_event: &'a ExperiencedEvent<'a, Intv>,
    pub next: SelectNextExperience<'a, 'a, Intv>,
}

impl<'a, Intv: Interval + Copy> Constraint<'a, Intv> for ExperienceKindPrecedesNext<'a, Intv> {
    open spec fn spec_next(self, experienced_event: ExperiencedEvent<'a, Intv>) -> Self {
        ExperienceKindPrecedesNext {
            experienced_event: self.experienced_event,
            next: self.next.spec_add(&experienced_event),
        }
    }

    open spec fn spec_violation(self, experienced_event: ExperiencedEvent<'a, Intv>) -> Option<
        (bool, Seq<Error>),
    > {
        None
    }

    open spec fn spec_verdict(self) -> Option<(bool, Seq<Error>)> {
        if both_terminal(*self.experienced_event, self.next.spec_value()) {
            Some(failure(Error::TerminalPrecedesTerminal))
        } else {
            None
        }
    }

    fn with(self, experienced_event: &'a ExperiencedEvent<'a, Intv>) -> (next: ConstraintResult<
        Self,
    >) {
        let mut constraint = self;
        constraint.next.add(experienced_event);
        Ok(constraint)
    }

    fn result(self) -> (verdict: Result<()>) {
        let precedes_terminal = match self.next.value() {
            Some(next) => ExperienceKind::from(next.experience).is_terminal(),
            None => false,
        };
        if ExperienceKind::from(self.experienced_event.experience).is_terminal() && precedes_terminal {
            Err(Error::TerminalPrecedesTerminal)
        } else {
            Ok(())
        }
    }
}

impl<'a, Intv: Interval + Copy> ExperienceKindPrecedesNext<'a, Intv> {
    pub fn new(experienced_event: &'a ExperiencedEvent<'a, Intv>) -> (constraint: Self)
        ensures
            constraint.experienced_event == experienced_event,
            constraint.next.event == experienced_event.event,
            constraint.next.next is None,
    {
        Self { experienced_event, next: SelectNextExperience::new(experienced_event.event) }
    }
}

/// An entity does not experience simultaneous events: the event of an
/// experience does not intersect any other event the entity experiences.
pub struct ExperienceIsNotSimultaneous<'a, Intv> {
    pub event: &'a Event<Intv>,
    pub conflict: Option<&'a ExperiencedEvent<'a, Intv>>,
}

impl<'a, Intv: Interval + Copy> ExperienceIsNotSimultaneous<'a, Intv> {
    /// The constraint once it has taken into account the given experienced
    /// event: that event is the conflict when it intersects the event.
    pub open spec fn spec_add(self, experienced_event: ExperiencedEvent<'a, Intv>) -> Self {
        if overlaps(*self.event, *experienced_event.event) {
            ExperienceIsNotSimultaneous { event: self.event, conflict: Some(&experienced_event) }
        } else {
            self
        }
    }

    /// Takes into account the given experienced event.
    pub fn add(&mut self, experienced_event: &'a ExperiencedEvent<'a, Intv>)
        ensures
            *final(self) == old(self).spec_add(*experienced_event),
    {
        if self.event.intersects(experienced_event.event) {
            self.conflict = Some(experienced_event);
        }
    }

    pub fn new(event: &'a Event<Intv>) -> (constraint: Self)
        ensures
            constraint.event == event,
            constraint.conflict is None,
    {
        Self { event, conflict: None }
    }
}

impl<'a, Intv: Interval + Copy> Constraint<'a, Intv> for ExperienceIsNotSimultaneous<'a, Intv> {
    open spec fn spec_next(self, experienced_event: ExperiencedEvent<'a, Intv>) -> Self {
        self.spec_add(experienced_event)
    }

    open spec fn spec_violation(self, experienced_event: ExperiencedEvent<'a, Intv>) -> Option<
        (bool, Seq<Error>),
    > {
        None
    }

    open spec fn spec_verdict(self) -> Option<(bool, Seq<Error>)> {
        if self.conflict is Some {
            Some(failure(Error::SimultaneousEvents))
        } else {
            None
        }
    }

    fn with(self, experienced_event: &'a ExperiencedEvent<'a, Intv>) -> (next: ConstraintResult<
        Self,
    >) {
        let mut constraint = self;
        constraint.add(experienced_event);
        Ok(constraint)
    }

    fn result(self) -> (verdict: Result<()>) {
        if self.conflict.is_some() {
            return Err(Error::SimultaneousEvents);
        }
        Ok(())
    }
}

} // verus!
