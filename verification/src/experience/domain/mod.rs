//! The domain of experiences: the constraints an experience is checked
//! against, one by one, and the creation of experiences.

mod create;

pub use create::{create, creation, creation_after_len, creation_unique};

use super::constraint::ExperienceIsNotSimultaneous;
use super::{Error, Experience, ExperienceBuilder, ExperiencedEvent, Result};
use crate::interval::{overlaps, Interval};
use vstd::prelude::*;

verus! {

/// A Constraint is a condition that must be satified.
pub trait Constraint<'a, Intv>: Sized {
    /// The constraint once it has taken into account the given experienced
    /// event.
    spec fn spec_next(self, experienced_event: ExperiencedEvent<'a, Intv>) -> Self;

    /// The error that taking into account the given experienced event
    /// reports, if any.
    spec fn spec_violation(self, experienced_event: ExperiencedEvent<'a, Intv>) -> Option<Error>;

    /// The error of the final veredict, if any.
    spec fn spec_verdict(self) -> Option<Error>;

    /// Determines the constraint must take into account the given
    /// [ExperiencedEvent].
    ///
    /// Short-Circuiting: this method may return an error if, and only if, the
    /// given [ExperiencedEvent] already violates the constraint.
    fn with(self, experienced_event: &'a ExperiencedEvent<'a, Intv>) -> (next: Result<Self>)
        ensures
            match next {
                Ok(c) => self.spec_violation(*experienced_event) is None && c == self.spec_next(
                    *experienced_event,
                ),
                Err(e) => self.spec_violation(*experienced_event) == Some(e),
            },
    ;

    /// Returns the same error as `with`, if any. Otherwise returns the final
    /// veredict of the constraint.
    fn result(self) -> (verdict: Result<()>)
        ensures
            match verdict {
                Ok(()) => self.spec_verdict() is None,
                Err(e) => self.spec_verdict() == Some(e),
            },
    ;
}

/// [Constraint] for (), the type of the absent previous constraint of a
/// [ConstraintLink]: it is always met.
impl<'a, Intv> Constraint<'a, Intv> for () {
    open spec fn spec_next(self, experienced_event: ExperiencedEvent<'a, Intv>) -> Self {
        ()
    }

    open spec fn spec_violation(self, experienced_event: ExperiencedEvent<'a, Intv>) -> Option<
        Error,
    > {
        None
    }

    open spec fn spec_verdict(self) -> Option<Error> {
        None
    }

    fn with(self, experienced_event: &'a ExperiencedEvent<'a, Intv>) -> (next: Result<Self>) {
        Ok(self)
    }

    fn result(self) -> (verdict: Result<()>) {
        Ok(())
    }
}

/// ConstraintLink chains two constraints: the previous one, if any, and
/// then the given one.
pub struct ConstraintLink<Cnst1, Cnst2> {
    pub previous: Option<Cnst1>,
    pub constraint: Cnst2,
}

impl<'a, Intv, Cnst1: Constraint<'a, Intv>, Cnst2: Constraint<'a, Intv>> Constraint<'a, Intv> for ConstraintLink<
    Cnst1,
    Cnst2,
> {
    open spec fn spec_next(self, experienced_event: ExperiencedEvent<'a, Intv>) -> Self {
        ConstraintLink {
            previous: match self.previous {
                Some(p) => Some(p.spec_next(experienced_event)),
                None => None,
            },
            constraint: self.constraint.spec_next(experienced_event),
        }
    }

    /// The error of the previous constraint, if any; otherwise that of the
    /// given one.
    open spec fn spec_violation(self, experienced_event: ExperiencedEvent<'a, Intv>) -> Option<
        Error,
    > {
        match self.previous {
            Some(p) => match p.spec_violation(experienced_event) {
                Some(e) => Some(e),
                None => self.constraint.spec_violation(experienced_event),
            },
            None => self.constraint.spec_violation(experienced_event),
        }
    }

    /// The veredict of the previous constraint, if it fails; otherwise that of
    /// the given one.
    open spec fn spec_verdict(self) -> Option<Error> {
        match self.previous {
            Some(p) => match p.spec_verdict() {
                Some(e) => Some(e),
                None => self.constraint.spec_verdict(),
            },
            None => self.constraint.spec_verdict(),
        }
    }

    fn with(self, experienced_event: &'a ExperiencedEvent<'a, Intv>) -> (next: Result<Self>) {
        let ConstraintLink { previous, constraint } = self;
        let previous = match previous {
            Some(p) => match p.with(experienced_event) {
                Ok(p) => Some(p),
                Err(e) => return Err(e),
            },
            None => None,
        };
        let constraint = match constraint.with(experienced_event) {
            Ok(c) => c,
            Err(e) => return Err(e),
        };
        Ok(ConstraintLink { previous, constraint })
    }

    fn result(self) -> (verdict: Result<()>) {
        if let Some(p) = self.previous {
            if let Err(e) = p.result() {
                return Err(e);
            }
        }
        self.constraint.result()
    }
}

impl<Cnst> ConstraintLink<(), Cnst> {
    /// Starts a chain with the given constraint.
    pub fn new(constraint: Cnst) -> (link: Self)
        ensures
            link.previous is None,
            link.constraint == constraint,
    {
        Self { previous: None, constraint }
    }
}

impl<Cnst1, Cnst2> ConstraintLink<Cnst1, Cnst2> {
    /// Chains the given constraint with self.
    pub fn chain<Cnst3>(self, constraint: Cnst3) -> (link: ConstraintLink<Self, Cnst3>)
        ensures
            link.previous == Some(self),
            link.constraint == constraint,
    {
        ConstraintLink { previous: Some(self), constraint }
    }
}

impl<'a, Intv: Interval + Copy> Constraint<'a, Intv> for ExperienceIsNotSimultaneous<'a, Intv> {
    open spec fn spec_next(self, experienced_event: ExperiencedEvent<'a, Intv>) -> Self {
        self.spec_add(experienced_event)
    }

    open spec fn spec_violation(self, experienced_event: ExperiencedEvent<'a, Intv>) -> Option<
        Error,
    > {
        None
    }

    open spec fn spec_verdict(self) -> Option<Error> {
        if self.conflict is Some {
            Some(Error::SimultaneousEvents)
        } else {
            None
        }
    }

    fn with(self, experienced_event: &'a ExperiencedEvent<'a, Intv>) -> (next: Result<Self>) {
        let mut constraint = self;
        constraint.add(experienced_event);
        Ok(constraint)
    }

    fn result(self) -> (verdict: Result<()>) {
        if self.conflict.is_some() {
            return Err(Error::SimultaneousEvents);
        }
        Ok(())
    }
}

/// The domain service.
pub struct ExperienceService;

impl ExperienceService {
    /// Creates a new experience caused by the event of the given builder as
    /// long as it fits in the given ordered succession of experienced events.
    pub fn create_experience<'a, Intv: Interval + Copy>(
        builder: ExperienceBuilder<'a, Intv>,
        experienced_events: &'a [ExperiencedEvent<'a, Intv>],
    ) -> (experience: Result<Experience>)
        ensures
            creation(builder, experienced_events@, experience),
    {
        create(builder, experienced_events)
    }
}

} // verus!
