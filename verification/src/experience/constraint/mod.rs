//! Constraints on the succession of the experiences of an entity.

mod defaults;
mod rules;

pub use defaults::{default_chain, default_verdict, is_terminal_at, lemma_default_chain, DefaultChain};

pub use rules::{
    both_terminal, listed_in_previous, ExperienceBelongsToOneOfPrevious, ExperienceIsNotSimultaneous,
    ExperienceKindFollowsPrevious, ExperienceKindPrecedesNext,
};

use super::ExperiencedEvent;
use vstd::prelude::*;

verus! {

/// The errors of the constraints.
#[derive(Debug, PartialEq, Eq)]
pub enum Error {
    /// The entity is not listed in the previous experience.
    NotInPreviousExperience,
    /// The entity would experience simultaneous events.
    SimultaneousEvents,
    /// A terminal experience follows a terminal one.
    TerminalFollowsTerminal,
    /// A terminal experience precedes a terminal one.
    TerminalPrecedesTerminal,
    /// Several constraints are not met.
    Stack(Vec<Error>),
    /// A constraint described by its message is not met.
    Custom(&'static str),
}

pub type Result<T> = core::result::Result<T, Error>;

/// What an error reports: whether it is a stack, and the errors it holds (the
/// error itself when it is not a stack).
pub open spec fn failure(e: Error) -> (bool, Seq<Error>) {
    match e {
        Error::Stack(v) => (true, v@),
        _ => (false, seq![e]),
    }
}

/// Two errors are equal: the same variant with equal contents.
pub open spec fn same_error(a: Error, b: Error) -> bool
    decreases a,
{
    match a {
        Error::Stack(x) => match b {
            Error::Stack(y) => x@.len() == y@.len() && forall|i: int|
                0 <= i < x@.len() ==> same_error(#[trigger] x@[i], y@[i]),
            _ => false,
        },
        Error::Custom(s) => b matches Error::Custom(t) && s@ == t@,
        Error::NotInPreviousExperience => b is NotInPreviousExperience,
        Error::SimultaneousEvents => b is SimultaneousEvents,
        Error::TerminalFollowsTerminal => b is TerminalFollowsTerminal,
        Error::TerminalPrecedesTerminal => b is TerminalPrecedesTerminal,
    }
}

/// Calls `==` on two string slices (std's `PartialEq for str`), which
/// compares their characters.
#[verifier::external_body]
fn str_eq(a: &str, b: &str) -> (equal: bool)
    ensures
        equal == (a@ == b@),
{
    a == b
}

/// Calls std's `format!` with the `Debug` layout of the errors, which lists
/// them between brackets; the exact text is left unsaid.
#[verifier::external_body]
fn debug_text(errors: &Vec<Error>) -> (text: String) {
    format!("{:?}", errors)
}

impl Error {
    /// The text of the message describing the error. That of a stack is the
    /// `Debug` layout of the errors it holds, and is left unstated.
    pub open spec fn message_text(self) -> Option<Seq<char>> {
        match self {
            Error::NotInPreviousExperience => Some(
                "an experience cannot belong to an entity not listed in the previous experience"@,
            ),
            Error::SimultaneousEvents => Some("an entity cannot experience simultaneous events"@),
            Error::TerminalFollowsTerminal => Some(
                "a terminal experience cannot follows a terminal one"@,
            ),
            Error::TerminalPrecedesTerminal => Some(
                "a terminal experience cannot precede a terminal one"@,
            ),
            Error::Stack(_) => None,
            Error::Custom(reason) => Some(reason@),
        }
    }

    /// The message describing the error.
    pub fn message(&self) -> (text: String)
        ensures
            self.message_text() matches Some(t) ==> text@ == t,
            self matches Error::Custom(reason) ==> text@ == reason@,
            self is NotInPreviousExperience ==> text@
                == "an experience cannot belong to an entity not listed in the previous experience"@,
            self is SimultaneousEvents ==> text@
                == "an entity cannot experience simultaneous events"@,
            self is TerminalFollowsTerminal ==> text@
                == "a terminal experience cannot follows a terminal one"@,
            self is TerminalPrecedesTerminal ==> text@
                == "a terminal experience cannot precede a terminal one"@,
    {
        match self {
            Error::NotInPreviousExperience => String::from_str(
                "an experience cannot belong to an entity not listed in the previous experience",
            ),
            Error::SimultaneousEvents => String::from_str(
                "an entity cannot experience simultaneous events",
            ),
            Error::TerminalFollowsTerminal => String::from_str(
                "a terminal experience cannot follows a terminal one",
            ),
            Error::TerminalPrecedesTerminal => String::from_str(
                "a terminal experience cannot precede a terminal one",
            ),
            Error::Stack(errors) => debug_text(errors),
            Error::Custom(reason) => String::from_str(reason),
        }
    }

    /// Stacks `tail` after self, flattening the stacks on either side.
    pub fn push(self, tail: Self) -> (stack: Self)
        ensures
            failure(stack) == (true, failure(self).1 + failure(tail).1),
    {
        let ghost head_errors = failure(self).1;
        let ghost tail_errors = failure(tail).1;
        let errors = match self {
            Error::Stack(mut head) => match tail {
                Error::Stack(mut rest) => {
                    head.append(&mut rest);
                    head
                },
                other => {
                    head.push(other);
                    head
                },
            },
            first => match tail {
                Error::Stack(rest) => {
                    let mut errors = Vec::new();
                    errors.push(first);
                    let mut rest = rest;
                    errors.append(&mut rest);
                    errors
                },
                other => {
                    let mut errors = Vec::new();
                    errors.push(first);
                    errors.push(other);
                    errors
                },
            },
        };
        proof {
            assert(errors@ =~= head_errors + tail_errors);
        }
        Error::Stack(errors)
    }

    /// Returns true if, and only if, self and other are equal.
    pub fn same_as(&self, other: &Error) -> (equal: bool)
        ensures
            equal == same_error(*self, *other),
        decreases self,
    {
        match self {
            Error::Stack(x) => match other {
                Error::Stack(y) => {
                    if x.len() != y.len() {
                        return false;
                    }
                    let mut i: usize = 0;
                    while i < x.len()
                        invariant
                            i <= x@.len(),
                            x@.len() == y@.len(),
                            *self == Error::Stack(*x),
                            *other == Error::Stack(*y),
                            forall|j: int| 0 <= j < i ==> same_error(#[trigger] x@[j], y@[j]),
                        decreases x@.len() - i,
                    {
                        assert(decreases_to!(*self => (*self)->Stack_0));
                        assert(decreases_to!((*self)->Stack_0 => x@));
                        assert(decreases_to!(x@ => x@[i as int]));
                        if !x[i].same_as(&y[i]) {
                            assert(!same_error(x@[i as int], y@[i as int]));
                            return false;
                        }
                        i = i + 1;
                    }
                    true
                },
                _ => false,
            },
            Error::Custom(s) => match other {
                Error::Custom(t) => str_eq(s, t),
                _ => false,
            },
            Error::NotInPreviousExperience => matches!(other, Error::NotInPreviousExperience),
            Error::SimultaneousEvents => matches!(other, Error::SimultaneousEvents),
            Error::TerminalFollowsTerminal => matches!(other, Error::TerminalFollowsTerminal),
            Error::TerminalPrecedesTerminal => matches!(other, Error::TerminalPrecedesTerminal),
        }
    }
}


/// The errors of `inhibitor` and of a failure reported as `f` are the same.
pub open spec fn same_failure(inhibitor: Error, f: (bool, Seq<Error>)) -> bool {
    match inhibitor {
        Error::Stack(v) => f.0 && v@.len() == f.1.len() && forall|i: int|
            0 <= i < v@.len() ==> same_error(#[trigger] v@[i], f.1[i]),
        _ => !f.0 && f.1.len() == 1 && same_error(inhibitor, f.1[0]),
    }
}

/// Comparing two errors is comparing the first with what the second reports.
pub proof fn lemma_same_failure(a: Error, b: Error)
    ensures
        same_error(a, b) == same_failure(a, failure(b)),
{
}

/// The failure of `head` followed by that of `tail`: a stack of both when
/// both fail.
pub open spec fn stacked(head: Option<(bool, Seq<Error>)>, tail: Option<(bool, Seq<Error>)>) -> Option<
    (bool, Seq<Error>),
> {
    match head {
        None => tail,
        Some(h) => match tail {
            None => Some(h),
            Some(t) => Some((true, h.1 + t.1)),
        },
    }
}

/// A PoisonError is returned by a [Constraint] that is not met, together with
/// the constraint itself.
#[derive(Debug)]
pub struct PoisonError<T> {
    pub cause: Error,
    pub guard: T,
}

impl<T> PoisonError<T> {
    pub fn new(guard: T, cause: Error) -> (poison: Self)
        ensures
            poison.guard == guard,
            poison.cause == cause,
    {
        PoisonError { guard, cause }
    }

    /// Returns the constraint that failed.
    pub fn into_inner(self) -> (guard: T)
        ensures
            guard == self.guard,
    {
        self.guard
    }
}

impl<T> From<PoisonError<T>> for Error {
    fn from(value: PoisonError<T>) -> (error: Error) {
        value.cause
    }
}

impl<T> vstd::std_specs::convert::FromSpecImpl<PoisonError<T>> for Error {
    open spec fn obeys_from_spec() -> bool {
        true
    }

    open spec fn from_spec(value: PoisonError<T>) -> Error {
        value.cause
    }
}

pub type ConstraintResult<Cnst> = core::result::Result<Cnst, PoisonError<Cnst>>;

/// A Constraint is a condition that must be satified.
pub trait Constraint<'a, Intv>: Sized {
    /// The constraint once it has taken into account the given experienced
    /// event.
    spec fn spec_next(self, experienced_event: ExperiencedEvent<'a, Intv>) -> Self;

    /// The failure that taking into account the given experienced event
    /// reports, if any.
    spec fn spec_violation(self, experienced_event: ExperiencedEvent<'a, Intv>) -> Option<
        (bool, Seq<Error>),
    >;

    /// The failure of the final veredict, if any.
    spec fn spec_verdict(self) -> Option<(bool, Seq<Error>)>;

    /// Determines the constraint must take into account the given
    /// [ExperiencedEvent].
    ///
    /// Short-Circuiting: this method may return an error if, and only if, the
    /// given [ExperiencedEvent] already violates the constraint.
    fn with(self, experienced_event: &'a ExperiencedEvent<'a, Intv>) -> (next: ConstraintResult<
        Self,
    >)
        ensures
            next is Ok <==> self.spec_violation(*experienced_event) is None,
            next matches Ok(c) ==> c == self.spec_next(*experienced_event),
            next matches Err(p) ==> p.guard == self.spec_next(*experienced_event) && Some(
                failure(p.cause),
            ) == self.spec_violation(*experienced_event),
    ;

    /// Returns the same error as `with`, if any. Otherwise returns the final
    /// veredict of the constraint.
    fn result(self) -> (verdict: Result<()>)
        ensures
            verdict is Ok <==> self.spec_verdict() is None,
            verdict matches Err(e) ==> self.spec_verdict() == Some(failure(e)),
    ;
}

/// [Constraint] for () so [LiFoConstraintChain] can use it as the type of an
/// absent head: it is always met.
impl<'a, Intv> Constraint<'a, Intv> for () {
    open spec fn spec_next(self, experienced_event: ExperiencedEvent<'a, Intv>) -> Self {
        ()
    }

    open spec fn spec_violation(self, experienced_event: ExperiencedEvent<'a, Intv>) -> Option<
        (bool, Seq<Error>),
    > {
        None
    }

    open spec fn spec_verdict(self) -> Option<(bool, Seq<Error>)> {
        None
    }

    fn with(self, experienced_event: &'a ExperiencedEvent<'a, Intv>) -> (next: ConstraintResult<
        Self,
    >) {
        Ok(self)
    }

    fn result(self) -> (verdict: Result<()>) {
        Ok(())
    }
}

/// LiFoConstraintChain implements a _last-in first-out_ chain of constraints
/// that allows different implementations of [Constraint] to be chained into a
/// single one.
pub struct LiFoConstraintChain<Head, Cnst> {
    pub head: Option<Head>,
    pub constraint: Cnst,
    pub early: bool,
}

/// What the head of a chain reports for the given experienced event, if any.
pub open spec fn head_violation<'a, Intv, Head: Constraint<'a, Intv>>(
    head: Option<Head>,
    e: ExperiencedEvent<'a, Intv>,
) -> Option<(bool, Seq<Error>)> {
    match head {
        Some(h) => h.spec_violation(e),
        None => None,
    }
}

/// The head of a chain once it has taken into account the given experienced
/// event.
pub open spec fn head_next<'a, Intv, Head: Constraint<'a, Intv>>(
    head: Option<Head>,
    e: ExperiencedEvent<'a, Intv>,
) -> Option<Head> {
    match head {
        Some(h) => Some(h.spec_next(e)),
        None => None,
    }
}

/// Lets the head of a chain take into account the given experienced event,
/// after its last constraint did, reporting `tail_error` if that one failed.
fn evaluate_head<'a, Intv, Head: Constraint<'a, Intv>, Cnst>(
    head: Option<Head>,
    constraint: Cnst,
    early: bool,
    experienced_event: &'a ExperiencedEvent<'a, Intv>,
    tail_error: Option<Error>,
) -> (next: ConstraintResult<LiFoConstraintChain<Head, Cnst>>)
    ensures
        ({
            let chain = LiFoConstraintChain {
                head: head_next(head, *experienced_event),
                constraint,
                early,
            };
            let violation = stacked(
                head_violation(head, *experienced_event),
                match tail_error {
                    Some(t) => Some(failure(t)),
                    None => None,
                },
            );
            &&& next is Ok <==> violation is None
            &&& next matches Ok(c) ==> c == chain
            &&& next matches Err(p) ==> p.guard == chain && violation == Some(failure(p.cause))
        }),
{
    match head {
        None => {
            let chain = LiFoConstraintChain { head: None, constraint, early };
            match tail_error {
                Some(error) => Err(PoisonError::new(chain, error)),
                None => Ok(chain),
            }
        },
        Some(h) => match h.with(experienced_event) {
            Ok(next_head) => {
                let chain = LiFoConstraintChain { head: Some(next_head), constraint, early };
                match tail_error {
                    Some(error) => Err(PoisonError::new(chain, error)),
                    None => Ok(chain),
                }
            },
            Err(poison) => {
                let PoisonError { cause, guard } = poison;
                let error = match tail_error {
                    Some(tail) => cause.push(tail),
                    None => cause,
                };
                Err(PoisonError::new(LiFoConstraintChain { head: Some(guard), constraint, early }, error))
            },
        },
    }
}

impl<'a, Intv, Head: Constraint<'a, Intv>, Cnst: Constraint<'a, Intv>> Constraint<'a, Intv> for LiFoConstraintChain<
    Head,
    Cnst,
> {
    /// The last constraint takes the experienced event into account first;
    /// the head does too unless the last one failed and the chain stops early.
    open spec fn spec_next(self, experienced_event: ExperiencedEvent<'a, Intv>) -> Self {
        let c = self.constraint.spec_next(experienced_event);
        if self.early && self.constraint.spec_violation(experienced_event) is Some {
            LiFoConstraintChain { head: self.head, constraint: c, early: self.early }
        } else {
            LiFoConstraintChain {
                head: head_next(self.head, experienced_event),
                constraint: c,
                early: self.early,
            }
        }
    }

    /// The failure of the last constraint alone when the chain stops early;
    /// otherwise that of the head stacked with that of the last constraint.
    open spec fn spec_violation(self, experienced_event: ExperiencedEvent<'a, Intv>) -> Option<
        (bool, Seq<Error>),
    > {
        let cv = self.constraint.spec_violation(experienced_event);
        if self.early && cv is Some {
            cv
        } else {
            stacked(head_violation(self.head, experienced_event), cv)
        }
    }

    /// The veredict of the last constraint, if it fails; otherwise that of the
    /// head.
    open spec fn spec_verdict(self) -> Option<(bool, Seq<Error>)> {
        match self.constraint.spec_verdict() {
            Some(f) => Some(f),
            None => match self.head {
                Some(h) => h.spec_verdict(),
                None => None,
            },
        }
    }

    fn with(self, experienced_event: &'a ExperiencedEvent<'a, Intv>) -> (next: ConstraintResult<
        Self,
    >) {
        let LiFoConstraintChain { head, constraint, early } = self;
        match constraint.with(experienced_event) {
            Ok(constraint) => evaluate_head(head, constraint, early, experienced_event, None),
            Err(poison) => {
                let PoisonError { cause, guard } = poison;
                if early {
                    return Err(
                        PoisonError::new(LiFoConstraintChain { head, constraint: guard, early }, cause),
                    );
                }
                evaluate_head(head, guard, early, experienced_event, Some(cause))
            },
        }
    }

    fn result(self) -> (verdict: Result<()>) {
        match self.constraint.result() {
            Err(error) => Err(error),
            Ok(()) => match self.head {
                Some(head) => head.result(),
                None => Ok(()),
            },
        }
    }
}

impl<Cnst> LiFoConstraintChain<(), Cnst> {
    /// Starts a chain with the given constraint; it stops early by default.
    pub fn new(constraint: Cnst) -> (chain: Self)
        ensures
            chain.head is None,
            chain.constraint == constraint,
            chain.early,
    {
        Self { head: None, constraint, early: true }
    }

    /// Determines whether the chain stops at the first constraint that fails.
    pub fn with_early(self, enable: bool) -> (chain: Self)
        ensures
            chain.head == self.head,
            chain.constraint == self.constraint,
            chain.early == enable,
    {
        Self { head: self.head, constraint: self.constraint, early: enable }
    }
}

impl<Head, Cnst> LiFoConstraintChain<Head, Cnst> {
    /// Chains the given constraint with self.
    pub fn chain<Tail>(self, constraint: Tail) -> (chain: LiFoConstraintChain<Self, Tail>)
        ensures
            chain.early == self.early,
            chain.head == Some(self),
            chain.constraint == constraint,
    {
        let early = self.early;
        LiFoConstraintChain { early, head: Some(self), constraint }
    }
}

/// InhibitableConstraint decorates a [Constraint] to inhibit some of its errors.
pub struct InhibitableConstraint<Cnst> {
    pub constraint: Cnst,
    pub inhibitors: Vec<Error>,
}

/// One of the inhibitors is the error reported as `f`.
pub open spec fn inhibits(inhibitors: Seq<Error>, f: (bool, Seq<Error>)) -> bool {
    exists|i: int| 0 <= i < inhibitors.len() && same_failure(#[trigger] inhibitors[i], f)
}

/// The failure `f`, unless one of the inhibitors is its error.
pub open spec fn unless_inhibited(inhibitors: Seq<Error>, f: Option<(bool, Seq<Error>)>) -> Option<
    (bool, Seq<Error>),
> {
    match f {
        Some(x) => if inhibits(inhibitors, x) {
            None
        } else {
            Some(x)
        },
        None => None,
    }
}

/// Returns true if, and only if, one of the inhibitors equals the error.
fn is_inhibited(inhibitors: &Vec<Error>, error: &Error) -> (inhibited: bool)
    ensures
        inhibited == inhibits(inhibitors@, failure(*error)),
{
    let mut i: usize = 0;
    while i < inhibitors.len()
        invariant
            i <= inhibitors@.len(),
            forall|j: int| 0 <= j < i ==> !same_failure(#[trigger] inhibitors@[j], failure(*error)),
        decreases inhibitors@.len() - i,
    {
        proof {
            lemma_same_failure(inhibitors@[i as int], *error);
        }
        if inhibitors[i].same_as(error) {
            return true;
        }
        i = i + 1;
    }
    false
}

impl<'a, Intv, Cnst: Constraint<'a, Intv>> Constraint<'a, Intv> for InhibitableConstraint<Cnst> {
    open spec fn spec_next(self, experienced_event: ExperiencedEvent<'a, Intv>) -> Self {
        InhibitableConstraint {
            constraint: self.constraint.spec_next(experienced_event),
            inhibitors: self.inhibitors,
        }
    }

    open spec fn spec_violation(self, experienced_event: ExperiencedEvent<'a, Intv>) -> Option<
        (bool, Seq<Error>),
    > {
        unless_inhibited(self.inhibitors@, self.constraint.spec_violation(experienced_event))
    }

    open spec fn spec_verdict(self) -> Option<(bool, Seq<Error>)> {
        unless_inhibited(self.inhibitors@, self.constraint.spec_verdict())
    }

    fn with(self, experienced_event: &'a ExperiencedEvent<'a, Intv>) -> (next: ConstraintResult<
        Self,
    >) {
        let InhibitableConstraint { constraint, inhibitors } = self;
        match constraint.with(experienced_event) {
            Ok(constraint) => Ok(InhibitableConstraint { constraint, inhibitors }),
            Err(poison) => {
                let PoisonError { cause, guard } = poison;
                let inhibited = is_inhibited(&inhibitors, &cause);
                let next = InhibitableConstraint { constraint: guard, inhibitors };
                if inhibited {
                    return Ok(next);
                }
                Err(PoisonError::new(next, cause))
            },
        }
    }

    fn result(self) -> (verdict: Result<()>) {
        match self.constraint.result() {
            Err(error) => if is_inhibited(&self.inhibitors, &error) {
                Ok(())
            } else {
                Err(error)
            },
            Ok(()) => Ok(()),
        }
    }
}

impl<Cnst> InhibitableConstraint<Cnst> {
    /// Decorates the given constraint, with no inhibitor.
    pub fn new(constraint: Cnst) -> (inhibitable: Self)
        ensures
            inhibitable.constraint == constraint,
            inhibitable.inhibitors@ == Seq::<Error>::empty(),
    {
        Self { constraint, inhibitors: Vec::new() }
    }

    /// Adds the given error to those inhibited.
    pub fn with_inhibitor(self, inhibitor: Error) -> (inhibitable: Self)
        ensures
            inhibitable.constraint == self.constraint,
            inhibitable.inhibitors@ == self.inhibitors@.push(inhibitor),
    {
        let InhibitableConstraint { constraint, mut inhibitors } = self;
        inhibitors.push(inhibitor);
        InhibitableConstraint { constraint, inhibitors }
    }
}

/// The constraint once it has taken into account, in order, each of the
/// experienced events of `s`.
pub open spec fn fold_constraint<'a, Intv, C: Constraint<'a, Intv>>(
    constraint: C,
    s: Seq<ExperiencedEvent<'a, Intv>>,
) -> C
    decreases s.len(),
{
    if s.len() == 0 {
        constraint
    } else {
        fold_constraint(constraint, s.drop_last()).spec_next(s.last())
    }
}

/// Taking into account, in order, each of the experienced events of `s`
/// never makes the constraint fail.
pub open spec fn never_violated<'a, Intv, C: Constraint<'a, Intv>>(
    constraint: C,
    s: Seq<ExperiencedEvent<'a, Intv>>,
) -> bool {
    forall|i: int|
        0 <= i < s.len() ==> (#[trigger] fold_constraint(constraint, s.take(i))).spec_violation(
            s[i],
        ) is None
}

/// The head of a chain once it has taken into account, in order, each of the
/// experienced events of `s`.
pub open spec fn fold_head<'a, Intv, Head: Constraint<'a, Intv>>(
    head: Option<Head>,
    s: Seq<ExperiencedEvent<'a, Intv>>,
) -> Option<Head> {
    match head {
        Some(h) => Some(fold_constraint(h, s)),
        None => None,
    }
}

/// A chain whose head and last constraint never fail is never violated
/// either: the head and the last constraint take each experienced event into
/// account on their own.
pub proof fn lemma_fold_chain<'a, Intv, Head: Constraint<'a, Intv>, Cnst: Constraint<'a, Intv>>(
    head: Option<Head>,
    constraint: Cnst,
    early: bool,
    s: Seq<ExperiencedEvent<'a, Intv>>,
)
    requires
        never_violated(constraint, s),
        head matches Some(h) ==> never_violated(h, s),
    ensures
        fold_constraint(LiFoConstraintChain { head, constraint, early }, s) == (LiFoConstraintChain {
            head: fold_head(head, s),
            constraint: fold_constraint(constraint, s),
            early,
        }),
        never_violated(LiFoConstraintChain { head, constraint, early }, s),
    decreases s.len(),
{
    let chain = LiFoConstraintChain { head, constraint, early };
    if s.len() > 0 {
        let t = s.drop_last();
        assert forall|i: int| 0 <= i < t.len() implies (#[trigger] fold_constraint(
            constraint,
            t.take(i),
        )).spec_violation(t[i]) is None by {
            assert(t.take(i) =~= s.take(i));
            assert(fold_constraint(constraint, s.take(i)).spec_violation(s[i]) is None);
        }
        if let Some(h) = head {
            assert forall|i: int| 0 <= i < t.len() implies (#[trigger] fold_constraint(
                h,
                t.take(i),
            )).spec_violation(t[i]) is None by {
                assert(t.take(i) =~= s.take(i));
                assert(fold_constraint(h, s.take(i)).spec_violation(s[i]) is None);
            }
        }
        lemma_fold_chain(head, constraint, early, t);
        assert(s.take(s.len() - 1) =~= t);
        assert(fold_constraint(constraint, s.take(s.len() - 1)).spec_violation(s[s.len() - 1]) is None);
        if let Some(h) = head {
            assert(fold_constraint(h, s.take(s.len() - 1)).spec_violation(s[s.len() - 1]) is None);
        }
        assert forall|i: int| 0 <= i < s.len() implies (#[trigger] fold_constraint(
            chain,
            s.take(i),
        )).spec_violation(s[i]) is None by {
            let p = s.take(i);
            assert forall|j: int| 0 <= j < p.len() implies (#[trigger] fold_constraint(
                constraint,
                p.take(j),
            )).spec_violation(p[j]) is None by {
                assert(p.take(j) =~= s.take(j));
                assert(fold_constraint(constraint, s.take(j)).spec_violation(s[j]) is None);
            }
            if let Some(h) = head {
                assert forall|j: int| 0 <= j < p.len() implies (#[trigger] fold_constraint(
                    h,
                    p.take(j),
                )).spec_violation(p[j]) is None by {
                    assert(p.take(j) =~= s.take(j));
                    assert(fold_constraint(h, s.take(j)).spec_violation(s[j]) is None);
                }
            }
            lemma_fold_chain(head, constraint, early, p);
            assert(fold_constraint(constraint, s.take(i)).spec_violation(s[i]) is None);
            if let Some(h) = head {
                assert(fold_constraint(h, s.take(i)).spec_violation(s[i]) is None);
            }
        }
    } else {
        assert forall|i: int| 0 <= i < s.len() implies (#[trigger] fold_constraint(
            chain,
            s.take(i),
        )).spec_violation(s[i]) is None by {}
    }
}

} // verus!
