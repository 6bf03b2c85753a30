//! The default chain of constraints.

use super::{
    failure, fold_constraint, lemma_fold_chain, listed_in_previous, never_violated,
    Constraint, Error, ExperienceBelongsToOneOfPrevious, ExperienceIsNotSimultaneous,
    ExperienceKindFollowsPrevious, ExperienceKindPrecedesNext, LiFoConstraintChain,
};
use crate::experience::query::{
    select_next, select_previous, SelectNextExperience, SelectPreviousExperience,
};
use crate::event::Event;
use crate::experience::{kind_of, ExperienceKind, ExperiencedEvent};
use crate::id::Id;
use crate::interval::{overlaps, Interval};
use vstd::prelude::*;

verus! {

/// The chain of the default constraints, the last one first.
pub type DefaultChain<'a, Intv> = LiFoConstraintChain<
    LiFoConstraintChain<
        LiFoConstraintChain<
            LiFoConstraintChain<(), ExperienceBelongsToOneOfPrevious<'a, Intv>>,
            ExperienceKindFollowsPrevious<'a, Intv>,
        >,
        ExperienceKindPrecedesNext<'a, Intv>,
    >,
    ExperienceIsNotSimultaneous<'a, Intv>,
>;

/// The chain of the default constraints on the given experienced event,
/// before it takes any other into account.
pub open spec fn default_chain<'a, Intv>(experienced_event: &'a ExperiencedEvent<'a, Intv>) -> DefaultChain<
    'a,
    Intv,
> {
    let belongs = ExperienceBelongsToOneOfPrevious {
        experienced_event,
        previous: SelectPreviousExperience { event: experienced_event.event, previous: None },
    };
    let follows = ExperienceKindFollowsPrevious {
        experienced_event,
        previous: SelectPreviousExperience { event: experienced_event.event, previous: None },
    };
    let precedes = ExperienceKindPrecedesNext {
        experienced_event,
        next: SelectNextExperience { event: experienced_event.event, next: None },
    };
    let simultaneous = ExperienceIsNotSimultaneous { event: experienced_event.event, conflict: None };
    LiFoConstraintChain {
        head: Some(
            LiFoConstraintChain {
                head: Some(
                    LiFoConstraintChain {
                        head: Some(LiFoConstraintChain { head: None, constraint: belongs, early: true }),
                        constraint: follows,
                        early: true,
                    },
                ),
                constraint: precedes,
                early: true,
            },
        ),
        constraint: simultaneous,
        early: true,
    }
}

impl LiFoConstraintChain<(), ()> {
    /// Creates a chain with the default constraints.
    pub fn with_defaults<'a, Intv: Interval + Copy>(
        experienced_event: &'a ExperiencedEvent<'a, Intv>,
    ) -> (chain: DefaultChain<'a, Intv>)
        ensures
            chain == default_chain(experienced_event),
    {
        LiFoConstraintChain::new(ExperienceBelongsToOneOfPrevious::new(experienced_event)).chain(
            ExperienceKindFollowsPrevious::new(experienced_event),
        ).chain(ExperienceKindPrecedesNext::new(experienced_event)).chain(
            ExperienceIsNotSimultaneous::new(experienced_event.event),
        )
    }
}

/// The first rule that an experience of `entity` caused by `event`, terminal
/// or not, breaks among the experienced events of `s`, in the order the
/// default chain reports them: the event intersects one of theirs; the
/// experience is terminal and so is the next; it is terminal and so is the
/// previous; its entity is not listed after the previous.
pub open spec fn default_verdict<'a, Intv: Interval + Copy>(
    entity: Id,
    terminal: bool,
    event: Event<Intv>,
    s: Seq<ExperiencedEvent<'a, Intv>>,
) -> Option<Error> {
    if exists|j: int| 0 <= j < s.len() && overlaps(event, *(#[trigger] s[j]).event) {
        Some(Error::SimultaneousEvents)
    } else if terminal && is_terminal_at(select_next(event, s)) {
        Some(Error::TerminalPrecedesTerminal)
    } else if terminal && is_terminal_at(select_previous(event, s)) {
        Some(Error::TerminalFollowsTerminal)
    } else if !listed_in_previous(entity, select_previous(event, s)) {
        Some(Error::NotInPreviousExperience)
    } else {
        None
    }
}

/// There is an experienced event, and its experience is terminal.
pub open spec fn is_terminal_at<'a, Intv>(neighbour: Option<ExperiencedEvent<'a, Intv>>) -> bool {
    neighbour matches Some(n) && kind_of(*n.experience) == ExperienceKind::Terminal
}

proof fn lemma_fold_belongs<'a, Intv: Interval + Copy>(
    c: ExperienceBelongsToOneOfPrevious<'a, Intv>,
    s: Seq<ExperiencedEvent<'a, Intv>>,
)
    requires
        c.previous.previous is None,
    ensures
        fold_constraint(c, s).experienced_event == c.experienced_event,
        fold_constraint(c, s).previous.event == c.previous.event,
        fold_constraint(c, s).previous.spec_value() == select_previous(*c.previous.event, s),
        never_violated(c, s),
    decreases s.len(),
{
    if s.len() > 0 {
        lemma_fold_belongs(c, s.drop_last());
    }
}

proof fn lemma_fold_follows<'a, Intv: Interval + Copy>(
    c: ExperienceKindFollowsPrevious<'a, Intv>,
    s: Seq<ExperiencedEvent<'a, Intv>>,
)
    requires
        c.previous.previous is None,
    ensures
        fold_constraint(c, s).experienced_event == c.experienced_event,
        fold_constraint(c, s).previous.event == c.previous.event,
        fold_constraint(c, s).previous.spec_value() == select_previous(*c.previous.event, s),
        never_violated(c, s),
    decreases s.len(),
{
    if s.len() > 0 {
        lemma_fold_follows(c, s.drop_last());
    }
}

proof fn lemma_fold_precedes<'a, Intv: Interval + Copy>(
    c: ExperienceKindPrecedesNext<'a, Intv>,
    s: Seq<ExperiencedEvent<'a, Intv>>,
)
    requires
        c.next.next is None,
    ensures
        fold_constraint(c, s).experienced_event == c.experienced_event,
        fold_constraint(c, s).next.event == c.next.event,
        fold_constraint(c, s).next.spec_value() == select_next(*c.next.event, s),
        never_violated(c, s),
    decreases s.len(),
{
    if s.len() > 0 {
        lemma_fold_precedes(c, s.drop_last());
    }
}

proof fn lemma_fold_simultaneous<'a, Intv: Interval + Copy>(
    c: ExperienceIsNotSimultaneous<'a, Intv>,
    s: Seq<ExperiencedEvent<'a, Intv>>,
)
    requires
        c.conflict is None,
    ensures
        fold_constraint(c, s).event == c.event,
        fold_constraint(c, s).conflict is Some <==> exists|j: int|
            0 <= j < s.len() && overlaps(*c.event, *(#[trigger] s[j]).event),
        never_violated(c, s),
    decreases s.len(),
{
    if s.len() > 0 {
        let t = s.drop_last();
        lemma_fold_simultaneous(c, t);
        if exists|j: int| 0 <= j < t.len() && overlaps(*c.event, *(#[trigger] t[j]).event) {
            let j = choose|j: int| 0 <= j < t.len() && overlaps(*c.event, *(#[trigger] t[j]).event);
            assert(s[j] == t[j]);
        }
        if exists|j: int| 0 <= j < s.len() && overlaps(*c.event, *(#[trigger] s[j]).event) {
            let j = choose|j: int| 0 <= j < s.len() && overlaps(*c.event, *(#[trigger] s[j]).event);
            if j < t.len() {
                assert(s[j] == t[j]);
            }
        }
    }
}

/// The default chain is never violated while it takes experienced events
/// into account, and its veredict is then the failure of the first rule the
/// experienced event breaks among them, if any.
pub proof fn lemma_default_chain<'a, Intv: Interval + Copy>(
    experienced_event: &'a ExperiencedEvent<'a, Intv>,
    s: Seq<ExperiencedEvent<'a, Intv>>,
)
    ensures
        never_violated(default_chain(experienced_event), s),
        fold_constraint(default_chain(experienced_event), s).spec_verdict() == match default_verdict(
            experienced_event.experience.entity,
            kind_of(*experienced_event.experience) == ExperienceKind::Terminal,
            *experienced_event.event,
            s,
        ) {
            Some(e) => Some(failure(e)),
            None => None,
        },
{
    let chain = default_chain(experienced_event);
    let l3 = chain.head.unwrap();
    let l2 = l3.head.unwrap();
    let l1 = l2.head.unwrap();
    lemma_fold_belongs(l1.constraint, s);
    lemma_fold_follows(l2.constraint, s);
    lemma_fold_precedes(l3.constraint, s);
    lemma_fold_simultaneous(chain.constraint, s);
    lemma_fold_chain(l1.head, l1.constraint, true, s);
    lemma_fold_chain(l2.head, l2.constraint, true, s);
    lemma_fold_chain(l3.head, l3.constraint, true, s);
    lemma_fold_chain(chain.head, chain.constraint, true, s);
}

} // verus!
