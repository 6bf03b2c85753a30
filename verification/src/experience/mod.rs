//! Experiences: the changes that events cause on entities.

pub mod application;
pub mod cli;
pub mod constraint;
pub mod domain;
pub mod query;
pub mod repository;

use crate::entity::Entity;
use crate::event::Event;
use crate::id::Id;
use crate::interval::Interval;
use query::{
    earlier, select_next, select_previous, SelectNextExperience, SelectPreviousExperience,
};
use std::collections::{HashMap, HashSet};
use vstd::prelude::*;

verus! {

broadcast use vstd::std_specs::hash::group_hash_axioms;

/// The errors of the operations on experiences.
#[derive(Debug, PartialEq, Eq)]
pub enum Error {
    /// An experience with the same entity and event already exists.
    AlreadyExists,
    /// No experience matches.
    NotFound,
    /// The entity has already experienced the event.
    EventAlreadyExperienced,
    /// An experience cannot lack both before and after.
    EmptyBeforeAndAfter,
    /// An experience cannot happen before the initial one.
    ExperienceBeforeInitial,
    /// An entity is listed more than once among the afters.
    RepeatedEntity,
    /// The entity is not listed in the previous experience.
    NotInPreviousExperience,
    /// The entity would experience simultaneous events.
    SimultaneousEvents,
    /// An initial experience follows a non-terminal one.
    InitialFollowsNonTerminal,
    /// A transitive experience follows a terminal one.
    TransitiveFollowsTerminal,
    /// A terminal experience follows a terminal one.
    TerminalFollowsTerminal,
    /// An initial experience precedes an initial one.
    InitialPrecedesInitial,
    /// A transitive experience precedes an initial one.
    TransitivePrecedesInitial,
    /// A terminal experience precedes a non-initial one.
    TerminalPrecedesNonInitial,
    /// An initial experience results in more than one entity.
    InitialResultsInMoreThanOne,
    /// A constraint on the succession of experiences is not met.
    Constraint(constraint::Error),
    /// An operation on entities failed.
    Entity(crate::entity::Error),
    /// An operation on events failed.
    Event(crate::event::Error),
}

pub type Result<T> = core::result::Result<T, Error>;

impl Error {
    /// The text of the message describing the error; an error of
    /// constraints, of entities or of events is described by its own message,
    /// which is left unstated for a stack of constraint errors.
    pub open spec fn message_text(self) -> Option<Seq<char>> {
        match self {
            Error::AlreadyExists => Some("experience already exists"@),
            Error::NotFound => Some("experience not found"@),
            Error::EventAlreadyExperienced => Some("an entity cannot experience an event more than once"@),
            Error::EmptyBeforeAndAfter => Some("an experience cannot be empty of before and after simultaneously"@),
            Error::ExperienceBeforeInitial => Some("an experience cannot happen before the initial one"@),
            Error::RepeatedEntity => Some("an entity cannot be after of the same experience more than once"@),
            Error::NotInPreviousExperience => Some("an experience cannot belong to an entity not listed in the previous experience"@),
            Error::SimultaneousEvents => Some("an entity cannot experience simultaneous events"@),
            Error::InitialFollowsNonTerminal => Some("an initial experience cannot follows a non-terminal one"@),
            Error::TransitiveFollowsTerminal => Some("a transitive experience cannot follows a terminal one"@),
            Error::TerminalFollowsTerminal => Some("a terminal experience cannot follows a terminal one"@),
            Error::InitialPrecedesInitial => Some("an initial experience cannot precede an initial one"@),
            Error::TransitivePrecedesInitial => Some("a transitive experience cannot precede an initial one"@),
            Error::TerminalPrecedesNonInitial => Some("a terminal experience cannot precede a non-initial one"@),
            Error::InitialResultsInMoreThanOne => Some("an initial experience cannot result in more than one entity"@),
            Error::Constraint(e) => e.message_text(),
            Error::Entity(e) => Some(e.message_text()),
            Error::Event(e) => Some(e.message_text()),
        }
    }

    /// The message describing the error.
    pub fn message(&self) -> (text: String)
        ensures
            self.message_text() matches Some(t) ==> text@ == t,
            self matches Error::Constraint(e) ==> (e.message_text() matches Some(t) ==> text@ == t),
            self matches Error::Entity(e) ==> text@ == e.message_text(),
            self matches Error::Event(e) ==> text@ == e.message_text(),
    {
        match self {
            Error::AlreadyExists => String::from_str("experience already exists"),
            Error::NotFound => String::from_str("experience not found"),
            Error::EventAlreadyExperienced => String::from_str(
                "an entity cannot experience an event more than once",
            ),
            Error::EmptyBeforeAndAfter => String::from_str(
                "an experience cannot be empty of before and after simultaneously",
            ),
            Error::ExperienceBeforeInitial => String::from_str(
                "an experience cannot happen before the initial one",
            ),
            Error::RepeatedEntity => String::from_str(
                "an entity cannot be after of the same experience more than once",
            ),
            Error::NotInPreviousExperience => String::from_str(
                "an experience cannot belong to an entity not listed in the previous experience",
            ),
            Error::SimultaneousEvents => String::from_str(
                "an entity cannot experience simultaneous events",
            ),
            Error::InitialFollowsNonTerminal => String::from_str(
                "an initial experience cannot follows a non-terminal one",
            ),
            Error::TransitiveFollowsTerminal => String::from_str(
                "a transitive experience cannot follows a terminal one",
            ),
            Error::TerminalFollowsTerminal => String::from_str(
                "a terminal experience cannot follows a terminal one",
            ),
            Error::InitialPrecedesInitial => String::from_str(
                "an initial experience cannot precede an initial one",
            ),
            Error::TransitivePrecedesInitial => String::from_str(
                "a transitive experience cannot precede an initial one",
            ),
            Error::TerminalPrecedesNonInitial => String::from_str(
                "a terminal experience cannot precede a non-initial one",
            ),
            Error::InitialResultsInMoreThanOne => String::from_str(
                "an initial experience cannot result in more than one entity",
            ),
            Error::Constraint(error) => error.message(),
            Error::Entity(error) => error.message(),
            Error::Event(error) => error.message(),
        }
    }
}

/// A Profile describes an [Entity] during the time being between two periods
/// of time.
#[derive(Debug)]
pub struct Profile {
    pub entity: Id,
    pub values: HashMap<String, String>,
}

impl Clone for Profile {
    fn clone(&self) -> (copy: Self)
        ensures
            copy.entity == self.entity,
            copy.values@ == self.values@,
    {
        Profile { entity: self.entity, values: self.values.clone() }
    }
}

impl Profile {
    /// Creates the profile of the given entity, with no values.
    pub fn new(entity: Id) -> (profile: Self)
        ensures
            profile.entity == entity,
            profile.values@ == Map::<String, String>::empty(),
    {
        Self { entity, values: HashMap::new() }
    }
}

/// No two profiles are of the same entity.
pub open spec fn unique_entities(after: Seq<Profile>) -> bool {
    forall|i: int, j: int|
        0 <= i < j < after.len() ==> (#[trigger] after[i]).entity@ != (#[trigger] after[j]).entity@
}

/// An Experience represents the change caused by an [Event] on an [Entity].
#[derive(Debug)]
pub struct Experience {
    pub entity: Id,
    pub event: Id,
    pub after: Vec<Profile>,
}

impl Experience {
    /// Replaces the profiles that result from the experience.
    pub fn with_after(self, after: Vec<Profile>) -> (experience: Self)
        ensures
            experience.entity == self.entity,
            experience.event == self.event,
            experience.after == after,
    {
        Experience { entity: self.entity, event: self.event, after }
    }
}

/// An ExperienceKind determines the kind of an [Experience] based on its
/// cardinality.
#[derive(Debug, Clone, Copy, PartialEq, Eq, Structural)]
pub enum ExperienceKind {
    /// The [Entity] has reached the end of its timeline.
    Terminal,
    /// The [Entity] is evolving.
    Transitive,
}

/// An experience with no profile after it is terminal; any other is
/// transitive.
pub open spec fn kind_of(experience: Experience) -> ExperienceKind {
    if experience.after@.len() == 0 {
        ExperienceKind::Terminal
    } else {
        ExperienceKind::Transitive
    }
}

impl<'a> From<&'a Experience> for ExperienceKind {
    fn from(experience: &'a Experience) -> (kind: Self) {
        ExperienceKind::from(experience)
    }
}

impl<'a> vstd::std_specs::convert::FromSpecImpl<&'a Experience> for ExperienceKind {
    open spec fn obeys_from_spec() -> bool {
        true
    }

    open spec fn from_spec(experience: &'a Experience) -> ExperienceKind {
        kind_of(*experience)
    }
}

impl ExperienceKind {
    /// Returns the kind of the given experience.
    pub fn from(experience: &Experience) -> (kind: Self)
        ensures
            kind == kind_of(*experience),
    {
        if experience.after.len() == 0 {
            ExperienceKind::Terminal
        } else {
            ExperienceKind::Transitive
        }
    }

    /// True if, and only if, the kind is transitive.
    pub fn is_transitive(&self) -> (transitive: bool)
        ensures
            transitive == (*self == ExperienceKind::Transitive),
    {
        matches!(self, ExperienceKind::Transitive)
    }

    /// True if, and only if, the kind is terminal.
    pub fn is_terminal(&self) -> (terminal: bool)
        ensures
            terminal == (*self == ExperienceKind::Terminal),
    {
        matches!(self, ExperienceKind::Terminal)
    }
}

/// An ExperiencedEvent represents the union between an [Experience] and the
/// [Event] that causes it.
#[derive(Debug)]
pub struct ExperiencedEvent<'a, Intv> {
    pub experience: &'a Experience,
    pub event: &'a Event<Intv>,
}

/// The first profile in `after` of the given entity, if any.
pub open spec fn profile_of(after: Seq<Profile>, entity: Id) -> Option<Profile>
    decreases after.len(),
{
    if after.len() == 0 {
        None
    } else if after[0].entity@ == entity@ {
        Some(after[0])
    } else {
        profile_of(after.drop_first(), entity)
    }
}

/// The profile found for an entity is the first of `after` that is of that
/// entity; there is none exactly when no profile of `after` is of it.
pub proof fn lemma_profile_of(after: Seq<Profile>, entity: Id)
    ensures
        profile_of(after, entity) is None <==> forall|i: int|
            0 <= i < after.len() ==> (#[trigger] after[i]).entity@ != entity@,
        profile_of(after, entity) matches Some(p) ==> exists|i: int|
            {
                &&& 0 <= i < after.len()
                &&& #[trigger] after[i] == p
                &&& p.entity@ == entity@
                &&& forall|j: int| 0 <= j < i ==> (#[trigger] after[j]).entity@ != entity@
            },
    decreases after.len(),
{
    if after.len() > 0 {
        let rest = after.drop_first();
        lemma_profile_of(rest, entity);
        assert forall|i: int| 0 <= i < rest.len() implies rest[i] == after[i + 1] by {}
        if after[0].entity@ != entity@ {
            if let Some(p) = profile_of(after, entity) {
                let k = choose|k: int|
                    {
                        &&& 0 <= k < rest.len()
                        &&& #[trigger] rest[k] == p
                        &&& p.entity@ == entity@
                        &&& forall|j: int| 0 <= j < k ==> (#[trigger] rest[j]).entity@ != entity@
                    };
                assert(after[k + 1] == p);
                assert forall|j: int| 0 <= j < k + 1 implies (#[trigger] after[j]).entity@
                    != entity@ by {
                    if j > 0 {
                        assert(after[j] == rest[j - 1]);
                    }
                }
            } else {
                assert forall|i: int| 0 <= i < after.len() implies (#[trigger] after[i]).entity@
                    != entity@ by {
                    if i > 0 {
                        assert(after[i] == rest[i - 1]);
                    }
                }
            }
        } else {
            assert(after[0] == profile_of(after, entity)->0);
        }
    }
}

/// Returns a clone of the first profile in `after` of the given entity, if any.
pub fn find_profile(after: &Vec<Profile>, entity: Id) -> (found: Option<Profile>)
    ensures
        found is Some <==> profile_of(after@, entity) is Some,
        found matches Some(p) ==> p.entity == profile_of(after@, entity)->0.entity
            && p.values@ == profile_of(after@, entity)->0.values@,
{
    let mut i: usize = 0;
    proof {
        assert(after@.skip(0) =~= after@);
    }
    while i < after.len()
        invariant
            i <= after@.len(),
            profile_of(after@, entity) == profile_of(after@.skip(i as int), entity),
        decreases after@.len() - i,
    {
        proof {
            assert(after@.skip(i as int).drop_first() =~= after@.skip(i + 1));
            assert(after@.skip(i as int)[0] == after@[i as int]);
        }
        if after[i].entity.as_u128() == entity.as_u128() {
            return Some(after[i].clone());
        }
        i = i + 1;
    }
    None
}

/// ExperienceBuilder makes sure an [Experience] is created if, and only if,
/// all of its requirements are meet.
pub struct ExperienceBuilder<'a, Intv> {
    pub entity: &'a Entity,
    pub event: &'a Event<Intv>,
    pub after: Option<Vec<Profile>>,
    pub kind: Option<ExperienceKind>,
}

impl<'a, Intv> Clone for ExperienceBuilder<'a, Intv> {
    fn clone(&self) -> (copy: Self)
        ensures
            copy.entity == self.entity,
            copy.event == self.event,
            copy.kind == self.kind,
            copy.after is Some <==> self.after is Some,
            copy.after matches Some(a) ==> a@.len() == self.after->0@.len() && forall|i: int|
                0 <= i < a@.len() ==> (#[trigger] a@[i]).entity == self.after->0@[i].entity
                    && a@[i].values@ == self.after->0@[i].values@,
    {
        let after = match &self.after {
            Some(profiles) => {
                let mut copy: Vec<Profile> = Vec::new();
                let mut i: usize = 0;
                while i < profiles.len()
                    invariant
                        i <= profiles@.len(),
                        copy@.len() == i,
                        forall|j: int|
                            0 <= j < i ==> (#[trigger] copy@[j]).entity == profiles@[j].entity
                                && copy@[j].values@ == profiles@[j].values@,
                    decreases profiles@.len() - i,
                {
                    copy.push(profiles[i].clone());
                    i = i + 1;
                }
                Some(copy)
            },
            None => None,
        };
        ExperienceBuilder { entity: self.entity, event: self.event, after, kind: self.kind }
    }
}

impl<'a, Intv: Interval + Copy> ExperienceBuilder<'a, Intv> {
    /// Starts building the experience of the given event on the given entity.
    pub fn new(entity: &'a Entity, event: &'a Event<Intv>) -> (builder: Self)
        ensures
            *builder.entity == *entity,
            *builder.event == *event,
            builder.after is None,
            builder.kind is None,
    {
        Self { entity, event, after: None, kind: None }
    }

    /// Sets the profiles that result from the experience, if any.
    pub fn with_after(self, after: Option<Vec<Profile>>) -> (builder: Self)
        ensures
            builder == (ExperienceBuilder { after, ..self }),
    {
        ExperienceBuilder { entity: self.entity, event: self.event, after, kind: self.kind }
    }

    /// Sets the kind of the experience, if any.
    pub fn with_kind(self, kind: Option<ExperienceKind>) -> (builder: Self)
        ensures
            builder == (ExperienceBuilder { kind, ..self }),
    {
        ExperienceBuilder { entity: self.entity, event: self.event, after: self.after, kind }
    }

    /// Builds the experience, as long as no entity is repeated among the
    /// profiles after it.
    pub fn build(self) -> (experience: Result<Experience>)
        ensures
            experience is Ok <==> (self.after matches Some(a) ==> unique_entities(a@)),
            experience is Err ==> experience == Err::<Experience, Error>(Error::RepeatedEntity),
            experience matches Ok(x) ==> x.entity == self.entity.id && x.event == self.event.id
                && x.after@ == (match self.after {
                Some(a) => a@,
                None => Seq::<Profile>::empty(),
            }),
    {
        let after = match self.after {
            Some(after) => {
                let mut uniq: HashSet<u128> = HashSet::new();
                let mut i: usize = 0;
                while i < after.len()
                    invariant
                        i <= after@.len(),
                        self.after == Some(after),
                        forall|k: u128|
                            uniq@.contains(k) <==> exists|j: int|
                                0 <= j < i && (#[trigger] after@[j]).entity@ == k,
                        forall|j: int, l: int|
                            0 <= j < l < i ==> (#[trigger] after@[j]).entity@ != (
                            #[trigger] after@[l]).entity@,
                    decreases after@.len() - i,
                {
                    let id = after[i].entity.as_u128();
                    if !uniq.insert(id) {
                        proof {
                            let j = choose|j: int| 0 <= j < i && (#[trigger] after@[j]).entity@ == id;
                            assert(after@[j].entity@ == after@[i as int].entity@);
                            assert(!unique_entities(after@));
                        }
                        return Err(Error::RepeatedEntity);
                    }
                    proof {
                        assert(after@[i as int].entity@ == id);
                    }
                    i = i + 1;
                }
                after
            },
            None => Vec::new(),
        };
        Ok(Experience { entity: self.entity.id, event: self.event.id, after })
    }

    /// Tries to compute some value for those fields set to [Option::None]:
    /// when no profile after the experience is given, it takes the entity's
    /// own profile after the closest previous experience, or after the
    /// closest next one when there is no previous.
    pub fn with_fallbacks(self, experienced_events: &'a [ExperiencedEvent<'a, Intv>]) -> (builder:
        Self)
        ensures
            *builder.entity == *self.entity,
            *builder.event == *self.event,
            builder.kind == self.kind,
            self.after is Some ==> builder.after == self.after,
            self.after is None ==> (builder.after is Some <==> fallback_profile(
                *self.entity,
                *self.event,
                experienced_events@,
            ) is Some),
            self.after is None ==> (builder.after matches Some(a) ==> a@.len() == 1
                && a@[0].entity == fallback_profile(
                *self.entity,
                *self.event,
                experienced_events@,
            )->0.entity && a@[0].values@ == fallback_profile(
                *self.entity,
                *self.event,
                experienced_events@,
            )->0.values@),
    {
        if self.after.is_some() {
            return self;
        }
        let mut previous = SelectPreviousExperience::new(self.event);
        let mut next = SelectNextExperience::new(self.event);
        let mut i: usize = 0;
        while i < experienced_events.len()
            invariant
                i <= experienced_events@.len(),
                *previous.event == *self.event,
                *next.event == *self.event,
                previous.spec_value() == select_previous(
                    *self.event,
                    experienced_events@.take(i as int),
                ),
                next.spec_value() == select_next(*self.event, experienced_events@.take(i as int)),
            decreases experienced_events@.len() - i,
        {
            proof {
                assert(experienced_events@.take(i + 1).drop_last() =~= experienced_events@.take(
                    i as int,
                ));
            }
            previous.add(&experienced_events[i]);
            next.add(&experienced_events[i]);
            i = i + 1;
        }
        proof {
            assert(experienced_events@.take(i as int) =~= experienced_events@);
        }
        let closest = match previous.value() {
            Some(found) => Some(found),
            None => next.value(),
        };
        let after = match closest {
            Some(experienced_event) => match find_profile(
                &experienced_event.experience.after,
                self.entity.id,
            ) {
                Some(profile) => {
                    let mut after: Vec<Profile> = Vec::new();
                    after.push(profile);
                    Some(after)
                },
                None => None,
            },
            None => None,
        };
        ExperienceBuilder { entity: self.entity, event: self.event, after, kind: self.kind }
    }
}

/// The profile that [ExperienceBuilder::with_fallbacks] takes: the entity's
/// own profile after the closest previous experience, or after the closest
/// next one when there is no previous.
pub open spec fn fallback_profile<'a, Intv: Interval + Copy>(
    entity: Entity,
    event: Event<Intv>,
    experienced_events: Seq<ExperiencedEvent<'a, Intv>>,
) -> Option<Profile> {
    let closest = match select_previous(event, experienced_events) {
        Some(p) => Some(p),
        None => select_next(event, experienced_events),
    };
    match closest {
        Some(e) => profile_of(e.experience.after@, entity.id),
        None => None,
    }
}

/// When no profiles are given, the profile taken is the entity's own after
/// the latest of the experienced events that end before the event starts,
/// whatever experienced events come after it; only when none ends before, it
/// is the entity's own after the earliest of those that end after the event
/// starts; with neither, there is none.
pub proof fn lemma_fallback_prefers_previous<'a, Intv: Interval + Copy>(
    entity: Entity,
    event: Event<Intv>,
    es: Seq<ExperiencedEvent<'a, Intv>>,
)
    ensures
        (exists|i: int| 0 <= i < es.len() && (#[trigger] es[i]).event.spec_hi() < event.spec_lo())
            ==> exists|p: ExperiencedEvent<'a, Intv>|
            {
                &&& #[trigger] es.contains(p)
                &&& p.event.spec_hi() < event.spec_lo()
                &&& forall|i: int|
                    0 <= i < es.len() && (#[trigger] es[i]).event.spec_hi() < event.spec_lo()
                        ==> !earlier(*p.event, *es[i].event)
                &&& fallback_profile(entity, event, es) == profile_of(p.experience.after@, entity.id)
            },
        (forall|i: int| 0 <= i < es.len() ==> (#[trigger] es[i]).event.spec_hi() >= event.spec_lo())
            && (exists|i: int| 0 <= i < es.len() && (#[trigger] es[i]).event.spec_hi() > event.spec_lo())
            ==> exists|q: ExperiencedEvent<'a, Intv>|
            {
                &&& #[trigger] es.contains(q)
                &&& q.event.spec_hi() > event.spec_lo()
                &&& forall|i: int|
                    0 <= i < es.len() && (#[trigger] es[i]).event.spec_hi() > event.spec_lo()
                        ==> !earlier(*es[i].event, *q.event)
                &&& fallback_profile(entity, event, es) == profile_of(q.experience.after@, entity.id)
            },
        (forall|i: int| 0 <= i < es.len() ==> (#[trigger] es[i]).event.spec_hi() == event.spec_lo())
            ==> fallback_profile(entity, event, es) is None,
{
    query::lemma_select_previous(event, es);
    query::lemma_select_next(event, es);
    if let Some(p) = select_previous(event, es) {
        assert(es.contains(p));
    } else if let Some(q) = select_next(event, es) {
        assert(es.contains(q));
    }
}

} // verus!
