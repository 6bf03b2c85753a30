//! The use cases on experiences.

use super::domain::{create, creation};
use super::repository::{
    filtered, holds_key, involves, lemma_filtered_contains, ExperienceFilter, ExperienceRepository,
};
use super::{Error, Experience, ExperienceBuilder, ExperiencedEvent, Profile, Result};
use crate::entity::{Entity, EntityRepository};
use crate::event::{Event, EventRepository};
use crate::id::Id;
use std::sync::Arc;
use vstd::prelude::*;

verus! {

/// The entry point of the use cases on experiences, over the repositories
/// that keep experiences, entities and events.
pub struct ExperienceApplication<ExperienceRepo, EntityRepo, EventRepo> {
    pub experience_repo: ExperienceRepo,
    pub entity_repo: EntityRepo,
    pub event_repo: EventRepo,
}

/// The events an experience may refer to, behind a shared pointer.
pub struct EventService<EventRepo> {
    pub event_repo: Arc<EventRepo>,
}

/// Implements the save experience transaction: it creates the experience of
/// the given entity caused by the given event, unless there is one already.
pub struct SaveExperience {
    pub entity: Id,
    pub event: Id,
    pub after: Option<Vec<Profile>>,
}

/// The filter of the experiences of the given entity caused by the given
/// event.
pub open spec fn key_filter(entity: Id, event: Id) -> ExperienceFilter {
    ExperienceFilter { entity: Some(entity), event: Some(event) }
}

/// The filter of the experiences that involve the given entity.
pub open spec fn entity_filter(entity: Id) -> ExperienceFilter {
    ExperienceFilter { entity: Some(entity), event: None }
}

/// Each of the experiences with the event, kept under its id, that caused it.
pub open spec fn paired<'a, Intv>(
    experiences: Seq<Experience>,
    events: Map<u128, Event<Intv>>,
) -> Seq<ExperiencedEvent<'a, Intv>> {
    Seq::new(
        experiences.len(),
        |i: int| ExperiencedEvent { experience: &experiences[i], event: &events[experiences[i].event@] },
    )
}

/// What saving gives, when every repository answers: nothing changes if the
/// experience exists already; the entity and the event must exist, and so
/// must the event of each experience involving the entity, which then yield
/// the succession the new experience must fit in; the experience created is
/// then kept.
pub open spec fn saving<Intv: crate::interval::Interval + Copy>(
    cmd: SaveExperience,
    stored: Seq<Experience>,
    entities: Map<u128, Entity>,
    events: Map<u128, Event<Intv>>,
    saved: Result<()>,
    kept: Seq<Experience>,
) -> bool {
    let involving = filtered(stored, entity_filter(cmd.entity));
    if filtered(stored, key_filter(cmd.entity, cmd.event)).len() > 0 {
        saved is Ok && kept == stored
    } else if !entities.contains_key(cmd.entity@) {
        saved == Err::<(), Error>(Error::Entity(crate::entity::Error::NotFound)) && kept == stored
    } else if !events.contains_key(cmd.event@) {
        saved == Err::<(), Error>(Error::Event(crate::event::Error::NotFound)) && kept == stored
    } else if exists|i: int| 0 <= i < involving.len() && (#[trigger] involving[i]).event@ == cmd.event@ {
        saved == Err::<(), Error>(Error::EventAlreadyExperienced) && kept == stored
    } else if exists|i: int|
        0 <= i < involving.len() && !events.contains_key((#[trigger] involving[i]).event@) {
        saved == Err::<(), Error>(Error::Event(crate::event::Error::NotFound)) && kept == stored
    } else {
        let builder = ExperienceBuilder {
            entity: &entities[cmd.entity@],
            event: &events[cmd.event@],
            after: cmd.after,
            kind: None,
        };
        exists|created: Result<Experience>|
            {
                &&& creation(builder, paired(involving, events), created)
                &&& match created {
                    Ok(x) => saved is Ok && kept == stored.push(x) && x.entity@ == cmd.entity@
                        && x.event@ == cmd.event@,
                    Err(e) => saved == Err::<(), Error>(e) && kept == stored,
                }
            }
    }
}

/// Saving succeeds and keeps nothing new exactly when an experience of that
/// same event involving that same entity is kept already: an experience of
/// the event by another entity does not count. A successful save that keeps
/// something new appends one experience, of that entity and that event; a
/// failed one changes nothing.
pub proof fn lemma_saving_keeps_one_per_entity_and_event<Intv: crate::interval::Interval + Copy>(
    cmd: SaveExperience,
    stored: Seq<Experience>,
    entities: Map<u128, Entity>,
    events: Map<u128, Event<Intv>>,
    saved: Result<()>,
    kept: Seq<Experience>,
)
    requires
        saving(cmd, stored, entities, events, saved, kept),
    ensures
        (saved is Ok && kept == stored) <==> exists|i: int|
            0 <= i < stored.len() && (#[trigger] stored[i]).event@ == cmd.event@ && involves(
                stored[i],
                cmd.entity,
            ),
        saved is Ok && kept != stored ==> exists|x: Experience|
            kept == stored.push(x) && #[trigger] x.entity@ == cmd.entity@ && x.event@
                == cmd.event@,
        saved is Err ==> kept == stored,
{
    broadcast use vstd::seq_lib::group_filter_ensures;

    let key = key_filter(cmd.entity, cmd.event);
    let fs = filtered(stored, key);
    if fs.len() > 0 {
        let x = fs[0];
        assert(fs.contains(x));
        stored.lemma_filter_contains_rev(|y: Experience| key.matches(y), x);
        let j = choose|j: int| 0 <= j < stored.len() && stored[j] == x;
        assert(stored[j].event@ == cmd.event@ && involves(stored[j], cmd.entity));
    } else {
        if exists|i: int|
            0 <= i < stored.len() && (#[trigger] stored[i]).event@ == cmd.event@ && involves(
                stored[i],
                cmd.entity,
            ) {
            let i = choose|i: int|
                0 <= i < stored.len() && (#[trigger] stored[i]).event@ == cmd.event@ && involves(
                    stored[i],
                    cmd.entity,
                );
            lemma_filtered_contains(stored, key, i);
        }
    }
}

impl SaveExperience {
    /// Sets the profiles after the experience, if any.
    pub fn with_after(self, after: Option<Vec<Profile>>) -> (cmd: Self)
        ensures
            cmd.entity == self.entity,
            cmd.event == self.event,
            cmd.after == after,
    {
        SaveExperience { entity: self.entity, event: self.event, after }
    }

    /// Executes the save experience transaction.
    pub fn execute<ExperienceRepo, EntityRepo, EventRepo>(
        self,
        experience_repo: &mut ExperienceRepo,
        entity_repo: &EntityRepo,
        event_repo: &EventRepo,
    ) -> (saved: Result<()>) where
        ExperienceRepo: ExperienceRepository,
        EntityRepo: EntityRepository,
        EventRepo: EventRepository,

        ensures
            saved is Err ==> final(experience_repo).stored() == old(experience_repo).stored(),
            old(experience_repo).available() && entity_repo.available() && event_repo.available()
                ==> saving(
                self,
                old(experience_repo).stored(),
                entity_repo.stored(),
                event_repo.stored(),
                saved,
                final(experience_repo).stored(),
            ),
    {
        let ghost stored = experience_repo.stored();
        let key = ExperienceFilter::default().with_event(Some(self.event)).with_entity(
            Some(self.entity),
        );
        let existing = match experience_repo.filter(&key) {
            Ok(existing) => existing,
            Err(error) => return Err(error),
        };
        if existing.len() > 0 {
            return Ok(());
        }
        let entity = match entity_repo.find(self.entity) {
            Ok(entity) => entity,
            Err(error) => return Err(Error::Entity(error)),
        };
        let event = match event_repo.find(self.event) {
            Ok(event) => event,
            Err(error) => return Err(Error::Event(error)),
        };
        let by_entity = ExperienceFilter::default().with_entity(Some(self.entity));
        let experiences = match experience_repo.filter(&by_entity) {
            Ok(experiences) => experiences,
            Err(error) => return Err(error),
        };
        let ghost involving = filtered(stored, entity_filter(self.entity));
        assert(existing@.unref().len() == existing@.len());
        let mut i: usize = 0;
        while i < experiences.len()
            invariant
                i <= experiences@.len(),
                experiences@.unref() == involving,
                experience_repo.stored() == stored,
                filtered(stored, key_filter(self.entity, self.event)).len() == 0,
                entity_repo.stored().contains_key(self.entity@),
                entity == entity_repo.stored()[self.entity@],
                entity.id@ == self.entity@,
                event_repo.stored().contains_key(self.event@),
                event == event_repo.stored()[self.event@],
                event.id@ == self.event@,
                involving == filtered(stored, entity_filter(self.entity)),
                forall|j: int| 0 <= j < i ==> (#[trigger] involving[j]).event@ != self.event@,
            decreases experiences@.len() - i,
        {
            assert(experiences@.unref()[i as int] == *experiences@[i as int]);
            if experiences[i].event.as_u128() == self.event.as_u128() {
                assert(involving[i as int].event@ == self.event@);
                return Err(Error::EventAlreadyExperienced);
            }
            i = i + 1;
        }
        let mut events: Vec<Event<EventRepo::Interval>> = Vec::new();
        let mut i: usize = 0;
        while i < experiences.len()
            invariant
                i <= experiences@.len(),
                experiences@.unref() == involving,
                experience_repo.stored() == stored,
                filtered(stored, key_filter(self.entity, self.event)).len() == 0,
                entity_repo.stored().contains_key(self.entity@),
                entity == entity_repo.stored()[self.entity@],
                entity.id@ == self.entity@,
                event_repo.stored().contains_key(self.event@),
                event == event_repo.stored()[self.event@],
                event.id@ == self.event@,
                involving == filtered(stored, entity_filter(self.entity)),
                events@.len() == i,
                forall|j: int| 0 <= j < involving.len() ==> (#[trigger] involving[j]).event@ != self.event@,
                forall|j: int|
                    0 <= j < i ==> event_repo.stored().contains_key(
                        (#[trigger] involving[j]).event@,
                    ) && events@[j] == event_repo.stored()[involving[j].event@],
            decreases experiences@.len() - i,
        {
            assert(experiences@.unref()[i as int] == *experiences@[i as int]);
            match event_repo.find(experiences[i].event) {
                Ok(found) => events.push(found),
                Err(error) => {
                    proof {
                        if event_repo.available() {
                            assert(!event_repo.stored().contains_key(involving[i as int].event@));
                        }
                    }
                    return Err(Error::Event(error));
                },
            }
            i = i + 1;
        }
        let mut experienced_events: Vec<ExperiencedEvent<EventRepo::Interval>> = Vec::new();
        let mut i: usize = 0;
        while i < experiences.len()
            invariant
                i <= experiences@.len(),
                experiences@.unref() == involving,
                experience_repo.stored() == stored,
                filtered(stored, key_filter(self.entity, self.event)).len() == 0,
                entity_repo.stored().contains_key(self.entity@),
                entity == entity_repo.stored()[self.entity@],
                entity.id@ == self.entity@,
                event_repo.stored().contains_key(self.event@),
                event == event_repo.stored()[self.event@],
                event.id@ == self.event@,
                involving == filtered(stored, entity_filter(self.entity)),
                events@.len() == experiences@.len(),
                forall|j: int| 0 <= j < involving.len() ==> (#[trigger] involving[j]).event@ != self.event@,
                forall|j: int|
                    0 <= j < involving.len() ==> event_repo.stored().contains_key(
                        (#[trigger] involving[j]).event@,
                    ) && events@[j] == event_repo.stored()[involving[j].event@],
                experienced_events@.len() == i,
                forall|j: int|
                    0 <= j < i ==> (#[trigger] experienced_events@[j]).experience == involving[j]
                        && *experienced_events@[j].event == events@[j],
            decreases experiences@.len() - i,
        {
            assert(experiences@.unref()[i as int] == *experiences@[i as int]);
            experienced_events.push(ExperiencedEvent { experience: experiences[i], event: &events[i] });
            i = i + 1;
        }
        let builder = ExperienceBuilder::new(&entity, &event).with_after(self.after);
        let ghost spec_builder = ExperienceBuilder {
            entity: &entity_repo.stored()[self.entity@],
            event: &event_repo.stored()[self.event@],
            after: self.after,
            kind: None,
        };
        proof {
            assert(builder == spec_builder);
            assert(experienced_events@ =~= paired(involving, event_repo.stored()));
        }
        let created = create(builder, experienced_events.as_slice());
        let ghost outcome = created;
        match created {
            Ok(experience) => {
                proof {
                    if holds_key(stored, experience.entity, experience.event) {
                        let k = choose|k: int|
                            0 <= k < stored.len() && (#[trigger] stored[k]).entity@
                                == experience.entity@ && stored[k].event@ == experience.event@;
                        assert(key_filter(self.entity, self.event).matches(stored[k]));
                        lemma_filtered_contains(stored, key_filter(self.entity, self.event), k);
                    }
                }
                let saved = experience_repo.create(experience);
                proof {
                    if experience_repo.available() {
                        assert(creation(spec_builder, paired(involving, event_repo.stored()), outcome));
                    }
                }
                saved
            },
            Err(error) => {
                assert(creation(spec_builder, paired(involving, event_repo.stored()), outcome));
                Err(error)
            },
        }
    }
}

impl<ExperienceRepo, EntityRepo, EventRepo> ExperienceApplication<
    ExperienceRepo,
    EntityRepo,
    EventRepo,
> {
    /// Starts the save experience transaction of the given entity and event,
    /// with no profile after it.
    pub fn save_experience(&self, entity: Id, event: Id) -> (cmd: SaveExperience)
        ensures
            cmd.entity == entity,
            cmd.event == event,
            cmd.after is None,
    {
        SaveExperience { entity, event, after: None }
    }
}

} // verus!
