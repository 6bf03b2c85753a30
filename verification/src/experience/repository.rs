//! Where experiences are kept, and how to pick some of them.

use super::{Error, Experience, Result};
use crate::id::Id;
use vstd::prelude::*;

verus! {

/// The entity is involved in the experience: it is the one experiencing it,
/// or one of those after it.
pub open spec fn involves(experience: Experience, entity: Id) -> bool {
    ||| experience.entity@ == entity@
    ||| exists|k: int|
        0 <= k < experience.after@.len() && (#[trigger] experience.after@[k]).entity@ == entity@
}

/// Implements the filter query, through which zero o more experiences may be
/// retrived.
#[derive(Debug, Clone, Copy)]
pub struct ExperienceFilter {
    /// Determines the entity involved in the experience, no matter it is the
    /// one experiencing it or one of those after it.
    pub entity: Option<Id>,
    /// Determines the event causing the [Experience].
    pub event: Option<Id>,
}

impl Default for ExperienceFilter {
    fn default() -> (filter: Self)
        ensures
            filter.entity is None,
            filter.event is None,
    {
        ExperienceFilter { entity: None, event: None }
    }
}

impl ExperienceFilter {
    /// The experience passes the filter: it is caused by the event of the
    /// filter, if any, and involves its entity, if any.
    pub open spec fn matches(self, experience: Experience) -> bool {
        &&& self.event matches Some(event) ==> experience.event@ == event@
        &&& self.entity matches Some(entity) ==> involves(experience, entity)
    }

    pub fn with_entity(self, id: Option<Id>) -> (filter: Self)
        ensures
            filter.entity == id,
            filter.event == self.event,
    {
        ExperienceFilter { entity: id, event: self.event }
    }

    pub fn with_event(self, id: Option<Id>) -> (filter: Self)
        ensures
            filter.entity == self.entity,
            filter.event == id,
    {
        ExperienceFilter { entity: self.entity, event: id }
    }

    /// Returns true if, and only if, the experience passes the filter.
    pub fn filter(&self, experience: &Experience) -> (passes: bool)
        ensures
            passes == self.matches(*experience),
    {
        if let Some(event) = self.event {
            if event.as_u128() != experience.event.as_u128() {
                return false;
            }
        }
        self.filter_by_entity(experience)
    }

    fn filter_by_entity(&self, experience: &Experience) -> (passes: bool)
        ensures
            passes == (self.entity matches Some(entity) ==> involves(*experience, entity)),
    {
        let entity = match self.entity {
            Some(entity) => entity.as_u128(),
            None => return true,
        };
        if experience.entity.as_u128() == entity {
            return true;
        }
        let mut i: usize = 0;
        while i < experience.after.len()
            invariant
                i <= experience.after@.len(),
                self.entity matches Some(e) && e@ == entity,
                experience.entity@ != entity,
                forall|k: int| 0 <= k < i ==> (#[trigger] experience.after@[k]).entity@ != entity,
            decreases experience.after@.len() - i,
        {
            if experience.after[i].entity.as_u128() == entity {
                assert(experience.after@[i as int].entity@ == entity);
                return true;
            }
            i = i + 1;
        }
        false
    }
}

/// The experiences of `stored` that pass the filter, in the order they are
/// kept.
pub open spec fn filtered(stored: Seq<Experience>, filter: ExperienceFilter) -> Seq<Experience> {
    stored.filter(|x: Experience| filter.matches(x))
}

/// An experience of `stored` that passes the filter is among those
/// filtered.
pub proof fn lemma_filtered_contains(stored: Seq<Experience>, filter: ExperienceFilter, i: int)
    requires
        0 <= i < stored.len(),
        filter.matches(stored[i]),
    ensures
        filtered(stored, filter).contains(stored[i]),
        filtered(stored, filter).len() > 0,
{
    stored.lemma_filter_contains(|x: Experience| filter.matches(x), i);
}

/// Some experience of `stored` is that of the given entity caused by the
/// given event.
pub open spec fn holds_key(stored: Seq<Experience>, entity: Id, event: Id) -> bool {
    exists|i: int|
        0 <= i < stored.len() && (#[trigger] stored[i]).entity@ == entity@ && stored[i].event@
            == event@
}

/// An ExperienceRepository keeps experiences, at most one for each entity and
/// event.
pub trait ExperienceRepository {
    /// The experiences kept, in the order they were created.
    spec fn stored(&self) -> Seq<Experience>;

    /// The repository answers every request: it fails only where the
    /// request itself is refused (an experience that exists).
    spec fn available(&self) -> bool;

    /// Keeps a new experience.
    fn create(&mut self, experience: Experience) -> (done: Result<()>)
        ensures
            done is Ok ==> !holds_key(old(self).stored(), experience.entity, experience.event)
                && final(self).stored() == old(self).stored().push(experience),
            done matches Err(Error::AlreadyExists) ==> holds_key(
                old(self).stored(),
                experience.entity,
                experience.event,
            ),
            done is Err ==> final(self).stored() == old(self).stored(),
            old(self).available() ==> final(self).available(),
            old(self).available() ==> (done is Ok <==> !holds_key(
                old(self).stored(),
                experience.entity,
                experience.event,
            )),
            old(self).available() && done is Err ==> done == Err::<(), Error>(Error::AlreadyExists),
    ;

    /// Returns the experiences that pass the filter, in the order they are
    /// kept.
    fn filter(&self, filter: &ExperienceFilter) -> (found: Result<Vec<&Experience>>)
        ensures
            found matches Ok(v) ==> v@.unref() == filtered(self.stored(), *filter),
            self.available() ==> found is Ok,
    ;
}

/// An ExperienceRepository that keeps the experiences in memory.
pub struct InMemoryExperienceRepository {
    experiences: Vec<Experience>,
}

impl InMemoryExperienceRepository {
    /// No two experiences are of the same entity and event.
    #[verifier::type_invariant]
    spec fn unique_keys(self) -> bool {
        forall|i: int, j: int|
            0 <= i < j < self.experiences@.len() ==> !((#[trigger] self.experiences@[i]).entity@
                == (#[trigger] self.experiences@[j]).entity@ && self.experiences@[i].event@
                == self.experiences@[j].event@)
    }

    /// The experiences kept, in the order they were created.
    pub closed spec fn spec_stored(&self) -> Seq<Experience> {
        self.experiences@
    }

    /// Creates an empty repository.
    pub fn new() -> (repo: Self)
        ensures
            repo.spec_stored() == Seq::<Experience>::empty(),
    {
        InMemoryExperienceRepository { experiences: Vec::new() }
    }
}

impl Default for InMemoryExperienceRepository {
    fn default() -> (repo: Self)
        ensures
            repo.spec_stored() == Seq::<Experience>::empty(),
    {
        Self::new()
    }
}

impl ExperienceRepository for InMemoryExperienceRepository {
    open spec fn stored(&self) -> Seq<Experience> {
        self.spec_stored()
    }

    /// An in-memory repository always answers.
    open spec fn available(&self) -> bool {
        true
    }

    fn create(&mut self, experience: Experience) -> (done: Result<()>) {
        proof {
            use_type_invariant(&*self);
        }
        let mut i: usize = 0;
        while i < self.experiences.len()
            invariant
                i <= self.experiences@.len(),
                forall|j: int|
                    0 <= j < i ==> !((#[trigger] self.experiences@[j]).entity@ == experience.entity@
                        && self.experiences@[j].event@ == experience.event@),
            decreases self.experiences@.len() - i,
        {
            if self.experiences[i].entity.as_u128() == experience.entity.as_u128()
                && self.experiences[i].event.as_u128() == experience.event.as_u128() {
                assert(self.experiences@[i as int].entity@ == experience.entity@);
                return Err(Error::AlreadyExists);
            }
            i = i + 1;
        }
        let mut experiences = Vec::new();
        std::mem::swap(&mut experiences, &mut self.experiences);
        let ghost before = experiences@;
        experiences.push(experience);
        proof {
            assert forall|a: int, b: int|
                0 <= a < b < experiences@.len() implies !((#[trigger] experiences@[a]).entity@
                    == (#[trigger] experiences@[b]).entity@ && experiences@[a].event@
                    == experiences@[b].event@) by {
                if b == before.len() {
                    assert(experiences@[a] == before[a]);
                } else {
                    assert(experiences@[a] == before[a]);
                    assert(experiences@[b] == before[b]);
                }
            }
        }
        self.experiences = experiences;
        Ok(())
    }

    fn filter(&self, filter: &ExperienceFilter) -> (found: Result<Vec<&Experience>>) {
        let mut found: Vec<&Experience> = Vec::new();
        let ghost s = self.experiences@;
        let ghost pred = |x: Experience| filter.matches(x);
        proof {
            reveal(Seq::filter);
            assert(s.take(0) =~= Seq::<Experience>::empty());
            assert(found@.unref() =~= s.take(0).filter(pred));
        }
        let mut i: usize = 0;
        while i < self.experiences.len()
            invariant
                i <= s.len(),
                s == self.experiences@,
                pred == (|x: Experience| filter.matches(x)),
                found@.unref() == s.take(i as int).filter(pred),
            decreases s.len() - i,
        {
            let experience = &self.experiences[i];
            let passes = filter.filter(experience);
            proof {
                reveal(Seq::filter);
                assert(s.take(i + 1).drop_last() =~= s.take(i as int));
                assert(s.take(i + 1).last() == s[i as int]);
            }
            if passes {
                let ghost old_found = found@;
                found.push(experience);
                proof {
                    assert(found@.unref() =~= old_found.unref().push(*experience));
                }
            }
            i = i + 1;
        }
        proof {
            assert(s.take(i as int) =~= s);
        }
        Ok(found)
    }
}

} // verus!
