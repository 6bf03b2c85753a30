//! Where events are kept.

use super::{Error, Event, Result};
use crate::id::Id;
use crate::interval::Interval;
use std::collections::HashMap;
use vstd::prelude::*;
use vstd::std_specs::iter::IteratorSpec;

verus! {

broadcast use vstd::std_specs::hash::group_hash_axioms;

/// An EventRepository keeps events by the value of their id.
pub trait EventRepository {
    /// The kind of interval during which the events take place.
    type Interval: Interval + Copy;

    /// The events kept, by the value of their id.
    spec fn stored(&self) -> Map<u128, Event<Self::Interval>>;

    /// The repository answers every request: it fails only where the
    /// request itself is refused (an id that exists, or does not).
    spec fn available(&self) -> bool;

    /// Keeps a new event.
    fn create(&mut self, event: &Event<Self::Interval>) -> (done: Result<()>)
        ensures
            done is Ok ==> !old(self).stored().contains_key(event.id@) && final(self).stored()
                == old(self).stored().insert(event.id@, *event),
            done matches Err(Error::AlreadyExists) ==> old(self).stored().contains_key(event.id@),
            done is Err ==> final(self).stored() == old(self).stored(),
            old(self).available() ==> final(self).available(),
            old(self).available() ==> (done is Ok <==> !old(self).stored().contains_key(
                event.id@,
            )),
            old(self).available() && done is Err ==> done == Err::<(), Error>(Error::AlreadyExists),
    ;

    /// Returns the event with the given id.
    fn find(&self, id: Id) -> (found: Result<Event<Self::Interval>>)
        ensures
            found matches Ok(e) ==> self.stored().contains_key(id@) && e == self.stored()[id@]
                && e.id@ == id@,
            found matches Err(Error::NotFound) ==> !self.stored().contains_key(id@),
            self.available() ==> (found is Ok <==> self.stored().contains_key(id@)),
            self.available() && found is Err ==> found == Err::<Event<Self::Interval>, Error>(
                Error::NotFound,
            ),
    ;

    /// Replaces the event that has the same id as the given one.
    fn update(&mut self, event: &Event<Self::Interval>) -> (done: Result<()>)
        ensures
            done is Ok ==> old(self).stored().contains_key(event.id@) && final(self).stored()
                == old(self).stored().insert(event.id@, *event),
            done matches Err(Error::NotFound) ==> !old(self).stored().contains_key(event.id@),
            done is Err ==> final(self).stored() == old(self).stored(),
            old(self).available() ==> final(self).available(),
            old(self).available() ==> (done is Ok <==> old(self).stored().contains_key(
                event.id@,
            )),
            old(self).available() && done is Err ==> done == Err::<(), Error>(Error::NotFound),
    ;
}

/// What a read gives back of a write: once an event is kept, by creating or
/// updating it, the event kept under its id is that one.
pub proof fn lemma_read_after_write<Intv>(stored: Map<u128, Event<Intv>>, event: Event<Intv>)
    ensures
        stored.insert(event.id@, event).contains_key(event.id@),
        stored.insert(event.id@, event)[event.id@] == event,
{
}

/// An EventRepository that keeps the events in memory.
pub struct InMemoryEventRepository<Intv> {
    events: HashMap<u128, Event<Intv>>,
}

impl<Intv> InMemoryEventRepository<Intv> {
    /// Each event is kept under the value of its own id.
    #[verifier::type_invariant]
    spec fn keys_match(self) -> bool {
        forall|k: u128| #[trigger] self.events@.contains_key(k) ==> self.events@[k].id@ == k
    }

    /// The events kept, by the value of their id.
    pub closed spec fn spec_stored(&self) -> Map<u128, Event<Intv>> {
        self.events@
    }

    /// Creates a repository that keeps no event.
    pub fn new() -> (repo: Self)
        ensures
            repo.spec_stored() == Map::<u128, Event<Intv>>::empty(),
    {
        InMemoryEventRepository { events: HashMap::new() }
    }

    /// Returns a reference to each event kept.
    pub fn all(&self) -> (found: Vec<&Event<Intv>>)
        ensures
            found@.len() == self.spec_stored().dom().len(),
            forall|i: int|
                0 <= i < found@.len() ==> self.spec_stored().values().contains(*#[trigger] found@[i]),
    {
        let mut found: Vec<&Event<Intv>> = Vec::new();
        let ghost all = vstd::std_specs::hash::spec_values_iter(&self.events).remaining();
        proof {
            assert(all.len() == self.events@.dom().len());
            assert forall|j: int| 0 <= j < all.len() implies self.events@.values().contains(
                *#[trigger] all[j],
            ) by {
                assert(all.unref()[j] == *all[j]);
                assert(all.unref().contains(*all[j]));
            }
        }
        for event in iter: self.events.values()
            invariant
                found@.len() == iter.index(),
                iter.seq() == all,
                all.len() == self.events@.dom().len(),
                forall|j: int|
                    0 <= j < all.len() ==> self.events@.values().contains(*#[trigger] all[j]),
                forall|i: int|
                    0 <= i < found@.len() ==> self.events@.values().contains(*#[trigger] found@[i]),
        {
            proof {
                assert(all[iter.index()] == event);
            }
            found.push(event);
        }
        found
    }
}

impl<Intv> Default for InMemoryEventRepository<Intv> {
    fn default() -> (repo: Self)
        ensures
            repo.spec_stored() == Map::<u128, Event<Intv>>::empty(),
    {
        Self::new()
    }
}

impl<Intv: Interval + Copy> EventRepository for InMemoryEventRepository<Intv> {
    type Interval = Intv;

    open spec fn stored(&self) -> Map<u128, Event<Intv>> {
        self.spec_stored()
    }

    open spec fn available(&self) -> bool {
        true
    }

    fn create(&mut self, event: &Event<Intv>) -> (done: Result<()>) {
        proof {
            use_type_invariant(&*self);
        }
        let key = event.id.as_u128();
        if self.events.contains_key(&key) {
            return Err(Error::AlreadyExists);
        }
        let mut events = HashMap::new();
        std::mem::swap(&mut events, &mut self.events);
        events.insert(key, event.clone());
        self.events = events;
        Ok(())
    }

    fn find(&self, id: Id) -> (found: Result<Event<Intv>>) {
        proof {
            use_type_invariant(self);
        }
        match self.events.get(&id.as_u128()) {
            Some(event) => Ok(event.clone()),
            None => Err(Error::NotFound),
        }
    }

    fn update(&mut self, event: &Event<Intv>) -> (done: Result<()>) {
        proof {
            use_type_invariant(&*self);
        }
        let key = event.id.as_u128();
        if !self.events.contains_key(&key) {
            return Err(Error::NotFound);
        }
        let mut events = HashMap::new();
        std::mem::swap(&mut events, &mut self.events);
        events.insert(key, event.clone());
        self.events = events;
        Ok(())
    }
}

} // verus!
