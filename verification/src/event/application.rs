//! The use cases on events.

use super::{Error, Event, EventRepository, Result};
use crate::id::Id;
use crate::name::Name;
use vstd::prelude::*;

verus! {

/// The entry point of the use cases on events, over the repository that
/// keeps them.
pub struct EventApplication<R> {
    pub event_repo: R,
}

/// The service of events: another name for [EventApplication].
pub type EventService<R> = EventApplication<R>;

/// The event that saving `cmd` leaves under its id: the stored one, if any,
/// with the name and the interval that `cmd` gives, or a new one out of them.
pub open spec fn saved_event<Intv>(stored: Option<Event<Intv>>, cmd: SaveEvent<Intv>) -> Event<Intv> {
    match stored {
        Some(e) => Event {
            id: cmd.id,
            name: match cmd.name {
                Some(n) => n,
                None => e.name,
            },
            interval: match cmd.interval {
                Some(i) => i,
                None => e.interval,
            },
        },
        None => Event { id: cmd.id, name: cmd.name->0, interval: cmd.interval->0 },
    }
}

/// Saving keeps the event under the command's id with the name and the
/// interval the command gives; a field is taken from the stored event only
/// when the command leaves it unset.
pub proof fn lemma_saved_event_fields<Intv>(stored: Option<Event<Intv>>, cmd: SaveEvent<Intv>)
    ensures
        saved_event(stored, cmd).id == cmd.id,
        cmd.name matches Some(n) ==> saved_event(stored, cmd).name == n,
        cmd.interval matches Some(i) ==> saved_event(stored, cmd).interval == i,
        stored matches Some(e) ==> (cmd.name is None ==> saved_event(stored, cmd).name == e.name),
        stored matches Some(e) ==> (cmd.interval is None ==> saved_event(stored, cmd).interval
            == e.interval),
{
}

/// Implements the save event transaction: it updates the event with the given
/// id, or creates it when there is none.
pub struct SaveEvent<Intv> {
    pub id: Id,
    pub name: Option<Name>,
    pub interval: Option<Intv>,
}

impl<Intv: crate::interval::Interval + Copy> SaveEvent<Intv> {
    /// Sets the name of the event, if any.
    pub fn with_name(self, name: Option<Name>) -> (cmd: Self)
        ensures
            cmd == (SaveEvent { name, ..self }),
    {
        SaveEvent { id: self.id, name, interval: self.interval }
    }

    /// Sets the interval of the event, if any.
    pub fn with_interval(self, intv: Option<Intv>) -> (cmd: Self)
        ensures
            cmd == (SaveEvent { interval: intv, ..self }),
    {
        SaveEvent { id: self.id, name: self.name, interval: intv }
    }

    /// Executes the save event transaction. A new event needs both a name
    /// ([Error::EmptyName] otherwise) and an interval ([Error::EmptyInterval]).
    pub fn execute<R: EventRepository<Interval = Intv>>(self, repo: &mut R) -> (saved: Result<()>)
        ensures
            old(repo).available() ==> final(repo).available(),
            saved is Ok ==> final(repo).stored() == old(repo).stored().insert(
                self.id@,
                saved_event(
                    if old(repo).stored().contains_key(self.id@) {
                        Some(old(repo).stored()[self.id@])
                    } else {
                        None
                    },
                    self,
                ),
            ),
            saved is Ok && !old(repo).stored().contains_key(self.id@) ==> self.name is Some
                && self.interval is Some,
            saved is Ok ==> final(repo).stored().contains_key(self.id@) && final(repo).stored()[self.id@].id
                == self.id,
            saved is Ok ==> (self.name matches Some(n) ==> final(repo).stored()[self.id@].name == n),
            saved is Ok ==> (self.interval matches Some(i) ==> final(repo).stored()[self.id@].interval
                == i),
            saved is Err ==> final(repo).stored() == old(repo).stored(),
            old(repo).available() ==> (saved is Ok <==> (old(repo).stored().contains_key(self.id@)
                || (self.name is Some && self.interval is Some))),
            old(repo).available() ==> (saved matches Err(Error::EmptyName) <==> (!old(
                repo,
            ).stored().contains_key(self.id@) && self.name is None)),
            old(repo).available() ==> (saved matches Err(Error::EmptyInterval) <==> (!old(
                repo,
            ).stored().contains_key(self.id@) && self.name is Some && self.interval is None)),
    {
        match repo.find(self.id) {
            Ok(event) => {
                let name = match self.name {
                    Some(name) => name,
                    None => event.name,
                };
                let interval = match self.interval {
                    Some(interval) => interval,
                    None => event.interval,
                };
                let updated = Event::new(self.id, name, interval);
                repo.update(&updated)
            },
            Err(Error::NotFound) => {
                let name = match self.name {
                    Some(name) => name,
                    None => return Err(Error::EmptyName),
                };
                let interval = match self.interval {
                    Some(interval) => interval,
                    None => return Err(Error::EmptyInterval),
                };
                let event = Event::new(self.id, name, interval);
                repo.create(&event)
            },
            Err(error) => Err(error),
        }
    }
}

impl<R: EventRepository> EventApplication<R> {
    /// Starts the save event transaction, with no name nor interval.
    pub fn save_event(&self, id: Id) -> (cmd: SaveEvent<R::Interval>)
        ensures
            cmd.id == id,
            cmd.name is None,
            cmd.interval is None,
    {
        SaveEvent { id, name: None, interval: None }
    }
}

} // verus!
