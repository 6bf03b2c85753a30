//! Events: specific happenings in which one or more entities are involved.

pub mod application;
pub mod cli;
pub mod repository;

pub use application::{EventApplication, EventService, SaveEvent};
pub use repository::{EventRepository, InMemoryEventRepository};

use crate::id::{Id, Identifiable};
use crate::interval::Interval;
use crate::name::Name;
use vstd::prelude::*;

verus! {

/// The errors of the operations on events.
#[derive(Debug, PartialEq, Eq)]
pub enum Error {
    /// An event with the same id already exists.
    AlreadyExists,
    /// No event has the id.
    NotFound,
    /// A new event needs a name.
    EmptyName,
    /// A new event needs an interval.
    EmptyInterval,
    /// An operation on entities failed.
    Entity(crate::entity::Error),
    /// The id is not valid.
    Id(crate::id::Error),
}

pub type Result<T> = core::result::Result<T, Error>;

impl Error {
    /// The text of the message describing the error; an error of entities or
    /// of ids is described by its own message.
    pub open spec fn message_text(self) -> Seq<char> {
        match self {
            Error::AlreadyExists => "event already exists"@,
            Error::NotFound => "event not found"@,
            Error::EmptyName => "an event name cannot be empty"@,
            Error::EmptyInterval => "an event interval cannot be empty"@,
            Error::Entity(e) => e.message_text(),
            Error::Id(e) => e.message_text(),
        }
    }

    /// The message describing the error.
    pub fn message(&self) -> (text: String)
        ensures
            text@ == self.message_text(),
            self matches Error::Id(crate::id::Error::Uuid(r)) ==> text@ == "uuid: "@ + r@,
            *self == Error::AlreadyExists ==> text@ == "event already exists"@,
            *self == Error::NotFound ==> text@ == "event not found"@,
            *self == Error::EmptyName ==> text@ == "an event name cannot be empty"@,
            *self == Error::EmptyInterval ==> text@ == "an event interval cannot be empty"@,
    {
        match self {
            Error::AlreadyExists => String::from_str("event already exists"),
            Error::NotFound => String::from_str("event not found"),
            Error::EmptyName => String::from_str("an event name cannot be empty"),
            Error::EmptyInterval => String::from_str("an event interval cannot be empty"),
            Error::Entity(error) => error.message(),
            Error::Id(error) => error.message(),
        }
    }
}

/// An Event is a specific happening in which one or more entities are involved.
#[derive(Debug)]
pub struct Event<Intv> {
    pub id: Id,
    pub name: Name,
    /// the interval is the time during which the event takes place.
    pub interval: Intv,
}

impl<Intv: Copy> Clone for Event<Intv> {
    fn clone(&self) -> (copy: Self)
        ensures
            copy == *self,
    {
        Event { id: self.id, name: self.name.clone(), interval: self.interval }
    }
}

impl<Intv> Identifiable for Event<Intv> {
    open spec fn spec_id(&self) -> Id {
        self.id
    }

    fn id(&self) -> (id: Id) {
        self.id
    }
}

impl<Intv: Interval + Copy> Interval for Event<Intv> {
    open spec fn spec_lo(&self) -> u64 {
        self.interval.spec_lo()
    }

    open spec fn spec_hi(&self) -> u64 {
        self.interval.spec_hi()
    }

    fn lo(&self) -> (bound: u64) {
        self.interval.lo()
    }

    fn hi(&self) -> (bound: u64) {
        self.interval.hi()
    }
}

impl<Intv> Event<Intv> {
    /// Creates a new event with the given id.
    pub fn new(id: Id, name: Name, interval: Intv) -> (event: Self)
        ensures
            event.id == id,
            event.name == name,
            event.interval == interval,
    {
        Self { id, name, interval }
    }
}

} // verus!
