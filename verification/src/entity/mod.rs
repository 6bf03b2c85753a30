//! Entities: anything which to interact with.

pub mod application;
pub mod cli;
pub mod filter;
pub mod fmt;
pub mod repository;

pub use filter::EntityFilter;
pub use repository::{EntityRepository, InMemoryEntityRepository};

use crate::id::{Id, Identifiable};
use crate::name::Name;
use vstd::prelude::*;

verus! {

/// The errors of the operations on entities.
#[derive(Debug, PartialEq, Eq)]
pub enum Error {
    /// An entity with the same id already exists.
    AlreadyExists,
    /// No entity matches.
    NotFound,
    /// More than one entity matches where exactly one is wanted.
    MoreThanOne,
    /// The name is not valid.
    Name(crate::name::Error),
    /// The id is not valid.
    Id(crate::id::Error),
}

pub type Result<T> = core::result::Result<T, Error>;

impl Error {
    /// The text of the message describing the error.
    pub open spec fn message_text(self) -> Seq<char> {
        match self {
            Error::AlreadyExists => "entity already exists"@,
            Error::NotFound => "entity not found"@,
            Error::MoreThanOne => "more than one entity matches"@,
            Error::Name(_) => "invalid name"@,
            Error::Id(crate::id::Error::Uuid(reason)) => "uuid: "@ + reason@,
        }
    }

    /// The message describing the error.
    pub fn message(&self) -> (text: String)
        ensures
            text@ == self.message_text(),
            *self == Error::AlreadyExists ==> text@ == "entity already exists"@,
            *self == Error::NotFound ==> text@ == "entity not found"@,
            *self == Error::MoreThanOne ==> text@ == "more than one entity matches"@,
    {
        match self {
            Error::AlreadyExists => String::from_str("entity already exists"),
            Error::NotFound => String::from_str("entity not found"),
            Error::MoreThanOne => String::from_str("more than one entity matches"),
            Error::Name(error) => error.message(),
            Error::Id(error) => error.message(),
        }
    }
}

/// An Entity is anything which to interact with.
#[derive(Debug)]
pub struct Entity {
    pub id: Id,
    pub name: Name,
}

impl Clone for Entity {
    fn clone(&self) -> (copy: Self)
        ensures
            copy == *self,
    {
        Entity { id: self.id, name: self.name.clone() }
    }
}

impl PartialEq for Entity {
    /// Two entities are the same one when they share the id.
    fn eq(&self, other: &Self) -> (equal: bool) {
        self.id == other.id
    }
}

impl vstd::std_specs::cmp::PartialEqSpecImpl for Entity {
    open spec fn obeys_eq_spec() -> bool {
        true
    }

    open spec fn eq_spec(&self, other: &Self) -> bool {
        self.id@ == other.id@
    }
}

impl Identifiable for Entity {
    open spec fn spec_id(&self) -> Id {
        self.id
    }

    fn id(&self) -> (id: Id) {
        self.id
    }
}

impl Entity {
    /// Creates a new entity with the given id and name.
    pub fn new(id: Id, name: Name) -> (entity: Self)
        ensures
            entity.id == id,
            entity.name == name,
    {
        Self { id, name }
    }

    /// Returns a reference to the name of self.
    pub fn name(&self) -> (name: &Name)
        ensures
            *name == self.name,
    {
        &self.name
    }
}

} // verus!
