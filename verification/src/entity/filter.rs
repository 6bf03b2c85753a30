//! The filter through which zero or more entities may be retrieved.

use super::Entity;
use crate::id::Id;
use crate::name::Name;
use vstd::prelude::*;

verus! {

/// Implements the filter query, through which zero o more entities may be retrived.
#[derive(Debug)]
pub struct EntityFilter {
    pub name: Option<Name>,
    pub id: Option<Id>,
}

impl Default for EntityFilter {
    /// A filter that every entity passes.
    fn default() -> (filter: Self)
        ensures
            filter.name is None,
            filter.id is None,
    {
        EntityFilter { name: None, id: None }
    }
}

impl EntityFilter {
    /// An entity passes the filter when it has the name and the id that the
    /// filter asks for, if it asks for any.
    pub open spec fn matches(self, entity: Entity) -> bool {
        &&& self.name matches Some(name) ==> name@ == entity.name@
        &&& self.id matches Some(id) ==> id@ == entity.id@
    }

    /// Sets the id that the entities must have, if any.
    pub fn with_id(self, id: Option<Id>) -> (filter: Self)
        ensures
            filter.id == id,
            filter.name == self.name,
    {
        EntityFilter { name: self.name, id }
    }

    /// Sets the name that the entities must have, if any.
    pub fn with_name(self, name: Option<Name>) -> (filter: Self)
        ensures
            filter.name == name,
            filter.id == self.id,
    {
        EntityFilter { name, id: self.id }
    }

    /// Returns true if, and only if, the given entity passes the filter.
    pub fn filter(&self, entity: &Entity) -> (passes: bool)
        ensures
            passes == self.matches(*entity),
    {
        if let Some(want) = &self.name {
            if !want.eq(&entity.name) {
                return false;
            }
        }
        if let Some(want) = &self.id {
            if !want.eq(&entity.id) {
                return false;
            }
        }
        true
    }
}

/// An entity passes a filter exactly when it has the name the filter asks
/// for, if any, and the id the filter asks for, if any: a name that differs
/// keeps it out whether or not the filter also asks for an id, and so does an
/// id that differs whether or not the filter also asks for a name.
pub proof fn lemma_filter_checks_each(filter: EntityFilter, entity: Entity)
    ensures
        filter.name matches Some(n) && n@ != entity.name@ ==> !filter.matches(entity),
        filter.id matches Some(i) && i@ != entity.id@ ==> !filter.matches(entity),
        (filter.name matches Some(n) ==> n@ == entity.name@) && (filter.id matches Some(i) ==> i@
            == entity.id@) ==> filter.matches(entity),
        filter.name is None && filter.id is None ==> filter.matches(entity),
{
}

} // verus!
