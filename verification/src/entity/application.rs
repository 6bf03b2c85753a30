//! The use cases on entities.

use super::repository::matching;
use super::{Entity, EntityFilter, EntityRepository, Error, Result};
use crate::id::Id;
use crate::name::Name;
use vstd::prelude::*;

verus! {

/// The entry point of the use cases on entities, over the repository that
/// keeps them.
pub struct EntityApplication<R> {
    pub entity_repo: R,
}

/// The service of entities: another name for [EntityApplication].
pub type EntityService<R> = EntityApplication<R>;

/// Implements the find query, through which one, and exactly one, entity must
/// be retrived.
pub struct FindEntity {
    pub filter: EntityFilter,
}

impl FindEntity {
    /// What the find query gives out of what the repository's filter
    /// returned: its error, if any; [Error::NotFound] when no entity passed
    /// the filter, [Error::MoreThanOne] when several did, or the only one.
    pub fn pick_one(found: Result<Vec<Entity>>) -> (one: Result<Entity>)
        ensures
            found matches Err(e) ==> one == Err::<Entity, Error>(e),
            found matches Ok(v) ==> {
                &&& v@.len() == 0 ==> one == Err::<Entity, Error>(Error::NotFound)
                &&& v@.len() > 1 ==> one == Err::<Entity, Error>(Error::MoreThanOne)
                &&& v@.len() == 1 ==> one == Ok::<Entity, Error>(v@[0])
            },
    {
        let mut entities = match found {
            Ok(entities) => entities,
            Err(error) => return Err(error),
        };
        if entities.len() == 0 {
            return Err(Error::NotFound);
        }
        if entities.len() > 1 {
            return Err(Error::MoreThanOne);
        }
        Ok(entities.remove(0))
    }

    /// Sets the filter that the entity must pass.
    pub fn with_filter(self, filter: EntityFilter) -> (query: Self)
        ensures
            query.filter == filter,
    {
        FindEntity { filter }
    }

    /// Executes the find query: fails with [Error::NotFound] when no entity
    /// passes the filter and with [Error::MoreThanOne] when several do.
    pub fn execute<R: EntityRepository>(self, repo: &R) -> (found: Result<Entity>)
        ensures
            found matches Ok(e) ==> matching(repo.stored(), self.filter) == set![e],
            repo.available() ==> (found is Ok <==> matching(repo.stored(), self.filter).len()
                == 1),
            repo.available() ==> (found matches Err(Error::NotFound) <==> matching(
                repo.stored(),
                self.filter,
            ).len() == 0),
            repo.available() ==> (found matches Err(Error::MoreThanOne) <==> matching(
                repo.stored(),
                self.filter,
            ).len() > 1),
            repo.available() ==> matching(repo.stored(), self.filter).finite(),
    {
        let found = repo.filter(&self.filter);
        let ghost listed = found;
        let one = Self::pick_one(found);
        let entity = match one {
            Ok(entity) => entity,
            Err(error) => {
                proof {
                    if let Ok(v) = listed {
                        v@.unique_seq_to_set();
                    }
                }
                return Err(error);
            },
        };
        proof {
            let v = listed->Ok_0;
            v@.unique_seq_to_set();
            let all = matching(repo.stored(), self.filter);
            assert(v@.to_set().contains(v@[0]));
            assert(all.contains(entity));
            assert forall|e: Entity| all.contains(e) implies e == entity by {
                assert(all.len() == 1);
                broadcast use vstd::set::group_set_axioms;
                if e != entity {
                    assert(all.remove(entity).contains(e));
                    assert(all.remove(entity).len() == 0);
                }
            }
            assert(all =~= set![entity]);
        }
        Ok(entity)
    }
}

/// Implements the filter query, through which zero o more entities may be
/// retrived.
pub struct FilterEntities {
    pub filter: EntityFilter,
}

impl FilterEntities {
    /// Sets the filter that the entities must pass.
    pub fn with_filter(self, filter: EntityFilter) -> (query: Self)
        ensures
            query.filter == filter,
    {
        FilterEntities { filter }
    }

    /// Executes the filter query: every entity that passes the filter, each
    /// once.
    pub fn execute<R: EntityRepository>(self, repo: &R) -> (found: Result<Vec<Entity>>)
        ensures
            found matches Ok(v) ==> v@.to_set() == matching(repo.stored(), self.filter)
                && v@.no_duplicates(),
            repo.available() ==> found is Ok,
    {
        repo.filter(&self.filter)
    }
}

/// Lists every entity.
pub struct EntityList {}

impl EntityList {
    /// Executes the listing: every entity kept, each once.
    pub fn execute<R: EntityRepository>(self, repo: &R) -> (found: Result<Vec<Entity>>)
        ensures
            found matches Ok(v) ==> v@.to_set() == repo.stored().values() && v@.no_duplicates(),
            repo.available() ==> found is Ok,
    {
        let filter = EntityFilter::default();
        let found = repo.filter(&filter);
        proof {
            if found is Ok {
                assert(matching(repo.stored(), filter) =~= repo.stored().values());
            }
        }
        found
    }
}

/// Implements the save entity transaction: it renames the entity with the
/// given id, or creates it when there is none.
pub struct SaveEntity {
    pub name: Name,
    pub id: Id,
}

impl SaveEntity {
    /// What the save transaction does once the repository's find returned:
    /// an update (`true`) when the entity was found, a creation (`false`)
    /// when it was not, or else the find's error.
    pub fn after_find(found: Result<Entity>) -> (update: Result<bool>)
        ensures
            found is Ok ==> update == Ok::<bool, Error>(true),
            found matches Err(Error::NotFound) ==> update == Ok::<bool, Error>(false),
            found is Err && found->Err_0 != Error::NotFound ==> update == Err::<bool, Error>(
                found->Err_0,
            ),
    {
        match found {
            Ok(_) => Ok(true),
            Err(Error::NotFound) => Ok(false),
            Err(error) => Err(error),
        }
    }

    /// Executes the save entity transaction.
    pub fn execute<R: EntityRepository>(self, repo: &mut R) -> (saved: Result<Entity>)
        ensures
            old(repo).available() ==> final(repo).available(),
            saved matches Ok(e) ==> e.id == self.id && e.name == self.name && final(repo).stored()
                == old(repo).stored().insert(self.id@, e),
            saved is Err ==> final(repo).stored() == old(repo).stored(),
            old(repo).available() ==> saved is Ok,
    {
        match Self::after_find(repo.find(self.id)) {
            Ok(true) => {
                let updated = Entity::new(self.id, self.name);
                match repo.update(&updated) {
                    Ok(()) => Ok(updated),
                    Err(error) => Err(error),
                }
            },
            Ok(false) => {
                let entity = Entity::new(self.id, self.name);
                match repo.create(&entity) {
                    Ok(()) => Ok(entity),
                    Err(error) => Err(error),
                }
            },
            Err(error) => Err(error),
        }
    }
}

/// Implements the create entity transaction.
pub struct CreateEntity {
    pub name: Name,
    pub id: Option<Id>,
}

impl CreateEntity {
    /// Sets the id of the new entity; a random one is generated when none.
    pub fn with_id(self, id: Option<Id>) -> (cmd: Self)
        ensures
            cmd.id == id,
            cmd.name == self.name,
    {
        CreateEntity { name: self.name, id }
    }

    /// Executes the create entity transaction.
    pub fn execute<R: EntityRepository>(self, repo: &mut R) -> (created: Result<Entity>)
        ensures
            old(repo).available() ==> final(repo).available(),
            created matches Ok(e) ==> e.name == self.name && (self.id matches Some(id) ==> e.id
                == id) && !old(repo).stored().contains_key(e.id@) && final(repo).stored() == old(
                repo,
            ).stored().insert(e.id@, e),
            created matches Err(Error::AlreadyExists) ==> (self.id matches Some(id) ==> old(
                repo,
            ).stored().contains_key(id@)),
            created is Err ==> final(repo).stored() == old(repo).stored(),
            old(repo).available() && self.id is Some ==> (created is Ok <==> !old(
                repo,
            ).stored().contains_key(self.id->0@)),
            old(repo).available() && created is Err ==> created == Err::<Entity, Error>(
                Error::AlreadyExists,
            ),
    {
        let id = match self.id {
            Some(id) => id,
            None => Id::default(),
        };
        let entity = Entity::new(id, self.name);
        match repo.create(&entity) {
            Ok(()) => Ok(entity),
            Err(error) => Err(error),
        }
    }
}

/// Implements the remove entity transaction.
pub struct RemoveEntity {
    pub id: Id,
}

impl RemoveEntity {
    /// Sets the id of the entity to remove.
    pub fn with_id(self, id: Id) -> (cmd: Self)
        ensures
            cmd.id == id,
    {
        RemoveEntity { id }
    }

    /// Executes the remove entity transaction.
    pub fn execute<R: EntityRepository>(self, repo: &mut R) -> (removed: Result<()>)
        ensures
            old(repo).available() ==> final(repo).available(),
            removed is Ok ==> old(repo).stored().contains_key(self.id@) && final(repo).stored()
                == old(repo).stored().remove(self.id@),
            removed matches Err(Error::NotFound) ==> !old(repo).stored().contains_key(self.id@),
            removed is Err ==> final(repo).stored() == old(repo).stored(),
            old(repo).available() ==> (removed is Ok <==> old(repo).stored().contains_key(
                self.id@,
            )),
            old(repo).available() && removed is Err ==> removed == Err::<(), Error>(
                Error::NotFound,
            ),
    {
        repo.delete(self.id)
    }
}

impl<R: EntityRepository> EntityApplication<R> {
    /// Starts a find query with a filter that every entity passes.
    pub fn find_entity(&self) -> (query: FindEntity)
        ensures
            query.filter.name is None && query.filter.id is None,
    {
        FindEntity { filter: EntityFilter::default() }
    }

    /// Starts a filter query with a filter that every entity passes.
    pub fn filter_entities(&self) -> (query: FilterEntities)
        ensures
            query.filter.name is None && query.filter.id is None,
    {
        FilterEntities { filter: EntityFilter::default() }
    }

    /// Starts the listing of every entity.
    pub fn list(&self) -> (query: EntityList) {
        EntityList {  }
    }

    /// Starts the save entity transaction.
    pub fn save_entity(&self, id: Id, name: Name) -> (cmd: SaveEntity)
        ensures
            cmd.id == id,
            cmd.name == name,
    {
        SaveEntity { name, id }
    }

    /// Starts the create entity transaction, with no id.
    pub fn create_entity(&self, name: Name) -> (cmd: CreateEntity)
        ensures
            cmd.name == name,
            cmd.id is None,
    {
        CreateEntity { name, id: None }
    }

    /// Starts the remove entity transaction.
    pub fn remove_entity(&self, id: Id) -> (cmd: RemoveEntity)
        ensures
            cmd.id == id,
    {
        RemoveEntity { id }
    }
}

} // verus!
