//! Where entities are kept.

use super::{Entity, EntityFilter, Error, Result};
use crate::id::Id;
use std::collections::HashMap;
use vstd::prelude::*;
use vstd::std_specs::iter::IteratorSpec;

verus! {

broadcast use vstd::std_specs::hash::group_hash_axioms;

/// The entities among `stored` that pass `filter`.
pub open spec fn matching(stored: Map<u128, Entity>, filter: EntityFilter) -> Set<Entity> {
    Set::new(|e: Entity| stored.values().contains(e) && filter.matches(e))
}

/// An EntityRepository keeps entities by the value of their id.
pub trait EntityRepository {
    /// The entities kept, by the value of their id.
    spec fn stored(&self) -> Map<u128, Entity>;

    /// The repository answers every request: it fails only where the
    /// request itself is refused (an id that exists, or does not).
    spec fn available(&self) -> bool;

    /// Returns the entity with the given id.
    fn find(&self, id: Id) -> (found: Result<Entity>)
        ensures
            found matches Ok(e) ==> self.stored().contains_key(id@) && e == self.stored()[id@]
                && e.id@ == id@,
            found matches Err(Error::NotFound) ==> !self.stored().contains_key(id@),
            self.available() ==> (found is Ok <==> self.stored().contains_key(id@)),
            self.available() && found is Err ==> found == Err::<Entity, Error>(Error::NotFound),
    ;

    /// Returns every entity that passes the filter, each once.
    fn filter(&self, filter: &EntityFilter) -> (found: Result<Vec<Entity>>)
        ensures
            found matches Ok(v) ==> v@.to_set() == matching(self.stored(), *filter)
                && v@.no_duplicates(),
            self.available() ==> found is Ok,
    ;

    /// Keeps a new entity.
    fn create(&mut self, entity: &Entity) -> (done: Result<()>)
        ensures
            done is Ok ==> !old(self).stored().contains_key(entity.id@) && final(self).stored()
                == old(self).stored().insert(entity.id@, *entity),
            done matches Err(Error::AlreadyExists) ==> old(self).stored().contains_key(entity.id@),
            done is Err ==> final(self).stored() == old(self).stored(),
            old(self).available() ==> final(self).available(),
            old(self).available() ==> (done is Ok <==> !old(self).stored().contains_key(
                entity.id@,
            )),
            old(self).available() && done is Err ==> done == Err::<(), Error>(Error::AlreadyExists),
    ;

    /// Replaces the entity that has the same id as the given one.
    fn update(&mut self, entity: &Entity) -> (done: Result<()>)
        ensures
            done is Ok ==> old(self).stored().contains_key(entity.id@) && final(self).stored()
                == old(self).stored().insert(entity.id@, *entity),
            done matches Err(Error::NotFound) ==> !old(self).stored().contains_key(entity.id@),
            done is Err ==> final(self).stored() == old(self).stored(),
            old(self).available() ==> final(self).available(),
            old(self).available() ==> (done is Ok <==> old(self).stored().contains_key(
                entity.id@,
            )),
            old(self).available() && done is Err ==> done == Err::<(), Error>(Error::NotFound),
    ;

    /// Removes the entity with the given id.
    fn delete(&mut self, id: Id) -> (done: Result<()>)
        ensures
            done is Ok ==> old(self).stored().contains_key(id@) && final(self).stored() == old(
                self,
            ).stored().remove(id@),
            done matches Err(Error::NotFound) ==> !old(self).stored().contains_key(id@),
            done is Err ==> final(self).stored() == old(self).stored(),
            old(self).available() ==> final(self).available(),
            old(self).available() ==> (done is Ok <==> old(self).stored().contains_key(id@)),
            old(self).available() && done is Err ==> done == Err::<(), Error>(Error::NotFound),
    ;
}

/// What a read gives back of a write: once an entity is kept, by creating
/// or updating it, the entity kept under its id is that one; once removed,
/// none is.
pub proof fn lemma_read_after_write(stored: Map<u128, Entity>, entity: Entity)
    ensures
        stored.insert(entity.id@, entity).contains_key(entity.id@),
        stored.insert(entity.id@, entity)[entity.id@] == entity,
        !stored.remove(entity.id@).contains_key(entity.id@),
{
}

/// An EntityRepository that keeps the entities in memory.
pub struct InMemoryEntityRepository {
    entities: HashMap<u128, Entity>,
}

impl InMemoryEntityRepository {
    /// Each entity is kept under the value of its own id.
    #[verifier::type_invariant]
    spec fn keys_match(self) -> bool {
        forall|k: u128| #[trigger] self.entities@.contains_key(k) ==> self.entities@[k].id@ == k
    }

    /// The entities kept, by the value of their id.
    pub closed spec fn spec_stored(&self) -> Map<u128, Entity> {
        self.entities@
    }

    /// Creates a repository that keeps no entity.
    pub fn new() -> (repo: Self)
        ensures
            repo.spec_stored() == Map::<u128, Entity>::empty(),
    {
        InMemoryEntityRepository { entities: HashMap::new() }
    }

    /// Returns every entity kept, each once.
    pub fn all(&self) -> (found: Vec<Entity>)
        ensures
            found@.to_set() == matching(self.spec_stored(), EntityFilter { name: None, id: None }),
            found@.no_duplicates(),
    {
        let filter = EntityFilter::default();
        self.collect(&filter)
    }

    /// Returns every entity kept that passes the filter, each once.
    fn collect(&self, filter: &EntityFilter) -> (found: Vec<Entity>)
        ensures
            found@.to_set() == matching(self.spec_stored(), *filter),
            found@.no_duplicates(),
    {
        proof {
            use_type_invariant(self);
        }
        let mut found: Vec<Entity> = Vec::new();
        let ghost m = self.entities@;
        let ghost all = vstd::std_specs::hash::spec_hash_map_iter(&self.entities).remaining();
        proof {
            assert(all.len() == m.dom().len());
        }
        let ghost mut src: Seq<int> = Seq::empty();
        for pair in iter: self.entities.iter()
            invariant
                m == self.entities@,
                iter.seq() == all,
                all.no_duplicates(),
                forall|i: int|
                    #![trigger all[i]]
                    0 <= i < all.len() ==> m.contains_key(*all[i].0) && m[*all[i].0] == *all[i].1,
                forall|k: u128| #[trigger] m.contains_key(k) ==> all.contains((&k, &m[k])),
                forall|k: u128| #[trigger] m.contains_key(k) ==> m[k].id@ == k,
                src.len() == found@.len(),
                forall|a: int|
                    0 <= a < found@.len() ==> 0 <= #[trigger] src[a] < iter.index() && found@[a]
                        == *all[src[a]].1 && filter.matches(found@[a]),
                0 <= iter.index() <= all.len(),
                forall|j: int|
                    0 <= j < iter.index() && filter.matches(*(#[trigger] all[j]).1)
                        ==> found@.contains(*all[j].1),
                forall|a: int, b: int|
                    0 <= a < b < found@.len() ==> (#[trigger] found@[a]).id@ != (
                    #[trigger] found@[b]).id@,
        {
            let ghost n = iter.index();
            let ghost old_found = found@;
            proof {
                assert(pair == all[n]);
            }
            let entity = pair.1;
            if filter.filter(entity) {
                proof {
                    assert forall|a: int| 0 <= a < found@.len() implies (
                    #[trigger] found@[a]).id@ != entity.id@ by {
                        let j = src[a];
                        assert(all[j] != all[n]);
                        assert(m[*all[j].0] == *all[j].1);
                        assert(m[*all[n].0] == *all[n].1);
                    }
                }
                found.push(entity.clone());
                proof {
                    src = src.push(n);
                    assert(found@[found@.len() - 1] == *all[n].1);
                }
            }
            proof {
                assert forall|j: int|
                    0 <= j < n + 1 && filter.matches(*(#[trigger] all[j]).1) implies found@.contains(
                    *all[j].1,
                ) by {
                    if j < n {
                        let i = choose|i: int| 0 <= i < old_found.len() && old_found[i] == *all[j].1;
                        assert(found@[i] == old_found[i]);
                    } else {
                        assert(found@[found@.len() - 1] == *all[n].1);
                    }
                }
                assert forall|a: int| 0 <= a < found@.len() implies 0 <= #[trigger] src[a] < n + 1
                    && found@[a] == *all[src[a]].1 && filter.matches(found@[a]) by {
                    if a < old_found.len() {
                        assert(found@[a] == old_found[a]);
                    }
                }
            }
        }
        let ghost n = all.len();
        proof {
            let target = matching(m, *filter);
            assert forall|e: Entity| found@.to_set().contains(e) <==> target.contains(e) by {
                if found@.to_set().contains(e) {
                    let a = choose|a: int| 0 <= a < found@.len() && found@[a] == e;
                    let j = src[a];
                    assert(m.contains_key(*all[j].0));
                    assert(m.values().contains(e));
                }
                if target.contains(e) {
                    let k = choose|k: u128| m.contains_key(k) && m[k] == e;
                    assert(all.contains((&k, &m[k])));
                    let j = choose|j: int| 0 <= j < all.len() && all[j] == (&k, &m[k]);
                    assert(filter.matches(*all[j].1));
                    assert(found@.contains(*all[j].1));
                }
            }
            assert(found@.to_set() =~= target);
            assert forall|a: int, b: int|
                0 <= a < found@.len() && 0 <= b < found@.len() && a != b implies found@[a]
                != found@[b] by {
                if a < b {
                    assert(found@[a].id@ != found@[b].id@);
                } else {
                    assert(found@[b].id@ != found@[a].id@);
                }
            }
        }
        found
    }
}

impl Default for InMemoryEntityRepository {
    fn default() -> (repo: Self)
        ensures
            repo.spec_stored() == Map::<u128, Entity>::empty(),
    {
        Self::new()
    }
}

impl EntityRepository for InMemoryEntityRepository {
    open spec fn stored(&self) -> Map<u128, Entity> {
        self.spec_stored()
    }

    open spec fn available(&self) -> bool {
        true
    }

    fn find(&self, id: Id) -> (found: Result<Entity>)
    {
        proof {
            use_type_invariant(self);
        }
        match self.entities.get(&id.as_u128()) {
            Some(entity) => Ok(entity.clone()),
            None => Err(Error::NotFound),
        }
    }

    fn filter(&self, filter: &EntityFilter) -> (found: Result<Vec<Entity>>)
    {
        Ok(self.collect(filter))
    }

    fn create(&mut self, entity: &Entity) -> (done: Result<()>)
    {
        proof {
            use_type_invariant(&*self);
        }
        let key = entity.id.as_u128();
        if self.entities.contains_key(&key) {
            return Err(Error::AlreadyExists);
        }
        let mut entities = HashMap::new();
        std::mem::swap(&mut entities, &mut self.entities);
        entities.insert(key, entity.clone());
        self.entities = entities;
        Ok(())
    }

    fn update(&mut self, entity: &Entity) -> (done: Result<()>)
    {
        proof {
            use_type_invariant(&*self);
        }
        let key = entity.id.as_u128();
        if !self.entities.contains_key(&key) {
            return Err(Error::NotFound);
        }
        let mut entities = HashMap::new();
        std::mem::swap(&mut entities, &mut self.entities);
        entities.insert(key, entity.clone());
        self.entities = entities;
        Ok(())
    }

    fn delete(&mut self, id: Id) -> (done: Result<()>)
    {
        proof {
            use_type_invariant(&*self);
        }
        let key = id.as_u128();
        let mut entities = HashMap::new();
        std::mem::swap(&mut entities, &mut self.entities);
        let removed = entities.remove(&key);
        self.entities = entities;
        match removed {
            Some(_) => Ok(()),
            None => Err(Error::NotFound),
        }
    }
}

} // verus!
