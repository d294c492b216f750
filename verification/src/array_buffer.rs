//! A pool of at most `MAX_ENTITIES` entities, each mirrored by a record in
//! the shape in which it is handed to the device.

use vstd::prelude::*;

verus! {

/// A device record that can be refreshed from the entity it mirrors.
pub trait ArrayBufferUniform<T>: Sized {
    /// `after` is what this record becomes when it is refreshed from `entity`.
    spec fn refreshes_to(self, entity: &T, after: Self) -> bool;

    /// Refreshes the record from `entity`.
    fn update(&mut self, entity: &T)
        ensures
            old(self).refreshes_to(entity, *final(self)),
    ;
}

/// Why an entity could not be taken in.
#[derive(Clone, Copy, Debug, PartialEq, Eq, Structural)]
pub enum PoolError {
    /// The pool already holds as many entities as it can.
    PoolFull,
}

/// A pool of entities with room for `MAX_ENTITIES`.
///
/// The entities occupy the slots from 0 up to `size()`. Every slot, occupied
/// or not, has a device record.
pub struct ArrayBuffer<const MAX_ENTITIES: usize, T, U> {
    entities: Vec<T>,
    entity_uniforms: Vec<U>,
}

/// The entities of a pool once slot `index` has been vacated: the entity of
/// the last occupied slot stands in its place, and the last slot is free.
pub open spec fn without<T>(entities: Seq<T>, index: int) -> Seq<T> {
    entities.update(index, entities.last()).drop_last()
}

/// `after` holds the records `before` with the record of every occupied slot
/// refreshed from the slot's entity, and the records of free slots as they
/// were.
pub open spec fn synced<T, U: ArrayBufferUniform<T>>(
    before: Seq<U>,
    entities: Seq<T>,
    after: Seq<U>,
) -> bool {
    &&& after.len() == before.len()
    &&& forall|i: int|
        0 <= i < before.len() && i < entities.len() ==> before[i].refreshes_to(
            &entities[i],
            #[trigger] after[i],
        )
    &&& forall|i: int|
        0 <= i < before.len() && i >= entities.len() ==> #[trigger] after[i] == before[i]
}

impl<const MAX_ENTITIES: usize, T, U: ArrayBufferUniform<T> + Default> ArrayBuffer<
    MAX_ENTITIES,
    T,
    U,
> {
    /// The entities in the occupied slots, by slot.
    pub closed spec fn entities(&self) -> Seq<T> {
        self.entities@
    }

    /// The device records of all slots, by slot.
    pub closed spec fn records(&self) -> Seq<U> {
        self.entity_uniforms@
    }

    /// The pool holds no more than it has room for, and one record per slot.
    pub closed spec fn well_formed(&self) -> bool {
        &&& self.entities@.len() <= MAX_ENTITIES
        &&& self.entity_uniforms@.len() == MAX_ENTITIES
    }

    /// An empty pool in which every slot's record is a default record.
    pub fn new() -> (pool: Self)
        ensures
            pool.well_formed(),
            pool.entities().len() == 0,
            pool.records().len() == MAX_ENTITIES,
            forall|i: int|
                0 <= i < MAX_ENTITIES ==> call_ensures(U::default, (), #[trigger] pool.records()[i]),
    {
        let mut entity_uniforms: Vec<U> = Vec::new();
        let mut i: usize = 0;
        while i < MAX_ENTITIES
            invariant
                i <= MAX_ENTITIES,
                entity_uniforms@.len() == i,
                forall|k: int|
                    0 <= k < i ==> call_ensures(U::default, (), #[trigger] entity_uniforms@[k]),
            decreases MAX_ENTITIES - i,
        {
            entity_uniforms.push(U::default());
            i += 1;
        }
        ArrayBuffer { entities: Vec::new(), entity_uniforms }
    }

    /// Puts `entity` into the first free slot and returns that slot's index,
    /// or refuses it when no slot is free.
    pub fn insert(&mut self, entity: T) -> (handle: Result<usize, PoolError>)
        requires
            old(self).well_formed(),
        ensures
            final(self).well_formed(),
            final(self).records() == old(self).records(),
            old(self).entities().len() < MAX_ENTITIES ==> {
                &&& handle == Ok::<usize, PoolError>(old(self).entities().len() as usize)
                &&& final(self).entities() == old(self).entities().push(entity)
            },
            old(self).entities().len() >= MAX_ENTITIES ==> {
                &&& handle == Err::<usize, PoolError>(PoolError::PoolFull)
                &&& final(self).entities() == old(self).entities()
            },
    {
        if self.entities.len() < MAX_ENTITIES {
            let handle = self.entities.len();
            self.entities.push(entity);
            Ok(handle)
        } else {
            Err(PoolError::PoolFull)
        }
    }

    /// Takes the entity out of slot `index` and moves the entity of the last
    /// occupied slot into its place. Does nothing when slot `index` is free.
    pub fn remove(&mut self, index: usize)
        requires
            old(self).well_formed(),
        ensures
            final(self).well_formed(),
            final(self).records() == old(self).records(),
            index < old(self).entities().len() ==> final(self).entities() == without(
                old(self).entities(),
                index as int,
            ),
            index >= old(self).entities().len() ==> final(self).entities() == old(self).entities(),
    {
        if index < self.entities.len() {
            let _ = self.entities.swap_remove(index);
        }
    }

    /// The entity in slot `index`, if the slot is occupied.
    pub fn get(&self, index: usize) -> (entity: Option<&T>)
        requires
            self.well_formed(),
        ensures
            index < self.entities().len() ==> entity == Some(&self.entities()[index as int]),
            index >= self.entities().len() ==> entity.is_none(),
    {
        if index < self.entities.len() {
            Some(&self.entities[index])
        } else {
            None
        }
    }

    /// The entity in slot `index`, open to change, if the slot is occupied.
    pub fn get_mut(&mut self, index: usize) -> (entity: Option<&mut T>)
        requires
            old(self).well_formed(),
        ensures
            final(self).well_formed(),
            final(self).records() == old(self).records(),
            index < old(self).entities().len() ==> {
                &&& entity.is_some()
                &&& *entity.unwrap() == old(self).entities()[index as int]
                &&& final(self).entities() == old(self).entities().update(
                    index as int,
                    *final(entity.unwrap()),
                )
            },
            index >= old(self).entities().len() ==> {
                &&& entity.is_none()
                &&& final(self).entities() == old(self).entities()
            },
    {
        if index < self.entities.len() {
            Some(&mut self.entities[index])
        } else {
            None
        }
    }

    /// Refreshes the device record of slot `index` from the slot's entity.
    /// Does nothing when the slot is free.
    pub fn sync_device_record(&mut self, index: usize)
        requires
            old(self).well_formed(),
        ensures
            final(self).well_formed(),
            final(self).entities() == old(self).entities(),
            final(self).records().len() == old(self).records().len(),
            forall|k: int|
                0 <= k < old(self).records().len() && k != index ==> final(self).records()[k]
                    == old(self).records()[k],
            index < old(self).entities().len() ==> old(self).records()[index as int].refreshes_to(
                &old(self).entities()[index as int],
                final(self).records()[index as int],
            ),
            index >= old(self).entities().len() ==> final(self).records() == old(self).records(),
    {
        if index < self.entities.len() {
            self.entity_uniforms[index].update(&self.entities[index]);
        }
    }

    /// Refreshes the device record of every occupied slot, as is done once a
    /// frame before the records are handed over.
    pub fn update_buffer(&mut self)
        requires
            old(self).well_formed(),
        ensures
            final(self).well_formed(),
            final(self).entities() == old(self).entities(),
            synced(old(self).records(), old(self).entities(), final(self).records()),
    {
        let ghost before = self.entity_uniforms@;
        let mut i: usize = 0;
        while i < self.entities.len()
            invariant
                self.well_formed(),
                self.entities@ == old(self).entities@,
                i <= self.entities@.len(),
                self.entity_uniforms@.len() == before.len(),
                forall|k: int|
                    0 <= k < i ==> before[k].refreshes_to(
                        &self.entities@[k],
                        #[trigger] self.entity_uniforms@[k],
                    ),
                forall|k: int|
                    i <= k < before.len() ==> #[trigger] self.entity_uniforms@[k] == before[k],
            decreases self.entities.len() - i,
        {
            self.sync_device_record(i);
            i += 1;
        }
    }

    /// The device records of all slots, those of free slots included. Only
    /// the first `size()` of them mirror an entity.
    pub fn export(&self) -> (records: &Vec<U>)
        requires
            self.well_formed(),
        ensures
            records@ == self.records(),
            records@.len() == MAX_ENTITIES,
    {
        &self.entity_uniforms
    }

    /// The number of occupied slots.
    pub fn size(&self) -> (n: usize)
        ensures
            n == self.entities().len(),
            self.well_formed() ==> n <= MAX_ENTITIES,
    {
        self.entities.len()
    }
}

impl<const MAX_ENTITIES: usize, T, U: ArrayBufferUniform<T> + Default> Default for ArrayBuffer<
    MAX_ENTITIES,
    T,
    U,
> {
    fn default() -> (pool: Self)
        ensures
            pool.well_formed(),
            pool.entities().len() == 0,
            pool.records().len() == MAX_ENTITIES,
            forall|i: int|
                0 <= i < MAX_ENTITIES ==> call_ensures(U::default, (), #[trigger] pool.records()[i]),
    {
        Self::new()
    }
}

/// Removing slot `index` while a later slot is occupied leaves, in slot
/// `index`, the entity that stood in the last occupied slot, and one entity
/// fewer in the pool.
pub proof fn lemma_remove_moves_last<T>(entities: Seq<T>, index: int)
    requires
        0 <= index < entities.len() - 1,
    ensures
        without(entities, index).len() == entities.len() - 1,
        without(entities, index)[index] == entities.last(),
        forall|k: int|
            0 <= k < entities.len() - 1 && k != index ==> without(entities, index)[k]
                == entities[k],
{
}

/// Removing the last occupied slot leaves every other entity where it was.
pub proof fn lemma_remove_last<T>(entities: Seq<T>)
    requires
        entities.len() > 0,
    ensures
        without(entities, entities.len() - 1) == entities.drop_last(),
{
    assert(without(entities, entities.len() - 1) =~= entities.drop_last());
}

} // verus!
