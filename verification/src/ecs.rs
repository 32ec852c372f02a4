//! A small generational entity-component store.
//!
//! `EntityManager` hands out entities as an index plus a generation
//! counter and recycles freed indices through an intrusive free list;
//! an entity is alive exactly while its generation matches the one
//! recorded for its index.  `Components` keeps one value per entity
//! index in a flat, demand-grown array.

use vstd::prelude::*;
use core::marker::PhantomData;

verus! {

/// A handle to one entity: a slot index and the generation at which
/// the slot was handed out.
#[derive(Copy, Debug)]
pub struct Entity<P> {
    pub index: usize,
    pub generation: usize,
    pub phantom: PhantomData<P>,
}

/// Allocates entities and tracks which are alive.  `free_entities`
/// threads the free list through the slot array: each free slot holds
/// the next free index, and `first_free` holds its head.
pub struct EntityManager<P> {
    pub free_entities: Vec<Option<usize>>,
    pub generations: Vec<usize>,
    pub first_free: Option<usize>,
    pub phantom: PhantomData<P>,
}

/// One value per entity index, grown on demand; a slot remembers the
/// entity that last set it.
pub struct Components<T, P> {
    pub entities: Vec<Entity<P>>,
    pub values: Vec<T>,
    pub phantom: PhantomData<P>,
}

impl<P> Entity<P> where P: Copy + Clone {
    pub fn new(index: usize, generation: usize) -> (r: Self)
        ensures
            r.index == index,
            r.generation == generation,
    {
        Self { index, generation, phantom: PhantomData }
    }

    /// The placeholder entity that fills never-set component slots.
    pub fn new_empty() -> (r: Self)
        ensures
            r.index == 0,
            r.generation == 0,
    {
        Entity::new(0, 0)
    }
}

impl<P> Clone for Entity<P> {
    fn clone(&self) -> (r: Self)
        ensures
            r == *self,
    {
        Entity { index: self.index, generation: self.generation, phantom: PhantomData }
    }
}

impl<P> PartialEq for Entity<P> {
    fn eq(&self, other: &Self) -> (r: bool) {
        self.index == other.index && self.generation == other.generation
    }
}

impl<P> vstd::std_specs::cmp::PartialEqSpecImpl for Entity<P> {
    open spec fn obeys_eq_spec() -> bool {
        true
    }

    open spec fn eq_spec(&self, other: &Entity<P>) -> bool {
        self.index == other.index && self.generation == other.generation
    }
}

/// Generation counters start here, so a zeroed `Entity::new_empty` is
/// never alive.
pub const STARTING_GENERATION: usize = 1;

impl<T> EntityManager<T> where T: Copy + Clone {
    /// The slot and generation arrays walk together, and every free
    /// list link stays inside them.
    pub open spec fn wf(&self) -> bool {
        &&& self.free_entities@.len() == self.generations@.len()
        &&& match self.first_free {
            Option::Some(i) => i < self.free_entities@.len(),
            Option::None => true,
        }
        &&& forall|i: int|
            0 <= i < self.free_entities@.len() ==> match #[trigger] self.free_entities@[i] {
                Option::Some(j) => j < self.free_entities@.len(),
                Option::None => true,
            }
    }

    /// Index the next `allocate` call will hand out.
    pub open spec fn spec_alloc_index(&self) -> int {
        match self.first_free {
            Option::Some(i) => i as int,
            Option::None => self.free_entities@.len() as int,
        }
    }

    /// Generation the next `allocate` call will hand out.
    pub open spec fn spec_alloc_generation(&self) -> int {
        match self.first_free {
            Option::Some(i) => self.generations@[i as int] as int,
            Option::None => STARTING_GENERATION as int,
        }
    }

    /// A manager with one free slot.
    pub fn new() -> (r: Self)
        ensures
            r.wf(),
            r.free_entities@.len() == 1,
            r.free_entities@[0] is None,
            r.generations@.len() == 1,
            r.generations@[0] == STARTING_GENERATION,
            r.first_free == Option::<usize>::Some(0usize),
    {
        let mut free_entities: Vec<Option<usize>> = Vec::new();
        free_entities.push(None);
        let mut generations: Vec<usize> = Vec::new();
        generations.push(STARTING_GENERATION);
        Self { free_entities, generations, first_free: Some(0), phantom: PhantomData }
    }

    /// An entity is alive while its generation matches its slot's.
    pub open spec fn spec_is_alive(&self, e: Entity<T>) -> bool {
        e.generation == self.generations@[e.index as int]
    }

    pub fn is_alive(&self, e: Entity<T>) -> (r: bool)
        requires
            e.index < self.generations@.len(),
        ensures
            r == self.spec_is_alive(e),
    {
        e.generation == self.generations[e.index]
    }

    /// Pops the head of the free list, or grows the arrays by a fresh
    /// slot when the list is empty.  The entity returned is alive.
    pub fn allocate(&mut self) -> (e: Entity<T>)
        requires
            old(self).wf(),
        ensures
            final(self).wf(),
            e.index == old(self).spec_alloc_index(),
            e.generation == old(self).spec_alloc_generation(),
            e.index < final(self).generations@.len(),
            final(self).generations@[e.index as int] == e.generation,
            final(self).spec_is_alive(e),
            match old(self).first_free {
                Option::Some(i) => final(self).free_entities@ == old(self).free_entities@
                    && final(self).generations@ == old(self).generations@ && final(self).first_free
                    == old(self).free_entities@[i as int],
                Option::None => final(self).free_entities@ == old(self).free_entities@.push(
                    Option::<usize>::None,
                ) && final(self).generations@ == old(self).generations@.push(STARTING_GENERATION)
                    && final(self).first_free is None,
            },
    {
        if let Some(index) = self.first_free {
            self.first_free = self.free_entities[index];
            Entity::new(index, self.generations[index])
        } else {
            self.first_free = None;
            let index = self.free_entities.len();
            self.free_entities.push(None);
            self.generations.push(STARTING_GENERATION);
            Entity::new(index, STARTING_GENERATION)
        }
    }

    /// Returns an alive entity's slot to the free list and bumps its
    /// generation, so the handle (and any copy of it) goes dead.
    /// Deallocating a dead handle does nothing.
    pub fn deallocate(&mut self, e: Entity<T>)
        requires
            old(self).wf(),
            e.index < old(self).generations@.len(),
            old(self).generations@[e.index as int] < usize::MAX,
        ensures
            final(self).wf(),
            final(self).generations@.len() == old(self).generations@.len(),
            if old(self).spec_is_alive(e) {
                final(self).free_entities@ == old(self).free_entities@.update(
                    e.index as int,
                    old(self).first_free,
                ) && final(self).first_free == Option::<usize>::Some(e.index)
                    && final(self).generations@ == old(self).generations@.update(
                    e.index as int,
                    (old(self).generations@[e.index as int] + 1) as usize,
                )
            } else {
                final(self).free_entities@ == old(self).free_entities@ && final(self).first_free
                    == old(self).first_free && final(self).generations@ == old(self).generations@
            },
            !final(self).spec_is_alive(e),
    {
        if self.is_alive(e) {
            let index = e.index;
            self.free_entities[index] = self.first_free;
            self.first_free = Some(index);
            self.generations[index] = self.generations[index] + 1;
        }
    }
}

impl<T, P> Components<T, P> where T: Default, P: Copy + Clone {
    /// The slot and value arrays walk together.
    pub open spec fn wf(&self) -> bool {
        self.entities@.len() == self.values@.len()
    }

    /// An empty store.
    pub fn new() -> (r: Self)
        ensures
            r.wf(),
            r.entities@.len() == 0,
            r.values@.len() == 0,
    {
        Self { values: Vec::new(), entities: Vec::new(), phantom: PhantomData }
    }

    /// Grows the arrays to at least `new_len`, filling fresh slots
    /// with the empty entity and a default value.
    fn resize(&mut self, new_len: usize)
        requires
            old(self).wf(),
        ensures
            final(self).wf(),
            final(self).entities@.len() >= new_len,
            final(self).entities@.len() >= old(self).entities@.len(),
            old(self).entities@.len() >= new_len ==> final(self).entities@.len() == old(
                self,
            ).entities@.len(),
            old(self).entities@.len() < new_len ==> final(self).entities@.len() == new_len,
            forall|i: int|
                0 <= i < old(self).entities@.len() ==> (#[trigger] final(self).entities@[i])
                    == old(self).entities@[i] && final(self).values@[i] == old(self).values@[i],
            forall|i: int|
                old(self).entities@.len() <= i < final(self).entities@.len() ==> (
                #[trigger] final(self).entities@[i]).index == 0 && final(self).entities@[i].generation
                    == 0 && call_ensures(T::default, (), final(self).values@[i]),
    {
        let len = self.entities.len();
        if len < new_len {
            let mut added: usize = 0;
            while added < new_len - len
                invariant
                    added <= new_len - len,
                    len == old(self).entities@.len(),
                    len < new_len,
                    self.wf(),
                    self.entities@.len() == len + added,
                    forall|i: int|
                        0 <= i < len ==> (#[trigger] self.entities@[i]) == old(self).entities@[i]
                            && self.values@[i] == old(self).values@[i],
                    forall|i: int|
                        len <= i < len + added ==> (#[trigger] self.entities@[i]).index == 0
                            && self.entities@[i].generation == 0 && call_ensures(
                            T::default,
                            (),
                            self.values@[i],
                        ),
                decreases new_len - len - added,
            {
                self.entities.push(Entity::<P>::new_empty());
                self.values.push(Default::default());
                added = added + 1;
            }
        }
    }

    /// Stores `v` for entity `e`, growing the arrays if the slot does
    /// not exist yet, and records `e` as the slot's owner.
    pub fn set(&mut self, e: Entity<P>, v: T)
        requires
            old(self).wf(),
            e.index < usize::MAX,
        ensures
            final(self).wf(),
            final(self).entities@.len() >= e.index + 1,
            final(self).entities@.len() >= old(self).entities@.len(),
            old(self).entities@.len() >= e.index + 1 ==> final(self).entities@.len() == old(
                self,
            ).entities@.len(),
            old(self).entities@.len() < e.index + 1 ==> final(self).entities@.len() == e.index + 1,
            final(self).entities@[e.index as int] == e,
            final(self).values@[e.index as int] == v,
            forall|i: int|
                0 <= i < old(self).entities@.len() && i != e.index ==> (
                #[trigger] final(self).entities@[i]) == old(self).entities@[i]
                    && final(self).values@[i] == old(self).values@[i],
            forall|i: int|
                old(self).entities@.len() <= i < final(self).entities@.len() && i != e.index ==> (
                #[trigger] final(self).entities@[i]).index == 0 && final(self).entities@[i].generation
                    == 0 && call_ensures(T::default, (), final(self).values@[i]),
    {
        self.resize(e.index + 1);
        self.entities[e.index] = e;
        self.values[e.index] = v;
    }

    /// Allocates a fresh entity, stores `v` under it, and returns it.
    pub fn add(&mut self, em: &mut EntityManager<P>, v: T) -> (e: Entity<P>)
        requires
            old(self).wf(),
            old(em).wf(),
        ensures
            final(self).wf(),
            final(em).wf(),
            e.index == old(em).spec_alloc_index(),
            e.generation == old(em).spec_alloc_generation(),
            final(em).spec_is_alive(e),
            match old(em).first_free {
                Option::Some(i) => final(em).free_entities@ == old(em).free_entities@
                    && final(em).generations@ == old(em).generations@
                    && final(em).first_free == old(em).free_entities@[i as int],
                Option::None => final(em).free_entities@ == old(em).free_entities@.push(
                    Option::<usize>::None,
                ) && final(em).generations@ == old(em).generations@.push(STARTING_GENERATION)
                    && final(em).first_free is None,
            },
            final(self).entities@.len() >= e.index + 1,
            final(self).entities@.len() >= old(self).entities@.len(),
            final(self).entities@[e.index as int] == e,
            final(self).values@[e.index as int] == v,
            forall|i: int|
                0 <= i < old(self).entities@.len() && i != e.index ==> (
                #[trigger] final(self).entities@[i]) == old(self).entities@[i]
                    && final(self).values@[i] == old(self).values@[i],
            forall|i: int|
                old(self).entities@.len() <= i < final(self).entities@.len() && i != e.index ==> (
                #[trigger] final(self).entities@[i]).index == 0 && final(self).entities@[i].generation
                    == 0 && call_ensures(T::default, (), final(self).values@[i]),
    {
        let e = em.allocate();
        let cap = em.generations.len();
        proof {
            assert(e.index < cap);
        }
        self.set(e, v);
        e
    }

    /// The value stored at `e`'s slot.
    pub fn get(&self, e: Entity<P>) -> (r: &T)
        requires
            e.index < self.values@.len(),
        ensures
            *r == self.values@[e.index as int],
    {
        &self.values[e.index]
    }

    /// Mutable access to the value stored at `e`'s slot.
    pub fn get_mut(&mut self, e: Entity<P>) -> (r: &mut T)
        requires
            old(self).wf(),
            e.index < old(self).values@.len(),
        ensures
            *r == old(self).values@[e.index as int],
            final(self).wf(),
            final(self).entities@ == old(self).entities@,
            final(self).values@ == old(self).values@.update(e.index as int, *final(r)),
    {
        &mut self.values[e.index]
    }

    /// The slot and value arrays side by side; walking them zipped
    /// visits every slot with the entity that owns it.
    pub fn iter(&self) -> (r: (&Vec<Entity<P>>, &Vec<T>))
        ensures
            r.0@ == self.entities@,
            r.1@ == self.values@,
    {
        (&self.entities, &self.values)
    }

    /// Like `iter`, but the values can be changed in place.
    pub fn iter_mut(&mut self) -> (r: (&Vec<Entity<P>>, &mut Vec<T>))
        requires
            old(self).wf(),
        ensures
            r.0@ == old(self).entities@,
            r.1@ == old(self).values@,
            final(self).entities@ == old(self).entities@,
            final(self).values@ == final(r.1)@,
    {
        (&self.entities, &mut self.values)
    }
}

} // verus!
