//! Entities and component storages.
//!
//! An entity is the index of a slot. Entities are never reused: a deleted
//! entity stays dead, so a stale handle is never mistaken for a new one.
//! Deletion is deferred as in an entity-component system that deletes
//! atomically: `Entities::delete` marks an entity as killed, it stays alive
//! until `World::maintain` removes it together with its components.
use vstd::prelude::*;

verus! {

/// A handle on an entity of the world: the index of its slot.
#[derive(Clone, Copy, PartialEq, Eq, Structural, Debug)]
pub struct Entity {
    pub id: usize,
}

/// The state of one entity slot.
#[derive(Clone, Copy, PartialEq, Eq, Structural, Debug)]
pub struct EntitySlot {
    /// The entity exists (it may be marked as killed).
    pub alive: bool,
    /// The entity was deleted in this frame and leaves at the next maintain.
    pub killed: bool,
}

/// Why an entity could not be deleted, or a component not inserted:
/// the entity is not alive.
#[derive(Clone, Copy, PartialEq, Eq, Structural, Debug)]
pub struct WrongGeneration {
    pub entity: Entity,
}

/// The set of entities of a world.
pub struct Entities {
    slots: Vec<EntitySlot>,
}

impl View for Entities {
    type V = Seq<EntitySlot>;

    closed spec fn view(&self) -> Seq<EntitySlot> {
        self.slots@
    }
}

impl Entities {
    /// `e` is alive (deleted entities stay alive until the world is maintained).
    pub open spec fn alive(&self, e: Entity) -> bool {
        self.alive_at(e.id as int)
    }

    /// The entity of slot `i` is alive.
    pub open spec fn alive_at(&self, i: int) -> bool {
        0 <= i < self@.len() && self@[i].alive
    }

    /// `e` is marked to be removed at the next maintain.
    pub open spec fn killed(&self, e: Entity) -> bool {
        self.killed_at(e.id as int)
    }

    /// The entity of slot `i` is marked to be removed at the next maintain.
    pub open spec fn killed_at(&self, i: int) -> bool {
        0 <= i < self@.len() && self@[i].killed
    }

    /// The slots of the entities marked to be removed.
    pub open spec fn killed_set(&self) -> Set<int> {
        Set::new(|i: int| self.killed_at(i))
    }

    /// An empty set of entities.
    pub fn new() -> (r: Entities)
        ensures
            r@ == Seq::<EntitySlot>::empty(),
    {
        Entities { slots: Vec::new() }
    }

    /// The number of slots (alive or dead) ever allocated.
    pub fn len(&self) -> (r: usize)
        ensures
            r == self@.len(),
    {
        self.slots.len()
    }

    /// Allocates a fresh entity.
    pub fn create(&mut self) -> (e: Entity)
        ensures
            e.id == old(self)@.len(),
            final(self)@ == old(self)@.push(EntitySlot { alive: true, killed: false }),
    {
        let id = self.slots.len();
        self.slots.push(EntitySlot { alive: true, killed: false });
        Entity { id }
    }

    /// Whether `e` is alive.
    pub fn is_alive(&self, e: Entity) -> (r: bool)
        ensures
            r == self.alive(e),
    {
        e.id < self.slots.len() && self.slots[e.id].alive
    }

    /// Whether `e` is marked to be removed at the next maintain.
    pub fn is_killed(&self, e: Entity) -> (r: bool)
        ensures
            r == self.killed(e),
    {
        e.id < self.slots.len() && self.slots[e.id].killed
    }

    /// The entity of the slot `id` (it may be dead).
    pub fn entity(&self, id: usize) -> (e: Entity)
        ensures
            e.id == id,
    {
        Entity { id }
    }

    /// Marks `e` for deletion; fails when `e` is not alive. The entity stays
    /// alive until the world is maintained.
    pub fn delete(&mut self, e: Entity) -> (r: Result<(), WrongGeneration>)
        ensures
            r is Err <==> !old(self).alive(e),
            r is Err ==> final(self)@ == old(self)@ && r == Err::<(), WrongGeneration>(WrongGeneration { entity: e }),
            r is Ok ==> final(self)@ == old(self)@.update(e.id as int, EntitySlot { alive: true, killed: true }),
    {
        if e.id < self.slots.len() && self.slots[e.id].alive {
            self.slots.set(e.id, EntitySlot { alive: true, killed: true });
            Ok(())
        } else {
            Err(WrongGeneration { entity: e })
        }
    }

    /// Turns every killed entity into a dead one.
    pub fn merge(&mut self)
        ensures
            final(self)@.len() == old(self)@.len(),
            forall|i: int|
                0 <= i < old(self)@.len() ==> #[trigger] final(self)@[i] == (if old(self)@[i].killed {
                    EntitySlot { alive: false, killed: false }
                } else {
                    old(self)@[i]
                }),
    {
        let n = self.slots.len();
        for i in 0..n
            invariant
                n == old(self)@.len(),
                self@.len() == n,
                forall|j: int|
                    0 <= j < i ==> #[trigger] self@[j] == (if old(self)@[j].killed {
                        EntitySlot { alive: false, killed: false }
                    } else {
                        old(self)@[j]
                    }),
                forall|j: int| i <= j < n ==> #[trigger] self@[j] == old(self)@[j],
        {
            if self.slots[i].killed {
                self.slots.set(i, EntitySlot { alive: false, killed: false });
            }
        }
    }
}

/// The storage of one component kind: one optional slot per entity index.
pub struct Storage<T> {
    data: Vec<Option<T>>,
}

impl<T> View for Storage<T> {
    type V = Map<int, T>;

    closed spec fn view(&self) -> Map<int, T> {
        Map::new(
            |i: int| 0 <= i < self.data.len() && self.data[i] is Some,
            |i: int| self.data[i]->Some_0,
        )
    }
}

impl<T> Storage<T> {
    /// The number of slots; every entity with a component has an index below it.
    pub closed spec fn slots(&self) -> nat {
        self.data@.len()
    }

    /// Every key of the view is a slot index.
    pub proof fn lemma_keys_below_slots(&self)
        ensures
            forall|i: int| #[trigger] self@.contains_key(i) ==> 0 <= i < self.slots(),
    {
    }

    /// An empty storage.
    pub fn new() -> (r: Storage<T>)
        ensures
            r@ == Map::<int, T>::empty(),
            r.slots() == 0,
    {
        let r = Storage { data: Vec::new() };
        assert(r@ =~= Map::<int, T>::empty());
        r
    }

    /// The number of slots.
    pub fn len(&self) -> (r: usize)
        ensures
            r == self.slots(),
    {
        self.data.len()
    }

    /// The component in slot `i`, whether or not its entity is alive (what a
    /// join over the storage alone sees).
    pub fn slot(&self, i: usize) -> (r: Option<&T>)
        ensures
            r is Some <==> self@.contains_key(i as int),
            r is Some ==> *r->Some_0 == self@[i as int],
    {
        if i < self.data.len() {
            match &self.data[i] {
                Some(v) => Some(v),
                None => None,
            }
        } else {
            None
        }
    }

    /// The component of `e` if `e` is alive and has one.
    pub fn get(&self, entities: &Entities, e: Entity) -> (r: Option<&T>)
        ensures
            r is Some <==> (entities.alive(e) && self@.contains_key(e.id as int)),
            r is Some ==> *r->Some_0 == self@[e.id as int],
    {
        if entities.is_alive(e) {
            self.slot(e.id)
        } else {
            None
        }
    }

    /// Whether `e` is alive and has a component here.
    pub fn contains(&self, entities: &Entities, e: Entity) -> (r: bool)
        ensures
            r == (entities.alive(e) && self@.contains_key(e.id as int)),
    {
        self.get(entities, e).is_some()
    }

    /// Sets the component of `e`; fails when `e` is not alive. Gives back the
    /// component it replaces.
    pub fn insert(&mut self, entities: &Entities, e: Entity, v: T) -> (r: Result<
        Option<T>,
        WrongGeneration,
    >)
        ensures
            r is Err <==> !entities.alive(e),
            r is Err ==> final(self)@ == old(self)@ && final(self).slots() == old(self).slots()
                && r == Err::<Option<T>, WrongGeneration>(WrongGeneration { entity: e }),
            r is Ok ==> final(self)@ == old(self)@.insert(e.id as int, v) && final(self).slots()
                >= old(self).slots(),
            r matches Ok(Some(p)) ==> old(self)@.contains_key(e.id as int) && p == old(self)@[e.id as int],
            r matches Ok(None) ==> !old(self)@.contains_key(e.id as int),
    {
        if !entities.is_alive(e) {
            return Err(WrongGeneration { entity: e });
        }
        Ok(self.put(e.id, v))
    }

    /// Sets slot `i`, whatever the entity's state; gives back what was there.
    pub fn put(&mut self, i: usize, v: T) -> (r: Option<T>)
        ensures
            final(self)@ == old(self)@.insert(i as int, v),
            final(self).slots() >= old(self).slots(),
            final(self).slots() > i,
            r is Some <==> old(self)@.contains_key(i as int),
            r is Some ==> r->Some_0 == old(self)@[i as int],
    {
        while self.data.len() <= i
            invariant
                self@ == old(self)@,
                self.slots() >= old(self).slots(),
            decreases i + 1 - self.data.len(),
        {
            let ghost before = self@;
            self.data.push(None);
            assert(self@ =~= before);
        }
        let prev = self.data[i].take();
        self.data[i] = Some(v);
        assert(self@ =~= old(self)@.insert(i as int, v));
        prev
    }

    /// Removes the component of `e` if `e` is alive.
    pub fn remove(&mut self, entities: &Entities, e: Entity) -> (r: Option<T>)
        ensures
            final(self).slots() == old(self).slots(),
            entities.alive(e) ==> final(self)@ == old(self)@.remove(e.id as int),
            !entities.alive(e) ==> final(self)@ == old(self)@,
            r is Some <==> (entities.alive(e) && old(self)@.contains_key(e.id as int)),
            r is Some ==> r->Some_0 == old(self)@[e.id as int],
    {
        if entities.is_alive(e) {
            self.take(e.id)
        } else {
            None
        }
    }

    /// Removes the component of slot `i`, whatever the entity's state.
    pub fn take(&mut self, i: usize) -> (r: Option<T>)
        ensures
            final(self).slots() == old(self).slots(),
            final(self)@ == old(self)@.remove(i as int),
            r is Some <==> old(self)@.contains_key(i as int),
            r is Some ==> r->Some_0 == old(self)@[i as int],
    {
        if i < self.data.len() {
            let r = self.data[i].take();
            assert(self@ =~= old(self)@.remove(i as int));
            r
        } else {
            assert(self@ =~= old(self)@.remove(i as int));
            None
        }
    }

    /// Removes the components of the entities marked to be removed.
    pub fn remove_killed(&mut self, entities: &Entities)
        ensures
            final(self).slots() == old(self).slots(),
            final(self)@ == old(self)@.remove_keys(entities.killed_set()),
    {
        let n = entities.len();
        for i in 0..n
            invariant
                n == entities@.len(),
                self.slots() == old(self).slots(),
                self@ == old(self)@.remove_keys(Set::new(|j: int| j < i && entities.killed_at(j))),
        {
            let ghost before = self@;
            if entities.is_killed(entities.entity(i)) {
                self.take(i);
            }
            assert(self@ =~= old(self)@.remove_keys(
                Set::new(|j: int| j < i + 1 && entities.killed_at(j)),
            ));
        }
        assert(Set::new(|j: int| j < n && entities.killed_at(j)) =~= entities.killed_set());
    }

    /// Removes every component.
    pub fn clear(&mut self)
        ensures
            final(self)@ == Map::<int, T>::empty(),
            final(self).slots() == old(self).slots(),
    {
        let n = self.data.len();
        for i in 0..n
            invariant
                n == self.data.len(),
                n == old(self).slots(),
                forall|j: int| 0 <= j < i ==> self.data[j] is None,
        {
            self.data[i] = None;
        }
        assert(self@ =~= Map::<int, T>::empty());
    }
}

} // verus!
