//! A minimal entity/component store: one keyed table per component type.

use vstd::prelude::*;

verus! {

/// The number of distinct entity identifiers.
pub const ID_SPACE: u64 = 0x1_0000_0000;

/// An opaque entity identifier. It has no meaning beyond identity.
#[derive(Clone, Copy, Debug, PartialEq, Eq, Structural)]
pub struct Entity {
    pub id: u32,
}

impl Entity {
    /// The entity with the identifier `id`.
    pub fn from_raw(id: u32) -> (e: Self)
        ensures
            e.id == id,
    {
        Entity { id }
    }
}

/// The components of one type, keyed by the entity they are attached to.
///
/// An entity holds at most one component of the type: the table is a map.
pub struct Store<C> {
    slots: Vec<Option<C>>,
}

impl<C> View for Store<C> {
    type V = Map<Entity, C>;

    closed spec fn view(&self) -> Map<Entity, C> {
        Map::new(
            |e: Entity| e.id < self.slots@.len() && self.slots@[e.id as int] is Some,
            |e: Entity| self.slots@[e.id as int]->0,
        )
    }
}

impl<C> Store<C> {
    /// A number above the identifier of every attached entity.
    pub closed spec fn spec_bound(&self) -> nat {
        if self.slots@.len() <= ID_SPACE {
            self.slots@.len()
        } else {
            ID_SPACE as nat
        }
    }

    /// A table without components.
    pub fn new() -> (s: Self)
        ensures
            s@ == Map::<Entity, C>::empty(),
            s.spec_bound() == 0,
    {
        let s = Store { slots: Vec::new() };
        assert(s@ =~= Map::<Entity, C>::empty());
        s
    }

    /// The number of identifiers to walk in order to visit every component.
    pub fn bound(&self) -> (n: u64)
        ensures
            n == self.spec_bound(),
            n <= ID_SPACE,
            forall|e: Entity| self@.contains_key(e) ==> e.id < n,
    {
        let len = self.slots.len() as u64;
        if len <= ID_SPACE {
            len
        } else {
            ID_SPACE
        }
    }

    /// Whether `e` has a component in this table.
    pub fn contains(&self, e: Entity) -> (b: bool)
        ensures
            b == self@.contains_key(e),
    {
        let i = e.id as usize;
        i < self.slots.len() && self.slots[i].is_some()
    }

    /// The component of `e`, if it has one.
    pub fn get(&self, e: Entity) -> (c: Option<&C>)
        ensures
            match c {
                Some(c) => self@.contains_key(e) && *c == self@[e],
                None => !self@.contains_key(e),
            },
    {
        let i = e.id as usize;
        if i < self.slots.len() {
            self.slots[i].as_ref()
        } else {
            None
        }
    }

    /// Attaches `c` to `e`, replacing and returning what was attached before.
    pub fn insert(&mut self, e: Entity, c: C) -> (prev: Option<C>)
        ensures
            final(self)@ == old(self)@.insert(e, c),
            prev == (if old(self)@.contains_key(e) {
                Some(old(self)@[e])
            } else {
                None
            }),
            final(self).spec_bound() >= old(self).spec_bound(),
    {
        let i = e.id as usize;
        while self.slots.len() <= i
            invariant
                self@ == old(self)@,
                self.spec_bound() >= old(self).spec_bound(),
                i == e.id,
            decreases i + 1 - self.slots.len(),
        {
            let ghost before = self@;
            self.slots.push(None);
            assert(self@ =~= before);
        }
        let ghost before = self@;
        let prev = self.slots[i].take();
        self.slots[i] = Some(c);
        assert(self@ =~= before.insert(e, c));
        prev
    }

    /// Detaches and returns the component of `e`, if it has one.
    pub fn remove(&mut self, e: Entity) -> (prev: Option<C>)
        ensures
            final(self)@ == old(self)@.remove(e),
            prev == (if old(self)@.contains_key(e) {
                Some(old(self)@[e])
            } else {
                None
            }),
            final(self).spec_bound() == old(self).spec_bound(),
    {
        let i = e.id as usize;
        if i < self.slots.len() {
            let ghost before = self@;
            let prev = self.slots[i].take();
            assert(self@ =~= before.remove(e));
            prev
        } else {
            assert(self@ =~= self@.remove(e));
            None
        }
    }
}

} // verus!
