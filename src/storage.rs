use vstd::prelude::*;

verus! {

/// An entity identity: a slot of the registry and the generation of that slot
/// when the entity was created. An identity whose slot has moved on to a later
/// generation no longer refers to anything.
#[derive(Debug, Clone, Copy, PartialEq, Eq, Structural)]
pub struct Entity {
    pub index: usize,
    pub generation: u64,
}

/// The identities that share a registry slot with `e`.
pub open spec fn same_slot(e: Entity) -> Set<Entity> {
    Set::new(|k: Entity| k.index == e.index)
}

/// A table of components of one type, keyed by entity. Each registry slot holds
/// at most one entry, tagged with the generation of the entity that owns it.
pub struct Storage<T> {
    pub slots: Vec<Option<(u64, T)>>,
}

impl<T> Storage<T> {
    /// The slot of `e` holds an entry of `e`'s generation.
    pub open spec fn holds(&self, e: Entity) -> bool {
        &&& e.index < self.slots@.len()
        &&& self.slots@[e.index as int] is Some
        &&& self.slots@[e.index as int]->Some_0.0 == e.generation
    }

    /// The components of the table, by entity.
    pub open spec fn view(&self) -> Map<Entity, T> {
        Map::new(|e: Entity| self.holds(e), |e: Entity| self.slots@[e.index as int]->Some_0.1)
    }

    /// An empty table.
    pub fn new() -> (s: Self)
        ensures
            s@ == Map::<Entity, T>::empty(),
    {
        let s = Storage { slots: Vec::new() };
        assert(s@ =~= Map::<Entity, T>::empty());
        s
    }

    /// Whether `e` has a component in this table.
    pub fn contains(&self, e: Entity) -> (b: bool)
        ensures
            b == self@.contains_key(e),
    {
        if e.index < self.slots.len() {
            match &self.slots[e.index] {
                Some(entry) => entry.0 == e.generation,
                None => false,
            }
        } else {
            false
        }
    }

    /// The component of `e`, if it has one.
    pub fn get(&self, e: Entity) -> (r: Option<&T>)
        ensures
            r.is_some() == self@.contains_key(e),
            r.is_some() ==> *r.unwrap() == self@[e],
    {
        if e.index < self.slots.len() {
            match &self.slots[e.index] {
                Some(entry) => {
                    if entry.0 == e.generation {
                        Some(&entry.1)
                    } else {
                        None
                    }
                },
                None => None,
            }
        } else {
            None
        }
    }

    /// Gives `e` the component `value`, replacing the one it had. An entry of
    /// another generation in the same slot is dropped.
    pub fn insert(&mut self, e: Entity, value: T)
        ensures
            final(self)@ == old(self)@.remove_keys(same_slot(e)).insert(e, value),
    {
        let ghost before = self@;
        while self.slots.len() <= e.index
            invariant
                self@ == before,
            decreases e.index + 1 - self.slots.len(),
        {
            self.slots.push(None);
            assert(self@ =~= before);
        }
        self.slots.set(e.index, Some((e.generation, value)));
        assert(self@ =~= before.remove_keys(same_slot(e)).insert(e, value));
    }

    /// Replaces the component of `e`, which must have one.
    pub fn replace(&mut self, e: Entity, value: T)
        requires
            old(self)@.contains_key(e),
        ensures
            final(self)@ == old(self)@.insert(e, value),
            final(self).slots@.len() == old(self).slots@.len(),
    {
        let ghost before = self@;
        self.slots.set(e.index, Some((e.generation, value)));
        assert(self@ =~= before.insert(e, value));
    }

    /// The entity whose entry sits in slot `i`, if any.
    pub fn entry_at(&self, i: usize) -> (r: Option<Entity>)
        requires
            i < self.slots.len(),
        ensures
            r.is_some() ==> r.unwrap().index == i && self@.contains_key(r.unwrap()),
            r.is_none() ==> forall|e: Entity| e.index == i ==> !self@.contains_key(e),
    {
        match &self.slots[i] {
            Some(entry) => Some(Entity { index: i, generation: entry.0 }),
            None => None,
        }
    }

    /// Takes the component of `e` away; nothing happens when it has none.
    pub fn remove(&mut self, e: Entity)
        ensures
            final(self)@ == old(self)@.remove(e),
            final(self).slots@.len() == old(self).slots@.len(),
    {
        let ghost before = self@;
        if self.contains(e) {
            self.slots.set(e.index, None);
        }
        assert(self@ =~= before.remove(e));
    }
}

/// The entities that have a component in both tables, each once, in slot order.
pub fn join<A, B>(a: &Storage<A>, b: &Storage<B>) -> (r: Vec<Entity>)
    ensures
        forall|e: Entity| r@.contains(e) <==> a@.contains_key(e) && b@.contains_key(e),
        forall|i: int, j: int| 0 <= i < j < r@.len() ==> (#[trigger] r@[i]).index < (#[trigger] r@[j]).index,
{
    let mut r: Vec<Entity> = Vec::new();
    let mut i: usize = 0;
    while i < a.slots.len()
        invariant
            i <= a.slots@.len(),
            forall|e: Entity| r@.contains(e) <==> e.index < i && a@.contains_key(e) && b@.contains_key(e),
            forall|k: int| 0 <= k < r@.len() ==> (#[trigger] r@[k]).index < i,
            forall|k: int, j: int| 0 <= k < j < r@.len() ==> (#[trigger] r@[k]).index < (#[trigger] r@[j]).index,
        decreases a.slots.len() - i,
    {
        let ghost before = r@;
        let slot = a.entry_at(i);
        if let Some(e) = slot {
            if b.contains(e) {
                r.push(e);
            }
        }
        assert forall|x: Entity| r@.contains(x) <==> x.index < i + 1 && a@.contains_key(x) && b@.contains_key(x) by {
            if r@.contains(x) {
                let k = choose|k: int| 0 <= k < r@.len() && r@[k] == x;
                if k < before.len() {
                    assert(before[k] == x);
                    assert(before.contains(x));
                }
            }
            if x.index < i + 1 && a@.contains_key(x) && b@.contains_key(x) {
                if x.index < i {
                    assert(before.contains(x));
                    let k = choose|k: int| 0 <= k < before.len() && before[k] == x;
                    assert(r@[k] == x);
                } else {
                    assert(slot.is_some());
                    assert(slot.unwrap() == x);
                    assert(r@[before.len() as int] == x);
                }
            }
        }
        i = i + 1;
    }
    assert forall|e: Entity| a@.contains_key(e) implies e.index < a.slots@.len() by {
    }
    r
}

/// The entities that have a component in all three tables, each once, in slot order.
pub fn join3<A, B, C>(a: &Storage<A>, b: &Storage<B>, c: &Storage<C>) -> (r: Vec<Entity>)
    ensures
        forall|e: Entity| r@.contains(e) <==> a@.contains_key(e) && b@.contains_key(e) && c@.contains_key(e),
        forall|i: int, j: int| 0 <= i < j < r@.len() ==> (#[trigger] r@[i]).index < (#[trigger] r@[j]).index,
{
    let mut r: Vec<Entity> = Vec::new();
    let mut i: usize = 0;
    while i < a.slots.len()
        invariant
            i <= a.slots@.len(),
            forall|e: Entity| r@.contains(e) <==> e.index < i && a@.contains_key(e) && b@.contains_key(e) && c@.contains_key(e),
            forall|k: int| 0 <= k < r@.len() ==> (#[trigger] r@[k]).index < i,
            forall|k: int, j: int| 0 <= k < j < r@.len() ==> (#[trigger] r@[k]).index < (#[trigger] r@[j]).index,
        decreases a.slots.len() - i,
    {
        let ghost before = r@;
        let slot = a.entry_at(i);
        if let Some(e) = slot {
            if b.contains(e) && c.contains(e) {
                r.push(e);
            }
        }
        assert forall|x: Entity| r@.contains(x) <==> x.index < i + 1 && a@.contains_key(x) && b@.contains_key(x) && c@.contains_key(x) by {
            if r@.contains(x) {
                let k = choose|k: int| 0 <= k < r@.len() && r@[k] == x;
                if k < before.len() {
                    assert(before[k] == x);
                    assert(before.contains(x));
                }
            }
            if x.index < i + 1 && a@.contains_key(x) && b@.contains_key(x) && c@.contains_key(x) {
                if x.index < i {
                    assert(before.contains(x));
                    let k = choose|k: int| 0 <= k < before.len() && before[k] == x;
                    assert(r@[k] == x);
                } else {
                    assert(slot.is_some());
                    assert(slot.unwrap() == x);
                    assert(r@[before.len() as int] == x);
                }
            }
        }
        i = i + 1;
    }
    assert forall|e: Entity| a@.contains_key(e) implies e.index < a.slots@.len() by {
    }
    r
}

} // verus!
