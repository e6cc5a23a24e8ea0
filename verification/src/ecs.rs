use vstd::prelude::*;

verus! {

/// Identifier of a spawned entity.
#[derive(Clone, Copy, Debug, PartialEq, Eq, Structural)]
pub struct EntityId(pub u64);

/// The set of live entities: every id handed out once, in increasing order.
#[derive(Debug)]
pub struct World {
    pub alive: Vec<EntityId>,
    pub next_id: u64,
}

impl World {
    /// Ids are distinct and all below the next id to hand out.
    pub open spec fn wf(&self) -> bool {
        &&& forall|i: int, j: int|
            0 <= i < j < self.alive@.len() ==> (#[trigger] self.alive@[i]).0 != (
            #[trigger] self.alive@[j]).0
        &&& forall|i: int| 0 <= i < self.alive@.len() ==> (#[trigger] self.alive@[i]).0 < self.next_id
    }

    /// The live entities.
    pub open spec fn live(&self) -> Set<u64> {
        Set::new(|id: u64| exists|i: int| 0 <= i < self.alive@.len() && (#[trigger] self.alive@[i]).0 == id)
    }

    pub fn new() -> (w: World)
        ensures
            w.wf(),
            w.live() == Set::<u64>::empty(),
            w.alive@ == Seq::<EntityId>::empty(),
            w.next_id == 0,
    {
        let w = World { alive: Vec::new(), next_id: 0 };
        assert(w.live() =~= Set::<u64>::empty());
        w
    }

    pub fn contains(&self, id: EntityId) -> (r: bool)
        ensures
            r == self.live().contains(id.0),
    {
        let mut i: usize = 0;
        while i < self.alive.len()
            invariant
                i <= self.alive.len(),
                forall|j: int| 0 <= j < i ==> (#[trigger] self.alive@[j]).0 != id.0,
            decreases self.alive.len() - i,
        {
            if self.alive[i].0 == id.0 {
                return true;
            }
            i = i + 1;
        }
        false
    }

    /// Adds a new entity, with an id no live entity has.
    pub fn spawn(&mut self) -> (id: EntityId)
        requires
            old(self).wf(),
            old(self).next_id < u64::MAX,
        ensures
            final(self).wf(),
            !old(self).live().contains(id.0),
            final(self).live() == old(self).live().insert(id.0),
    {
        let id = EntityId(self.next_id);
        let ghost before = self.alive@;
        self.alive.push(id);
        self.next_id = self.next_id + 1;
        proof {
            assert(!old(self).live().contains(id.0)) by {
                if old(self).live().contains(id.0) {
                    let i = choose|i: int| 0 <= i < before.len() && (#[trigger] before[i]).0 == id.0;
                    assert(before[i].0 < old(self).next_id);
                }
            }
            assert forall|x: u64| #[trigger] self.live().contains(x) == old(self).live().insert(id.0).contains(x) by {
                if self.live().contains(x) {
                    let i = choose|i: int| 0 <= i < self.alive@.len() && (#[trigger] self.alive@[i]).0 == x;
                    if i < before.len() {
                        assert(before[i] == self.alive@[i]);
                    }
                }
                if old(self).live().contains(x) {
                    let i = choose|i: int| 0 <= i < before.len() && (#[trigger] before[i]).0 == x;
                    assert(self.alive@[i] == before[i]);
                }
                if x == id.0 {
                    assert(self.alive@[before.len() as int] == id);
                }
            }
            assert(self.live() =~= old(self).live().insert(id.0));
        }
        id
    }

    /// Removes entity `id`; whether it was live.
    pub fn despawn(&mut self, id: EntityId) -> (r: bool)
        requires
            old(self).wf(),
        ensures
            final(self).wf(),
            r == old(self).live().contains(id.0),
            final(self).live() == old(self).live().remove(id.0),
            final(self).next_id == old(self).next_id,
    {
        let mut i: usize = 0;
        while i < self.alive.len()
            invariant
                i <= self.alive.len(),
                self.alive@ == old(self).alive@,
                self.next_id == old(self).next_id,
                old(self).wf(),
                forall|j: int| 0 <= j < i ==> (#[trigger] self.alive@[j]).0 != id.0,
            decreases self.alive.len() - i,
        {
            if self.alive[i].0 == id.0 {
                let ghost before = self.alive@;
                self.alive.remove(i);
                proof {
                    assert(self.alive@ == before.remove(i as int));
                    assert forall|x: u64| #[trigger] self.live().contains(x) == old(self).live().remove(id.0).contains(x) by {
                        if self.live().contains(x) {
                            let k = choose|k: int| 0 <= k < self.alive@.len() && (#[trigger] self.alive@[k]).0 == x;
                            if k < i {
                                assert(self.alive@[k] == before[k]);
                            } else {
                                assert(self.alive@[k] == before[k + 1]);
                            }
                        }
                        if old(self).live().contains(x) && x != id.0 {
                            let k = choose|k: int| 0 <= k < before.len() && (#[trigger] before[k]).0 == x;
                            if k < i {
                                assert(self.alive@[k] == before[k]);
                            } else {
                                assert(k != i);
                                assert(self.alive@[k - 1] == before[k]);
                            }
                        }
                    }
                    assert(self.live() =~= old(self).live().remove(id.0));
                    assert(old(self).live().contains(id.0)) by {
                        assert(before[i as int].0 == id.0);
                    }
                    assert forall|a: int, b: int|
                        0 <= a < b < self.alive@.len() implies (#[trigger] self.alive@[a]).0 != (
                        #[trigger] self.alive@[b]).0 by {
                        let a2 = if a < i { a } else { a + 1 };
                        let b2 = if b < i { b } else { b + 1 };
                        assert(self.alive@[a] == before[a2]);
                        assert(self.alive@[b] == before[b2]);
                        assert(before[a2].0 != before[b2].0);
                    }
                    assert forall|a: int| 0 <= a < self.alive@.len() implies (
                        #[trigger] self.alive@[a]).0 < self.next_id by {
                        let a2 = if a < i { a } else { a + 1 };
                        assert(self.alive@[a] == before[a2]);
                    }
                }
                return true;
            }
            i = i + 1;
        }
        proof {
            assert(!old(self).live().contains(id.0)) by {
                if old(self).live().contains(id.0) {
                    let k = choose|k: int| 0 <= k < old(self).alive@.len() && (#[trigger] old(self).alive@[k]).0 == id.0;
                    assert(self.alive@[k].0 != id.0);
                }
            }
            assert(self.live() =~= old(self).live().remove(id.0));
        }
        false
    }
}

} // verus!
