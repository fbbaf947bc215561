//! The slot table of the animation runtime: dense slot ids, reused through a
//! free list.
use vstd::prelude::*;

verus! {

/// Dense storage of runtime slots with payloads of type `S`.
///
/// Registering hands out the most recently freed id, or a fresh id past the
/// end when none is free; unregistering frees an id for reuse.
pub struct SlotTable<S> {
    slots: Vec<Option<S>>,
    free_list: Vec<usize>,
}

impl<S> SlotTable<S> {
    /// The table's internal consistency: the free list names each empty slot
    /// exactly once and nothing else.
    pub closed spec fn wf(&self) -> bool {
        &&& forall|k: int|
            0 <= k < self.free_list.len() ==> #[trigger] self.free_list@[k] < self.slots.len()
                && self.slots@[self.free_list@[k] as int] is None
        &&& forall|k: int, l: int|
            0 <= k < l < self.free_list.len() ==> #[trigger] self.free_list@[k]
                != #[trigger] self.free_list@[l]
        &&& forall|id: int|
            0 <= id < self.slots.len() && (#[trigger] self.slots@[id]) is None ==> exists|k: int|
                0 <= k < self.free_list.len() && self.free_list@[k] == id
    }

    /// The live slots: id to payload.
    pub closed spec fn live(&self) -> Map<usize, S> {
        Map::new(
            |id: usize| id < self.slots.len() && self.slots@[id as int] is Some,
            |id: usize| self.slots@[id as int].unwrap(),
        )
    }

    /// The number of ids handed out so far, free or live; every live id is
    /// below it.
    pub closed spec fn capacity(&self) -> nat {
        self.slots.len() as nat
    }

    /// The freed ids, most recently freed last.
    pub closed spec fn free_ids(&self) -> Seq<usize> {
        self.free_list@
    }

    /// The id the next registration hands out: the most recently freed id,
    /// or the capacity when no id is free.
    pub open spec fn next_id(&self) -> usize {
        if self.free_ids().len() > 0 {
            self.free_ids().last()
        } else {
            self.capacity() as usize
        }
    }

    /// Every live id is below the capacity, and the next id is not live.
    pub proof fn lemma_ids(&self)
        requires
            self.wf(),
        ensures
            forall|id: usize| #[trigger] self.live().contains_key(id) ==> id < self.capacity(),
            !self.live().contains_key(self.next_id()),
            self.next_id() <= self.capacity(),
    {
        if self.free_list.len() > 0 {
            let k = self.free_list.len() - 1;
            assert(self.free_list@[k as int] < self.slots.len());
        }
    }

    /// A freed id is the next one handed out: after `unregister(id)` of a
    /// live id, whatever else was freed before, `register` returns `id`.
    pub proof fn lemma_freed_id_is_reused(before: Self, after: Self, id: usize)
        requires
            before.wf(),
            before.live().contains_key(id),
            after.free_ids() == before.free_ids().push(id),
        ensures
            after.next_id() == id,
    {
    }

    /// An empty table.
    pub fn new() -> (table: Self)
        ensures
            table.wf(),
            table.live() == Map::<usize, S>::empty(),
            table.capacity() == 0,
            table.free_ids() == Seq::<usize>::empty(),
    {
        let table = SlotTable { slots: Vec::new(), free_list: Vec::new() };
        assert(table.live() =~= Map::<usize, S>::empty());
        table
    }

    /// Stores `payload` in a slot and returns its id: the most recently
    /// freed id, or a fresh id when none is free.
    pub fn register(&mut self, payload: S) -> (id: usize)
        requires
            old(self).wf(),
        ensures
            final(self).wf(),
            id == old(self).next_id(),
            !old(self).live().contains_key(id),
            final(self).live() == old(self).live().insert(id, payload),
            old(self).free_ids().len() > 0 ==> final(self).free_ids() == old(self).free_ids().drop_last()
                && final(self).capacity() == old(self).capacity(),
            old(self).free_ids().len() == 0 ==> final(self).free_ids() == old(self).free_ids()
                && final(self).capacity() == old(self).capacity() + 1,
    {
        proof {
            self.lemma_ids();
        }
        match self.free_list.pop() {
            Some(id) => {
                let ghost before = self.slots@;
                self.slots.set(id, Some(payload));
                proof {
                    assert forall|k: int|
                        0 <= k < self.free_list.len() implies #[trigger] self.free_list@[k]
                        < self.slots.len() && self.slots@[self.free_list@[k] as int] is None by {
                        assert(self.free_list@[k] != id);
                    }
                    assert forall|i: int|
                        0 <= i < self.slots.len() && (#[trigger] self.slots@[i]) is None implies exists|
                        k: int,
                    |
                        0 <= k < self.free_list.len() && self.free_list@[k] == i by {
                        assert(before[i] is None);
                        let k = choose|k: int|
                            0 <= k < old(self).free_list.len() && old(self).free_list@[k] == i;
                        assert(k < self.free_list.len());
                        assert(self.free_list@[k] == i);
                    }
                    assert(self.live() =~= old(self).live().insert(id, payload));
                }
                id
            },
            None => {
                let id = self.slots.len();
                self.slots.push(Some(payload));
                proof {
                    assert forall|i: int|
                        0 <= i < self.slots.len() && (#[trigger] self.slots@[i]) is None implies exists|
                        k: int,
                    |
                        0 <= k < self.free_list.len() && self.free_list@[k] == i by {
                        assert(old(self).slots@[i] is None);
                    }
                    assert(self.live() =~= old(self).live().insert(id, payload));
                }
                id
            },
        }
    }

    /// Frees the slot `id`, if it is live; the freed id is the next one
    /// handed out. Any other id leaves the table unchanged.
    pub fn unregister(&mut self, id: usize)
        requires
            old(self).wf(),
        ensures
            final(self).wf(),
            final(self).live() == old(self).live().remove(id),
            final(self).capacity() == old(self).capacity(),
            old(self).live().contains_key(id) ==> final(self).free_ids() == old(
                self,
            ).free_ids().push(id),
            !old(self).live().contains_key(id) ==> final(self).free_ids() == old(self).free_ids(),
    {
        if id < self.slots.len() && self.slots[id].is_some() {
            let ghost before = self.slots@;
            self.slots.set(id, None);
            proof {
                assert forall|k: int|
                    0 <= k < self.free_list.len() implies #[trigger] self.free_list@[k] != id by {
                    assert(before[self.free_list@[k] as int] is None);
                }
            }
            self.free_list.push(id);
            proof {
                assert forall|k: int|
                    0 <= k < self.free_list.len() implies #[trigger] self.free_list@[k]
                    < self.slots.len() && self.slots@[self.free_list@[k] as int] is None by {
                    if k < self.free_list.len() - 1 {
                        assert(self.free_list@[k] == old(self).free_list@[k]);
                    }
                }
                assert forall|k: int, l: int|
                    0 <= k < l < self.free_list.len() implies #[trigger] self.free_list@[k]
                    != #[trigger] self.free_list@[l] by {
                    if l == self.free_list.len() - 1 {
                        assert(self.free_list@[k] == old(self).free_list@[k]);
                    }
                }
                assert forall|i: int|
                    0 <= i < self.slots.len() && (#[trigger] self.slots@[i]) is None implies exists|
                    k: int,
                |
                    0 <= k < self.free_list.len() && self.free_list@[k] == i by {
                    if i == id {
                        assert(self.free_list@[self.free_list.len() - 1] == i);
                    } else {
                        assert(before[i] is None);
                        let k = choose|k: int|
                            0 <= k < old(self).free_list.len() && old(self).free_list@[k] == i;
                        assert(self.free_list@[k] == i);
                    }
                }
                assert(self.live() =~= old(self).live().remove(id));
            }
        } else {
            proof {
                assert(self.live() =~= old(self).live().remove(id));
            }
        }
    }

    /// The payload of slot `id`, if it is live.
    pub fn get(&self, id: usize) -> (payload: Option<&S>)
        ensures
            payload is Some <==> self.live().contains_key(id),
            payload matches Some(p) ==> *p == self.live()[id],
    {
        if id < self.slots.len() {
            match &self.slots[id] {
                Some(p) => Some(p),
                None => None,
            }
        } else {
            None
        }
    }

    /// Replaces the payload of slot `id`, if it is live, and returns the
    /// previous payload; a dead id leaves the table unchanged and hands
    /// `payload` back.
    pub fn replace(&mut self, id: usize, payload: S) -> (result: Result<S, S>)
        requires
            old(self).wf(),
        ensures
            final(self).wf(),
            final(self).capacity() == old(self).capacity(),
            final(self).free_ids() == old(self).free_ids(),
            old(self).live().contains_key(id) ==> {
                &&& final(self).live() == old(self).live().insert(id, payload)
                &&& result == Ok::<S, S>(old(self).live()[id])
            },
            !old(self).live().contains_key(id) ==> {
                &&& final(self).live() == old(self).live()
                &&& result == Err::<S, S>(payload)
            },
    {
        if id < self.slots.len() && self.slots[id].is_some() {
            let ghost before = self.slots@;
            let mut previous = Some(payload);
            self.slots.set_and_swap(id, &mut previous);
            proof {
                assert forall|i: int|
                    0 <= i < self.slots.len() && (#[trigger] self.slots@[i]) is None implies exists|
                    k: int,
                |
                    0 <= k < self.free_list.len() && self.free_list@[k] == i by {
                    assert(before[i] is None);
                    let k = choose|k: int|
                        0 <= k < old(self).free_list.len() && old(self).free_list@[k] == i;
                    assert(self.free_list@[k] == i);
                }
                assert(self.live() =~= old(self).live().insert(id, payload));
            }
            Ok(previous.unwrap())
        } else {
            Err(payload)
        }
    }

    /// The number of ids handed out so far; every live id is below it.
    pub fn capacity_len(&self) -> (n: usize)
        ensures
            n == self.capacity(),
    {
        self.slots.len()
    }
}

} // verus!
