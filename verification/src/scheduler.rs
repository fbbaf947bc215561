//! The slot registry of the keyed animation scheduler: ids are handed out in
//! increasing order and never reused.
use std::collections::HashMap;
use vstd::prelude::*;

verus! {

broadcast use vstd::std_specs::hash::group_hash_axioms;

/// Slots with payloads of type `S`, keyed by ids that are handed out once.
pub struct KeyedSlots<S> {
    slots: HashMap<u64, S>,
    ids: Vec<u64>,
    next_id: u64,
}

impl<S> KeyedSlots<S> {
    /// Every live id was handed out before the next one, and the live ids
    /// are listed once each, in increasing order.
    pub closed spec fn wf(&self) -> bool {
        &&& forall|id: u64| #[trigger] self.slots@.contains_key(id) ==> id < self.next_id
        &&& forall|id: u64| #[trigger] self.slots@.contains_key(id) ==> self.ids@.contains(id)
        &&& forall|i: int| 0 <= i < self.ids@.len() ==> self.slots@.contains_key(#[trigger] self.ids@[i])
        &&& forall|i: int, j: int|
            0 <= i < j < self.ids@.len() ==> #[trigger] self.ids@[i] < #[trigger] self.ids@[j]
    }

    /// The live slots: id to payload.
    pub closed spec fn live(&self) -> Map<u64, S> {
        self.slots@
    }

    /// The id the next registration hands out.
    pub closed spec fn next(&self) -> u64 {
        self.next_id
    }

    /// Ids are never handed out twice: along a run of registrations and
    /// removals, where each registration hands out the registry's next id
    /// and moves it one past, and removals leave it alone, the ids handed out
    /// strictly increase.
    pub proof fn lemma_ids_never_repeat(nexts: Seq<u64>, ids: Seq<u64>, i: int, j: int)
        requires
            nexts.len() == ids.len() + 1,
            forall|k: int| 0 <= k < ids.len() ==> #[trigger] ids[k] == nexts[k],
            forall|k: int| 0 <= k < ids.len() ==> nexts[k] < #[trigger] nexts[k + 1],
            0 <= i < j < ids.len(),
        ensures
            ids[i] < ids[j],
        decreases j - i,
    {
        if i + 1 < j {
            Self::lemma_ids_never_repeat(nexts, ids, i + 1, j);
        }
        assert(nexts[i] < nexts[i + 1]);
    }

    /// An empty registry whose first id is `0`.
    pub fn new() -> (slots: Self)
        ensures
            slots.wf(),
            slots.live() == Map::<u64, S>::empty(),
            slots.next() == 0,
    {
        KeyedSlots { slots: HashMap::new(), ids: Vec::new(), next_id: 0 }
    }

    /// The id the next registration hands out.
    pub fn next_id(&self) -> (id: u64)
        ensures
            id == self.next(),
    {
        self.next_id
    }

    /// Stores `payload` under a new id and returns it; ids are handed out in
    /// increasing order.
    pub fn register(&mut self, payload: S) -> (id: u64)
        requires
            old(self).wf(),
            old(self).next() < u64::MAX,
        ensures
            final(self).wf(),
            id == old(self).next(),
            final(self).next() == id + 1,
            !old(self).live().contains_key(id),
            final(self).live() == old(self).live().insert(id, payload),
    {
        let id = self.next_id;
        self.next_id = self.next_id + 1;
        self.slots.insert(id, payload);
        let ghost before = self.ids@;
        self.ids.push(id);
        proof {
            assert forall|k: u64| #[trigger] self.slots@.contains_key(k) implies self.ids@.contains(k) by {
                if k != id {
                    let i = choose|i: int| 0 <= i < before.len() && before[i] == k;
                    assert(self.ids@[i] == k);
                } else {
                    assert(self.ids@[before.len() as int] == k);
                }
            }
            assert forall|i: int, j: int|
                0 <= i < j < self.ids@.len() implies #[trigger] self.ids@[i] < #[trigger] self.ids@[j] by {
                if j == before.len() {
                    assert(old(self).slots@.contains_key(before[i]));
                }
            }
        }
        id
    }

    /// Removes the slot `id`, if it is live.
    pub fn unregister(&mut self, id: u64)
        requires
            old(self).wf(),
        ensures
            final(self).wf(),
            final(self).live() == old(self).live().remove(id),
            final(self).next() == old(self).next(),
    {
        self.slots.remove(&id);
        let n = self.ids.len();
        let mut pos: usize = 0;
        while pos < n && self.ids[pos] != id
            invariant
                n == self.ids.len(),
                self.ids@ == old(self).ids@,
                0 <= pos <= n,
                forall|i: int| 0 <= i < pos ==> self.ids@[i] != id,
            decreases n - pos,
        {
            pos = pos + 1;
        }
        if pos < n {
            let ghost before = self.ids@;
            self.ids.remove(pos);
            proof {
                assert forall|k: u64| #[trigger] self.slots@.contains_key(k) implies self.ids@.contains(
                    k,
                ) by {
                    let i = choose|i: int| 0 <= i < before.len() && before[i] == k;
                    if i < pos {
                        assert(self.ids@[i] == k);
                    } else {
                        assert(i != pos);
                        assert(self.ids@[i - 1] == k);
                    }
                }
                assert forall|i: int| 0 <= i < self.ids@.len() implies self.slots@.contains_key(
                    #[trigger] self.ids@[i],
                ) by {
                    if i < pos {
                        assert(self.ids@[i] == before[i]);
                    } else {
                        assert(self.ids@[i] == before[i + 1]);
                        assert(before[pos as int] < before[i + 1]);
                    }
                }
                assert forall|i: int, j: int|
                    0 <= i < j < self.ids@.len() implies #[trigger] self.ids@[i]
                    < #[trigger] self.ids@[j] by {
                    let bi = if i < pos { i } else { i + 1 };
                    let bj = if j < pos { j } else { j + 1 };
                    assert(self.ids@[i] == before[bi] && self.ids@[j] == before[bj]);
                }
            }
        } else {
            proof {
                assert forall|i: int| 0 <= i < self.ids@.len() implies self.slots@.contains_key(
                    #[trigger] self.ids@[i],
                ) by {
                    assert(self.ids@[i] != id);
                }
            }
        }
    }

    /// The live ids, each once, in increasing order.
    pub fn live_ids(&self) -> (ids: Vec<u64>)
        requires
            self.wf(),
        ensures
            forall|id: u64| ids@.contains(id) <==> self.live().contains_key(id),
            forall|i: int, j: int| 0 <= i < j < ids@.len() ==> #[trigger] ids@[i] < #[trigger] ids@[j],
    {
        let mut ids: Vec<u64> = Vec::new();
        let mut i: usize = 0;
        while i < self.ids.len()
            invariant
                0 <= i <= self.ids@.len(),
                ids@ == self.ids@.subrange(0, i as int),
            decreases self.ids@.len() - i,
        {
            ids.push(self.ids[i]);
            i = i + 1;
            assert(ids@ =~= self.ids@.subrange(0, i as int));
        }
        assert(ids@ =~= self.ids@);
        proof {
            assert forall|id: u64| ids@.contains(id) implies self.live().contains_key(id) by {
                let k = choose|k: int| 0 <= k < ids@.len() && ids@[k] == id;
                assert(self.slots@.contains_key(self.ids@[k]));
            }
        }
        ids
    }

    /// The payload of slot `id`, if it is live.
    pub fn get(&self, id: u64) -> (payload: Option<&S>)
        ensures
            payload is Some <==> self.live().contains_key(id),
            payload matches Some(p) ==> *p == self.live()[id],
    {
        self.slots.get(&id)
    }

    /// Replaces the payload of slot `id`, if it is live, and returns the
    /// previous payload; a dead id leaves the registry unchanged and hands
    /// `payload` back.
    pub fn replace(&mut self, id: u64, payload: S) -> (result: Result<S, S>)
        requires
            old(self).wf(),
        ensures
            final(self).wf(),
            final(self).next() == old(self).next(),
            old(self).live().contains_key(id) ==> {
                &&& final(self).live() == old(self).live().insert(id, payload)
                &&& result == Ok::<S, S>(old(self).live()[id])
            },
            !old(self).live().contains_key(id) ==> {
                &&& final(self).live() == old(self).live()
                &&& result == Err::<S, S>(payload)
            },
    {
        match self.slots.remove(&id) {
            Some(previous) => {
                self.slots.insert(id, payload);
                proof {
                    assert(self.slots@ =~= old(self).slots@.insert(id, payload));
                }
                Ok(previous)
            },
            None => {
                proof {
                    assert(self.slots@ =~= old(self).slots@);
                }
                Err(payload)
            },
        }
    }
}

} // verus!
