//! The table of requests awaiting a reply, and the generator of request ids.
use std::collections::HashMap;
use vstd::prelude::*;

verus! {

broadcast use vstd::std_specs::hash::group_hash_axioms;

/// What `take` leaves behind and hands out, on the table's model.
pub open spec fn take_spec<T>(m: Map<i64, T>, id: i64) -> (Map<i64, T>, Option<T>) {
    if m.contains_key(id) {
        (m.remove(id), Some(m[id]))
    } else {
        (m, None)
    }
}

/// Requests in flight, keyed by their integer id. Each entry owns the
/// single-use slot through which the reply reaches the caller that made the
/// request. An entry leaves the table exactly once, through `take`, or when
/// the table is closed because the transport ended.
pub struct PendingTable<T> {
    entries: HashMap<i64, T>,
    closed: bool,
}

impl<T> View for PendingTable<T> {
    type V = Map<i64, T>;

    closed spec fn view(&self) -> Map<i64, T> {
        self.entries@
    }
}

impl<T> PendingTable<T> {
    /// Whether the transport has ended: no reply can come any more.
    pub closed spec fn is_closed(&self) -> bool {
        self.closed
    }

    /// An empty, open table.
    pub fn new() -> (r: Self)
        ensures
            r@ == Map::<i64, T>::empty(),
            !r.is_closed(),
    {
        PendingTable { entries: HashMap::new(), closed: false }
    }

    /// Marks the transport as ended and drops every entry, so that each
    /// caller still waiting sees its reply channel close.
    pub fn close(&mut self)
        ensures
            final(self)@ == Map::<i64, T>::empty(),
            final(self).is_closed(),
    {
        self.entries.clear();
        self.closed = true;
    }

    /// Whether the transport has ended.
    pub fn closed(&self) -> (r: bool)
        ensures
            r == self.is_closed(),
    {
        self.closed
    }

    /// Registers `slot` as the receiver of the reply to request `id`.
    pub fn register(&mut self, id: i64, slot: T)
        ensures
            final(self)@ == old(self)@.insert(id, slot),
            final(self).is_closed() == old(self).is_closed(),
    {
        let _ = self.entries.insert(id, slot);
    }

    /// Removes the entry of `id` and hands out its slot; absent when the
    /// entry was already delivered or removed, in which case nothing changes.
    pub fn take(&mut self, id: i64) -> (r: Option<T>)
        ensures
            (final(self)@, r) == take_spec(old(self)@, id),
            final(self).is_closed() == old(self).is_closed(),
    {
        self.entries.remove(&id)
    }

    /// Whether a reply to `id` is still awaited.
    pub fn contains(&self, id: i64) -> (r: bool)
        ensures
            r == self@.contains_key(id),
    {
        self.entries.contains_key(&id)
    }

    /// The number of requests awaiting a reply.
    pub fn len(&self) -> (r: usize)
        ensures
            r == self@.len(),
    {
        self.entries.len()
    }

    /// Whether no request awaits a reply.
    pub fn is_empty(&self) -> (r: bool)
        ensures
            r == (self@.len() == 0),
    {
        self.entries.len() == 0
    }
}

/// Taking an id twice never hands out a second slot: the second `take`
/// finds nothing and leaves the table as the first one left it.
pub proof fn lemma_take_is_idempotent<T>(m: Map<i64, T>, id: i64)
    ensures
        take_spec(take_spec(m, id).0, id).1 is None,
        take_spec(take_spec(m, id).0, id).0 == take_spec(m, id).0,
        !take_spec(m, id).0.contains_key(id),
{
}

/// Source of request ids: 1, 2, 3, ... in the order of the calls, so that no
/// two requests of one client share an id.
pub struct IdGenerator {
    next: i64,
}

impl View for IdGenerator {
    type V = int;

    closed spec fn view(&self) -> int {
        self.next as int
    }
}

impl IdGenerator {
    /// A generator whose first id is 1.
    pub fn new() -> (r: Self)
        ensures
            r@ == 1,
    {
        IdGenerator { next: 1 }
    }

    /// Hands out the next id; `None` once every `i64` id has been used.
    pub fn next_id(&mut self) -> (r: Option<i64>)
        ensures
            old(self)@ < i64::MAX ==> (r matches Some(id) && id == old(self)@ && final(self)@ == old(self)@ + 1),
            old(self)@ >= i64::MAX ==> r is None && final(self)@ == old(self)@,
    {
        if self.next < i64::MAX {
            let id = self.next;
            self.next = id + 1;
            Some(id)
        } else {
            None
        }
    }
}

/// The table after registering each `(id, slot)` of `regs` in order.
pub open spec fn register_all<T>(m: Map<i64, T>, regs: Seq<(i64, T)>) -> Map<i64, T>
    decreases regs.len(),
{
    if regs.len() == 0 {
        m
    } else {
        register_all(m, regs.drop_last()).insert(regs.last().0, regs.last().1)
    }
}

/// The table after taking each id of `ids` in order.
pub open spec fn take_all<T>(m: Map<i64, T>, ids: Seq<i64>) -> Map<i64, T>
    decreases ids.len(),
{
    if ids.len() == 0 {
        m
    } else {
        take_spec(take_all(m, ids.drop_last()), ids.last()).0
    }
}

proof fn lemma_registered_entry<T>(m: Map<i64, T>, regs: Seq<(i64, T)>, j: int)
    requires
        0 <= j < regs.len(),
        forall|a: int, b: int| 0 <= a < b < regs.len() ==> regs[a].0 != regs[b].0,
    ensures
        register_all(m, regs).contains_key(regs[j].0),
        register_all(m, regs)[regs[j].0] == regs[j].1,
    decreases regs.len(),
{
    if j < regs.len() - 1 {
        let init = regs.drop_last();
        assert(init[j] == regs[j]);
        lemma_registered_entry(m, init, j);
        assert(regs.last().0 != regs[j].0);
    }
}

proof fn lemma_untouched_entry<T>(m: Map<i64, T>, ids: Seq<i64>, k: i64)
    requires
        !ids.contains(k),
    ensures
        take_all(m, ids).contains_key(k) == m.contains_key(k),
        m.contains_key(k) ==> take_all(m, ids)[k] == m[k],
    decreases ids.len(),
{
    if ids.len() > 0 {
        let init = ids.drop_last();
        assert(!init.contains(k)) by {
            if init.contains(k) {
                let i = choose|i: int| 0 <= i < init.len() && init[i] == k;
                assert(ids[i] == k);
            }
        }
        lemma_untouched_entry(m, init, k);
        assert(ids.last() != k) by {
            assert(ids[ids.len() - 1] == ids.last());
        }
    }
}

/// However many requests are in flight and in whatever order the others
/// complete, taking the id of one request hands out exactly the slot that was
/// registered for it: no reply reaches another caller.
pub proof fn lemma_reply_reaches_its_own_caller<T>(regs: Seq<(i64, T)>, j: int, completed: Seq<i64>)
    requires
        0 <= j < regs.len(),
        forall|a: int, b: int| 0 <= a < b < regs.len() ==> regs[a].0 != regs[b].0,
        !completed.contains(regs[j].0),
    ensures
        take_spec(take_all(register_all(Map::empty(), regs), completed), regs[j].0).1 == Some(
            regs[j].1,
        ),
{
    lemma_registered_entry(Map::empty(), regs, j);
    lemma_untouched_entry(register_all(Map::empty(), regs), completed, regs[j].0);
}

} // verus!
