//! Bounded, dense table of live connections keyed by a reusable handle.
//!
//! A [`Handle`] pairs a slot index with the slot's generation counter, so a
//! handle kept after its connection was removed is recognized as stale
//! instead of silently naming whatever reuses the slot. Insert, lookup and
//! removal are constant-time: empty slots are kept on a free list.

use vstd::prelude::*;

use vstd::set_lib::{lemma_int_range, lemma_len_subset, set_int_range};

use super::{Connection, NetworkPacket};

verus! {

/// Opaque reference to a connection-table slot.
///
/// Unique while the slot is occupied; after the connection is removed the
/// slot's generation moves on, and this handle is recognized as stale.
#[derive(Clone, Copy, Debug, PartialEq, Eq, Structural)]
pub struct Handle {
    /// Which slot of the table the connection sits in.
    pub index: usize,
    /// The generation the slot had when the connection was inserted.
    pub generation: u64,
}

/// Why a table operation refused to act.
#[derive(Clone, Copy, Debug, PartialEq, Eq, Structural)]
pub enum TableError {
    /// Every slot is occupied; the new connection must be refused.
    Full,
    /// The handle names a slot whose connection was already removed.
    StaleHandle,
}

/// Bounded dense table of live connections.
///
/// The fields are public so the contracts can speak about them, but they
/// belong together: mutate the table only through its methods, which keep
/// [`ConnectionTable::wf`].
#[derive(Debug)]
pub struct ConnectionTable {
    /// One slot per possible connection; `None` when the slot is vacant.
    pub slots: Vec<Option<Connection>>,
    /// Each slot's generation, bumped when its connection is removed.
    pub generations: Vec<u64>,
    /// Stack of the vacant slot indices.
    pub free: Vec<usize>,
    /// How many slots are occupied.
    pub live: usize,
}

impl ConnectionTable {
    /// The fixed number of slots; inserts beyond it are refused.
    pub open spec fn capacity(&self) -> int {
        self.slots@.len() as int
    }

    /// How many connections are live.
    pub open spec fn live_count(&self) -> int {
        self.live as int
    }

    /// Whether the handle names a live connection: its slot is occupied and
    /// the generation still matches.
    pub open spec fn is_live(&self, h: Handle) -> bool {
        &&& (h.index as int) < self.slots@.len()
        &&& self.slots@[h.index as int] is Some
        &&& self.generations@[h.index as int] == h.generation
    }

    /// The connection a live handle names.
    pub open spec fn conn_at(&self, h: Handle) -> Connection
        recommends
            self.is_live(h),
    {
        self.slots@[h.index as int]->Some_0
    }

    /// Internal consistency: the free list holds exactly the vacant slots,
    /// once each, and `live` counts the occupied ones.
    pub open spec fn wf(&self) -> bool {
        &&& self.generations@.len() == self.slots@.len()
        &&& self.free@.no_duplicates()
        &&& forall|k: int|
            0 <= k < self.free@.len() ==> (#[trigger] self.free@[k]) < self.slots@.len()
                && self.slots@[self.free@[k] as int] is None
        &&& forall|i: int|
            0 <= i < self.slots@.len() && (#[trigger] self.slots@[i]) is None
                ==> self.free@.contains(i as usize)
        &&& self.live + self.free@.len() == self.slots@.len()
    }

    /// Constructs a table with `max_connections` vacant slots.
    pub fn new(max_connections: usize) -> (t: ConnectionTable)
        ensures
            t.wf(),
            t.capacity() == max_connections,
            t.live_count() == 0,
            forall|h: Handle| !t.is_live(h),
    {
        let mut slots: Vec<Option<Connection>> = Vec::new();
        let mut generations: Vec<u64> = Vec::new();
        let mut free: Vec<usize> = Vec::new();
        for i in 0..max_connections
            invariant
                slots@.len() == i,
                generations@.len() == i,
                free@.len() == i,
                forall|j: int| 0 <= j < i ==> (#[trigger] slots@[j]) is None,
                forall|k: int| 0 <= k < i ==> (#[trigger] free@[k]) == k,
        {
            slots.push(None);
            generations.push(0);
            free.push(i);
        }
        proof {
            assert forall|k1: int, k2: int|
                0 <= k1 < free@.len() && 0 <= k2 < free@.len() && k1 != k2 implies free@[k1]
                != free@[k2] by {};
            assert forall|i: int|
                0 <= i < slots@.len() && (#[trigger] slots@[i]) is None implies free@.contains(
                i as usize,
            ) by {
                assert(free@[i] == i as usize);
            };
        }
        ConnectionTable { slots, generations, free, live: 0 }
    }

    /// How many slots the table was built with.
    pub fn max_connections(&self) -> (r: usize)
        ensures
            r == self.capacity(),
    {
        self.slots.len()
    }

    /// How many connections are live.
    pub fn len(&self) -> (r: usize)
        ensures
            r == self.live_count(),
    {
        self.live
    }

    /// What one successful or refused insert does: refused exactly when the
    /// table is full, and otherwise the new connection is live under the
    /// returned handle while every other live connection is untouched.
    pub open spec fn insert_transition(
        pre: ConnectionTable,
        post: ConnectionTable,
        conn: Connection,
        r: Result<Handle, TableError>,
    ) -> bool {
        &&& post.capacity() == pre.capacity()
        &&& (r is Ok <==> pre.live_count() < pre.capacity())
        &&& (r is Err ==> post == pre && r == Err::<Handle, TableError>(TableError::Full))
        &&& (r matches Ok(h) ==> {
            &&& !pre.is_live(h)
            &&& post.is_live(h)
            &&& post.conn_at(h) == conn
            &&& post.live_count() == pre.live_count() + 1
            &&& forall|h2: Handle|
                pre.is_live(h2) ==> #[trigger] post.is_live(h2) && post.conn_at(h2)
                    == pre.conn_at(h2) && h2.index != h.index
            &&& forall|h2: Handle| #[trigger] post.is_live(h2) ==> pre.is_live(h2) || h2 == h
        })
    }

    /// Inserts a connection, giving it a fresh handle; refused with
    /// [`TableError::Full`] exactly when the table is at capacity.
    pub fn insert(&mut self, conn: Connection) -> (r: Result<Handle, TableError>)
        requires
            old(self).wf(),
        ensures
            final(self).wf(),
            Self::insert_transition(*old(self), *final(self), conn, r),
    {
        if self.free.len() == 0 {
            return Err(TableError::Full);
        }
        let idx = match self.free.pop() {
            Some(idx) => idx,
            None => vstd::pervasive::unreached(),
        };
        proof {
            vstd::std_specs::vec::axiom_spec_len(&old(self).slots);
            assert(old(self).live < old(self).slots@.len());
        }
        let generation = self.generations[idx];
        self.slots[idx] = Some(conn);
        self.live = self.live + 1;
        let h = Handle { index: idx, generation };
        proof {
            let pre = *old(self);
            assert(pre.free@.last() == idx);
            assert forall|i: int|
                0 <= i < self.slots@.len() && (#[trigger] self.slots@[i]) is None
                    implies self.free@.contains(i as usize) by {
                assert(i != idx as int);
                assert(pre.slots@[i] is None);
                assert(pre.free@.contains(i as usize));
                let k = choose|k: int|
                    0 <= k < pre.free@.len() && pre.free@[k] == i as usize;
                assert(i as usize != idx);
                assert(pre.free@[k] != idx);
                assert(k != pre.free@.len() - 1);
                assert(self.free@[k] == i as usize);
            };
        }
        Ok(h)
    }

    /// What one removal does: refused exactly for handles that are not
    /// live, and otherwise that handle's connection leaves while every other
    /// live connection is untouched.
    pub open spec fn remove_transition(
        pre: ConnectionTable,
        post: ConnectionTable,
        h: Handle,
        r: Result<Connection, TableError>,
    ) -> bool {
        &&& post.capacity() == pre.capacity()
        &&& (r is Ok <==> pre.is_live(h))
        &&& (r is Err ==> post == pre && r == Err::<Connection, TableError>(
            TableError::StaleHandle,
        ))
        &&& (r matches Ok(c) ==> {
            &&& c == pre.conn_at(h)
            &&& !post.is_live(h)
            &&& post.live_count() == pre.live_count() - 1
            &&& forall|h2: Handle|
                pre.is_live(h2) && h2 != h ==> #[trigger] post.is_live(h2) && post.conn_at(h2)
                    == pre.conn_at(h2)
            &&& forall|h2: Handle| #[trigger] post.is_live(h2) ==> pre.is_live(h2) && h2 != h
        })
    }

    /// Removes the connection a live handle names, freeing its slot for
    /// reuse under a new generation. A stale handle is refused with
    /// [`TableError::StaleHandle`], loudly but without corrupting anything.
    pub fn remove(&mut self, h: Handle) -> (r: Result<Connection, TableError>)
        requires
            old(self).wf(),
        ensures
            final(self).wf(),
            Self::remove_transition(*old(self), *final(self), h, r),
    {
        if h.index >= self.slots.len() {
            return Err(TableError::StaleHandle);
        }
        if self.generations[h.index] != h.generation {
            return Err(TableError::StaleHandle);
        }
        if self.slots[h.index].is_none() {
            return Err(TableError::StaleHandle);
        }
        proof {
            lemma_occupied_slot_bounds_free_list(self.free@, self.slots@.len() as int,
                h.index as int);
        }
        let slot = &mut self.slots[h.index];
        let c = match slot.take() {
            Some(c) => c,
            None => vstd::pervasive::unreached(),
        };
        let generation = self.generations[h.index];
        let next_generation = if generation == u64::MAX {
            0
        } else {
            generation + 1
        };
        self.generations[h.index] = next_generation;
        self.free.push(h.index);
        self.live = self.live - 1;
        proof {
            let pre = *old(self);
            assert(self.free@.drop_last() == pre.free@);
            assert forall|k1: int, k2: int|
                0 <= k1 < self.free@.len() && 0 <= k2 < self.free@.len() && k1 != k2
                    implies self.free@[k1] != self.free@[k2] by {
                if k1 < self.free@.len() - 1 && k2 < self.free@.len() - 1 {
                    assert(pre.free@[k1] != pre.free@[k2]);
                }
            };
            assert forall|i: int|
                0 <= i < self.slots@.len() && (#[trigger] self.slots@[i]) is None
                    implies self.free@.contains(i as usize) by {
                if i == h.index as int {
                    assert(self.free@.last() == h.index);
                } else {
                    assert(pre.slots@[i] is None);
                    let k = choose|k: int|
                        0 <= k < pre.free@.len() && pre.free@[k] == i as usize;
                    assert(self.free@[k] == i as usize);
                }
            };
        }
        Ok(c)
    }

    /// What extending one live connection's outbound queue does: those
    /// packets are appended in order, and nothing else moves.
    pub open spec fn queue_extended(
        pre: ConnectionTable,
        post: ConnectionTable,
        h: Handle,
        ps: Seq<NetworkPacket>,
    ) -> bool {
        &&& post.capacity() == pre.capacity()
        &&& post.live_count() == pre.live_count()
        &&& forall|h2: Handle| #[trigger] post.is_live(h2) <==> pre.is_live(h2)
        &&& post.conn_at(h).outbound@ == pre.conn_at(h).outbound@ + ps
        &&& post.conn_at(h).addr == pre.conn_at(h).addr
        &&& forall|h2: Handle|
            pre.is_live(h2) && h2 != h ==> #[trigger] post.conn_at(h2) == pre.conn_at(h2)
    }

    /// Appends packets, in order, to the outbound queue of the connection a
    /// live handle names; a stale handle is refused.
    pub fn append_outbound(&mut self, h: Handle, ps: Vec<NetworkPacket>) -> (r: Result<
        (),
        TableError,
    >)
        requires
            old(self).wf(),
        ensures
            final(self).wf(),
            r is Ok <==> old(self).is_live(h),
            r is Err ==> *final(self) == *old(self) && r == Err::<(), TableError>(
                TableError::StaleHandle,
            ),
            r is Ok ==> Self::queue_extended(*old(self), *final(self), h, ps@),
    {
        if h.index >= self.slots.len() {
            return Err(TableError::StaleHandle);
        }
        if self.generations[h.index] != h.generation {
            return Err(TableError::StaleHandle);
        }
        if self.slots[h.index].is_none() {
            return Err(TableError::StaleHandle);
        }
        let mut ps = ps;
        let slot = &mut self.slots[h.index];
        match slot.take() {
            Some(mut c) => {
                c.outbound.append(&mut ps);
                *slot = Some(c);
                Ok(())
            }
            None => vstd::pervasive::unreached(),
        }
    }

    /// What swapping one live connection's outbound queue for an empty one
    /// does: the queue is emptied, and nothing else moves.
    pub open spec fn queue_taken(pre: ConnectionTable, post: ConnectionTable, h: Handle) -> bool {
        &&& post.capacity() == pre.capacity()
        &&& post.live_count() == pre.live_count()
        &&& forall|h2: Handle| #[trigger] post.is_live(h2) <==> pre.is_live(h2)
        &&& post.conn_at(h).outbound@ == Seq::<NetworkPacket>::empty()
        &&& post.conn_at(h).addr == pre.conn_at(h).addr
        &&& forall|h2: Handle|
            pre.is_live(h2) && h2 != h ==> #[trigger] post.conn_at(h2) == pre.conn_at(h2)
    }

    /// Atomically swaps the outbound queue of the connection a live handle
    /// names for an empty one, returning the swapped-out packets in enqueue
    /// order; a stale handle is refused.
    pub fn take_outbound(&mut self, h: Handle) -> (r: Result<Vec<NetworkPacket>, TableError>)
        requires
            old(self).wf(),
        ensures
            final(self).wf(),
            r is Ok <==> old(self).is_live(h),
            r is Err ==> *final(self) == *old(self) && r == Err::<Vec<NetworkPacket>, TableError>(
                TableError::StaleHandle,
            ),
            r matches Ok(q) ==> q@ == old(self).conn_at(h).outbound@ && Self::queue_taken(
                *old(self),
                *final(self),
                h,
            ),
    {
        if h.index >= self.slots.len() {
            return Err(TableError::StaleHandle);
        }
        if self.generations[h.index] != h.generation {
            return Err(TableError::StaleHandle);
        }
        if self.slots[h.index].is_none() {
            return Err(TableError::StaleHandle);
        }
        let slot = &mut self.slots[h.index];
        match slot.take() {
            Some(mut c) => {
                let mut q: Vec<NetworkPacket> = Vec::new();
                core::mem::swap(&mut q, &mut c.outbound);
                *slot = Some(c);
                Ok(q)
            }
            None => vstd::pervasive::unreached(),
        }
    }

    /// The handles of every live connection, each exactly once.
    pub fn live_handles(&self) -> (r: Vec<Handle>)
        requires
            self.wf(),
        ensures
            r@.no_duplicates(),
            forall|h: Handle| #[trigger] r@.contains(h) <==> self.is_live(h),
    {
        let mut out: Vec<Handle> = Vec::new();
        let n = self.slots.len();
        for i in 0..n
            invariant
                n == self.slots@.len(),
                self.wf(),
                forall|k: int| 0 <= k < out@.len() ==> (#[trigger] out@[k]).index < i,
                forall|h: Handle| #[trigger] out@.contains(h) <==> (h.index < i && self.is_live(
                    h,
                )),
                forall|k1: int, k2: int|
                    0 <= k1 < out@.len() && 0 <= k2 < out@.len() && k1 != k2
                        ==> (#[trigger] out@[k1]).index != (#[trigger] out@[k2]).index,
        {
            if self.slots[i].is_some() {
                let h = Handle { index: i, generation: self.generations[i] };
                let ghost prev = out@;
                out.push(h);
                proof {
                    assert forall|h2: Handle| #[trigger] out@.contains(h2) implies (h2.index < i
                        + 1 && self.is_live(h2)) by {
                        let k = choose|k: int| 0 <= k < out@.len() && out@[k] == h2;
                        if k < out@.len() - 1 {
                            assert(prev[k] == h2);
                            assert(prev.contains(h2));
                        } else {
                            assert(h2 == h);
                        }
                    };
                    assert forall|h2: Handle| h2.index < i + 1 && self.is_live(h2)
                        implies out@.contains(h2) by {
                        if h2.index < i {
                            assert(prev.contains(h2));
                            let k = choose|k: int| 0 <= k < prev.len() && prev[k] == h2;
                            assert(out@[k] == h2);
                        } else {
                            assert(h2 == h);
                            assert(out@[out@.len() - 1] == h2);
                        }
                    };
                }
            }
        }
        proof {
            assert forall|k1: int, k2: int|
                0 <= k1 < out@.len() && 0 <= k2 < out@.len() && k1 != k2 implies out@[k1]
                != out@[k2] by {};
        }
        out
    }

    /// Looks a handle up; a stale handle is refused with
    /// [`TableError::StaleHandle`].
    pub fn get(&self, h: Handle) -> (r: Result<&Connection, TableError>)
        requires
            self.wf(),
        ensures
            r is Ok <==> self.is_live(h),
            r matches Ok(c) ==> *c == self.conn_at(h),
            r is Err ==> r == Err::<&Connection, TableError>(TableError::StaleHandle),
    {
        if h.index >= self.slots.len() {
            return Err(TableError::StaleHandle);
        }
        if self.generations[h.index] != h.generation {
            return Err(TableError::StaleHandle);
        }
        match &self.slots[h.index] {
            Some(c) => Ok(c),
            None => Err(TableError::StaleHandle),
        }
    }
}

/// Along a chain of inserts that starts from an empty table of capacity
/// `k`, every state's live count equals how many inserts came before it,
/// and every insert so far succeeded.
proof fn lemma_insert_chain_counts(
    states: Seq<ConnectionTable>,
    conns: Seq<Connection>,
    results: Seq<Result<Handle, TableError>>,
    k: int,
    i: int,
) requires
        states.len() == k + 1,
        conns.len() == k,
        results.len() == k,
        states[0].live_count() == 0,
        states[0].capacity() == k,
        forall|j: int|
            0 <= j < k ==> #[trigger] ConnectionTable::insert_transition(
                states[j],
                states[j + 1],
                conns[j],
                results[j],
            ),
        0 <= i <= k,
    ensures
        states[i].live_count() == i,
        states[i].capacity() == k,
        forall|j: int| 0 <= j < i ==> (#[trigger] results[j]) is Ok,
    decreases i,
{
    if i > 0 {
        lemma_insert_chain_counts(states, conns, results, k, i - 1);
        let j = i - 1;
        assert(ConnectionTable::insert_transition(states[j], states[j + 1], conns[j], results[j]));
        assert(states[i] == states[j + 1]);
    }
}

/// Table capacity: starting from an empty table of capacity `k`, `k`
/// consecutive inserts all succeed and leave the table full, so that one
/// further insert is refused; and after one removal, exactly one more
/// insert succeeds, leaving the table full again.
pub proof fn lemma_table_capacity(
    states: Seq<ConnectionTable>,
    conns: Seq<Connection>,
    results: Seq<Result<Handle, TableError>>,
    k: int,
) requires
        states.len() == k + 1,
        conns.len() == k,
        results.len() == k,
        states[0].live_count() == 0,
        states[0].capacity() == k,
        forall|j: int|
            0 <= j < k ==> #[trigger] ConnectionTable::insert_transition(
                states[j],
                states[j + 1],
                conns[j],
                results[j],
            ),
    ensures
        forall|j: int| 0 <= j < k ==> (#[trigger] results[j]) is Ok,
        states[k].live_count() == states[k].capacity(),
{
    lemma_insert_chain_counts(states, conns, results, k, k);
}

/// A full table refuses the next insert.
pub proof fn lemma_full_table_refuses_insert(
    pre: ConnectionTable,
    post: ConnectionTable,
    conn: Connection,
    r: Result<Handle, TableError>,
) requires
        pre.live_count() == pre.capacity(),
        ConnectionTable::insert_transition(pre, post, conn, r),
    ensures
        r == Err::<Handle, TableError>(TableError::Full),
        post == pre,
{
}

/// After one removal from a full table, exactly one more insert succeeds:
/// it is accepted, and it leaves the table full again.
pub proof fn lemma_one_insert_after_remove(
    full: ConnectionTable,
    after_remove: ConnectionTable,
    h: Handle,
    removed: Result<Connection, TableError>,
    after_insert: ConnectionTable,
    conn: Connection,
    r: Result<Handle, TableError>,
) requires
        full.live_count() == full.capacity(),
        removed is Ok,
        ConnectionTable::remove_transition(full, after_remove, h, removed),
        ConnectionTable::insert_transition(after_remove, after_insert, conn, r),
    ensures
        r is Ok,
        after_insert.live_count() == after_insert.capacity(),
{
}

/// A slot list with pairwise-distinct indices below `cap`, none of them
/// `occupied`, has at most `cap - 1` entries.
proof fn lemma_occupied_slot_bounds_free_list(free: Seq<usize>, cap: int, occupied: int)
    requires
        free.no_duplicates(),
        forall|k: int| 0 <= k < free.len() ==> (#[trigger] free[k]) < cap,
        forall|k: int| 0 <= k < free.len() ==> (#[trigger] free[k]) != occupied,
        0 <= occupied < cap,
    ensures
        free.len() <= cap - 1,
{
    let ints = free.map_values(|x: usize| x as int);
    assert(ints.no_duplicates()) by {
        assert forall|k1: int, k2: int|
            0 <= k1 < ints.len() && 0 <= k2 < ints.len() && k1 != k2 implies ints[k1]
            != ints[k2] by {
            assert(free[k1] != free[k2]);
        };
    }
    ints.unique_seq_to_set();
    let bounded = set_int_range(0, cap).remove(occupied);
    lemma_int_range(0, cap);
    assert(ints.to_set().subset_of(bounded)) by {
        assert forall|x: int| ints.to_set().contains(x) implies bounded.contains(x) by {
            let k = choose|k: int| 0 <= k < ints.len() && ints[k] == x;
            assert(free[k] < cap && free[k] != occupied);
        };
    }
    lemma_len_subset(ints.to_set(), bounded);
}

} // verus!
