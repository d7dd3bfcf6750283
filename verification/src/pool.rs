//! Group identifiers: a fixed stock of small integers, each with a count of
//! the agents that currently hold it.
//!
//! An id leaves the stock when a group forms, and returns to it only when its
//! last subscriber has let go. Returned ids queue up behind the ids that have
//! never been used, so the stock hands ids out first in, first out.

use vstd::prelude::*;

verus! {

/// Why a subscriber could not be added. The pool is left as it was.
#[derive(Clone, Copy, Debug, PartialEq, Eq, Structural)]
pub enum PoolError {
    /// The id is zero or above the pool's limit.
    UnknownId,
    /// The id has no subscriber: it is in the stock, not in use.
    Inactive,
    /// The id's subscriber count cannot grow any further.
    Saturated,
}

/// What a pool holds: the stock in the order in which it will be handed out,
/// and the subscriber count of each id (that of id `g` at index `g - 1`).
pub struct PoolView {
    pub free: Seq<u32>,
    pub subs: Seq<u64>,
}

impl PoolView {
    /// The largest id of the pool.
    pub open spec fn limit(self) -> nat {
        self.subs.len()
    }

    /// `id` is one of the pool's ids.
    pub open spec fn knows(self, id: u32) -> bool {
        1 <= id <= self.subs.len()
    }

    /// `id` is one of the pool's ids and has a subscriber.
    pub open spec fn in_use(self, id: u32) -> bool {
        self.knows(id) && self.subs[id - 1] > 0
    }

    /// The number of subscribers of `id`.
    pub open spec fn subscribers(self, id: u32) -> u64
        recommends
            self.knows(id),
    {
        self.subs[id - 1]
    }

    /// The stock holds each id at most once, and holds exactly the ids
    /// without a subscriber.
    pub open spec fn valid(self) -> bool {
        &&& self.subs.len() <= u32::MAX
        &&& self.free.no_duplicates()
        &&& forall|i: int| 0 <= i < self.free.len() ==> self.knows(#[trigger] self.free[i])
        &&& forall|id: u32|
            self.knows(id) ==> (#[trigger] self.free.contains(id) <==> self.subs[id - 1] == 0)
    }

    /// A pool of `limit` ids, none of them in use, stocked in rising order.
    pub open spec fn fresh(limit: u32) -> PoolView {
        PoolView {
            free: Seq::new(limit as nat, |i: int| (i + 1) as u32),
            subs: Seq::new(limit as nat, |i: int| 0u64),
        }
    }

    /// The pool after the first id of the stock was handed to one subscriber.
    pub open spec fn allocate(self) -> PoolView
        recommends
            self.free.len() > 0,
    {
        PoolView { free: self.free.drop_first(), subs: self.subs.update(self.free[0] - 1, 1) }
    }

    /// The pool after `id` gained a subscriber.
    pub open spec fn subscribe(self, id: u32) -> PoolView
        recommends
            self.knows(id),
    {
        PoolView { free: self.free, subs: self.subs.update(id - 1, (self.subs[id - 1] + 1) as u64) }
    }

    /// The pool after `id` lost a subscriber. With the last one gone, the id
    /// joins the end of the stock.
    pub open spec fn unsubscribe(self, id: u32) -> PoolView
        recommends
            self.in_use(id),
    {
        PoolView {
            free: if self.subs[id - 1] == 1 {
                self.free.push(id)
            } else {
                self.free
            },
            subs: self.subs.update(id - 1, (self.subs[id - 1] - 1) as u64),
        }
    }
}

/// The stock of group ids and their subscriber counts.
///
/// The stock is a ring: `waiting` ids starting at slot `front` of `id_pool`.
#[derive(Clone, Debug)]
pub struct SwarmIdPool {
    front: usize,
    waiting: usize,
    limit: u32,
    id_pool: Vec<u32>,
    subs: Vec<u64>,
}

impl View for SwarmIdPool {
    type V = PoolView;

    closed spec fn view(&self) -> PoolView {
        PoolView {
            free: Seq::new(
                self.waiting as nat,
                |i: int| self.id_pool@[(self.front + i) % (self.limit as int)],
            ),
            subs: self.subs@,
        }
    }
}

impl SwarmIdPool {
    /// The ring is laid out as the fields say.
    pub closed spec fn ring_ok(&self) -> bool {
        &&& self.id_pool@.len() == self.limit
        &&& self.subs@.len() == self.limit
        &&& self.waiting <= self.limit
        &&& self.front <= self.limit
        &&& self.limit > 0 ==> self.front < self.limit
    }

    /// The pool is in a consistent state. Every constructor gives such a pool
    /// and every method keeps it so.
    pub open spec fn wf(&self) -> bool {
        &&& self.ring_ok()
        &&& self@.valid()
    }

    /// A pool of `limit` ids, `1` to `limit`, all of them in stock.
    pub fn new(limit: u32) -> (pool: SwarmIdPool)
        ensures
            pool.wf(),
            pool@ == PoolView::fresh(limit),
    {
        let mut id_pool: Vec<u32> = Vec::new();
        let mut subs: Vec<u64> = Vec::new();
        let mut i: u32 = 0;
        while i < limit
            invariant
                i <= limit,
                id_pool@.len() == i,
                subs@.len() == i,
                forall|k: int| 0 <= k < i ==> id_pool@[k] == k + 1,
                forall|k: int| 0 <= k < i ==> subs@[k] == 0,
            decreases limit - i,
        {
            id_pool.push(i + 1);
            subs.push(0);
            i = i + 1;
        }
        let pool = SwarmIdPool { front: 0, waiting: limit as usize, limit, id_pool, subs };
        proof {
            let v = pool@;
            assert forall|k: int| 0 <= k < limit implies v.free[k] == (k + 1) as u32 by {
                lemma_ring_slot(0, k, limit as int);
            }
            assert(v.free =~= PoolView::fresh(limit).free);
            assert(v.subs =~= PoolView::fresh(limit).subs);
            assert forall|id: u32| v.knows(id) implies (#[trigger] v.free.contains(id)
                <==> v.subs[id - 1] == 0) by {
                assert(v.free[id - 1] == id);
            }
        }
        pool
    }

    /// The largest id of the pool.
    pub fn limit(&self) -> (n: u32)
        requires
            self.wf(),
        ensures
            n == self@.limit(),
    {
        self.limit
    }

    /// The number of ids in stock.
    pub fn available(&self) -> (n: usize)
        requires
            self.wf(),
        ensures
            n == self@.free.len(),
    {
        self.waiting
    }

    /// The number of subscribers of `id`; `None` for an id the pool does not
    /// have.
    pub fn subscribers(&self, id: u32) -> (n: Option<u64>)
        requires
            self.wf(),
        ensures
            n == if self@.knows(id) {
                Some(self@.subscribers(id))
            } else {
                None
            },
    {
        if id == 0 || id > self.limit {
            None
        } else {
            Some(self.subs[(id - 1) as usize])
        }
    }

    /// Decides [`PoolView::in_use`].
    pub fn is_in_use(&self, id: u32) -> (b: bool)
        requires
            self.wf(),
        ensures
            b == self@.in_use(id),
    {
        id != 0 && id <= self.limit && self.subs[(id - 1) as usize] > 0
    }

    /// Takes the first id out of the stock and counts one subscriber for it.
    /// With the stock empty there is nothing to hand out: the answer is
    /// `None` and the pool stays as it is.
    pub fn get_id(&mut self) -> (id: Option<u32>)
        requires
            old(self).wf(),
        ensures
            final(self).wf(),
            match id {
                Some(x) => {
                    &&& old(self)@.free.len() > 0
                    &&& x == old(self)@.free[0]
                    &&& final(self)@ == old(self)@.allocate()
                },
                None => old(self)@.free.len() == 0 && final(self)@ == old(self)@,
            },
    {
        if self.waiting == 0 {
            return None;
        }
        let ghost before = *self;
        let x: u32 = self.id_pool[self.front];
        assert(before@.free[0] == x) by {
            lemma_ring_slot(before.front as int, 0, before.limit as int);
        }
        assert(before@.knows(x));
        self.subs.set((x - 1) as usize, 1);
        self.front = if self.front + 1 == self.limit as usize {
            0
        } else {
            self.front + 1
        };
        self.waiting = self.waiting - 1;
        proof {
            let n = before.limit as int;
            assert forall|i: int| 0 <= i < self.waiting implies self@.free[i] == before@.free[i
                + 1] by {
                lemma_ring_step(before.front as int, self.front as int, i, n);
            }
            assert(self@.free =~= before@.free.drop_first());
            assert(self@ == before@.allocate());
            lemma_allocate_valid(before@);
        }
        Some(x)
    }

    /// Puts `id` at the end of the stock.
    fn free_id(&mut self, id: u32)
        requires
            old(self).ring_ok(),
            old(self).waiting < old(self).limit,
        ensures
            final(self).ring_ok(),
            final(self)@.free == old(self)@.free.push(id),
            final(self)@.subs == old(self)@.subs,
    {
        let ghost before = *self;
        let n: usize = self.limit as usize;
        let room: usize = n - self.front;
        let back: usize = if self.waiting < room {
            self.front + self.waiting
        } else {
            self.waiting - room
        };
        assert(back == (self.front + self.waiting) % (n as int)) by {
            lemma_ring_slot(self.front as int, self.waiting as int, n as int);
        }
        self.id_pool.set(back, id);
        self.waiting = self.waiting + 1;
        proof {
            assert forall|i: int| 0 <= i < self.waiting implies self@.free[i]
                == before@.free.push(id)[i] by {
                if i < before.waiting {
                    lemma_ring_distinct(before.front as int, i, before.waiting as int, n as int);
                }
            }
            assert(self@.free =~= before@.free.push(id));
        }
    }

    /// Counts one more subscriber for `id`, which must be in use.
    ///
    /// Fails with `UnknownId` for an id the pool does not have, with
    /// `Inactive` for an id in stock, and with `Saturated` where the count
    /// is at its machine limit.
    pub fn unit_inc_subs(&mut self, id: u32) -> (r: Result<(), PoolError>)
        requires
            old(self).wf(),
        ensures
            final(self).wf(),
            r == old(self)@.check_subscribe(id),
            r is Ok ==> final(self)@ == old(self)@.subscribe(id),
            r is Err ==> final(self)@ == old(self)@,
    {
        if id == 0 || id > self.limit {
            return Err(PoolError::UnknownId);
        }
        let slot: usize = (id - 1) as usize;
        let count: u64 = self.subs[slot];
        if count == 0 {
            return Err(PoolError::Inactive);
        }
        if count == u64::MAX {
            return Err(PoolError::Saturated);
        }
        let ghost before = *self;
        self.subs.set(slot, count + 1);
        proof {
            assert(self@.free =~= before@.free);
            assert(self@ == before@.subscribe(id));
            lemma_subscribe_valid(before@, id);
        }
        Ok(())
    }

    /// Counts one subscriber fewer for `id`, which must have one. When the
    /// last one goes, the id returns to the end of the stock.
    ///
    /// To let go of an id that nobody holds is a fault of the caller, not a
    /// case to answer: it would put the id in the stock twice. Callers that
    /// cannot know ask [`SwarmIdPool::is_in_use`] first.
    pub fn unit_dec_subs(&mut self, id: u32)
        requires
            old(self).wf(),
            old(self)@.in_use(id),
        ensures
            final(self).wf(),
            final(self)@ == old(self)@.unsubscribe(id),
    {
        let slot: usize = (id - 1) as usize;
        let count: u64 = self.subs[slot];
        let ghost before = *self;
        self.subs.set(slot, count - 1);
        assert(self@.free =~= before@.free);
        if count == 1 {
            proof {
                lemma_stock_has_room(before@, id);
            }
            self.free_id(id);
        }
        proof {
            assert(self@.subs =~= before@.unsubscribe(id).subs);
            assert(self@ == before@.unsubscribe(id));
            lemma_unsubscribe_valid(before@, id);
        }
    }
}

impl PoolView {
    /// Whether `id` can gain a subscriber, and if not, why not.
    pub open spec fn check_subscribe(self, id: u32) -> Result<(), PoolError> {
        if !self.knows(id) {
            Err(PoolError::UnknownId)
        } else if self.subs[id - 1] == 0 {
            Err(PoolError::Inactive)
        } else if self.subs[id - 1] == u64::MAX {
            Err(PoolError::Saturated)
        } else {
            Ok(())
        }
    }

}

impl Default for SwarmIdPool {
    /// A pool of twenty ids.
    fn default() -> (pool: SwarmIdPool)
        ensures
            pool.wf(),
            pool@ == PoolView::fresh(20),
    {
        SwarmIdPool::new(20)
    }
}

/// Handing out the first id of the stock keeps the pool valid.
pub proof fn lemma_allocate_valid(v: PoolView)
    requires
        v.valid(),
        v.free.len() > 0,
    ensures
        v.allocate().valid(),
        v.allocate().subs.len() == v.subs.len(),
{
    let w = v.allocate();
    let x = v.free[0];
    assert(v.knows(x));
    assert forall|id: u32| w.knows(id) implies (#[trigger] w.free.contains(id) <==> w.subs[id
        - 1] == 0) by {
        if id == x {
            if w.free.contains(id) {
                let k = choose|k: int| 0 <= k < w.free.len() && w.free[k] == id;
                assert(v.free[k + 1] == id);
            }
        } else {
            if w.free.contains(id) {
                let k = choose|k: int| 0 <= k < w.free.len() && w.free[k] == id;
                assert(v.free[k + 1] == id);
                assert(v.free.contains(id));
            }
            if v.free.contains(id) {
                let k = choose|k: int| 0 <= k < v.free.len() && v.free[k] == id;
                assert(k > 0);
                assert(w.free[k - 1] == id);
            }
        }
    }
    assert forall|i: int| 0 <= i < w.free.len() implies w.knows(#[trigger] w.free[i]) by {
        assert(w.free[i] == v.free[i + 1]);
    }
    assert forall|i: int, j: int| 0 <= i < w.free.len() && 0 <= j < w.free.len() && i
        != j implies w.free[i] != w.free[j] by {
        assert(w.free[i] == v.free[i + 1]);
        assert(w.free[j] == v.free[j + 1]);
    }
}

/// One more subscriber for an id in use keeps the pool valid.
pub proof fn lemma_subscribe_valid(v: PoolView, id: u32)
    requires
        v.valid(),
        v.check_subscribe(id) is Ok,
    ensures
        v.subscribe(id).valid(),
{
    let w = v.subscribe(id);
    assert forall|g: u32| w.knows(g) implies (#[trigger] w.free.contains(g) <==> w.subs[g - 1]
        == 0) by {
        assert(v.free.contains(g) <==> v.subs[g - 1] == 0);
    }
}

/// One subscriber fewer for an id in use keeps the pool valid.
pub proof fn lemma_unsubscribe_valid(v: PoolView, id: u32)
    requires
        v.valid(),
        v.in_use(id),
    ensures
        v.unsubscribe(id).valid(),
{
    let w = v.unsubscribe(id);
    assert(!v.free.contains(id));
    if v.subs[id - 1] == 1 {
        assert(w.free == v.free.push(id));
        assert(w.free[v.free.len() as int] == id);
        assert forall|g: u32| w.knows(g) implies (#[trigger] w.free.contains(g) <==> w.subs[g
            - 1] == 0) by {
            assert(v.free.contains(g) <==> v.subs[g - 1] == 0);
            if w.free.contains(g) && g != id {
                let k = choose|k: int| 0 <= k < w.free.len() && w.free[k] == g;
                assert(v.free[k] == g);
            }
            if v.free.contains(g) {
                let k = choose|k: int| 0 <= k < v.free.len() && v.free[k] == g;
                assert(w.free[k] == g);
            }
        }
        assert forall|i: int, j: int| 0 <= i < w.free.len() && 0 <= j < w.free.len() && i
            != j implies w.free[i] != w.free[j] by {
            if i < v.free.len() {
                assert(v.free.contains(w.free[i]));
            }
            if j < v.free.len() {
                assert(v.free.contains(w.free[j]));
            }
        }
        assert forall|i: int| 0 <= i < w.free.len() implies w.knows(#[trigger] w.free[i]) by {
            if i < v.free.len() {
                assert(w.free[i] == v.free[i]);
            }
        }
    } else {
        assert forall|g: u32| w.knows(g) implies (#[trigger] w.free.contains(g) <==> w.subs[g
            - 1] == 0) by {
            assert(v.free.contains(g) <==> v.subs[g - 1] == 0);
        }
    }
}

/// While an id is in use, the stock is not full.
proof fn lemma_stock_has_room(v: PoolView, id: u32)
    requires
        v.valid(),
        v.knows(id),
        v.subs[id - 1] > 0,
    ensures
        v.free.len() < v.subs.len(),
{
    let s = v.free.push(id);
    assert(!v.free.contains(id));
    assert forall|i: int, j: int| 0 <= i < s.len() && 0 <= j < s.len() && i != j implies s[i]
        != s[j] by {
        if i < v.free.len() {
            assert(v.free.contains(s[i]));
        }
        if j < v.free.len() {
            assert(v.free.contains(s[j]));
        }
    }
    assert forall|i: int| 0 <= i < s.len() implies 1 <= #[trigger] s[i] <= v.subs.len() by {
        if i < v.free.len() {
            assert(v.knows(v.free[i]));
        }
    }
    lemma_distinct_ids_bounded(s, v.subs.len());
}

/// A list of distinct ids between `1` and `n` has at most `n` entries.
proof fn lemma_distinct_ids_bounded(s: Seq<u32>, n: nat)
    requires
        s.no_duplicates(),
        forall|i: int| 0 <= i < s.len() ==> 1 <= #[trigger] s[i] <= n,
    ensures
        s.len() <= n,
    decreases n,
{
    if s.len() == 0 {
    } else if n == 0 {
        assert(1 <= s[0] <= 0);
    } else if exists|k: int| 0 <= k < s.len() && s[k] == n {
        let k = choose|k: int| 0 <= k < s.len() && s[k] == n;
        let t = s.remove(k);
        assert forall|i: int| 0 <= i < t.len() implies 1 <= #[trigger] t[i] <= n - 1 by {
            if i < k {
                assert(t[i] == s[i]);
            } else {
                assert(t[i] == s[i + 1]);
            }
        }
        assert forall|i: int, j: int| 0 <= i < t.len() && 0 <= j < t.len() && i != j implies t[i]
            != t[j] by {
            let si = if i < k { i } else { i + 1 };
            let sj = if j < k { j } else { j + 1 };
            assert(t[i] == s[si] && t[j] == s[sj]);
        }
        lemma_distinct_ids_bounded(t, (n - 1) as nat);
    } else {
        assert forall|i: int| 0 <= i < s.len() implies 1 <= #[trigger] s[i] <= n - 1 by {
            assert(s[i] != n);
        }
        lemma_distinct_ids_bounded(s, (n - 1) as nat);
    }
}

/// Moving the front of a ring one slot on moves every entry one place up.
proof fn lemma_ring_step(front: int, next: int, i: int, n: int)
    requires
        0 <= front < n,
        next == if front + 1 == n { 0 } else { front + 1 },
        0 <= i < n,
    ensures
        (next + i) % n == (front + (i + 1)) % n,
{
    if front + 1 == n {
        assert((front + (i + 1)) % n == i) by (nonlinear_arith)
            requires
                front + 1 == n,
                0 <= i < n,
        ;
        assert((0 + i) % n == i) by (nonlinear_arith)
            requires
                0 <= i < n,
        ;
    }
}

/// The slot of entry `i` of a ring that starts at `front`.
proof fn lemma_ring_slot(front: int, i: int, n: int)
    requires
        0 <= front < n,
        0 <= i < n,
    ensures
        (front + i) % n == if i < n - front { front + i } else { i - (n - front) },
{
    if i < n - front {
        assert((front + i) % n == front + i) by (nonlinear_arith)
            requires
                0 <= front + i < n,
        ;
    } else {
        assert((front + i) % n == front + i - n) by (nonlinear_arith)
            requires
                n <= front + i < 2 * n,
        ;
    }
}

/// Two different entries of a ring lie in different slots.
proof fn lemma_ring_distinct(front: int, i: int, j: int, n: int)
    requires
        0 <= front < n,
        0 <= i < n,
        0 <= j < n,
        i != j,
    ensures
        (front + i) % n != (front + j) % n,
{
    lemma_ring_slot(front, i, n);
    lemma_ring_slot(front, j, n);
}

} // verus!
