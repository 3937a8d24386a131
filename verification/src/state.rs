//! The state that all handles of one broadcast share: the cache of the latest
//! items, the count of items taken from the source, and the consumers that
//! wait to be told of the next item.

use crate::Polled;
use std::task::Waker;
use vstd::arithmetic::div_mod::{lemma_fundamental_div_mod, lemma_mod_bound, lemma_small_mod};
use vstd::prelude::*;

verus! {

/// The position that a consumer at `request_pos` is served from, when
/// `global_pos` items were produced and the last `capacity` of them are kept:
/// its own position, or the oldest one that is kept if it fell behind that.
pub open spec fn serve_pos(global_pos: nat, capacity: nat, request_pos: nat) -> nat {
    if request_pos + capacity < global_pos {
        (global_pos - capacity) as nat
    } else {
        request_pos
    }
}

/// Whether a consumer at `request_pos` can only be answered by asking the
/// source: it has seen all that was produced, and the source has not ended.
pub open spec fn needs_source(global_pos: nat, terminated: bool, request_pos: nat) -> bool {
    request_pos == global_pos && !terminated
}

/// What the shared state stands for.
pub struct StateView<T> {
    /// Every item that was put into the cache, oldest first. The item at index
    /// `p` has position `p`; the positions are never renumbered.
    pub items: Seq<T>,
    /// How many of the latest items are kept for consumers that lag behind.
    pub capacity: nat,
    /// The ids of the consumers that wait for the next item, in the order in
    /// which they began to wait.
    pub parked: Seq<u64>,
    /// Whether the source has reported its end.
    pub terminated: bool,
}

impl<T> StateView<T> {
    /// The number of items produced so far: the position of the next one.
    pub open spec fn global_pos(self) -> nat {
        self.items.len()
    }

    /// The cache keeps at least one item, the count of items fits its
    /// counter with room for a cursor one past it, and nobody waits twice.
    pub open spec fn wf(self) -> bool {
        &&& self.capacity >= 1
        &&& self.items.len() < u64::MAX
        &&& self.parked.no_duplicates()
    }

    /// The position that a consumer at `request_pos` is served from.
    pub open spec fn serve_pos(self, request_pos: nat) -> nat {
        serve_pos(self.items.len(), self.capacity, request_pos)
    }

    /// Whether a consumer at `request_pos` can only be answered by asking the
    /// source.
    pub open spec fn needs_source(self, request_pos: nat) -> bool {
        needs_source(self.items.len(), self.terminated, request_pos)
    }

    /// The state after the source yielded an item of which `stored` went into
    /// the cache: nobody waits any more.
    pub open spec fn yielded(self, stored: T) -> Self {
        StateView { items: self.items.push(stored), parked: Seq::empty(), ..self }
    }

    /// The state after the source reported its end.
    pub open spec fn completed(self) -> Self {
        StateView { terminated: true, ..self }
    }

    /// The state after consumer `id` began to wait. A consumer waits once,
    /// however often it asks.
    pub open spec fn parking(self, id: u64) -> Self {
        StateView {
            parked: if self.parked.contains(id) {
                self.parked
            } else {
                self.parked.push(id)
            },
            ..self
        }
    }
}

/// `out` is what a consumer at `request_pos` is answered from the cache of
/// `view`, without the source: the oldest item that it has not seen and that
/// is still kept, with the position after it; or the end, if it has seen all.
pub open spec fn served<T: Clone>(view: StateView<T>, request_pos: nat, out: Polled<(u64, T)>)
    -> bool {
    if request_pos < view.global_pos() {
        &&& out matches Polled::Item(pair)
        &&& pair.0 == view.serve_pos(request_pos) + 1
        &&& cloned(view.items[view.serve_pos(request_pos) as int], pair.1)
    } else {
        out is End
    }
}

/// `after` and `out` are what becomes of the state `before`, and what consumer
/// `id` at its head is answered, when the source answered `answer`.
pub open spec fn advanced<T: Clone>(
    before: StateView<T>,
    answer: Polled<T>,
    id: u64,
    after: StateView<T>,
    out: Polled<(u64, T)>,
) -> bool {
    match answer {
        Polled::Item(item) => {
            &&& out == Polled::Item(((before.global_pos() + 1) as u64, item))
            &&& after == before.yielded(after.items.last())
            &&& cloned(item, after.items.last())
        },
        Polled::End => out is End && after == before.completed(),
        Polled::Pending => out is Pending && after == before.parking(id),
    }
}

/// Two positions less than `capacity` apart lie in different slots of the ring.
proof fn lemma_slots_differ(p: int, q: int, capacity: int)
    requires
        capacity > 0,
        0 <= p < q < p + capacity,
    ensures
        p % capacity != q % capacity,
{
    lemma_fundamental_div_mod(p, capacity);
    lemma_fundamental_div_mod(q, capacity);
    if p % capacity == q % capacity {
        let k = q / capacity - p / capacity;
        assert(q - p == capacity * k) by (nonlinear_arith)
            requires
                p == capacity * (p / capacity) + p % capacity,
                q == capacity * (q / capacity) + q % capacity,
                p % capacity == q % capacity,
                k == q / capacity - p / capacity,
        ;
        assert(false) by (nonlinear_arith)
            requires
                q - p == capacity * k,
                0 < q - p < capacity,
        ;
    }
}

/// The state shared by the handles of one broadcast.
pub struct StreamBroadcastState<T> {
    global_pos: u64,
    capacity: usize,
    cache: Vec<T>,
    wakable: Vec<(u64, Waker)>,
    terminated: bool,
    items: Ghost<Seq<T>>,
}

impl<T> StreamBroadcastState<T> {
    /// What the state stands for.
    pub closed spec fn view(&self) -> StateView<T> {
        StateView {
            items: self.items@,
            capacity: self.capacity as nat,
            parked: Seq::new(self.wakable@.len(), |i: int| self.wakable@[i].0),
            terminated: self.terminated,
        }
    }

    /// The cache is a ring of `capacity` slots: the item at position `p` lies
    /// in slot `p % capacity` for as long as it is among the latest `capacity`.
    pub closed spec fn cache_holds_latest(&self) -> bool {
        &&& self.global_pos == self.items@.len()
        &&& self.cache@.len() == if self.items@.len() < self.capacity {
            self.items@.len()
        } else {
            self.capacity as nat
        }
        &&& forall|p: int|
            self.items@.len() - self.capacity <= p && 0 <= p < self.items@.len()
                ==> self.cache@[p % (self.capacity as int)] == #[trigger] self.items@[p]
    }

    /// The state is sound: every function of the library leaves it so.
    pub open spec fn wf(&self) -> bool {
        self@.wf() && self.cache_holds_latest()
    }

    /// A state that has produced nothing yet and keeps the latest `size` items.
    pub fn new(size: usize) -> (state: Self)
        requires
            size >= 1,
        ensures
            state.wf(),
            state@ == (StateView::<T> {
                items: Seq::empty(),
                capacity: size as nat,
                parked: Seq::empty(),
                terminated: false,
            }),
    {
        let state = StreamBroadcastState {
            global_pos: 0,
            capacity: size,
            cache: Vec::with_capacity(size),
            wakable: Vec::new(),
            terminated: false,
            items: Ghost(Seq::empty()),
        };
        assert(state@.parked =~= Seq::empty());
        state
    }

    /// The number of items produced so far.
    pub fn global_pos(&self) -> (pos: u64)
        requires
            self.wf(),
        ensures
            pos == self@.global_pos(),
    {
        self.global_pos
    }

    /// How many of the latest items are kept.
    pub fn capacity(&self) -> (size: usize)
        ensures
            size == self@.capacity,
    {
        self.capacity
    }

    /// Whether the source has reported its end.
    pub fn is_terminated(&self) -> (ended: bool)
        ensures
            ended == self@.terminated,
    {
        self.terminated
    }

    /// Whether a consumer at `request_pos` can only be answered by asking the
    /// source.
    pub fn needs_source(&self, request_pos: u64) -> (needed: bool)
        requires
            self.wf(),
        ensures
            needed == self@.needs_source(request_pos as nat),
    {
        request_pos == self.global_pos && !self.terminated
    }

}

impl<T: Clone> StreamBroadcastState<T> {
    /// Answers a consumer at `request_pos` without the source: from the cache
    /// if it is behind, and with the end if it has seen all there is.
    pub fn serve(&self, request_pos: u64) -> (out: Polled<(u64, T)>)
        requires
            self.wf(),
        ensures
            served(self@, request_pos as nat, out),
    {
        if self.global_pos > request_pos {
            let cap = self.capacity as u64;
            let return_pos = if self.global_pos - request_pos > cap {
                self.global_pos - cap
            } else {
                request_pos
            };
            let slot = (return_pos % cap) as usize;
            proof {
                lemma_fundamental_div_mod(return_pos as int, cap as int);
                lemma_mod_bound(return_pos as int, cap as int);
                if return_pos < cap {
                    lemma_small_mod(return_pos as nat, cap as nat);
                }
            }
            let item = self.cache[slot].clone();
            Polled::Item((return_pos + 1, item))
        } else {
            Polled::End
        }
    }

    /// Wakes every waiting consumer but `id`, in the order in which they began
    /// to wait, and forgets them all.
    fn wake_parked(&mut self, id: u64)
        requires
            old(self).wf(),
        ensures
            final(self).wf(),
            final(self)@ == (StateView { parked: Seq::empty(), ..old(self)@ }),
    {
        let mut parked: Vec<(u64, Waker)> = Vec::new();
        std::mem::swap(&mut self.wakable, &mut parked);
        assert(self@.parked =~= Seq::empty());
        for entry in parked {
            if entry.0 != id {
                entry.1.wake();
            }
        }
    }

    /// Notes that consumer `id` waits, to be woken through a copy of `waker`.
    /// If it waited already, the copy takes the place of the waker it left.
    fn park(&mut self, id: u64, waker: &Waker)
        requires
            old(self).wf(),
        ensures
            final(self).wf(),
            final(self)@ == old(self)@.parking(id),
    {
        let ghost before = old(self)@;
        let mut i: usize = 0;
        while i < self.wakable.len()
            invariant
                i <= self.wakable.len(),
                self.wf(),
                self@ == before,
                before == old(self)@,
                forall|j: int| 0 <= j < i ==> before.parked[j] != id,
            decreases self.wakable.len() - i,
        {
            if self.wakable[i].0 == id {
                assert(before.parked[i as int] == id);
                assert(before.parked.contains(id));
                self.wakable[i] = (id, waker.clone());
                assert(self@.parked =~= before.parked);
                return ;
            }
            i += 1;
        }
        self.wakable.push((id, waker.clone()));
        assert(self@.parked =~= before.parked.push(id));
        assert(!before.parked.contains(id));
    }

    /// Takes in what the source answered to a poll made for consumer `id`, who
    /// has seen all that was produced. An item goes into the cache, in place of
    /// the oldest one if the cache is full, and every other waiting consumer is
    /// woken; the end is remembered; and if the source has nothing yet, the
    /// consumer waits, to be woken through a copy of `waker`.
    pub fn advance(&mut self, answer: Polled<T>, waker: &Waker, id: u64) -> (out: Polled<(u64, T)>)
        requires
            old(self).wf(),
            !old(self)@.terminated,
            answer is Item ==> old(self)@.global_pos() + 1 < u64::MAX,
        ensures
            final(self).wf(),
            advanced(old(self)@, answer, id, final(self)@, out),
    {
        match answer {
            Polled::Item(item) => {
                self.wake_parked(id);
                let stored = item.clone();
                let ghost kept = stored;
                let ghost before = *self;
                if self.cache.len() < self.capacity {
                    self.cache.push(stored);
                } else {
                    let slot = (self.global_pos % (self.capacity as u64)) as usize;
                    proof {
                        lemma_mod_bound(self.global_pos as int, self.capacity as int);
                    }
                    self.cache[slot] = stored;
                }
                self.items = Ghost(before.items@.push(kept));
                self.global_pos += 1;
                proof {
                    let capacity = self.capacity as int;
                    let produced = before.items@.len() as int;
                    assert forall|p: int|
                        self.items@.len() - capacity <= p && 0 <= p < self.items@.len()
                            implies self.cache@[p % capacity] == #[trigger] self.items@[p] by {
                        if p < produced {
                            lemma_slots_differ(p, produced, capacity);
                            lemma_mod_bound(p, capacity);
                            if produced < capacity {
                                lemma_small_mod(p as nat, capacity as nat);
                            }
                        } else if produced < capacity {
                            lemma_small_mod(produced as nat, capacity as nat);
                        }
                    }
                    assert(self@.items.last() == kept);
                }
                Polled::Item((self.global_pos, item))
            },
            Polled::End => {
                self.terminated = true;
                Polled::End
            },
            Polled::Pending => {
                self.park(id, waker);
                Polled::Pending
            },
        }
    }

    /// Answers consumer `id`, who is at `request_pos`: from the cache if it is
    /// behind, with the end if it has seen all and the source has ended, and
    /// else by what `source` answers, which is called once. In the two first
    /// cases `source` is not called at all, so that it need not even be
    /// callable.
    pub fn poll<F: FnOnce() -> Polled<T>>(
        &mut self,
        source: F,
        waker: &Waker,
        request_pos: u64,
        id: u64,
    ) -> (out: Polled<(u64, T)>)
        requires
            old(self).wf(),
            old(self)@.needs_source(request_pos as nat) ==> source.requires(()),
            old(self)@.needs_source(request_pos as nat) ==> old(self)@.global_pos() + 1 < u64::MAX,
        ensures
            final(self).wf(),
            !old(self)@.needs_source(request_pos as nat) ==> final(self)@ == old(self)@ && served(
                old(self)@,
                request_pos as nat,
                out,
            ),
            old(self)@.needs_source(request_pos as nat) ==> exists|answer: Polled<T>|
                source.ensures((), answer) && advanced(
                    old(self)@,
                    answer,
                    id,
                    final(self)@,
                    out,
                ),
    {
        if self.needs_source(request_pos) {
            let answer = source();
            self.advance(answer, waker, id)
        } else {
            self.serve(request_pos)
        }
    }
}

} // verus!
