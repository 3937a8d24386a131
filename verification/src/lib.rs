//! Fan-out of one source of items to many consumers, each reading at its own
//! pace, while the source is asked at most once for each item.
//!
//! The consumers share a [`state::StreamBroadcastState`]: a count of the items
//! produced so far, a cache of the latest of them, and the tasks to wake when
//! the next one arrives. Each consumer has a handle, strong
//! ([`StreamBroadcast`]) or weak ([`weak::WeakStreamBroadcast`]), that holds
//! its id and its cursor. The library neither owns the source nor locks the
//! state: whoever calls it hands it the state, and a closure that polls the
//! source. The library calls the closure only for a consumer that has seen all
//! that was produced, and never once the source has reported its end.
//!
//! What holds over many reads is proved in [`laws`].

pub mod laws;
pub mod state;
pub mod wake;
pub mod weak;

use crate::state::{advanced, StateView, StreamBroadcastState};
use crate::weak::WeakStreamBroadcast;
use std::task::Waker;

use vstd::prelude::*;

verus! {

/// The answer to one poll: of the source (`V` is then the item itself), of the
/// shared state (the position that follows the item, and the item) or of a
/// handle (the number of items that the consumer missed, and the item).
#[derive(Debug, PartialEq, Eq)]
pub enum Polled<V> {
    /// One more item.
    Item(V),
    /// The end of the stream: nothing will follow.
    End,
    /// Nothing yet; the consumer is told when to poll again.
    Pending,
}

/// Hands out consumer ids: each id is the number of ids handed out before it,
/// counted modulo 2^64.
pub struct IdCounter {
    next: u64,
}

impl IdCounter {
    /// The id that the next call of [`create_id`] returns.
    pub closed spec fn view(&self) -> u64 {
        self.next
    }

    /// A counter that has handed out nothing yet.
    pub fn new() -> (counter: Self)
        ensures
            counter@ == 0,
    {
        IdCounter { next: 0 }
    }
}

/// The id that follows `id`; after the largest one the count starts again at 0.
pub open spec fn id_after(id: u64) -> u64 {
    if id == u64::MAX {
        0
    } else {
        (id + 1) as u64
    }
}

/// Takes the next consumer id from `counter`.
pub fn create_id(counter: &mut IdCounter) -> (id: u64)
    ensures
        id == old(counter)@,
        final(counter)@ == id_after(id),
{
    let id: u64 = counter.next;
    counter.next = id.wrapping_add(1);
    id
}

/// `pos_after` and `out` are what a consumer at `pos` has and sees when it is
/// answered from the cache of `view`, without the source: the oldest item that
/// it has not seen and that is still kept, with the number of items that it
/// missed; or the end, if it has seen all there is. A consumer that sees the end
/// for the first time steps past the last position, and stays there.
pub open spec fn replayed<T: Clone>(
    view: StateView<T>,
    pos: u64,
    pos_after: u64,
    out: Polled<(u64, T)>,
) -> bool {
    if pos < view.global_pos() {
        let from = view.serve_pos(pos as nat);
        &&& out matches Polled::Item(pair)
        &&& pair.0 == from - pos
        &&& cloned(view.items[from as int], pair.1)
        &&& pos_after == from + 1
    } else {
        &&& out is End
        &&& pos_after == if pos == view.global_pos() {
            pos + 1
        } else {
            pos as int
        }
    }
}

/// `after`, `pos_after` and `out` are what becomes of the state `before`, and
/// what consumer `id` at its head `pos` has and sees, when the source answered
/// `answer`.
pub open spec fn followed<T: Clone>(
    before: StateView<T>,
    answer: Polled<T>,
    id: u64,
    after: StateView<T>,
    pos: u64,
    pos_after: u64,
    out: Polled<(u64, T)>,
) -> bool {
    match answer {
        Polled::Item(item) => {
            &&& out == Polled::Item((0u64, item))
            &&& pos_after == pos + 1
            &&& after == before.yielded(after.items.last())
            &&& cloned(item, after.items.last())
        },
        Polled::End => out is End && pos_after == pos + 1 && after == before.completed(),
        Polled::Pending => out is Pending && pos_after == pos && after == before.parking(id),
    }
}

/// `pos_after` and `out` are what a consumer at `pos` has and sees once the
/// shared state, which has produced `global_pos` items, answered `answer`.
pub open spec fn translated<T>(
    answer: Polled<(u64, T)>,
    pos: u64,
    global_pos: u64,
    pos_after: u64,
    out: Polled<(u64, T)>,
) -> bool {
    match answer {
        Polled::Item(pair) => {
            &&& out == Polled::Item(((pair.0 - pos - 1) as u64, pair.1))
            &&& pos_after == pair.0
        },
        Polled::End => {
            &&& out is End
            &&& pos_after == if pos == global_pos {
                pos + 1
            } else {
                pos as int
            }
        },
        Polled::Pending => out is Pending && pos_after == pos,
    }
}

/// Turns what the shared state answered into what the consumer sees: in place
/// of the position after the item, the number of items that the consumer
/// missed since its last one. The cursor moves to the position after the item;
/// at the end it steps past the last position, once.
pub fn translate<T>(answer: Polled<(u64, T)>, pos: &mut u64, global_pos: u64) -> (out: Polled<
    (u64, T),
>)
    requires
        answer matches Polled::Item(pair) ==> pair.0 > *old(pos),
        answer is End ==> global_pos < u64::MAX,
    ensures
        translated(answer, *old(pos), global_pos, *final(pos), out),
{
    match answer {
        Polled::Item((new_pos, item)) => {
            let offset = new_pos - *pos - 1;
            *pos = new_pos;
            Polled::Item((offset, item))
        },
        Polled::End => {
            if *pos == global_pos {
                *pos = *pos + 1;
            }
            Polled::End
        },
        Polled::Pending => Polled::Pending,
    }
}

/// Answers consumer `id`, whose cursor is `pos`, from `state`, and moves the
/// cursor. `source` is called, once, only if the consumer has seen all that was
/// produced and the source has not ended.
pub fn broadcast_next<T: Clone, F: FnOnce() -> Polled<T>>(
    state: &mut StreamBroadcastState<T>,
    source: F,
    waker: &Waker,
    pos: &mut u64,
    id: u64,
) -> (out: Polled<(u64, T)>)
    requires
        old(state).wf(),
        old(state)@.needs_source(*old(pos) as nat) ==> source.requires(()),
        old(state)@.needs_source(*old(pos) as nat) ==> old(state)@.global_pos() + 1 < u64::MAX,
    ensures
        final(state).wf(),
        !old(state)@.needs_source(*old(pos) as nat) ==> final(state)@ == old(state)@ && replayed(
            old(state)@,
            *old(pos),
            *final(pos),
            out,
        ),
        old(state)@.needs_source(*old(pos) as nat) ==> exists|answer: Polled<T>|
            source.ensures((), answer) && followed(
                old(state)@,
                answer,
                id,
                final(state)@,
                *old(pos),
                *final(pos),
                out,
            ),
{
    let answer = state.poll(source, waker, *pos, id);
    let out = translate(answer, pos, state.global_pos());
    proof {
        if old(state)@.needs_source(*old(pos) as nat) {
            let polled = choose|polled: Polled<T>|
                source.ensures((), polled) && advanced(
                    old(state)@,
                    polled,
                    id,
                    state@,
                    answer,
                );
            assert(followed(old(state)@, polled, id, state@, *old(pos), *pos, out));
        }
    }
    out
}

/// A handle that keeps the broadcast alive: its consumer's id and cursor, the
/// position of the next item that the consumer has not seen.
pub struct StreamBroadcast {
    pos: u64,
    id: u64,
}

impl StreamBroadcast {
    /// The cursor, in contracts.
    pub closed spec fn spec_pos(&self) -> u64 {
        self.pos
    }

    /// The consumer's id, in contracts.
    pub closed spec fn spec_id(&self) -> u64 {
        self.id
    }

    /// The position of the next item that the consumer has not seen.
    #[verifier::when_used_as_spec(spec_pos)]
    pub fn pos(&self) -> (pos: u64)
        ensures
            pos == self.spec_pos(),
    {
        self.pos
    }

    /// The consumer's id.
    #[verifier::when_used_as_spec(spec_id)]
    pub fn id(&self) -> (id: u64)
        ensures
            id == self.spec_id(),
    {
        self.id
    }

    /// A handle at `pos`, for a consumer of its own.
    pub(crate) fn at(pos: u64, ids: &mut IdCounter) -> (handle: Self)
        ensures
            handle.pos() == pos,
            handle.id() == old(ids)@,
            final(ids)@ == id_after(old(ids)@),
    {
        StreamBroadcast { pos, id: create_id(ids) }
    }

    /// A new broadcast that keeps the latest `size` items, and its first
    /// handle, which starts at the first item.
    pub fn new<T>(size: usize, ids: &mut IdCounter) -> (made: (Self, StreamBroadcastState<T>))
        requires
            size >= 1,
        ensures
            made.0.pos() == 0,
            made.0.id() == old(ids)@,
            final(ids)@ == id_after(old(ids)@),
            made.1.wf(),
            made.1@ == (StateView::<T> {
                items: Seq::empty(),
                capacity: size as nat,
                parked: Seq::empty(),
                terminated: false,
            }),
    {
        let state = StreamBroadcastState::new(size);
        (StreamBroadcast { pos: 0, id: create_id(ids) }, state)
    }

    /// Another handle on the same broadcast, for a consumer of its own. It
    /// starts at the present: it sees what is produced from now on, and nothing
    /// of what was produced before.
    pub fn clone<T>(&self, state: &StreamBroadcastState<T>, ids: &mut IdCounter) -> (copy:
        Self)
        requires
            state.wf(),
        ensures
            copy.pos() == state@.global_pos(),
            copy.id() == old(ids)@,
            final(ids)@ == id_after(old(ids)@),
    {
        StreamBroadcast { pos: state.global_pos(), id: create_id(ids) }
    }

    /// A handle for a consumer of its own that does not keep the broadcast
    /// alive. It starts where this one stands.
    pub fn downgrade(&self, ids: &mut IdCounter) -> (weak: WeakStreamBroadcast)
        ensures
            weak.pos() == self.pos(),
            weak.id() == old(ids)@,
            final(ids)@ == id_after(old(ids)@),
    {
        WeakStreamBroadcast::new(self.pos, ids)
    }

    /// The older name of [`StreamBroadcast::downgrade`].
    pub fn weak(&self, ids: &mut IdCounter) -> (weak: WeakStreamBroadcast)
        ensures
            weak.pos() == self.pos(),
            weak.id() == old(ids)@,
            final(ids)@ == id_after(old(ids)@),
    {
        WeakStreamBroadcast::new(self.pos, ids)
    }

    /// The next item for this handle's consumer, with the number of items that
    /// it missed because they had left the cache; or the end.
    pub fn poll_next<T: Clone, F: FnOnce() -> Polled<T>>(
        &mut self,
        state: &mut StreamBroadcastState<T>,
        source: F,
        waker: &Waker,
    ) -> (out: Polled<(u64, T)>)
        requires
            old(state).wf(),
            old(state)@.needs_source(old(self).pos() as nat) ==> source.requires(()),
            old(state)@.needs_source(old(self).pos() as nat) ==> old(state)@.global_pos() + 1
                < u64::MAX,
        ensures
            final(state).wf(),
            final(self).id() == old(self).id(),
            !old(state)@.needs_source(old(self).pos() as nat) ==> final(state)@ == old(state)@
                && replayed(old(state)@, old(self).pos(), final(self).pos(), out),
            old(state)@.needs_source(old(self).pos() as nat) ==> exists|answer: Polled<T>|
                source.ensures((), answer) && followed(
                    old(state)@,
                    answer,
                    old(self).id(),
                    final(state)@,
                    old(self).pos(),
                    final(self).pos(),
                    out,
                ),
    {
        let out = broadcast_next(state, source, waker, &mut self.pos, self.id);
        proof {
            if old(state)@.needs_source(old(self).pos() as nat) {
                let polled = choose|polled: Polled<T>|
                    source.ensures((), polled) && followed(
                        old(state)@,
                        polled,
                        old(self).id(),
                        state@,
                        old(self).pos(),
                        self.pos(),
                        out,
                    );
                assert(source.ensures((), polled));
            }
        }
        out
    }

    /// Whether the source has reported its end.
    pub fn is_terminated<T>(&self, state: &StreamBroadcastState<T>) -> (ended: bool)
        ensures
            ended == state@.terminated,
    {
        state.is_terminated()
    }
}

} // verus!
