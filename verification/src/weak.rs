//! Handles that read a broadcast without keeping it alive.

use crate::state::StreamBroadcastState;
use crate::{broadcast_next, create_id, followed, id_after, replayed, IdCounter, Polled, StreamBroadcast};
use std::task::Waker;
use vstd::prelude::*;

verus! {

/// A handle that does not keep the broadcast alive: its consumer's id and
/// cursor. Once the broadcast is gone, the consumer sees the end.
pub struct WeakStreamBroadcast {
    pos: u64,
    id: u64,
}

impl WeakStreamBroadcast {
    /// The cursor, in contracts.
    pub closed spec fn spec_pos(&self) -> u64 {
        self.pos
    }

    /// The consumer's id, in contracts.
    pub closed spec fn spec_id(&self) -> u64 {
        self.id
    }

    /// The position of the next item that the consumer has not seen.
    #[verifier::when_used_as_spec(spec_pos)]
    pub fn pos(&self) -> (pos: u64)
        ensures
            pos == self.spec_pos(),
    {
        self.pos
    }

    /// The consumer's id.
    #[verifier::when_used_as_spec(spec_id)]
    pub fn id(&self) -> (id: u64)
        ensures
            id == self.spec_id(),
    {
        self.id
    }

    /// A weak handle at `pos`, for a consumer of its own.
    pub(crate) fn new(pos: u64, ids: &mut IdCounter) -> (weak: Self)
        ensures
            weak.pos() == pos,
            weak.id() == old(ids)@,
            final(ids)@ == id_after(old(ids)@),
    {
        WeakStreamBroadcast { pos, id: create_id(ids) }
    }

    /// A handle that keeps the broadcast alive, for a consumer of its own that
    /// starts where this one stands; or nothing, if the broadcast is gone.
    /// `state` is the shared state, if it still exists.
    pub fn upgrade<T>(&self, state: Option<&StreamBroadcastState<T>>, ids: &mut IdCounter) -> (strong:
        Option<StreamBroadcast>)
        ensures
            strong is Some <==> state is Some,
            strong matches Some(handle) ==> {
                &&& handle.pos() == self.pos()
                &&& handle.id() == old(ids)@
                &&& final(ids)@ == id_after(old(ids)@)
            },
            strong is None ==> final(ids)@ == old(ids)@,
    {
        match state {
            Some(_) => Some(StreamBroadcast::at(self.pos, ids)),
            None => None,
        }
    }

    /// Another weak handle, for a consumer of its own. While the broadcast
    /// exists it starts at the present; once the broadcast is gone, where it
    /// starts is of no account, and it starts at 0.
    pub fn clone<T>(&self, state: Option<&StreamBroadcastState<T>>, ids: &mut IdCounter) -> (copy:
        Self)
        requires
            state matches Some(shared) ==> shared.wf(),
        ensures
            copy.pos() == match state {
                Some(shared) => shared@.global_pos(),
                None => 0,
            },
            copy.id() == old(ids)@,
            final(ids)@ == id_after(old(ids)@),
    {
        let id = create_id(ids);
        let pos = match state {
            Some(shared) => shared.global_pos(),
            None => 0,
        };
        WeakStreamBroadcast { pos, id }
    }

    /// The next item for this handle's consumer, as for a strong handle; or
    /// the end, at once and without anything else being done, if the broadcast
    /// is gone. `state` is the shared state, if it still exists.
    pub fn poll_next<T: Clone, F: FnOnce() -> Polled<T>>(
        &mut self,
        state: Option<&mut StreamBroadcastState<T>>,
        source: F,
        waker: &Waker,
    ) -> (out: Polled<(u64, T)>)
        requires
            state matches Some(shared) ==> {
                &&& shared.wf()
                &&& shared@.needs_source(old(self).pos() as nat) ==> source.requires(())
                &&& shared@.needs_source(old(self).pos() as nat) ==> shared@.global_pos() + 1
                    < u64::MAX
            },
        ensures
            final(self).id() == old(self).id(),
            state is None ==> out is End && final(self).pos() == old(self).pos(),
            state matches Some(shared) ==> {
                &&& final(shared).wf()
                &&& !shared@.needs_source(old(self).pos() as nat) ==> final(shared)@ == shared@
                    && replayed(shared@, old(self).pos(), final(self).pos(), out)
                &&& shared@.needs_source(old(self).pos() as nat) ==> exists|answer: Polled<T>|
                    source.ensures((), answer) && followed(
                        shared@,
                        answer,
                        old(self).id(),
                        final(shared)@,
                        old(self).pos(),
                        final(self).pos(),
                        out,
                    )
            },
    {
        match state {
            Some(shared) => {
                let ghost before = shared@;
                let out = broadcast_next(shared, source, waker, &mut self.pos, self.id);
                proof {
                    if before.needs_source(old(self).pos() as nat) {
                        let polled = choose|polled: Polled<T>|
                            source.ensures((), polled) && followed(
                                before,
                                polled,
                                old(self).id(),
                                shared@,
                                old(self).pos(),
                                self.pos(),
                                out,
                            );
                        assert(source.ensures((), polled));
                    }
                }
                out
            },
            None => Polled::End,
        }
    }

    /// Whether the source has reported its end, or the broadcast is gone.
    /// `state` is the shared state, if it still exists.
    pub fn is_terminated<T>(&self, state: Option<&StreamBroadcastState<T>>) -> (ended: bool)
        ensures
            ended == match state {
                Some(shared) => shared@.terminated,
                None => true,
            },
    {
        match state {
            Some(shared) => shared.is_terminated(),
            None => true,
        }
    }
}

} // verus!
