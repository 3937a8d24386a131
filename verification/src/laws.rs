//! What holds of a broadcast over many reads by many consumers.
//!
//! The laws are stated of a model that keeps positions only: how many items
//! were produced, whether the source has ended, and where each consumer
//! stands. One read of the model is one call of `poll_next` on a handle;
//! `lemma_replay_is_a_read` and `lemma_follow_is_a_read` show that what the
//! handles promise is what the model does.

use crate::state::{needs_source, serve_pos, StateView};
use crate::{followed, replayed, Polled};
use vstd::prelude::*;

verus! {

/// What the source said when it was asked, without the item.
pub enum Answer {
    Item,
    End,
    Pending,
}

/// What a consumer saw on one read, without the item.
pub enum Seen {
    /// The item at `position`, after `skipped` items that the consumer missed.
    Item { position: nat, skipped: nat },
    End,
    Pending,
}

/// One read: consumer `who` asks for its next item. `answer` is what the
/// source said, if it was asked for this read.
pub struct Read {
    pub who: int,
    pub answer: Option<Answer>,
}

/// A broadcast and its consumers, by positions.
pub struct Broadcast {
    /// The number of items produced so far.
    pub global_pos: nat,
    /// How many of the latest items are kept.
    pub capacity: nat,
    /// Whether the source has reported its end.
    pub terminated: bool,
    /// The cursor of each consumer.
    pub cursors: Seq<nat>,
}

impl Broadcast {
    /// The source is asked for a read exactly when the reader has seen all that
    /// was produced and the source has not ended.
    pub open spec fn legal(self, read: Read) -> bool {
        &&& 0 <= read.who < self.cursors.len()
        &&& read.answer is Some <==> needs_source(
            self.global_pos,
            self.terminated,
            self.cursors[read.who],
        )
    }

    /// What the reader sees.
    pub open spec fn seen(self, read: Read) -> Seen {
        let pos = self.cursors[read.who];
        if pos < self.global_pos {
            let from = serve_pos(self.global_pos, self.capacity, pos);
            Seen::Item { position: from, skipped: (from - pos) as nat }
        } else {
            match read.answer {
                Some(Answer::Item) => Seen::Item { position: self.global_pos, skipped: 0 },
                Some(Answer::Pending) => Seen::Pending,
                _ => Seen::End,
            }
        }
    }

    /// The broadcast after the read.
    pub open spec fn after(self, read: Read) -> Broadcast {
        let pos = self.cursors[read.who];
        if pos < self.global_pos {
            let from = serve_pos(self.global_pos, self.capacity, pos);
            Broadcast { cursors: self.cursors.update(read.who, (from + 1) as nat), ..self }
        } else {
            match read.answer {
                Some(Answer::Item) => Broadcast {
                    global_pos: (self.global_pos + 1) as nat,
                    cursors: self.cursors.update(read.who, (pos + 1) as nat),
                    ..self
                },
                Some(Answer::Pending) => self,
                Some(Answer::End) => Broadcast {
                    terminated: true,
                    cursors: self.cursors.update(read.who, (pos + 1) as nat),
                    ..self
                },
                None => Broadcast {
                    cursors: self.cursors.update(
                        read.who,
                        if pos == self.global_pos {
                            (pos + 1) as nat
                        } else {
                            pos
                        },
                    ),
                    ..self
                },
            }
        }
    }

    /// The broadcast after `reads`, one after the other.
    pub open spec fn run(self, reads: Seq<Read>) -> Broadcast
        decreases reads.len(),
    {
        if reads.len() == 0 {
            self
        } else {
            self.run(reads.drop_last()).after(reads.last())
        }
    }

    /// Every one of `reads` is legal in the state in which it is made.
    pub open spec fn legal_run(self, reads: Seq<Read>) -> bool
        decreases reads.len(),
    {
        reads.len() > 0 ==> self.legal_run(reads.drop_last()) && self.run(
            reads.drop_last(),
        ).legal(reads.last())
    }

    /// The items that consumer `who` saw in `reads`, in the order in which it
    /// saw them.
    pub open spec fn log(self, reads: Seq<Read>, who: int) -> Seq<Seen>
        decreases reads.len(),
    {
        if reads.len() == 0 {
            Seq::empty()
        } else {
            let earlier = self.log(reads.drop_last(), who);
            let seen = self.run(reads.drop_last()).seen(reads.last());
            if reads.last().who == who && seen is Item {
                earlier.push(seen)
            } else {
                earlier
            }
        }
    }

    /// Consumer `who` is never more than `capacity` items behind when it reads.
    pub open spec fn in_step(self, reads: Seq<Read>, who: int) -> bool
        decreases reads.len(),
    {
        reads.len() > 0 ==> self.in_step(reads.drop_last(), who) && (reads.last().who == who ==> {
            let then = self.run(reads.drop_last());
            then.global_pos <= then.cursors[who] + then.capacity
        })
    }

    /// The position up to which consumer `who` has been given the items.
    pub open spec fn reached(self, who: int) -> nat {
        if self.cursors[who] > self.global_pos {
            self.global_pos
        } else {
            self.cursors[who]
        }
    }

    /// A consumer is past the last position only when the source has ended.
    pub open spec fn attached(self, who: int) -> bool {
        &&& 0 <= who < self.cursors.len()
        &&& self.cursors[who] <= self.global_pos || (self.terminated && self.cursors[who]
            == self.global_pos + 1)
    }
}

/// How often the source yielded an item in `reads`.
pub open spec fn yields(reads: Seq<Read>) -> nat
    decreases reads.len(),
{
    if reads.len() == 0 {
        0
    } else {
        yields(reads.drop_last()) + if reads.last().answer == Some(Answer::Item) {
            1nat
        } else {
            0nat
        }
    }
}

/// How often the source was asked in `reads`.
pub open spec fn asked(reads: Seq<Read>) -> nat
    decreases reads.len(),
{
    if reads.len() == 0 {
        0
    } else {
        asked(reads.drop_last()) + if reads.last().answer is Some {
            1nat
        } else {
            0nat
        }
    }
}

/// The model of a state and one consumer at `pos`.
pub open spec fn model_of<T>(view: StateView<T>, pos: nat) -> Broadcast {
    Broadcast {
        global_pos: view.global_pos(),
        capacity: view.capacity,
        terminated: view.terminated,
        cursors: seq![pos],
    }
}

/// What a handle's answer shows in the model: the position of the item is the
/// cursor plus what was skipped.
pub open spec fn shape_of<T>(pos: nat, out: Polled<(u64, T)>) -> Seen {
    match out {
        Polled::Item(pair) => Seen::Item { position: (pos + pair.0) as nat, skipped: pair.0 as nat },
        Polled::End => Seen::End,
        Polled::Pending => Seen::Pending,
    }
}

/// The shape of what the source answered.
pub open spec fn answer_of<T>(answer: Polled<T>) -> Answer {
    match answer {
        Polled::Item(_) => Answer::Item,
        Polled::End => Answer::End,
        Polled::Pending => Answer::Pending,
    }
}

/// A handle that is answered without the source does what a read of the model
/// without an answer does.
pub proof fn lemma_replay_is_a_read<T: Clone>(
    view: StateView<T>,
    pos: u64,
    pos_after: u64,
    out: Polled<(u64, T)>,
)
    requires
        view.wf(),
        !view.needs_source(pos as nat),
        replayed(view, pos, pos_after, out),
    ensures
        model_of(view, pos as nat).legal(Read { who: 0, answer: None }),
        model_of(view, pos as nat).after(Read { who: 0, answer: None }) == model_of(
            view,
            pos_after as nat,
        ),
        model_of(view, pos as nat).seen(Read { who: 0, answer: None }) == shape_of(
            pos as nat,
            out,
        ),
{
    let model = model_of(view, pos as nat);
    let read = Read { who: 0, answer: None };
    assert(model.after(read).cursors =~= seq![pos_after as nat]);
}

/// A handle that is answered by the source does what a read of the model with
/// that answer does.
pub proof fn lemma_follow_is_a_read<T: Clone>(
    before: StateView<T>,
    answer: Polled<T>,
    id: u64,
    after: StateView<T>,
    pos: u64,
    pos_after: u64,
    out: Polled<(u64, T)>,
)
    requires
        before.wf(),
        before.needs_source(pos as nat),
        followed(before, answer, id, after, pos, pos_after, out),
    ensures
        model_of(before, pos as nat).legal(Read { who: 0, answer: Some(answer_of(answer)) }),
        model_of(before, pos as nat).after(Read { who: 0, answer: Some(answer_of(answer)) })
            == model_of(after, pos_after as nat),
        model_of(before, pos as nat).seen(Read { who: 0, answer: Some(answer_of(answer)) })
            == shape_of(pos as nat, out),
{
    let model = model_of(before, pos as nat);
    let read = Read { who: 0, answer: Some(answer_of(answer)) };
    assert(model.after(read).cursors =~= seq![pos_after as nat]);
}

/// A run of one more read is the run of the others, and then that read.
proof fn lemma_unfold<A>(reads: Seq<A>, last: A)
    ensures
        reads.push(last).drop_last() == reads,
        reads.push(last).last() == last,
{
    assert(reads.push(last).drop_last() =~= reads);
}

/// Reads made one after the other can be taken in two parts.
pub proof fn lemma_run_splits(b: Broadcast, first: Seq<Read>, rest: Seq<Read>)
    ensures
        b.run(first + rest) == b.run(first).run(rest),
        b.legal_run(first + rest) <==> b.legal_run(first) && b.run(first).legal_run(rest),
    decreases rest.len(),
{
    if rest.len() == 0 {
        assert(first + rest =~= first);
    } else {
        assert((first + rest).drop_last() =~= first + rest.drop_last());
        assert((first + rest).last() == rest.last());
        lemma_run_splits(b, first, rest.drop_last());
    }
}

/// Legal reads never take an item back, never revive a source that has ended,
/// and make one position of each item that the source yields: no item of the
/// source is taken twice, and none is lost.
pub proof fn lemma_each_yield_is_one_position(b: Broadcast, reads: Seq<Read>)
    requires
        b.legal_run(reads),
    ensures
        b.run(reads).global_pos == b.global_pos + yields(reads),
        b.run(reads).capacity == b.capacity,
        b.run(reads).cursors.len() == b.cursors.len(),
        b.terminated ==> b.run(reads).terminated,
        yields(reads) <= asked(reads),
    decreases reads.len(),
{
    if reads.len() > 0 {
        lemma_each_yield_is_one_position(b, reads.drop_last());
    }
}

/// Once the source has reported its end it is never asked again, whoever
/// reads and however often, and nothing more is produced.
pub proof fn lemma_source_is_left_alone_after_its_end(
    b: Broadcast,
    first: Seq<Read>,
    rest: Seq<Read>,
)
    requires
        b.legal_run(first + rest),
        b.run(first).terminated,
    ensures
        asked(rest) == 0,
        b.run(first + rest).terminated,
        b.run(first + rest).global_pos == b.run(first).global_pos,
    decreases rest.len(),
{
    lemma_run_splits(b, first, rest);
    if rest.len() > 0 {
        assert((first + rest).drop_last() =~= first + rest.drop_last());
        lemma_run_splits(b, first, rest.drop_last());
        lemma_source_is_left_alone_after_its_end(b, first, rest.drop_last());
    }
}

/// Where a consumer stands is one of: behind the head, at it, or, after the
/// end, one past it; and legal reads leave it so.
pub proof fn lemma_consumers_stay_attached(b: Broadcast, reads: Seq<Read>, who: int)
    requires
        b.capacity >= 1,
        b.attached(who),
        b.legal_run(reads),
    ensures
        b.run(reads).attached(who),
        b.run(reads).cursors[who] >= b.cursors[who],
    decreases reads.len(),
{
    if reads.len() > 0 {
        lemma_consumers_stay_attached(b, reads.drop_last(), who);
        lemma_each_yield_is_one_position(b, reads.drop_last());
    }
}

/// A consumer that is never more than `capacity` items behind when it reads
/// is given every item from where it started, each once, in the order of
/// production and with nothing skipped. Once it has seen the end, it has been
/// given all that was produced.
pub proof fn lemma_in_step_sees_everything(b: Broadcast, reads: Seq<Read>, who: int)
    requires
        b.capacity >= 1,
        0 <= who < b.cursors.len(),
        b.cursors[who] <= b.global_pos,
        b.legal_run(reads),
        b.in_step(reads, who),
    ensures
        b.log(reads, who).len() == b.run(reads).reached(who) - b.cursors[who],
        forall|i: int|
            0 <= i < b.log(reads, who).len() ==> #[trigger] b.log(reads, who)[i] == (Seen::Item {
                position: (b.cursors[who] + i) as nat,
                skipped: 0,
            }),
    decreases reads.len(),
{
    if reads.len() > 0 {
        let earlier = reads.drop_last();
        lemma_in_step_sees_everything(b, earlier, who);
        lemma_consumers_stay_attached(b, earlier, who);
        lemma_each_yield_is_one_position(b, earlier);
    }
}

/// Two consumers that start with the broadcast, read in any order, are never
/// more than `capacity` items behind when they read, and have both seen the
/// end: each was given every item that the source yielded, once, in the order
/// of production and with nothing skipped, and every item that the source
/// yielded took one position.
pub proof fn lemma_two_consumers_see_each_item_once(b: Broadcast, reads: Seq<Read>)
    requires
        b.capacity >= 1,
        b.global_pos == 0,
        b.cursors == seq![0nat, 0nat],
        b.legal_run(reads),
        b.in_step(reads, 0),
        b.in_step(reads, 1),
        b.run(reads).cursors[0] > b.run(reads).global_pos,
        b.run(reads).cursors[1] > b.run(reads).global_pos,
    ensures
        b.run(reads).global_pos == yields(reads),
        forall|who: int|
            0 <= who < 2 ==> #[trigger] b.log(reads, who) == Seq::new(
                yields(reads),
                |i: int| Seen::Item { position: i as nat, skipped: 0 },
            ),
{
    lemma_each_yield_is_one_position(b, reads);
    assert forall|who: int| 0 <= who < 2 implies #[trigger] b.log(reads, who) == Seq::new(
        yields(reads),
        |i: int| Seen::Item { position: i as nat, skipped: 0 },
    ) by {
        lemma_in_step_sees_everything(b, reads, who);
        assert(b.log(reads, who) =~= Seq::new(
            yields(reads),
            |i: int| Seen::Item { position: i as nat, skipped: 0 },
        ));
    }
}

impl Broadcast {
    /// Every read of consumer `who` in `reads` sees the end, and the source is
    /// not asked for it.
    pub open spec fn sees_only_the_end(self, reads: Seq<Read>, who: int) -> bool
        decreases reads.len(),
    {
        reads.len() > 0 ==> self.sees_only_the_end(reads.drop_last(), who) && (reads.last().who
            == who ==> {
            &&& reads.last().answer is None
            &&& self.run(reads.drop_last()).seen(reads.last()) is End
        })
    }
}

/// A consumer that has seen the end sees the end on every later read, and the
/// source is not asked for any of them.
pub proof fn lemma_the_end_is_final(b: Broadcast, read: Read, reads: Seq<Read>)
    requires
        b.attached(read.who),
        b.legal(read),
        b.seen(read) is End,
        b.after(read).legal_run(reads),
    ensures
        b.after(read).sees_only_the_end(reads, read.who),
        b.after(read).run(reads).cursors[read.who] == b.after(read).cursors[read.who],
        b.after(read).run(reads).global_pos == b.after(read).global_pos,
    decreases reads.len(),
{
    let then = b.after(read);
    assert(then.terminated && then.cursors[read.who] == then.global_pos + 1);
    if reads.len() > 0 {
        lemma_the_end_is_final(b, read, reads.drop_last());
        lemma_each_yield_is_one_position(then, reads.drop_last());
    }
}

/// A consumer that fell behind is given the oldest item that is still kept,
/// and told how many it missed: what it missed and what it is given make up
/// the way to its new cursor. So over any run the items it was given, and
/// those it was told it missed, are as many as the positions it has passed.
pub proof fn lemma_skips_account_for_what_was_missed(b: Broadcast, reads: Seq<Read>, who: int)
    requires
        b.capacity >= 1,
        b.attached(who),
        b.legal_run(reads),
    ensures
        b.run(reads).reached(who) - b.reached(who) == passed(b.log(reads, who)),
    decreases reads.len(),
{
    if reads.len() > 0 {
        let earlier = reads.drop_last();
        lemma_skips_account_for_what_was_missed(b, earlier, who);
        lemma_consumers_stay_attached(b, earlier, who);
        lemma_each_yield_is_one_position(b, earlier);
        let then = b.run(earlier);
        let seen = then.seen(reads.last());
        if reads.last().who == who && seen is Item {
            lemma_unfold(b.log(earlier, who), seen);
        }
    }
}

/// The number of positions that the items of `log` stand for: each item, and
/// what was skipped before it.
pub open spec fn passed(log: Seq<Seen>) -> nat
    decreases log.len(),
{
    if log.len() == 0 {
        0
    } else {
        passed(log.drop_last()) + match log.last() {
            Seen::Item { position, skipped } => skipped + 1,
            _ => 0nat,
        }
    }
}

} // verus!
