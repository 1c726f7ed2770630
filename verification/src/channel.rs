//! The command channel as the contracts see it: a queue of transport
//! operations, handed out one at a time, with busy waits that the answers
//! of the transport drive.

use crate::wire::{lemma_reads_concat, lemma_single_received, reads, released, BusyWait, Event, Op};
use vstd::prelude::*;

verus! {

/// The state of a command channel.
pub struct Channel {
    /// How the panel signals busy and how the channel waits for it.
    pub wait: BusyWait,
    /// The operations queued and not yet handed out, first one first.
    /// A `ReadBusy` in the queue stands for a whole busy wait: the line is
    /// read, and for as long as it reads busy the poll operations of
    /// `wait` and another read follow.
    pub pending: Seq<Op>,
    /// Whether a read of the busy line was handed out and is unanswered.
    pub awaiting: bool,
}

impl Channel {
    /// A channel with nothing queued.
    pub open spec fn idle(wait: BusyWait) -> Channel {
        Channel { wait, pending: Seq::empty(), awaiting: false }
    }

    /// The channel with further operations queued behind those it holds.
    pub open spec fn queue(self, ops: Seq<Op>) -> Channel {
        Channel { pending: self.pending + ops, ..self }
    }

    /// The channel with its queue replaced.
    pub open spec fn holding(self, ops: Seq<Op>) -> Channel {
        Channel { pending: ops, ..self }
    }

    /// Hands out the first queued operation, where no read is unanswered.
    /// A read stays at the head of the queue until the line reads idle.
    pub open spec fn issue(self) -> (Channel, Option<Op>) {
        if self.pending.len() == 0 {
            (self, None)
        } else if self.pending[0] is ReadBusy {
            (Channel { awaiting: true, ..self }, Some(Op::ReadBusy))
        } else {
            (self.holding(self.pending.skip(1)), Some(self.pending[0]))
        }
    }

    /// The next state and the operation to carry out next, if any, after
    /// the transport has reported `event`.
    ///
    /// A failed write empties the queue, so that nothing follows it. The
    /// answer to an outstanding read decides: a busy level puts the poll
    /// operations in front of the read, an idle level removes the read.
    /// Until the answer comes the read is asked for again. A level that was
    /// not asked for counts as a plain completion.
    pub open spec fn advance(self, event: Event) -> (Channel, Option<Op>) {
        match event {
            Event::WriteFailed => (Channel::idle(self.wait), None),
            Event::BusyLevel { high } => if !self.awaiting {
                self.issue()
            } else if self.wait.is_busy(high) {
                Channel { awaiting: false, ..self }.holding(
                    self.wait.poll_ops() + self.pending,
                ).issue()
            } else {
                Channel { awaiting: false, ..self }.holding(self.pending.skip(1)).issue()
            },
            Event::Completed => if self.awaiting {
                (self, Some(Op::ReadBusy))
            } else {
                self.issue()
            },
        }
    }

    /// The operations that the channel hands out, in order, when every
    /// action succeeds and the reads of the busy line are answered by
    /// `levels` in turn (`true` for high). The run ends when the queue is
    /// empty, or with the read for which no level is left.
    pub open spec fn trace(self, levels: Seq<bool>) -> Seq<Op>
        decreases levels.len(), self.pending.len(), (if self.awaiting {
            0nat
        } else {
            1nat
        }),
    {
        if self.awaiting && levels.len() == 0 {
            Seq::empty()
        } else {
            let event = if self.awaiting {
                Event::BusyLevel { high: levels[0] }
            } else {
                Event::Completed
            };
            let rest = if self.awaiting {
                levels.skip(1)
            } else {
                levels
            };
            match self.advance(event) {
                (next, Some(op)) => seq![op] + next.trace(rest),
                (_, None) => Seq::empty(),
            }
        }
    }
}

/// The operations of `rounds` polls in a row: each a read of the busy line
/// that reads busy, followed by the poll operations.
pub open spec fn poll_rounds(wait: BusyWait, rounds: nat) -> Seq<Op>
    decreases rounds,
{
    if rounds == 0 {
        Seq::empty()
    } else {
        seq![Op::ReadBusy] + wait.poll_ops() + poll_rounds(wait, (rounds - 1) as nat)
    }
}

/// A sequence holds no read of the busy line exactly if none of its
/// operations is one.
pub proof fn lemma_reads_none(ops: Seq<Op>)
    ensures
        reads(ops) == 0 <==> forall|i: int| 0 <= i < ops.len() ==> !(#[trigger] ops[i] is ReadBusy),
    decreases ops.len(),
{
    if ops.len() > 0 {
        lemma_reads_none(ops.drop_last());
        if reads(ops) == 0 {
            assert forall|i: int| 0 <= i < ops.len() implies !(#[trigger] ops[i] is ReadBusy) by {
                if i < ops.len() - 1 {
                    assert(ops.drop_last()[i] == ops[i]);
                }
            }
        } else if !(ops.last() is ReadBusy) {
            let i = choose|i: int|
                0 <= i < ops.drop_last().len() && #[trigger] ops.drop_last()[i] is ReadBusy;
            assert(ops[i] is ReadBusy);
        }
    }
}

/// The reads of a sequence are those of its first operation and those of
/// the rest.
pub proof fn lemma_reads_first(ops: Seq<Op>)
    requires
        ops.len() > 0,
    ensures
        reads(ops) == reads(ops.skip(1)) + if ops[0] is ReadBusy {
            1nat
        } else {
            0nat
        },
{
    assert(ops =~= seq![ops[0]] + ops.skip(1));
    lemma_reads_concat(seq![ops[0]], ops.skip(1));
    lemma_single_received(ops[0], released(false));
}

/// Operations without a read among them are handed out unchanged and in
/// order, whatever the busy line does; the run goes on with what is queued
/// behind them.
pub proof fn lemma_trace_prefix(c: Channel, ops: Seq<Op>, rest: Seq<Op>, levels: Seq<bool>)
    requires
        !c.awaiting,
        c.pending == ops + rest,
        reads(ops) == 0,
    ensures
        c.trace(levels) == ops + c.holding(rest).trace(levels),
    decreases ops.len(),
{
    if ops.len() == 0 {
        assert(ops + rest =~= rest);
        assert(ops + c.holding(rest).trace(levels) =~= c.holding(rest).trace(levels));
    } else {
        lemma_reads_none(ops);
        lemma_reads_first(ops);
        let next = c.holding(c.pending.skip(1));
        assert(c.pending[0] == ops[0]);
        assert(c.advance(Event::Completed) == (next, Some(ops[0])));
        assert(c.pending.skip(1) =~= ops.skip(1) + rest);
        lemma_trace_prefix(next, ops.skip(1), rest, levels);
        assert(next.holding(rest) == c.holding(rest));
        assert(seq![ops[0]] + (ops.skip(1) + c.holding(rest).trace(levels)) =~= ops + c.holding(
            rest,
        ).trace(levels));
    }
}

/// With a busy line that reads idle whenever it is read, the channel hands
/// out exactly what is queued: every wait is a single read.
pub proof fn lemma_trace_idle(c: Channel, levels: Seq<bool>)
    requires
        !c.awaiting,
        reads(c.pending) <= levels.len(),
        forall|i: int| 0 <= i < levels.len() ==> !c.wait.is_busy(#[trigger] levels[i]),
    ensures
        c.trace(levels) == c.pending,
    decreases c.pending.len(),
{
    if c.pending.len() == 0 {
        assert(c.trace(levels) =~= c.pending);
    } else {
        lemma_reads_first(c.pending);
        let tail = c.holding(c.pending.skip(1));
        if c.pending[0] is ReadBusy {
            let asked = Channel { awaiting: true, ..c };
            assert(c.advance(Event::Completed) == (asked, Some(Op::ReadBusy)));
            assert(c.trace(levels) == seq![Op::ReadBusy] + asked.trace(levels));
            assert(!c.wait.is_busy(levels[0]));
            assert(Channel { awaiting: false, ..asked }.holding(asked.pending.skip(1)) == tail);
            assert(asked.advance(Event::BusyLevel { high: levels[0] }) == tail.issue());
            assert(tail.advance(Event::Completed) == tail.issue());
            assert(asked.trace(levels) == tail.trace(levels.skip(1)));
            lemma_trace_idle(tail, levels.skip(1));
        } else {
            assert(c.advance(Event::Completed) == (tail, Some(c.pending[0])));
            lemma_trace_idle(tail, levels);
        }
        assert(seq![c.pending[0]] + c.pending.skip(1) =~= c.pending);
    }
}

/// A busy wait on a line that reads busy `rounds` times and then idle hands
/// out exactly `rounds` polls, each a read followed by the status query and
/// the pause, then the read that finds the line idle; the run goes on with
/// what is queued behind the wait and with the levels that are left.
pub proof fn lemma_trace_wait(c: Channel, rest: Seq<Op>, levels: Seq<bool>, rounds: nat)
    requires
        !c.awaiting,
        c.pending == seq![Op::ReadBusy] + rest,
        rounds < levels.len(),
        forall|i: int| 0 <= i < rounds ==> c.wait.is_busy(#[trigger] levels[i]),
        !c.wait.is_busy(levels[rounds as int]),
    ensures
        c.trace(levels) == poll_rounds(c.wait, rounds) + seq![Op::ReadBusy] + c.holding(rest).trace(
            levels.skip(rounds as int + 1),
        ),
    decreases rounds,
{
    let asked = Channel { awaiting: true, ..c };
    let after = c.holding(rest);
    assert(c.pending[0] is ReadBusy);
    assert(c.pending.skip(1) =~= rest);
    assert(c.advance(Event::Completed) == (asked, Some(Op::ReadBusy)));
    assert(c.trace(levels) == seq![Op::ReadBusy] + asked.trace(levels));
    if rounds == 0 {
        assert(Channel { awaiting: false, ..asked }.holding(asked.pending.skip(1)) == after);
        assert(asked.advance(Event::BusyLevel { high: levels[0] }) == after.issue());
        assert(after.advance(Event::Completed) == after.issue());
        assert(asked.trace(levels) == after.trace(levels.skip(1)));
        assert(poll_rounds(c.wait, 0) + seq![Op::ReadBusy] =~= seq![Op::ReadBusy]);
    } else {
        let polls = c.wait.poll_ops();
        let polling = c.holding(polls + c.pending);
        assert(c.wait.is_busy(levels[0]));
        assert(Channel { awaiting: false, ..asked }.holding(polls + asked.pending) == polling);
        assert(asked.advance(Event::BusyLevel { high: levels[0] }) == polling.issue());
        assert(polling.advance(Event::Completed) == polling.issue());
        assert(polls.len() == 5);
        assert(!(polling.pending[0] is ReadBusy));
        assert(asked.trace(levels) == polling.trace(levels.skip(1)));
        lemma_poll_reads(c.wait);
        lemma_trace_prefix(polling, polls, c.pending, levels.skip(1));
        assert(polling.holding(c.pending) == c);
        let later = levels.skip(1);
        assert forall|i: int| 0 <= i < rounds - 1 implies c.wait.is_busy(#[trigger] later[i]) by {
            assert(later[i] == levels[i + 1]);
        }
        lemma_trace_wait(c, rest, later, (rounds - 1) as nat);
        assert(later.skip(rounds as int) =~= levels.skip(rounds as int + 1));
        let tail = after.trace(levels.skip(rounds as int + 1));
        assert(seq![Op::ReadBusy] + (polls + (poll_rounds(c.wait, (rounds - 1) as nat) + seq![
            Op::ReadBusy,
        ] + tail)) =~= poll_rounds(c.wait, rounds) + seq![Op::ReadBusy] + tail);
    }
}

/// A failed write is final: the channel hands out nothing more of what was
/// queued, whatever the transport reports afterwards, until something new
/// is queued.
pub proof fn lemma_failed_write_is_final(c: Channel, later: Event)
    ensures
        c.advance(Event::WriteFailed) == (Channel::idle(c.wait), None::<Op>),
        Channel::idle(c.wait).advance(later) == (Channel::idle(c.wait), None::<Op>),
{
}

/// The poll operations hold no read of the busy line.
pub proof fn lemma_poll_reads(wait: BusyWait)
    ensures
        reads(wait.poll_ops()) == 0,
{
    let polls = wait.poll_ops();
    lemma_reads_none(polls);
    assert forall|i: int| 0 <= i < polls.len() implies !(#[trigger] polls[i] is ReadBusy) by {
        assert(polls.len() == 5);
    }
}

} // verus!
