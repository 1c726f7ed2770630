//! Chip select frames every write: it goes low, one write follows at once,
//! and it goes high again before anything else happens.

use crate::channel::Channel;
use crate::command::Command;
use crate::wire::{cmd_ops, data_ops, repeat_ops, reset_ops, write_ops, BusyWait, Event, Line, Op};
use vstd::prelude::*;

verus! {

/// Where a sequence of operations stands between two write transactions.
pub enum Transaction {
    /// Chip select is released; no transaction is under way.
    Closed,
    /// Chip select has gone low and the write is due.
    Open,
    /// The write is done and the release of chip select is due.
    Written,
}

/// Where one operation leads, or `None` where it breaks the framing: a
/// write outside a transaction, anything but the one write inside one, or
/// a release of chip select that releases nothing.
pub open spec fn after_op(op: Op, at: Transaction) -> Option<Transaction> {
    match at {
        Transaction::Closed => match op {
            Op::SetLine { line: Line::ChipSelect, high } => if high {
                None
            } else {
                Some(Transaction::Open)
            },
            Op::Write { .. } => None,
            _ => Some(Transaction::Closed),
        },
        Transaction::Open => match op {
            Op::Write { .. } => Some(Transaction::Written),
            _ => None,
        },
        Transaction::Written => match op {
            Op::SetLine { line: Line::ChipSelect, high: true } => Some(Transaction::Closed),
            _ => None,
        },
    }
}

/// Where a sequence of operations leads, or `None` where one of them
/// breaks the framing.
pub open spec fn after(ops: Seq<Op>, at: Transaction) -> Option<Transaction>
    decreases ops.len(),
{
    if ops.len() == 0 {
        Some(at)
    } else {
        match after_op(ops[0], at) {
            Some(next) => after(ops.skip(1), next),
            None => None,
        }
    }
}

/// The sequence starts and ends outside a transaction and keeps the
/// framing throughout.
pub open spec fn framed(ops: Seq<Op>) -> bool {
    after(ops, Transaction::Closed) == Some(Transaction::Closed)
}

/// Two sequences in a row lead where the second leads from where the
/// first ended.
pub proof fn lemma_after_concat(a: Seq<Op>, b: Seq<Op>, at: Transaction)
    ensures
        after(a + b, at) == match after(a, at) {
            Some(between) => after(b, between),
            None => None,
        },
    decreases a.len(),
{
    if a.len() == 0 {
        assert(a + b =~= b);
    } else {
        assert((a + b)[0] == a[0]);
        assert((a + b).skip(1) =~= a.skip(1) + b);
        match after_op(a[0], at) {
            Some(next) => lemma_after_concat(a.skip(1), b, next),
            None => {},
        }
    }
}

/// Framed sequences in a row are framed.
pub proof fn lemma_framed_concat(a: Seq<Op>, b: Seq<Op>)
    requires
        framed(a),
        framed(b),
    ensures
        framed(a + b),
{
    lemma_after_concat(a, b, Transaction::Closed);
}

/// A sequence of one operation leads where the operation leads.
pub proof fn lemma_after_single(op: Op, at: Transaction)
    ensures
        after(seq![op], at) == after_op(op, at),
{
    assert(seq![op].skip(1) =~= Seq::<Op>::empty());
    reveal_with_fuel(after, 2);
}

/// A write transaction is framed.
pub proof fn lemma_write_framed(bytes: Seq<u8>)
    ensures
        framed(write_ops(bytes)),
{
    let ops = write_ops(bytes);
    assert(ops =~= seq![ops[0]] + (seq![ops[1]] + seq![ops[2]]));
    lemma_after_concat(seq![ops[0]], seq![ops[1]] + seq![ops[2]], Transaction::Closed);
    lemma_after_single(ops[0], Transaction::Closed);
    lemma_after_concat(seq![ops[1]], seq![ops[2]], Transaction::Open);
    lemma_after_single(ops[1], Transaction::Open);
    lemma_after_single(ops[2], Transaction::Written);
}

/// An operation that is no write and leaves chip select alone is framed.
pub proof fn lemma_single_framed(op: Op)
    requires
        !(op is Write),
        op is SetLine ==> op->line != Line::ChipSelect,
    ensures
        framed(seq![op]),
{
    lemma_after_single(op, Transaction::Closed);
}

/// A command is framed.
pub proof fn lemma_cmd_framed(command: Command)
    ensures
        framed(cmd_ops(command)),
{
    lemma_single_framed(Op::SetLine { line: Line::DataCommand, high: false });
    lemma_write_framed(seq![command.address()]);
    lemma_framed_concat(
        seq![Op::SetLine { line: Line::DataCommand, high: false }],
        write_ops(seq![command.address()]),
    );
}

/// A data burst is framed.
pub proof fn lemma_data_framed(bytes: Seq<u8>)
    ensures
        framed(data_ops(bytes)),
{
    lemma_single_framed(Op::SetLine { line: Line::DataCommand, high: true });
    lemma_write_framed(bytes);
    lemma_framed_concat(seq![Op::SetLine { line: Line::DataCommand, high: true }], write_ops(bytes));
}

/// A repetition of a byte is framed: every copy has a transaction of its
/// own.
pub proof fn lemma_repeat_framed(value: u8, count: nat)
    ensures
        framed(repeat_ops(value, count)),
    decreases count,
{
    if count == 0 {
        lemma_single_framed(Op::SetLine { line: Line::DataCommand, high: true });
    } else {
        lemma_repeat_framed(value, (count - 1) as nat);
        lemma_write_framed(seq![value]);
        lemma_framed_concat(repeat_ops(value, (count - 1) as nat), write_ops(seq![value]));
    }
}

/// The reset pulse is framed: it never touches chip select.
pub proof fn lemma_reset_framed(duration: u8)
    ensures
        framed(reset_ops(duration)),
{
    let ops = reset_ops(duration);
    let a = seq![ops[0]] + seq![ops[1]];
    let b = a + seq![ops[2]];
    let c = b + seq![ops[3]];
    let d = c + seq![ops[4]];
    assert(ops =~= d + seq![ops[5]]);
    lemma_single_framed(ops[0]);
    lemma_single_framed(ops[1]);
    lemma_single_framed(ops[2]);
    lemma_single_framed(ops[3]);
    lemma_single_framed(ops[4]);
    lemma_single_framed(ops[5]);
    lemma_framed_concat(seq![ops[0]], seq![ops[1]]);
    lemma_framed_concat(a, seq![ops[2]]);
    lemma_framed_concat(b, seq![ops[3]]);
    lemma_framed_concat(c, seq![ops[4]]);
    lemma_framed_concat(d, seq![ops[5]]);
}

/// The poll operations of a busy wait are framed.
pub proof fn lemma_poll_framed(wait: BusyWait)
    ensures
        framed(wait.poll_ops()),
{
    let pause = Op::DelayMs { ms: wait.interval_ms };
    assert(wait.poll_ops() =~= cmd_ops(wait.query) + seq![pause]);
    lemma_cmd_framed(wait.query);
    lemma_single_framed(pause);
    lemma_framed_concat(cmd_ops(wait.query), seq![pause]);
}

/// Whatever the busy line does, the channel hands out its queue without
/// breaking the framing: the polls of a busy wait come between
/// transactions, never inside one.
pub proof fn lemma_trace_framed(c: Channel, levels: Seq<bool>, at: Transaction)
    requires
        c.awaiting ==> c.pending.len() > 0 && c.pending[0] is ReadBusy,
        after(c.pending, at) is Some,
    ensures
        after(c.trace(levels), at) is Some,
    decreases levels.len(), c.pending.len(), (if c.awaiting {
        0nat
    } else {
        1nat
    }),
{
    if c.awaiting {
        if levels.len() > 0 {
            let free = Channel { awaiting: false, ..c };
            let next = if c.wait.is_busy(levels[0]) {
                let polls = c.wait.poll_ops();
                lemma_poll_framed(c.wait);
                lemma_after_concat(polls, c.pending, Transaction::Closed);
                free.holding(polls + c.pending)
            } else {
                free.holding(c.pending.skip(1))
            };
            assert(c.advance(Event::BusyLevel { high: levels[0] }) == next.issue());
            assert(next.advance(Event::Completed) == next.issue());
            assert(c.trace(levels) == next.trace(levels.skip(1)));
            lemma_trace_framed(next, levels.skip(1), at);
        }
    } else if c.pending.len() > 0 {
        let (next, action) = c.issue();
        let op = action->0;
        assert(c.advance(Event::Completed) == c.issue());
        assert(c.trace(levels) == seq![op] + next.trace(levels));
        let between = if c.pending[0] is ReadBusy {
            at
        } else {
            after_op(c.pending[0], at)->0
        };
        lemma_trace_framed(next, levels, between);
        lemma_after_concat(seq![op], next.trace(levels), at);
        lemma_after_single(op, at);
    }
}

} // verus!
