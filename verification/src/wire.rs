//! The operations of the four-wire interface, how the driver frames bytes
//! with them, and what the panel receives from a sequence of them.

use crate::command::Command;
use vstd::prelude::*;

verus! {

/// An output line of the control interface.
#[derive(Clone, Copy, Debug, PartialEq, Eq, Structural)]
pub enum Line {
    /// Chip select, active low: the panel listens while the line is low.
    ChipSelect,
    /// Data/command select: low marks the bytes as an opcode, high as data.
    DataCommand,
    /// Reset, active low.
    Reset,
}

/// One operation of the transport, as the contracts speak of it.
pub enum Op {
    /// Drive an output line high or low.
    SetLine { line: Line, high: bool },
    /// Clock the bytes out on the serial bus in one write.
    Write { bytes: Seq<u8> },
    /// Pause for the given number of milliseconds.
    DelayMs { ms: u8 },
    /// Read the level of the busy line.
    ReadBusy,
}

/// One operation of the transport, as it is handed out to be carried out.
#[derive(Debug, PartialEq, Eq)]
pub enum Action {
    /// Drive an output line high or low.
    SetLine { line: Line, high: bool },
    /// Clock the bytes out on the serial bus in one write.
    Write { bytes: Vec<u8> },
    /// Pause for the given number of milliseconds.
    DelayMs { ms: u8 },
    /// Read the level of the busy line and report it.
    ReadBusy,
}

impl View for Action {
    type V = Op;

    open spec fn view(&self) -> Op {
        match *self {
            Action::SetLine { line, high } => Op::SetLine { line, high },
            Action::Write { bytes } => Op::Write { bytes: bytes@ },
            Action::DelayMs { ms } => Op::DelayMs { ms },
            Action::ReadBusy => Op::ReadBusy,
        }
    }
}

/// What the transport reports after an action.
#[derive(Clone, Copy, Debug, PartialEq, Eq, Structural)]
pub enum Event {
    /// The last action, if there was one, has been carried out.
    Completed,
    /// The busy line was read and had this level.
    BusyLevel { high: bool },
    /// The last write failed.
    WriteFailed,
}

/// How a panel variant signals that it is busy, and how the driver waits
/// for it: while the busy line reads busy, the driver sends the status
/// query, pauses for the interval and reads the line again.
#[derive(Clone, Copy, Debug, PartialEq, Eq, Structural)]
pub struct BusyWait {
    /// Whether a low busy line means busy (else a high one does).
    pub busy_low: bool,
    /// The command sent as status query between two reads.
    pub query: Command,
    /// The pause after each status query, in milliseconds.
    pub interval_ms: u8,
}

impl BusyWait {
    /// Whether a busy line at this level means that the panel is busy.
    pub open spec fn spec_is_busy(&self, high: bool) -> bool {
        if self.busy_low {
            !high
        } else {
            high
        }
    }

    /// Whether a busy line at this level means that the panel is busy.
    #[verifier::when_used_as_spec(spec_is_busy)]
    pub fn is_busy(&self, high: bool) -> (busy: bool)
        ensures
            busy == self.spec_is_busy(high),
    {
        if self.busy_low {
            !high
        } else {
            high
        }
    }

    /// The operations between two reads of a busy line that read busy:
    /// the status query, then the pause.
    pub open spec fn poll_ops(&self) -> Seq<Op> {
        cmd_ops(self.query).push(Op::DelayMs { ms: self.interval_ms })
    }

    /// Two variants of opposite polarity read every level of the busy line
    /// in opposite ways: what is busy to one is idle to the other.
    pub proof fn opposite_polarity(a: BusyWait, b: BusyWait, high: bool)
        requires
            a.busy_low != b.busy_low,
        ensures
            a.is_busy(high) != b.is_busy(high),
            a.busy_low ==> a.is_busy(false) && !b.is_busy(false),
    {
    }
}

/// The pause before the reset pulse, in milliseconds.
pub const RESET_LEAD_MS: u8 = 10;

/// The pause after the reset pulse, in milliseconds.
pub const RESET_SETTLE_MS: u8 = 200;

/// One write transaction: chip select goes low, the bytes are written in
/// one write, chip select goes high again.
pub open spec fn write_ops(bytes: Seq<u8>) -> Seq<Op> {
    seq![
        Op::SetLine { line: Line::ChipSelect, high: false },
        Op::Write { bytes },
        Op::SetLine { line: Line::ChipSelect, high: true },
    ]
}

/// Sending a command: data/command select goes low, then the opcode is
/// written in a transaction of its own.
pub open spec fn cmd_ops(command: Command) -> Seq<Op> {
    seq![Op::SetLine { line: Line::DataCommand, high: false }] + write_ops(seq![command.address()])
}

/// Sending data: data/command select goes high, then all the bytes are
/// written in one transaction.
pub open spec fn data_ops(bytes: Seq<u8>) -> Seq<Op> {
    seq![Op::SetLine { line: Line::DataCommand, high: true }] + write_ops(bytes)
}

/// Sending a command and its data.
pub open spec fn cmd_with_data_ops(command: Command, bytes: Seq<u8>) -> Seq<Op> {
    cmd_ops(command) + data_ops(bytes)
}

/// Sending one byte `count` times as data: data/command select goes high,
/// then each copy of the byte is written in a transaction of its own.
pub open spec fn repeat_ops(value: u8, count: nat) -> Seq<Op>
    decreases count,
{
    if count == 0 {
        seq![Op::SetLine { line: Line::DataCommand, high: true }]
    } else {
        repeat_ops(value, (count - 1) as nat) + write_ops(seq![value])
    }
}

/// The reset pulse: the reset line is released, pulled low for `duration`
/// milliseconds and released again, with a pause before and after.
pub open spec fn reset_ops(duration: u8) -> Seq<Op> {
    seq![
        Op::SetLine { line: Line::Reset, high: true },
        Op::DelayMs { ms: RESET_LEAD_MS },
        Op::SetLine { line: Line::Reset, high: false },
        Op::DelayMs { ms: duration },
        Op::SetLine { line: Line::Reset, high: true },
        Op::DelayMs { ms: RESET_SETTLE_MS },
    ]
}

/// How many reads of the busy line a sequence of operations holds.
pub open spec fn reads(ops: Seq<Op>) -> nat
    decreases ops.len(),
{
    if ops.len() == 0 {
        0
    } else {
        reads(ops.drop_last()) + if ops.last() is ReadBusy {
            1nat
        } else {
            0nat
        }
    }
}

/// A byte as the panel receives it: tagged by the level that the
/// data/command line had while the byte was clocked in.
pub enum Word {
    /// Received with data/command select low.
    Command(u8),
    /// Received with data/command select high.
    Data(u8),
}

/// The levels of the two lines that decide what the panel makes of a write.
pub struct Lines {
    /// Level of chip select; the panel listens while it is low.
    pub chip_select: bool,
    /// Level of data/command select.
    pub data_command: bool,
}

/// The lines as every command, data burst and repetition leaves them:
/// chip select released, data/command select at the given level.
pub open spec fn released(data_command: bool) -> Lines {
    Lines { chip_select: true, data_command }
}

/// The levels of the lines after one operation.
pub open spec fn lines_after_op(op: Op, lines: Lines) -> Lines {
    match op {
        Op::SetLine { line: Line::ChipSelect, high } => Lines { chip_select: high, ..lines },
        Op::SetLine { line: Line::DataCommand, high } => Lines { data_command: high, ..lines },
        _ => lines,
    }
}

/// What the panel receives from one operation: the bytes of a write made
/// while chip select is low, tagged by data/command select; nothing else.
pub open spec fn received_from_op(op: Op, lines: Lines) -> Seq<Word> {
    match op {
        Op::Write { bytes } => if lines.chip_select {
            Seq::empty()
        } else if lines.data_command {
            bytes.map_values(|b: u8| Word::Data(b))
        } else {
            bytes.map_values(|b: u8| Word::Command(b))
        },
        _ => Seq::empty(),
    }
}

/// The levels of the lines after a sequence of operations.
pub open spec fn lines_after(ops: Seq<Op>, lines: Lines) -> Lines
    decreases ops.len(),
{
    if ops.len() == 0 {
        lines
    } else {
        lines_after_op(ops.last(), lines_after(ops.drop_last(), lines))
    }
}

/// What the panel receives from a sequence of operations that starts with
/// the lines at the given levels.
pub open spec fn received(ops: Seq<Op>, lines: Lines) -> Seq<Word>
    decreases ops.len(),
{
    if ops.len() == 0 {
        Seq::empty()
    } else {
        received(ops.drop_last(), lines) + received_from_op(
            ops.last(),
            lines_after(ops.drop_last(), lines),
        )
    }
}

/// `count` copies of one data byte.
pub open spec fn data_fill(value: u8, count: nat) -> Seq<Word> {
    Seq::new(count, |i: int| Word::Data(value))
}

/// The reads of two sequences in a row add up.
pub proof fn lemma_reads_concat(a: Seq<Op>, b: Seq<Op>)
    ensures
        reads(a + b) == reads(a) + reads(b),
    decreases b.len(),
{
    if b.len() == 0 {
        assert(a + b =~= a);
    } else {
        assert((a + b).drop_last() =~= a + b.drop_last());
        lemma_reads_concat(a, b.drop_last());
    }
}

/// Two sequences in a row leave the lines as the second leaves them when it
/// starts where the first ended, and the panel receives from them what it
/// receives from the first and then, from there on, from the second.
pub proof fn lemma_received_concat(a: Seq<Op>, b: Seq<Op>, lines: Lines)
    ensures
        lines_after(a + b, lines) == lines_after(b, lines_after(a, lines)),
        received(a + b, lines) == received(a, lines) + received(b, lines_after(a, lines)),
    decreases b.len(),
{
    if b.len() == 0 {
        assert(a + b =~= a);
    } else {
        assert((a + b).drop_last() =~= a + b.drop_last());
        lemma_received_concat(a, b.drop_last(), lines);
    }
}

/// A write transaction hands its bytes to the panel, tagged by the level
/// of data/command select, and leaves chip select released.
pub proof fn lemma_write_received(bytes: Seq<u8>, lines: Lines)
    ensures
        lines_after(write_ops(bytes), lines) == released(lines.data_command),
        received(write_ops(bytes), lines) == if lines.data_command {
            bytes.map_values(|b: u8| Word::Data(b))
        } else {
            bytes.map_values(|b: u8| Word::Command(b))
        },
{
    let ops = write_ops(bytes);
    let a = ops.drop_last();
    let b = a.drop_last();
    assert(b.drop_last() =~= Seq::<Op>::empty());
    reveal_with_fuel(lines_after, 4);
    reveal_with_fuel(received, 4);
}

/// The panel receives a command as its opcode, tagged as a command,
/// whatever the levels of the lines were before.
pub proof fn lemma_cmd_received(command: Command, lines: Lines)
    ensures
        lines_after(cmd_ops(command), lines) == released(false),
        received(cmd_ops(command), lines) == seq![Word::Command(command.address())],
        reads(cmd_ops(command)) == 0,
{
    let head = seq![Op::SetLine { line: Line::DataCommand, high: false }];
    let bytes = seq![command.address()];
    lemma_received_concat(head, write_ops(bytes), lines);
    lemma_single_received(head[0], lines);
    assert(head =~= seq![head[0]]);
    let selected = Lines { data_command: false, ..lines };
    lemma_write_received(bytes, selected);
    assert(bytes.map_values(|b: u8| Word::Command(b)) =~= seq![Word::Command(command.address())]);
    lemma_reads_concat(head, write_ops(bytes));
    lemma_write_reads(bytes);
}

/// The panel receives a data burst as its bytes, unchanged and in order,
/// each tagged as data, whatever the levels of the lines were before.
pub proof fn lemma_data_received(bytes: Seq<u8>, lines: Lines)
    ensures
        lines_after(data_ops(bytes), lines) == released(true),
        received(data_ops(bytes), lines) == bytes.map_values(|b: u8| Word::Data(b)),
        reads(data_ops(bytes)) == 0,
{
    let head = seq![Op::SetLine { line: Line::DataCommand, high: true }];
    lemma_received_concat(head, write_ops(bytes), lines);
    lemma_single_received(head[0], lines);
    assert(head =~= seq![head[0]]);
    let selected = Lines { data_command: true, ..lines };
    lemma_write_received(bytes, selected);
    lemma_reads_concat(head, write_ops(bytes));
    lemma_write_reads(bytes);
}

/// The panel receives a command with data as the opcode followed by the
/// data bytes, unchanged and in order.
pub proof fn lemma_cmd_with_data_received(command: Command, bytes: Seq<u8>, lines: Lines)
    ensures
        lines_after(cmd_with_data_ops(command, bytes), lines) == released(true),
        received(cmd_with_data_ops(command, bytes), lines) == seq![
            Word::Command(command.address()),
        ] + bytes.map_values(|b: u8| Word::Data(b)),
        reads(cmd_with_data_ops(command, bytes)) == 0,
{
    lemma_received_concat(cmd_ops(command), data_ops(bytes), lines);
    lemma_cmd_received(command, lines);
    lemma_data_received(bytes, released(false));
    lemma_reads_concat(cmd_ops(command), data_ops(bytes));
}

/// From a byte repeated `count` times the panel receives exactly `count`
/// copies of it, each tagged as data, whatever the lines were before.
pub proof fn lemma_repeat_received(value: u8, count: nat, lines: Lines)
    ensures
        lines_after(repeat_ops(value, count), lines) == if count == 0 {
            Lines { data_command: true, ..lines }
        } else {
            released(true)
        },
        received(repeat_ops(value, count), lines) == data_fill(value, count),
        reads(repeat_ops(value, count)) == 0,
    decreases count,
{
    if count == 0 {
        let head = repeat_ops(value, 0);
        lemma_single_received(head[0], lines);
        assert(head =~= seq![head[0]]);
        assert(received(head, lines) =~= data_fill(value, 0));
    } else {
        let before = repeat_ops(value, (count - 1) as nat);
        let bytes = seq![value];
        lemma_repeat_received(value, (count - 1) as nat, lines);
        lemma_received_concat(before, write_ops(bytes), lines);
        lemma_write_received(bytes, lines_after(before, lines));
        assert(bytes.map_values(|b: u8| Word::Data(b)) =~= seq![Word::Data(value)]);
        assert(data_fill(value, (count - 1) as nat) + seq![Word::Data(value)] =~= data_fill(
            value,
            count,
        ));
        lemma_reads_concat(before, write_ops(bytes));
        lemma_write_reads(bytes);
    }
}

/// A repetition is one level change followed by three operations for each
/// copy of the byte.
pub proof fn lemma_repeat_len(value: u8, count: nat)
    ensures
        repeat_ops(value, count).len() == 1 + 3 * count,
    decreases count,
{
    if count > 0 {
        lemma_repeat_len(value, (count - 1) as nat);
    }
}

/// A write transaction reads the busy line at no point.
pub proof fn lemma_write_reads(bytes: Seq<u8>)
    ensures
        reads(write_ops(bytes)) == 0,
{
    let ops = write_ops(bytes);
    let a = ops.drop_last();
    let b = a.drop_last();
    assert(b.drop_last() =~= Seq::<Op>::empty());
    reveal_with_fuel(reads, 4);
}

/// The reset pulse hands nothing to the panel's serial input, leaves the
/// two lines as they were and reads the busy line at no point.
pub proof fn lemma_reset_received(duration: u8, lines: Lines)
    ensures
        lines_after(reset_ops(duration), lines) == lines,
        received(reset_ops(duration), lines) == Seq::<Word>::empty(),
        reads(reset_ops(duration)) == 0,
{
    let s6 = reset_ops(duration);
    let s5 = s6.drop_last();
    let s4 = s5.drop_last();
    let s3 = s4.drop_last();
    let s2 = s3.drop_last();
    let s1 = s2.drop_last();
    assert(s1.drop_last() =~= Seq::<Op>::empty());
    reveal_with_fuel(lines_after, 7);
    reveal_with_fuel(received, 7);
    reveal_with_fuel(reads, 7);
}

/// A sequence of one operation leaves the lines as that operation does,
/// hands the panel what that operation does, and reads the busy line once
/// if the operation is a read.
pub proof fn lemma_single_received(op: Op, lines: Lines)
    ensures
        lines_after(seq![op], lines) == lines_after_op(op, lines),
        received(seq![op], lines) == received_from_op(op, lines),
        reads(seq![op]) == if op is ReadBusy {
            1nat
        } else {
            0nat
        },
{
    assert(seq![op].drop_last() =~= Seq::<Op>::empty());
    reveal_with_fuel(lines_after, 2);
    reveal_with_fuel(received, 2);
    reveal_with_fuel(reads, 2);
}

} // verus!
