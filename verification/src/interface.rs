//! The command channel of the driver: it queues what the driver asks for
//! and hands it out as single transport operations, without ever holding
//! more than the requests themselves.

use crate::channel::Channel;
use crate::command::Command;
use crate::wire::{
    cmd_ops, cmd_with_data_ops, data_ops, lemma_repeat_len, repeat_ops, reset_ops, write_ops,
    Action, BusyWait, Event, Line, Op, RESET_LEAD_MS, RESET_SETTLE_MS,
};
use vstd::prelude::*;
use vstd::slice::slice_to_vec;

verus! {

/// One request of the driver.
enum Step {
    /// Send a command.
    Command { command: Command },
    /// Send bytes as data.
    Data { bytes: Vec<u8> },
    /// Send one byte several times as data.
    Repeat { value: u8, count: u32 },
    /// Pulse the reset line.
    Reset { duration: u8 },
    /// Pause.
    Delay { ms: u8 },
    /// Wait until the busy line reads idle.
    WaitIdle,
}

impl Step {
    /// The operations that the request stands for.
    spec fn ops(self) -> Seq<Op> {
        match self {
            Step::Command { command } => cmd_ops(command),
            Step::Data { bytes } => data_ops(bytes@),
            Step::Repeat { value, count } => repeat_ops(value, count as nat),
            Step::Reset { duration } => reset_ops(duration),
            Step::Delay { ms } => seq![Op::DelayMs { ms }],
            Step::WaitIdle => seq![Op::ReadBusy],
        }
    }

    /// The number of positions inside the request: its operations, or for
    /// a wait the read and the poll operations.
    spec fn span(self, wait: BusyWait) -> int {
        match self {
            Step::WaitIdle => wait.poll_ops().len() as int,
            _ => self.ops().len() as int,
        }
    }

    /// What is left of the request at position `sub`. In a wait, position 0
    /// is the read; a later position is inside the poll operations, which
    /// the read follows again.
    spec fn rest(self, wait: BusyWait, sub: int) -> Seq<Op> {
        match self {
            Step::WaitIdle => if sub == 0 {
                seq![Op::ReadBusy]
            } else {
                wait.poll_ops().skip(sub) + seq![Op::ReadBusy]
            },
            _ => self.ops().skip(sub),
        }
    }

    /// Whether the request is a wait.
    fn is_wait(&self) -> (wait: bool)
        ensures
            wait == (*self is WaitIdle),
    {
        match self {
            Step::WaitIdle => true,
            _ => false,
        }
    }
}

/// The operations that a list of requests stands for.
spec fn flat(steps: Seq<Step>) -> Seq<Op>
    decreases steps.len(),
{
    if steps.len() == 0 {
        Seq::empty()
    } else {
        steps[0].ops() + flat(steps.skip(1))
    }
}

proof fn lemma_flat_push(steps: Seq<Step>, step: Step)
    ensures
        flat(steps.push(step)) == flat(steps) + step.ops(),
    decreases steps.len(),
{
    if steps.len() == 0 {
        reveal_with_fuel(flat, 2);
        assert(steps.push(step).skip(1) =~= Seq::<Step>::empty());
        assert(flat(steps.push(step)) =~= flat(steps) + step.ops());
    } else {
        assert(steps.push(step).skip(1) =~= steps.skip(1).push(step));
        lemma_flat_push(steps.skip(1), step);
        assert(steps[0].ops() + (flat(steps.skip(1)) + step.ops()) =~= flat(steps) + step.ops());
    }
}

proof fn lemma_flat_from(steps: Seq<Step>, pc: int, wait: BusyWait)
    requires
        0 <= pc < steps.len(),
    ensures
        flat(steps.skip(pc)) == steps[pc].rest(wait, 0) + flat(steps.skip(pc + 1)),
{
    assert(steps.skip(pc).skip(1) =~= steps.skip(pc + 1));
    assert(steps[pc].ops().skip(0) =~= steps[pc].ops());
}

/// The operation at a position of a repetition.
proof fn lemma_repeat_index(value: u8, count: nat, i: int)
    requires
        0 <= i < 1 + 3 * count,
    ensures
        repeat_ops(value, count).len() == 1 + 3 * count,
        repeat_ops(value, count)[i] == if i == 0 {
            Op::SetLine { line: Line::DataCommand, high: true }
        } else {
            write_ops(seq![value])[(i - 1) % 3]
        },
    decreases count,
{
    lemma_repeat_len(value, count);
    if count > 0 {
        lemma_repeat_len(value, (count - 1) as nat);
        if i < 1 + 3 * (count - 1) {
            lemma_repeat_index(value, (count - 1) as nat, i);
        }
    }
}

/// The operation at position `i` of a command or of a data burst, but for
/// the write itself: the level changes around it.
fn frame_action(data: bool, i: u64) -> (action: Action)
    requires
        i < 4,
        i != 2,
    ensures
        action@ == if i == 0 {
            Op::SetLine { line: Line::DataCommand, high: data }
        } else {
            write_ops(Seq::empty())[i - 1]
        },
        !(action is ReadBusy),
{
    if i == 0 {
        Action::SetLine { line: Line::DataCommand, high: data }
    } else if i == 1 {
        Action::SetLine { line: Line::ChipSelect, high: false }
    } else {
        Action::SetLine { line: Line::ChipSelect, high: true }
    }
}

/// The operation at position `i` of a data burst.
fn data_action(bytes: &Vec<u8>, i: u64) -> (action: Action)
    requires
        i < 4,
    ensures
        action@ == data_ops(bytes@)[i as int],
        !(action is ReadBusy),
{
    if i == 2 {
        Action::Write { bytes: slice_to_vec(bytes.as_slice()) }
    } else {
        frame_action(true, i)
    }
}

/// The operation at position `i` of a command.
fn cmd_action(command: Command, i: u64) -> (action: Action)
    requires
        i < 4,
    ensures
        action@ == cmd_ops(command)[i as int],
        !(action is ReadBusy),
{
    if i == 2 {
        let mut opcode: Vec<u8> = Vec::new();
        opcode.push(command.address());
        assert(opcode@ =~= seq![command.address()]);
        Action::Write { bytes: opcode }
    } else {
        frame_action(false, i)
    }
}

/// The operation at position `i` of a repetition.
fn repeat_action(value: u8, count: u32, i: u64) -> (action: Action)
    requires
        i < 1 + 3 * count,
    ensures
        action@ == repeat_ops(value, count as nat)[i as int],
        !(action is ReadBusy),
{
    proof {
        lemma_repeat_index(value, count as nat, i as int);
    }
    if i == 0 {
        Action::SetLine { line: Line::DataCommand, high: true }
    } else {
        let k: u64 = (i - 1) % 3;
        if k == 0 {
            Action::SetLine { line: Line::ChipSelect, high: false }
        } else if k == 1 {
            let mut byte: Vec<u8> = Vec::new();
            byte.push(value);
            assert(byte@ =~= seq![value]);
            Action::Write { bytes: byte }
        } else {
            Action::SetLine { line: Line::ChipSelect, high: true }
        }
    }
}

/// The operation at position `i` of the reset pulse.
fn reset_action(duration: u8, i: u64) -> (action: Action)
    requires
        i < 6,
    ensures
        action@ == reset_ops(duration)[i as int],
        !(action is ReadBusy),
{
    if i == 0 {
        Action::SetLine { line: Line::Reset, high: true }
    } else if i == 1 {
        Action::DelayMs { ms: RESET_LEAD_MS }
    } else if i == 2 {
        Action::SetLine { line: Line::Reset, high: false }
    } else if i == 3 {
        Action::DelayMs { ms: duration }
    } else if i == 4 {
        Action::SetLine { line: Line::Reset, high: true }
    } else {
        Action::DelayMs { ms: RESET_SETTLE_MS }
    }
}

/// The poll operation at position `i`.
fn poll_action(wait: &BusyWait, i: u64) -> (action: Action)
    requires
        i < 5,
    ensures
        action@ == wait.poll_ops()[i as int],
        !(action is ReadBusy),
{
    if i < 4 {
        cmd_action(wait.query, i)
    } else {
        Action::DelayMs { ms: wait.interval_ms }
    }
}

/// The operation at position `i` of a request that is no wait, and the
/// number of operations of the request.
fn step_action(step: &Step, i: u64) -> (out: (Action, u64))
    requires
        !(*step is WaitIdle),
        i < step.ops().len(),
    ensures
        out.0@ == step.ops()[i as int],
        !(out.0 is ReadBusy),
        out.1 == step.ops().len(),
{
    match step {
        Step::Command { command } => (cmd_action(*command, i), 4),
        Step::Data { bytes } => (data_action(bytes, i), 4),
        Step::Repeat { value, count } => {
            proof {
                lemma_repeat_len(*value, *count as nat);
            }
            let len: u64 = 3 * (*count as u64) + 1;
            (repeat_action(*value, *count, i), len)
        },
        Step::Reset { duration } => (reset_action(*duration, i), 6),
        Step::Delay { ms } => (Action::DelayMs { ms: *ms }, 1),
        Step::WaitIdle => (Action::ReadBusy, 1),
    }
}

/// What an action handed out, or none, is to the contracts.
pub open spec fn issued(action: Option<Action>) -> Option<Op> {
    match action {
        Some(action) => Some(action@),
        None => None,
    }
}

/// The requests of the driver and how far they have been handed out.
struct Queue {
    /// How the panel signals busy and how to wait for it.
    wait: BusyWait,
    /// The requests; those before `pc` have been handed out in full.
    steps: Vec<Step>,
    /// The request that is being handed out.
    pc: usize,
    /// The position inside that request.
    sub: u64,
    /// Whether a read of the busy line is unanswered.
    awaiting: bool,
}

impl View for Queue {
    type V = Channel;

    closed spec fn view(&self) -> Channel {
        Channel {
            wait: self.wait,
            pending: if self.pc < self.steps.len() {
                self.steps[self.pc as int].rest(self.wait, self.sub as int) + flat(
                    self.steps@.skip(self.pc + 1),
                )
            } else {
                Seq::empty()
            },
            awaiting: self.awaiting,
        }
    }
}

impl Queue {
    /// The position is inside the current request, and a read is
    /// unanswered only at the read of a wait.
    spec fn wf(self) -> bool {
        &&& self.pc <= self.steps.len()
        &&& self.pc == self.steps.len() ==> self.sub == 0 && !self.awaiting
        &&& self.pc < self.steps.len() ==> self.sub < self.steps[self.pc as int].span(self.wait)
        &&& self.awaiting ==> self.pc < self.steps.len() && self.steps[self.pc as int] is WaitIdle
            && self.sub == 0
    }

    fn new(wait: BusyWait) -> (queue: Self)
        ensures
            queue.wf(),
            queue@ == Channel::idle(wait),
    {
        Queue { wait, steps: Vec::new(), pc: 0, sub: 0, awaiting: false }
    }

    /// Queues a request behind those that are queued.
    fn push(&mut self, step: Step)
        requires
            old(self).wf(),
        ensures
            final(self).wf(),
            final(self)@ == old(self)@.queue(step.ops()),
    {
        if self.pc == self.steps.len() {
            self.pc = 0;
            self.steps.clear();
            self.steps.push(step);
            proof {
                assert(self.steps@.skip(1) =~= Seq::<Step>::empty());
                assert(step.ops().skip(0) =~= step.ops());
                assert(self@.pending =~= old(self)@.pending + step.ops());
            }
        } else {
            self.steps.push(step);
            proof {
                let behind = old(self).steps@.skip(self.pc + 1);
                assert(self.steps@.skip(self.pc + 1) =~= behind.push(step));
                lemma_flat_push(behind, step);
                assert(self@.pending =~= old(self)@.pending + step.ops());
            }
        }
    }

    /// Hands out the first queued operation, where no read is unanswered.
    /// With nothing left to hand out, the requests that were carried out
    /// are dropped.
    fn issue(&mut self) -> (action: Option<Action>)
        requires
            old(self).wf(),
            !old(self).awaiting,
        ensures
            final(self).wf(),
            final(self)@ == old(self)@.issue().0,
            issued(action) == old(self)@.issue().1,
    {
        if self.pc >= self.steps.len() {
            self.pc = 0;
            self.steps.clear();
            return None;
        }
        let ghost behind = flat(self.steps@.skip(self.pc + 1));
        let ghost polls = self.wait.poll_ops();
        let sub = self.sub;
        if self.steps[self.pc].is_wait() {
            if sub == 0 {
                self.awaiting = true;
                Some(Action::ReadBusy)
            } else {
                let action = poll_action(&self.wait, sub);
                self.sub = if sub == 4 {
                    0
                } else {
                    sub + 1
                };
                proof {
                    assert(polls.skip(sub as int)[0] == polls[sub as int]);
                    assert((polls.skip(sub as int) + seq![Op::ReadBusy] + behind).skip(1)
                        =~= self@.pending);
                }
                Some(action)
            }
        } else {
            let (action, len) = step_action(&self.steps[self.pc], sub);
            let ghost ops = self.steps[self.pc as int].ops();
            if sub + 1 < len {
                self.sub = sub + 1;
                proof {
                    assert((ops.skip(sub as int) + behind).skip(1) =~= self@.pending);
                }
            } else {
                self.sub = 0;
                self.pc = self.pc + 1;
                proof {
                    if self.pc < self.steps.len() {
                        lemma_flat_from(self.steps@, self.pc as int, self.wait);
                    }
                    assert((ops.skip(sub as int) + behind).skip(1) =~= self@.pending);
                }
            }
            Some(action)
        }
    }

    /// The next operation after `event`.
    fn next_action(&mut self, event: Event) -> (action: Option<Action>)
        requires
            old(self).wf(),
        ensures
            final(self).wf(),
            final(self)@ == old(self)@.advance(event).0,
            issued(action) == old(self)@.advance(event).1,
    {
        let ghost polls = self.wait.poll_ops();
        match event {
            Event::WriteFailed => {
                self.awaiting = false;
                self.sub = 0;
                self.pc = 0;
                self.steps.clear();
                return None;
            },
            Event::BusyLevel { high } => {
                if self.awaiting {
                    self.awaiting = false;
                    if self.wait.is_busy(high) {
                        self.sub = 1;
                        proof {
                            assert((polls + old(self)@.pending).skip(1) =~= self@.pending);
                        }
                        return Some(poll_action(&self.wait, 0));
                    }
                    self.pc = self.pc + 1;
                    proof {
                        if self.pc < self.steps.len() {
                            lemma_flat_from(self.steps@, self.pc as int, self.wait);
                        }
                        assert(old(self)@.pending.skip(1) =~= self@.pending);
                    }
                }
            },
            Event::Completed => {
                if self.awaiting {
                    return Some(Action::ReadBusy);
                }
            },
        }
        self.issue()
    }
}

/// The command channel.
///
/// The driver queues commands, data bursts, pauses and busy waits; the
/// owner of the transport takes them out again with
/// [`DisplayInterface::next_action`], one transport operation at a time.
/// Each request is kept as it was made and expanded only as it is handed
/// out, so a repetition of a byte never exists as a buffer.
pub struct DisplayInterface {
    queue: Queue,
}

impl View for DisplayInterface {
    type V = Channel;

    closed spec fn view(&self) -> Channel {
        self.queue@
    }
}

impl DisplayInterface {
    #[verifier::type_invariant]
    spec fn inv(self) -> bool {
        self.queue.wf()
    }

    /// A channel with nothing queued, for a panel that signals busy and is
    /// waited for as `wait` says.
    pub fn new(wait: BusyWait) -> (interface: Self)
        ensures
            interface@ == Channel::idle(wait),
    {
        DisplayInterface { queue: Queue::new(wait) }
    }

    /// Queues a request behind those that are queued.
    fn push(&mut self, step: Step)
        ensures
            final(self)@ == old(self)@.queue(step.ops()),
    {
        proof {
            use_type_invariant(&*self);
        }
        let mut queue = Queue::new(self.queue.wait);
        std::mem::swap(&mut queue, &mut self.queue);
        queue.push(step);
        self.queue = queue;
    }

    /// Queues a command: data/command select low, then the opcode in a
    /// write transaction of its own.
    pub fn cmd(&mut self, command: Command)
        ensures
            final(self)@ == old(self)@.queue(cmd_ops(command)),
    {
        self.push(Step::Command { command });
    }

    /// Queues a data burst: data/command select high, then all the bytes
    /// in one write transaction.
    pub fn data(&mut self, data: &[u8])
        ensures
            final(self)@ == old(self)@.queue(data_ops(data@)),
    {
        self.push(Step::Data { bytes: slice_to_vec(data) });
    }

    /// Queues a command and, right behind it, its data.
    pub fn cmd_with_data(&mut self, command: Command, data: &[u8])
        ensures
            final(self)@ == old(self)@.queue(cmd_with_data_ops(command, data@)),
    {
        self.cmd(command);
        self.data(data);
        assert(old(self)@.pending + cmd_ops(command) + data_ops(data@) =~= old(self)@.pending
            + cmd_with_data_ops(command, data@));
    }

    /// Queues `repetitions` copies of one byte as data, each in a write
    /// transaction of its own.
    pub fn data_x_times(&mut self, val: u8, repetitions: u32)
        ensures
            final(self)@ == old(self)@.queue(repeat_ops(val, repetitions as nat)),
    {
        self.push(Step::Repeat { value: val, count: repetitions });
    }

    /// Queues a reset pulse that holds the reset line low for `duration`
    /// milliseconds.
    pub fn reset(&mut self, duration: u8)
        ensures
            final(self)@ == old(self)@.queue(reset_ops(duration)),
    {
        self.push(Step::Reset { duration });
    }

    /// Queues a pause of `ms` milliseconds.
    pub fn delay_ms(&mut self, ms: u8)
        ensures
            final(self)@ == old(self)@.queue(seq![Op::DelayMs { ms }]),
    {
        self.push(Step::Delay { ms });
    }

    /// Queues a busy wait: what is queued behind it is handed out only
    /// once the busy line has read idle.
    pub fn wait_until_idle(&mut self)
        ensures
            final(self)@ == old(self)@.queue(seq![Op::ReadBusy]),
    {
        self.push(Step::WaitIdle);
    }

    /// Whether a busy line at this level (`true` for high) means that the
    /// panel is busy.
    pub fn is_busy(&self, high: bool) -> (busy: bool)
        ensures
            busy == self@.wait.is_busy(high),
    {
        self.queue.wait.is_busy(high)
    }

    /// Whether nothing is queued.
    pub fn is_drained(&self) -> (drained: bool)
        ensures
            drained == (self@.pending.len() == 0),
    {
        proof {
            use_type_invariant(self);
            if self.queue.pc < self.queue.steps.len() {
                let step = self.queue.steps[self.queue.pc as int];
                assert(step.rest(self.queue.wait, self.queue.sub as int).len() > 0);
            }
        }
        self.queue.pc >= self.queue.steps.len()
    }

    /// Gives the next operation to carry out, after the transport has
    /// reported `event`: the completion of the last action (also to begin
    /// with), the level read from the busy line, or a failed write.
    ///
    /// `None` says that nothing is left to do. After a failed write nothing
    /// of what was queued is handed out any more.
    pub fn next_action(&mut self, event: Event) -> (action: Option<Action>)
        ensures
            final(self)@ == old(self)@.advance(event).0,
            issued(action) == old(self)@.advance(event).1,
    {
        proof {
            use_type_invariant(&*self);
        }
        let mut queue = Queue::new(self.queue.wait);
        std::mem::swap(&mut queue, &mut self.queue);
        let action = queue.next_action(event);
        self.queue = queue;
        action
    }
}

} // verus!
