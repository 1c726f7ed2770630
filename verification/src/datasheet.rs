//! What the panel receives from each operation of the driver: the opcodes
//! and parameter bytes of the datasheet, byte for byte, and how often the
//! busy line is waited for.

use crate::channel::{lemma_trace_idle, Channel};
use crate::command::Command;
use crate::epd7in5bc_v3::{
    achromatic_ops, busy_wait, chromatic_ops, clear_frame_ops, color_frame_ops, display_frame_ops,
    init_ops, sleep_ops, update_frame_ops, CLEAR_ACHROMATIC, CLEAR_CHROMATIC, PLANE_BYTES,
    REFRESH_SETTLE_MS, RESET_PULSE_MS,
};
use crate::framing::{
    framed, lemma_cmd_framed, lemma_data_framed, lemma_framed_concat, lemma_repeat_framed,
    lemma_reset_framed, lemma_single_framed,
};
use crate::wire::{
    cmd_ops, cmd_with_data_ops, data_fill, data_ops, lemma_cmd_received, lemma_cmd_with_data_received,
    lemma_reads_concat, lemma_received_concat, lemma_repeat_received, lemma_reset_received,
    lemma_single_received, lines_after, reads, received, released, repeat_ops, reset_ops, Lines,
    Op, Word,
};
use vstd::prelude::*;

verus! {

/// A command with its parameter bytes, as the panel receives them.
pub open spec fn words(command: Command, data: Seq<u8>) -> Seq<Word> {
    seq![Word::Command(command.address())] + data.map_values(|b: u8| Word::Data(b))
}

/// A command behind any operations is received as its opcode.
proof fn lemma_then_cmd(before: Seq<Op>, command: Command, lines: Lines)
    ensures
        lines_after(before + cmd_ops(command), lines) == released(false),
        received(before + cmd_ops(command), lines) == received(before, lines) + words(
            command,
            Seq::empty(),
        ),
        reads(before + cmd_ops(command)) == reads(before),
        framed(before) ==> framed(before + cmd_ops(command)),
{
    lemma_cmd_framed(command);
    if framed(before) {
        lemma_framed_concat(before, cmd_ops(command));
    }
    lemma_received_concat(before, cmd_ops(command), lines);
    lemma_cmd_received(command, lines_after(before, lines));
    lemma_reads_concat(before, cmd_ops(command));
    assert(words(command, Seq::empty()) =~= seq![Word::Command(command.address())]);
}

/// A command with data behind any operations is received as its opcode
/// and its bytes.
proof fn lemma_then_cmd_with_data(before: Seq<Op>, command: Command, data: Seq<u8>, lines: Lines)
    ensures
        lines_after(before + cmd_with_data_ops(command, data), lines) == released(true),
        received(before + cmd_with_data_ops(command, data), lines) == received(before, lines)
            + words(command, data),
        reads(before + cmd_with_data_ops(command, data)) == reads(before),
        framed(before) ==> framed(before + cmd_with_data_ops(command, data)),
{
    lemma_cmd_framed(command);
    lemma_data_framed(data);
    lemma_framed_concat(cmd_ops(command), data_ops(data));
    if framed(before) {
        lemma_framed_concat(before, cmd_with_data_ops(command, data));
    }
    lemma_received_concat(before, cmd_with_data_ops(command, data), lines);
    lemma_cmd_with_data_received(command, data, lines_after(before, lines));
    lemma_reads_concat(before, cmd_with_data_ops(command, data));
}

/// A whole plane of one byte behind any operations is received as that
/// many copies of the byte.
proof fn lemma_then_fill(before: Seq<Op>, value: u8, lines: Lines)
    ensures
        lines_after(before + repeat_ops(value, PLANE_BYTES as nat), lines) == released(true),
        received(before + repeat_ops(value, PLANE_BYTES as nat), lines) == received(before, lines)
            + data_fill(value, PLANE_BYTES as nat),
        reads(before + repeat_ops(value, PLANE_BYTES as nat)) == reads(before),
        framed(before) ==> framed(before + repeat_ops(value, PLANE_BYTES as nat)),
{
    let fill = repeat_ops(value, PLANE_BYTES as nat);
    lemma_repeat_framed(value, PLANE_BYTES as nat);
    if framed(before) {
        lemma_framed_concat(before, fill);
    }
    lemma_received_concat(before, fill, lines);
    lemma_repeat_received(value, PLANE_BYTES as nat, lines_after(before, lines));
    lemma_reads_concat(before, fill);
}

/// A read of the busy line or a pause behind any operations hands nothing
/// to the panel.
proof fn lemma_then_single(before: Seq<Op>, op: Op, lines: Lines)
    requires
        op is ReadBusy || op is DelayMs,
    ensures
        lines_after(before + seq![op], lines) == lines_after(before, lines),
        received(before + seq![op], lines) == received(before, lines),
        reads(before + seq![op]) == reads(before) + if op is ReadBusy {
            1nat
        } else {
            0nat
        },
        framed(before) ==> framed(before + seq![op]),
{
    lemma_single_framed(op);
    if framed(before) {
        lemma_framed_concat(before, seq![op]);
    }
    lemma_received_concat(before, seq![op], lines);
    lemma_single_received(op, lines_after(before, lines));
    lemma_reads_concat(before, seq![op]);
    assert(received(before, lines) + Seq::<Word>::empty() =~= received(before, lines));
}

/// From the initialisation the panel receives the configuration of the
/// datasheet, in this order and with these parameter bytes, whatever the
/// levels of the lines were before; the busy line is waited for once.
pub proof fn init_received(lines: Lines)
    ensures
        received(init_ops(), lines) == words(
            Command::PowerSetting,
            seq![0x07u8, 0x07u8, 0x3Fu8, 0x3Fu8],
        ) + words(Command::PowerOn, Seq::empty()) + words(Command::PanelSetting, seq![0x0Fu8])
            + words(Command::TconResolution, seq![0x03u8, 0x20u8, 0x01u8, 0xE0u8]) + words(
            Command::DualSpi,
            seq![0x00u8],
        ) + words(Command::VcomAndDataIntervalSetting, seq![0x11u8, 0x07u8]) + words(
            Command::TconSetting,
            seq![0x22u8],
        ) + words(Command::GateSourceStart, seq![0x00u8, 0x00u8, 0x00u8, 0x00u8]),
        lines_after(init_ops(), lines) == released(true),
        reads(init_ops()) == 1,
        framed(init_ops()),
{
    let s0 = reset_ops(RESET_PULSE_MS);
    lemma_reset_received(RESET_PULSE_MS, lines);
    lemma_reset_framed(RESET_PULSE_MS);
    let d1 = seq![0x07u8, 0x07u8, 0x3Fu8, 0x3Fu8];
    lemma_then_cmd_with_data(s0, Command::PowerSetting, d1, lines);
    let s1 = s0 + cmd_with_data_ops(Command::PowerSetting, d1);
    lemma_then_cmd(s1, Command::PowerOn, lines);
    let s2 = s1 + cmd_ops(Command::PowerOn);
    lemma_then_single(s2, Op::ReadBusy, lines);
    let s3 = s2 + seq![Op::ReadBusy];
    lemma_then_cmd_with_data(s3, Command::PanelSetting, seq![0x0Fu8], lines);
    let s4 = s3 + cmd_with_data_ops(Command::PanelSetting, seq![0x0Fu8]);
    let d5 = seq![0x03u8, 0x20u8, 0x01u8, 0xE0u8];
    lemma_then_cmd_with_data(s4, Command::TconResolution, d5, lines);
    let s5 = s4 + cmd_with_data_ops(Command::TconResolution, d5);
    lemma_then_cmd_with_data(s5, Command::DualSpi, seq![0x00u8], lines);
    let s6 = s5 + cmd_with_data_ops(Command::DualSpi, seq![0x00u8]);
    lemma_then_cmd_with_data(s6, Command::VcomAndDataIntervalSetting, seq![0x11u8, 0x07u8], lines);
    let s7 = s6 + cmd_with_data_ops(Command::VcomAndDataIntervalSetting, seq![0x11u8, 0x07u8]);
    lemma_then_cmd_with_data(s7, Command::TconSetting, seq![0x22u8], lines);
    let s8 = s7 + cmd_with_data_ops(Command::TconSetting, seq![0x22u8]);
    let d9 = seq![0x00u8, 0x00u8, 0x00u8, 0x00u8];
    lemma_then_cmd_with_data(s8, Command::GateSourceStart, d9, lines);
    assert(Seq::<Word>::empty() + words(Command::PowerSetting, d1) =~= words(
        Command::PowerSetting,
        d1,
    ));
}

/// From going to sleep the panel receives power off and then deep sleep
/// with its check byte; the busy line is waited for once, in between.
pub proof fn sleep_received(lines: Lines)
    ensures
        received(sleep_ops(), lines) == words(Command::PowerOff, Seq::empty()) + words(
            Command::DeepSleep,
            seq![0xA5u8],
        ),
        lines_after(sleep_ops(), lines) == released(true),
        reads(sleep_ops()) == 1,
        framed(sleep_ops()),
{
    let none = Seq::<Op>::empty();
    lemma_then_cmd(none, Command::PowerOff, lines);
    assert(none + cmd_ops(Command::PowerOff) =~= cmd_ops(Command::PowerOff));
    let s1 = cmd_ops(Command::PowerOff);
    lemma_then_single(s1, Op::ReadBusy, lines);
    let s2 = s1 + seq![Op::ReadBusy];
    lemma_then_cmd_with_data(s2, Command::DeepSleep, seq![0xA5u8], lines);
    assert(received(none, lines) + words(Command::PowerOff, Seq::empty()) =~= words(
        Command::PowerOff,
        Seq::empty(),
    ));
}

/// From a colour frame the panel receives the black buffer behind the
/// command for the black/white plane and the chromatic buffer behind the
/// command for the chromatic plane, both unchanged.
pub proof fn color_frame_received(black: Seq<u8>, chromatic: Seq<u8>, lines: Lines)
    ensures
        received(color_frame_ops(black, chromatic), lines) == words(
            Command::DataStartTransmissionBlackWhite,
            black,
        ) + words(Command::DataStartTransmissionChromatic, chromatic),
        lines_after(color_frame_ops(black, chromatic), lines) == released(true),
        reads(color_frame_ops(black, chromatic)) == 0,
        framed(color_frame_ops(black, chromatic)),
{
    lemma_cmd_with_data_received(Command::DataStartTransmissionBlackWhite, black, lines);
    lemma_then_cmd_with_data(
        Seq::empty(),
        Command::DataStartTransmissionBlackWhite,
        black,
        lines,
    );
    assert(Seq::<Op>::empty() + achromatic_ops(black) =~= achromatic_ops(black));
    lemma_then_cmd_with_data(
        achromatic_ops(black),
        Command::DataStartTransmissionChromatic,
        chromatic,
        lines,
    );
}

/// From a black/white frame the panel receives the buffer, unchanged,
/// behind the command for the black/white plane, and behind the command
/// for the chromatic plane one zero byte for every eight pixels; the busy
/// line is waited for before and after.
pub proof fn update_frame_received(buffer: Seq<u8>, lines: Lines)
    ensures
        received(update_frame_ops(buffer), lines) == words(
            Command::DataStartTransmissionBlackWhite,
            buffer,
        ) + words(Command::DataStartTransmissionChromatic, Seq::empty()) + data_fill(
            CLEAR_CHROMATIC,
            PLANE_BYTES as nat,
        ),
        lines_after(update_frame_ops(buffer), lines) == released(true),
        reads(update_frame_ops(buffer)) == 2,
        framed(update_frame_ops(buffer)),
{
    let s0 = seq![Op::ReadBusy];
    lemma_single_received(Op::ReadBusy, lines);
    lemma_single_framed(Op::ReadBusy);
    lemma_then_cmd_with_data(s0, Command::DataStartTransmissionBlackWhite, buffer, lines);
    let s1 = s0 + achromatic_ops(buffer);
    lemma_then_cmd(s1, Command::DataStartTransmissionChromatic, lines);
    let s2 = s1 + cmd_ops(Command::DataStartTransmissionChromatic);
    lemma_then_fill(s2, CLEAR_CHROMATIC, lines);
    let s3 = s2 + repeat_ops(CLEAR_CHROMATIC, PLANE_BYTES as nat);
    lemma_then_single(s3, Op::ReadBusy, lines);
    assert(Seq::<Word>::empty() + words(Command::DataStartTransmissionBlackWhite, buffer)
        =~= words(Command::DataStartTransmissionBlackWhite, buffer));
}

/// From showing the frame the panel receives the refresh command; the
/// busy line is waited for once, after the pause.
pub proof fn display_frame_received(lines: Lines)
    ensures
        received(display_frame_ops(), lines) == words(Command::DisplayRefresh, Seq::empty()),
        lines_after(display_frame_ops(), lines) == released(false),
        reads(display_frame_ops()) == 1,
        framed(display_frame_ops()),
{
    let none = Seq::<Op>::empty();
    lemma_then_cmd(none, Command::DisplayRefresh, lines);
    assert(none + cmd_ops(Command::DisplayRefresh) =~= cmd_ops(Command::DisplayRefresh));
    let s1 = cmd_ops(Command::DisplayRefresh);
    lemma_then_single(s1, Op::DelayMs { ms: REFRESH_SETTLE_MS }, lines);
    let s2 = s1 + seq![Op::DelayMs { ms: REFRESH_SETTLE_MS }];
    lemma_then_single(s2, Op::ReadBusy, lines);
    assert(received(none, lines) + words(Command::DisplayRefresh, Seq::empty()) =~= words(
        Command::DisplayRefresh,
        Seq::empty(),
    ));
}

/// From clearing the panel it receives, behind the command for the
/// black/white plane, one white byte for every eight pixels, behind the
/// command for the chromatic plane as many zero bytes, and then the
/// refresh command; the busy line is waited for once, before all that.
pub proof fn clear_frame_received(lines: Lines)
    ensures
        received(clear_frame_ops(), lines) == words(
            Command::DataStartTransmissionBlackWhite,
            Seq::empty(),
        ) + data_fill(CLEAR_ACHROMATIC, PLANE_BYTES as nat) + words(
            Command::DataStartTransmissionChromatic,
            Seq::empty(),
        ) + data_fill(CLEAR_CHROMATIC, PLANE_BYTES as nat) + words(
            Command::DisplayRefresh,
            Seq::empty(),
        ),
        lines_after(clear_frame_ops(), lines) == released(false),
        reads(clear_frame_ops()) == 1,
        framed(clear_frame_ops()),
{
    let s0 = seq![Op::ReadBusy];
    lemma_single_received(Op::ReadBusy, lines);
    lemma_single_framed(Op::ReadBusy);
    lemma_then_cmd(s0, Command::DataStartTransmissionBlackWhite, lines);
    let s1 = s0 + cmd_ops(Command::DataStartTransmissionBlackWhite);
    lemma_then_fill(s1, CLEAR_ACHROMATIC, lines);
    let s2 = s1 + repeat_ops(CLEAR_ACHROMATIC, PLANE_BYTES as nat);
    lemma_then_cmd(s2, Command::DataStartTransmissionChromatic, lines);
    let s3 = s2 + cmd_ops(Command::DataStartTransmissionChromatic);
    lemma_then_fill(s3, CLEAR_CHROMATIC, lines);
    let s4 = s3 + repeat_ops(CLEAR_CHROMATIC, PLANE_BYTES as nat);
    lemma_then_cmd(s4, Command::DisplayRefresh, lines);
    assert(Seq::<Word>::empty() + words(Command::DataStartTransmissionBlackWhite, Seq::empty())
        =~= words(Command::DataStartTransmissionBlackWhite, Seq::empty()));
}

/// A panel whose busy line reads idle when the driver first looks is
/// initialised by exactly the queued operations: the one wait of the
/// initialisation is a single read, and no status query is sent.
pub proof fn init_run_idle(levels: Seq<bool>)
    requires
        levels.len() >= 1,
        forall|i: int| 0 <= i < levels.len() ==> !busy_wait().is_busy(#[trigger] levels[i]),
    ensures
        Channel::idle(busy_wait()).queue(init_ops()).trace(levels) == init_ops(),
{
    let c = Channel::idle(busy_wait()).queue(init_ops());
    assert(c.pending =~= init_ops());
    init_received(released(true));
    lemma_trace_idle(c, levels);
}

} // verus!
