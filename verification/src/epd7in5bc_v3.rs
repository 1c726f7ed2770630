//! Driver of the 7.5" three-colour e-paper panel, revision V3
//! (800x480, black, white and one accent colour).
//!
//! Every operation of the driver queues, on its command channel, the exact
//! sequence of commands, parameter bytes, pauses and busy waits that the
//! panel's datasheet asks for. The owner of the transport then takes the
//! operations out with [`Epd7in5bc::next_action`] and carries them out.

use crate::channel::Channel;
use crate::color::TriColor;
use crate::command::Command;
use crate::interface::{issued, DisplayInterface};
use crate::wire::{
    cmd_ops, cmd_with_data_ops, data_ops, repeat_ops, reset_ops, Action, BusyWait, Event, Op,
};
use vstd::prelude::*;

verus! {

/// Width of the panel in pixels.
pub const WIDTH: u32 = 800;

/// Height of the panel in pixels.
pub const HEIGHT: u32 = 480;

/// Default background colour of the panel.
pub const DEFAULT_BACKGROUND_COLOR: TriColor = TriColor::White;

/// Number of bytes of one colour plane: one bit for each pixel.
pub const PLANE_BYTES: u32 = 48000;

/// The panel pulls its busy line low while it is busy.
pub const IS_BUSY_LOW: bool = true;

/// The pause after each status query of a busy wait, in milliseconds.
pub const POLL_INTERVAL_MS: u8 = 20;

/// How long the reset line is held low, in milliseconds.
pub const RESET_PULSE_MS: u8 = 2;

/// The pause after the refresh command before the busy line means
/// anything, in milliseconds.
pub const REFRESH_SETTLE_MS: u8 = 100;

/// The byte that fills the black/white plane of a cleared frame: all white.
pub const CLEAR_ACHROMATIC: u8 = 0xFF;

/// The byte that fills the chromatic plane where nothing is drawn on it.
pub const CLEAR_CHROMATIC: u8 = 0x00;

/// The kinds of refresh that panels with a look-up table offer.
#[derive(Clone, Copy, Debug, PartialEq, Eq, Structural)]
pub enum RefreshLut {
    /// The full refresh of the factory settings.
    Full,
    /// A quicker refresh that may leave ghosting.
    Quick,
}

/// Why the driver did not do what it was asked to.
#[derive(Clone, Copy, Debug, PartialEq, Eq, Structural)]
pub enum DriverError {
    /// This revision of the panel does not offer the operation.
    Unsupported,
}

/// Whether the panel has been put to sleep.
#[derive(Clone, Copy, Debug, PartialEq, Eq, Structural)]
pub enum PowerState {
    /// Initialised and ready for frames.
    Active,
    /// In deep sleep; only a new initialisation wakes it.
    Sleeping,
}

/// How this panel signals busy and how the driver waits for it: the busy
/// line is low while the panel is busy, and between two reads the driver
/// sends the revision command and pauses.
pub open spec fn busy_wait() -> BusyWait {
    BusyWait { busy_low: IS_BUSY_LOW, query: Command::Revision, interval_ms: POLL_INTERVAL_MS }
}

/// The plane of the panel holds one bit for each pixel.
pub proof fn plane_bytes_is_pixels_by_eight()
    ensures
        PLANE_BYTES == WIDTH * HEIGHT / 8,
{
}

/// Initialisation: the reset pulse, power setting and power on, one busy
/// wait, then panel setting, resolution, serial mode, VCOM and data
/// interval, non-overlap period and start position of gate and source.
pub open spec fn init_ops() -> Seq<Op> {
    reset_ops(RESET_PULSE_MS) + cmd_with_data_ops(
        Command::PowerSetting,
        seq![0x07u8, 0x07u8, 0x3Fu8, 0x3Fu8],
    ) + cmd_ops(Command::PowerOn) + seq![Op::ReadBusy] + cmd_with_data_ops(
        Command::PanelSetting,
        seq![0x0Fu8],
    ) + cmd_with_data_ops(Command::TconResolution, seq![0x03u8, 0x20u8, 0x01u8, 0xE0u8])
        + cmd_with_data_ops(Command::DualSpi, seq![0x00u8]) + cmd_with_data_ops(
        Command::VcomAndDataIntervalSetting,
        seq![0x11u8, 0x07u8],
    ) + cmd_with_data_ops(Command::TconSetting, seq![0x22u8]) + cmd_with_data_ops(
        Command::GateSourceStart,
        seq![0x00u8, 0x00u8, 0x00u8, 0x00u8],
    )
}

/// Going to sleep: power off, a busy wait, then deep sleep with its check
/// byte.
pub open spec fn sleep_ops() -> Seq<Op> {
    cmd_ops(Command::PowerOff) + seq![Op::ReadBusy] + cmd_with_data_ops(
        Command::DeepSleep,
        seq![0xA5u8],
    )
}

/// Sending the black/white plane.
pub open spec fn achromatic_ops(black: Seq<u8>) -> Seq<Op> {
    cmd_with_data_ops(Command::DataStartTransmissionBlackWhite, black)
}

/// Sending the chromatic plane.
pub open spec fn chromatic_ops(chromatic: Seq<u8>) -> Seq<Op> {
    cmd_with_data_ops(Command::DataStartTransmissionChromatic, chromatic)
}

/// Sending both planes of a frame, the black/white one first.
pub open spec fn color_frame_ops(black: Seq<u8>, chromatic: Seq<u8>) -> Seq<Op> {
    achromatic_ops(black) + chromatic_ops(chromatic)
}

/// Sending a black/white frame: a busy wait, the buffer as the black/white
/// plane, a whole chromatic plane of zero bytes, and a busy wait.
pub open spec fn update_frame_ops(buffer: Seq<u8>) -> Seq<Op> {
    seq![Op::ReadBusy] + achromatic_ops(buffer) + cmd_ops(Command::DataStartTransmissionChromatic)
        + repeat_ops(CLEAR_CHROMATIC, PLANE_BYTES as nat) + seq![Op::ReadBusy]
}

/// Showing the frame: the refresh command, the pause that the panel needs
/// before its busy line means anything, and a busy wait.
pub open spec fn display_frame_ops() -> Seq<Op> {
    cmd_ops(Command::DisplayRefresh) + seq![Op::DelayMs { ms: REFRESH_SETTLE_MS }] + seq![
        Op::ReadBusy,
    ]
}

/// Clearing the panel: a busy wait, a whole black/white plane of white, a
/// whole chromatic plane of zero bytes, and the refresh command with no
/// pause and no wait behind it.
pub open spec fn clear_frame_ops() -> Seq<Op> {
    seq![Op::ReadBusy] + cmd_ops(Command::DataStartTransmissionBlackWhite) + repeat_ops(
        CLEAR_ACHROMATIC,
        PLANE_BYTES as nat,
    ) + cmd_ops(Command::DataStartTransmissionChromatic) + repeat_ops(
        CLEAR_CHROMATIC,
        PLANE_BYTES as nat,
    ) + cmd_ops(Command::DisplayRefresh)
}

/// The driver as the contracts see it.
pub struct Panel {
    /// The command channel with what is queued on it.
    pub channel: Channel,
    /// The background colour.
    pub color: TriColor,
    /// The state that the panel is in once all that is queued has been
    /// carried out.
    pub power: PowerState,
}

impl Panel {
    /// The driver with further operations queued.
    pub open spec fn queue(self, ops: Seq<Op>) -> Panel {
        Panel { channel: self.channel.queue(ops), ..self }
    }

    /// The driver in another power state.
    pub open spec fn powered(self, power: PowerState) -> Panel {
        Panel { power, ..self }
    }
}

/// Driver of the panel.
pub struct Epd7in5bc {
    /// The command channel.
    interface: DisplayInterface,
    /// The background colour.
    color: TriColor,
    /// What the panel was last asked to be.
    power: PowerState,
}

impl View for Epd7in5bc {
    type V = Panel;

    closed spec fn view(&self) -> Panel {
        Panel { channel: self.interface@, color: self.color, power: self.power }
    }
}

impl Epd7in5bc {
    /// Queues the initialisation of the panel, after which it is active.
    pub fn init(&mut self)
        ensures
            final(self)@ == old(self)@.queue(init_ops()).powered(PowerState::Active),
    {
        let power: [u8; 4] = [0x07, 0x07, 0x3F, 0x3F];
        let panel: [u8; 1] = [0x0F];
        let resolution: [u8; 4] = [0x03, 0x20, 0x01, 0xE0];
        let dual_spi: [u8; 1] = [0x00];
        let interval: [u8; 2] = [0x11, 0x07];
        let tcon: [u8; 1] = [0x22];
        let start: [u8; 4] = [0x00, 0x00, 0x00, 0x00];
        proof {
            assert(power@ =~= seq![0x07u8, 0x07u8, 0x3Fu8, 0x3Fu8]);
            assert(panel@ =~= seq![0x0Fu8]);
            assert(resolution@ =~= seq![0x03u8, 0x20u8, 0x01u8, 0xE0u8]);
            assert(dual_spi@ =~= seq![0x00u8]);
            assert(interval@ =~= seq![0x11u8, 0x07u8]);
            assert(tcon@ =~= seq![0x22u8]);
            assert(start@ =~= seq![0x00u8, 0x00u8, 0x00u8, 0x00u8]);
        }
        self.interface.reset(RESET_PULSE_MS);
        self.command_with_data(Command::PowerSetting, &power);
        self.command(Command::PowerOn);
        self.wait_until_idle();
        self.command_with_data(Command::PanelSetting, &panel);
        self.command_with_data(Command::TconResolution, &resolution);
        self.command_with_data(Command::DualSpi, &dual_spi);
        self.command_with_data(Command::VcomAndDataIntervalSetting, &interval);
        self.command_with_data(Command::TconSetting, &tcon);
        self.command_with_data(Command::GateSourceStart, &start);
        self.power = PowerState::Active;
        assert(self@.channel.pending =~= old(self)@.channel.pending + init_ops());
    }

    /// Queues both planes of a frame, the black/white one first. The panel
    /// takes each plane as `WIDTH * HEIGHT / 8` bytes; the lengths are not
    /// looked at here.
    pub fn update_color_frame(&mut self, black: &[u8], chromatic: &[u8])
        ensures
            final(self)@ == old(self)@.queue(color_frame_ops(black@, chromatic@)),
    {
        self.update_achromatic_frame(black);
        self.update_chromatic_frame(chromatic);
        assert(self@.channel.pending =~= old(self)@.channel.pending + color_frame_ops(
            black@,
            chromatic@,
        ));
    }

    /// Queues the black/white plane of a frame.
    pub fn update_achromatic_frame(&mut self, black: &[u8])
        ensures
            final(self)@ == old(self)@.queue(achromatic_ops(black@)),
    {
        self.command_with_data(Command::DataStartTransmissionBlackWhite, black);
    }

    /// Queues the chromatic plane of a frame.
    pub fn update_chromatic_frame(&mut self, chromatic: &[u8])
        ensures
            final(self)@ == old(self)@.queue(chromatic_ops(chromatic@)),
    {
        self.command_with_data(Command::DataStartTransmissionChromatic, chromatic);
    }

    /// A driver for a panel that has just been connected: white
    /// background, and the initialisation queued on an otherwise empty
    /// channel.
    pub fn new() -> (epd: Self)
        ensures
            epd@ == (Panel {
                channel: Channel::idle(busy_wait()).queue(init_ops()),
                color: DEFAULT_BACKGROUND_COLOR,
                power: PowerState::Active,
            }),
    {
        let wait = BusyWait {
            busy_low: IS_BUSY_LOW,
            query: Command::Revision,
            interval_ms: POLL_INTERVAL_MS,
        };
        let interface = DisplayInterface::new(wait);
        let color = DEFAULT_BACKGROUND_COLOR;
        let mut epd = Epd7in5bc { interface, color, power: PowerState::Active };
        epd.init();
        epd
    }

    /// Queues the wake-up of a sleeping panel, which for this panel is the
    /// whole initialisation.
    pub fn wake_up(&mut self)
        ensures
            final(self)@ == old(self)@.queue(init_ops()).powered(PowerState::Active),
    {
        self.init()
    }

    /// Queues putting the panel to sleep. A panel that sleeps takes no
    /// frame before it has been woken up.
    pub fn sleep(&mut self)
        ensures
            final(self)@ == old(self)@.queue(sleep_ops()).powered(PowerState::Sleeping),
    {
        self.command(Command::PowerOff);
        self.wait_until_idle();
        let check: [u8; 1] = [0xA5];
        assert(check@ =~= seq![0xA5u8]);
        self.command_with_data(Command::DeepSleep, &check);
        self.power = PowerState::Sleeping;
        assert(self@.channel.pending =~= old(self)@.channel.pending + sleep_ops());
    }

    /// Queues a black/white frame: the buffer goes to the black/white plane
    /// as it is, and the chromatic plane is filled with zero bytes. The
    /// frame shows only after a refresh. The panel takes the plane as
    /// `WIDTH * HEIGHT / 8` bytes; the length of the buffer is not looked
    /// at here.
    pub fn update_frame(&mut self, buffer: &[u8])
        ensures
            final(self)@ == old(self)@.queue(update_frame_ops(buffer@)),
    {
        self.wait_until_idle();
        self.command_with_data(Command::DataStartTransmissionBlackWhite, buffer);
        self.command(Command::DataStartTransmissionChromatic);
        self.interface.data_x_times(CLEAR_CHROMATIC, PLANE_BYTES);
        self.wait_until_idle();
        assert(self@.channel.pending =~= old(self)@.channel.pending + update_frame_ops(buffer@));
    }

    /// Partial updates are not offered by this revision of the panel:
    /// nothing is queued.
    pub fn update_partial_frame(
        &mut self,
        buffer: &[u8],
        x: u32,
        y: u32,
        width: u32,
        height: u32,
    ) -> (result: Result<(), DriverError>)
        ensures
            result == Err::<(), DriverError>(DriverError::Unsupported),
            final(self)@ == old(self)@,
    {
        Err(DriverError::Unsupported)
    }

    /// Queues the refresh that shows what the frame memory holds.
    pub fn display_frame(&mut self)
        ensures
            final(self)@ == old(self)@.queue(display_frame_ops()),
    {
        self.command(Command::DisplayRefresh);
        self.interface.delay_ms(REFRESH_SETTLE_MS);
        self.wait_until_idle();
        assert(self@.channel.pending =~= old(self)@.channel.pending + display_frame_ops());
    }

    /// Queues a black/white frame and the refresh that shows it.
    pub fn update_and_display_frame(&mut self, buffer: &[u8])
        ensures
            final(self)@ == old(self)@.queue(update_frame_ops(buffer@) + display_frame_ops()),
    {
        self.update_frame(buffer);
        self.display_frame();
        assert(self@.channel.pending =~= old(self)@.channel.pending + (update_frame_ops(buffer@)
            + display_frame_ops()));
    }

    /// Queues clearing the panel to white and the refresh command. Nothing
    /// waits for that refresh to end.
    pub fn clear_frame(&mut self)
        ensures
            final(self)@ == old(self)@.queue(clear_frame_ops()),
    {
        self.wait_until_idle();
        self.command(Command::DataStartTransmissionBlackWhite);
        self.interface.data_x_times(CLEAR_ACHROMATIC, PLANE_BYTES);
        self.command(Command::DataStartTransmissionChromatic);
        self.interface.data_x_times(CLEAR_CHROMATIC, PLANE_BYTES);
        self.command(Command::DisplayRefresh);
        assert(self@.channel.pending =~= old(self)@.channel.pending + clear_frame_ops());
    }

    /// Sets the background colour.
    pub fn set_background_color(&mut self, color: TriColor)
        ensures
            final(self)@ == (Panel { color, ..old(self)@ }),
    {
        self.color = color;
    }

    /// The background colour.
    pub fn background_color(&self) -> (color: &TriColor)
        ensures
            *color == self@.color,
    {
        &self.color
    }

    /// Width of the panel in pixels.
    pub fn width(&self) -> (width: u32)
        ensures
            width == WIDTH,
    {
        WIDTH
    }

    /// Height of the panel in pixels.
    pub fn height(&self) -> (height: u32)
        ensures
            height == HEIGHT,
    {
        HEIGHT
    }

    /// This revision of the panel has no look-up table to set: nothing is
    /// queued.
    pub fn set_lut(&mut self, refresh_rate: Option<RefreshLut>) -> (result: Result<
        (),
        DriverError,
    >)
        ensures
            result == Err::<(), DriverError>(DriverError::Unsupported),
            final(self)@ == old(self)@,
    {
        Err(DriverError::Unsupported)
    }

    /// Whether a busy line at this level (`true` for high) means that the
    /// panel is busy: it is while the line is low.
    pub fn is_busy(&self, high: bool) -> (busy: bool)
        ensures
            busy == busy_wait().is_busy(high),
            busy == !high,
    {
        if IS_BUSY_LOW {
            !high
        } else {
            high
        }
    }

    /// What the panel was last asked to be: active, or asleep.
    pub fn power_state(&self) -> (power: PowerState)
        ensures
            power == self@.power,
    {
        self.power
    }

    /// Whether nothing is queued.
    pub fn is_drained(&self) -> (drained: bool)
        ensures
            drained == (self@.channel.pending.len() == 0),
    {
        self.interface.is_drained()
    }

    /// Gives the next transport operation to carry out, after the
    /// transport has reported `event`; `None` when nothing is left to do.
    pub fn next_action(&mut self, event: Event) -> (action: Option<Action>)
        ensures
            final(self)@ == (Panel { channel: old(self)@.channel.advance(event).0, ..old(self)@ }),
            issued(action) == old(self)@.channel.advance(event).1,
    {
        self.interface.next_action(event)
    }

    /// Queues a command.
    pub fn command(&mut self, command: Command)
        ensures
            final(self)@ == old(self)@.queue(cmd_ops(command)),
    {
        self.interface.cmd(command)
    }

    /// Queues a data burst.
    pub fn send_data(&mut self, data: &[u8])
        ensures
            final(self)@ == old(self)@.queue(data_ops(data@)),
    {
        self.interface.data(data)
    }

    /// Queues a command and its data.
    pub fn command_with_data(&mut self, command: Command, data: &[u8])
        ensures
            final(self)@ == old(self)@.queue(cmd_with_data_ops(command, data@)),
    {
        self.interface.cmd_with_data(command, data)
    }

    /// Queues a busy wait: the busy line is read; for as long as it reads
    /// busy, the revision command is sent, the poll interval passes and
    /// the line is read again.
    pub fn wait_until_idle(&mut self)
        ensures
            final(self)@ == old(self)@.queue(seq![Op::ReadBusy]),
    {
        self.interface.wait_until_idle()
    }
}

} // verus!
