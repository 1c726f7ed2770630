//! Opcodes of the panel controller.

use vstd::prelude::*;

verus! {

/// The controller commands that the driver issues.
#[derive(Clone, Copy, Debug, PartialEq, Eq, Structural)]
pub enum Command {
    /// Panel setting: scan direction, colour mode, booster.
    PanelSetting,
    /// Power setting: selects and sizes the internal supply rails.
    PowerSetting,
    /// Power off.
    PowerOff,
    /// Power on.
    PowerOn,
    /// Deep sleep; takes the check byte `0xA5`.
    DeepSleep,
    /// Starts the transfer of the black/white plane.
    DataStartTransmissionBlackWhite,
    /// Redraws the panel from its frame memory.
    DisplayRefresh,
    /// Starts the transfer of the chromatic plane.
    DataStartTransmissionChromatic,
    /// Dual SPI mode.
    DualSpi,
    /// VCOM and data interval setting.
    VcomAndDataIntervalSetting,
    /// Gate/source non-overlap period.
    TconSetting,
    /// Resolution: horizontal and vertical size, two bytes each.
    TconResolution,
    /// Gate/source start position.
    GateSourceStart,
    /// Chip revision; has no effect on the panel and serves as status query.
    Revision,
}

impl Command {
    /// The opcode byte of the command.
    pub open spec fn spec_address(self) -> u8 {
        match self {
            Command::PanelSetting => 0x00,
            Command::PowerSetting => 0x01,
            Command::PowerOff => 0x02,
            Command::PowerOn => 0x04,
            Command::DeepSleep => 0x07,
            Command::DataStartTransmissionBlackWhite => 0x10,
            Command::DisplayRefresh => 0x12,
            Command::DataStartTransmissionChromatic => 0x13,
            Command::DualSpi => 0x15,
            Command::VcomAndDataIntervalSetting => 0x50,
            Command::TconSetting => 0x60,
            Command::TconResolution => 0x61,
            Command::GateSourceStart => 0x65,
            Command::Revision => 0x70,
        }
    }

    /// The opcode byte of the command.
    #[verifier::when_used_as_spec(spec_address)]
    pub fn address(self) -> (opcode: u8)
        ensures
            opcode == self.spec_address(),
    {
        match self {
            Command::PanelSetting => 0x00,
            Command::PowerSetting => 0x01,
            Command::PowerOff => 0x02,
            Command::PowerOn => 0x04,
            Command::DeepSleep => 0x07,
            Command::DataStartTransmissionBlackWhite => 0x10,
            Command::DisplayRefresh => 0x12,
            Command::DataStartTransmissionChromatic => 0x13,
            Command::DualSpi => 0x15,
            Command::VcomAndDataIntervalSetting => 0x50,
            Command::TconSetting => 0x60,
            Command::TconResolution => 0x61,
            Command::GateSourceStart => 0x65,
            Command::Revision => 0x70,
        }
    }

    /// No two commands share an opcode.
    pub proof fn address_is_injective(a: Command, b: Command)
        requires
            a.address() == b.address(),
        ensures
            a == b,
    {
    }
}

} // verus!
