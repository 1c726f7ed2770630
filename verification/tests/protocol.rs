use epd_waveshare::color::TriColor;
use epd_waveshare::command::Command;
use epd_waveshare::epd7in5bc_v3::{
    DriverError, Epd7in5bc, PowerState, RefreshLut, DEFAULT_BACKGROUND_COLOR, HEIGHT, PLANE_BYTES,
    WIDTH,
};
use epd_waveshare::interface::DisplayInterface;
use epd_waveshare::wire::{Action, BusyWait, Event, Line};

/// A transport that records what it is asked to do, answers the reads of the
/// busy line from a list of levels (high once the list is used up) and can
/// let one write fail.
struct Fake {
    levels: Vec<bool>,
    log: Vec<Action>,
    reads: usize,
    writes: usize,
    fail_write: Option<usize>,
}

impl Fake {
    fn new(levels: &[bool]) -> Fake {
        Fake { levels: levels.to_vec(), log: Vec::new(), reads: 0, writes: 0, fail_write: None }
    }

    fn perform(&mut self, action: Action) -> Event {
        let event = match &action {
            Action::ReadBusy => {
                let high = self.levels.get(self.reads).copied().unwrap_or(true);
                self.reads += 1;
                Event::BusyLevel { high }
            }
            Action::Write { .. } => {
                self.writes += 1;
                if self.fail_write == Some(self.writes) {
                    Event::WriteFailed
                } else {
                    Event::Completed
                }
            }
            _ => Event::Completed,
        };
        self.log.push(action);
        event
    }
}

/// Carries out all that the driver has queued; false if a write failed.
fn run(epd: &mut Epd7in5bc, fake: &mut Fake) -> bool {
    let mut event = Event::Completed;
    loop {
        match epd.next_action(event) {
            None => return event != Event::WriteFailed,
            Some(action) => event = fake.perform(action),
        }
    }
}

/// A driver whose initialisation has been carried out.
fn ready() -> Epd7in5bc {
    let mut epd = Epd7in5bc::new();
    assert!(run(&mut epd, &mut Fake::new(&[])));
    epd
}

fn set(line: Line, high: bool) -> Action {
    Action::SetLine { line, high }
}

fn write(bytes: &[u8]) -> Action {
    Action::Write { bytes: bytes.to_vec() }
}

fn delay(ms: u8) -> Action {
    Action::DelayMs { ms }
}

fn cmd(opcode: u8) -> Vec<Action> {
    vec![
        set(Line::DataCommand, false),
        set(Line::ChipSelect, false),
        write(&[opcode]),
        set(Line::ChipSelect, true),
    ]
}

fn data(bytes: &[u8]) -> Vec<Action> {
    vec![
        set(Line::DataCommand, true),
        set(Line::ChipSelect, false),
        write(bytes),
        set(Line::ChipSelect, true),
    ]
}

fn cmd_with_data(opcode: u8, bytes: &[u8]) -> Vec<Action> {
    let mut actions = cmd(opcode);
    actions.extend(data(bytes));
    actions
}

fn fill(value: u8, count: usize) -> Vec<Action> {
    let mut actions = vec![set(Line::DataCommand, true)];
    for _ in 0..count {
        actions.push(set(Line::ChipSelect, false));
        actions.push(write(&[value]));
        actions.push(set(Line::ChipSelect, true));
    }
    actions
}

fn reset(duration: u8) -> Vec<Action> {
    vec![
        set(Line::Reset, true),
        delay(10),
        set(Line::Reset, false),
        delay(duration),
        set(Line::Reset, true),
        delay(200),
    ]
}

fn init_sequence() -> Vec<Action> {
    let mut expected = reset(2);
    expected.extend(cmd_with_data(0x01, &[0x07, 0x07, 0x3F, 0x3F]));
    expected.extend(cmd(0x04));
    expected.push(Action::ReadBusy);
    expected.extend(cmd_with_data(0x00, &[0x0F]));
    expected.extend(cmd_with_data(0x61, &[0x03, 0x20, 0x01, 0xE0]));
    expected.extend(cmd_with_data(0x15, &[0x00]));
    expected.extend(cmd_with_data(0x50, &[0x11, 0x07]));
    expected.extend(cmd_with_data(0x60, &[0x22]));
    expected.extend(cmd_with_data(0x65, &[0x00, 0x00, 0x00, 0x00]));
    expected
}

/// What the panel receives: each written byte with the level that
/// data/command select had, for the writes made while chip select was low.
fn received(log: &[Action]) -> Vec<(bool, u8)> {
    let mut chip_select = true;
    let mut data_command = false;
    let mut words = Vec::new();
    for action in log {
        match action {
            Action::SetLine { line: Line::ChipSelect, high } => chip_select = *high,
            Action::SetLine { line: Line::DataCommand, high } => data_command = *high,
            Action::Write { bytes } => {
                if !chip_select {
                    for byte in bytes {
                        words.push((data_command, *byte));
                    }
                }
            }
            _ => {}
        }
    }
    words
}

fn count_reads(log: &[Action]) -> usize {
    log.iter().filter(|action| **action == Action::ReadBusy).count()
}

#[test]
fn command_addresses() {
    assert_eq!(Command::PanelSetting.address(), 0x00);
    assert_eq!(Command::PowerSetting.address(), 0x01);
    assert_eq!(Command::PowerOff.address(), 0x02);
    assert_eq!(Command::PowerOn.address(), 0x04);
    assert_eq!(Command::DeepSleep.address(), 0x07);
    assert_eq!(Command::DataStartTransmissionBlackWhite.address(), 0x10);
    assert_eq!(Command::DisplayRefresh.address(), 0x12);
    assert_eq!(Command::DataStartTransmissionChromatic.address(), 0x13);
    assert_eq!(Command::DualSpi.address(), 0x15);
    assert_eq!(Command::VcomAndDataIntervalSetting.address(), 0x50);
    assert_eq!(Command::TconSetting.address(), 0x60);
    assert_eq!(Command::TconResolution.address(), 0x61);
    assert_eq!(Command::GateSourceStart.address(), 0x65);
    assert_eq!(Command::Revision.address(), 0x70);
}

#[test]
fn panel_dimensions() {
    let epd = Epd7in5bc::new();
    assert_eq!(epd.width(), 800);
    assert_eq!(epd.height(), 480);
    assert_eq!(WIDTH, 800);
    assert_eq!(HEIGHT, 480);
    assert_eq!(PLANE_BYTES, WIDTH * HEIGHT / 8);
    assert_eq!(PLANE_BYTES, 48000);
}

#[test]
fn background_color_is_white_until_set() {
    let mut epd = Epd7in5bc::new();
    assert_eq!(DEFAULT_BACKGROUND_COLOR, TriColor::White);
    assert_eq!(*epd.background_color(), TriColor::White);
    epd.set_background_color(TriColor::Chromatic);
    assert_eq!(*epd.background_color(), TriColor::Chromatic);
    epd.set_background_color(TriColor::Black);
    assert_eq!(*epd.background_color(), TriColor::Black);
}

#[test]
fn setting_the_background_queues_nothing() {
    let mut epd = ready();
    epd.set_background_color(TriColor::Black);
    assert!(epd.is_drained());
    assert_eq!(epd.next_action(Event::Completed), None);
}

#[test]
fn new_queues_the_initialisation() {
    let mut epd = Epd7in5bc::new();
    assert!(!epd.is_drained());
    assert_eq!(epd.power_state(), PowerState::Active);
    let mut fake = Fake::new(&[true]);
    assert!(run(&mut epd, &mut fake));
    assert_eq!(fake.log, init_sequence());
    assert!(epd.is_drained());
}

#[test]
fn init_sends_the_datasheet_sequence() {
    let mut epd = ready();
    epd.init();
    let mut fake = Fake::new(&[true]);
    assert!(run(&mut epd, &mut fake));
    assert_eq!(fake.log, init_sequence());
    assert_eq!(fake.log.len(), 6 + 8 + 4 + 1 + 6 * 8);
    assert_eq!(
        received(&fake.log),
        vec![
            (false, 0x01),
            (true, 0x07),
            (true, 0x07),
            (true, 0x3F),
            (true, 0x3F),
            (false, 0x04),
            (false, 0x00),
            (true, 0x0F),
            (false, 0x61),
            (true, 0x03),
            (true, 0x20),
            (true, 0x01),
            (true, 0xE0),
            (false, 0x15),
            (true, 0x00),
            (false, 0x50),
            (true, 0x11),
            (true, 0x07),
            (false, 0x60),
            (true, 0x22),
            (false, 0x65),
            (true, 0x00),
            (true, 0x00),
            (true, 0x00),
            (true, 0x00),
        ]
    );
}

#[test]
fn init_starts_with_the_reset_pulse() {
    let mut epd = Epd7in5bc::new();
    let mut fake = Fake::new(&[true]);
    assert!(run(&mut epd, &mut fake));
    assert_eq!(
        fake.log[..6],
        [
            set(Line::Reset, true),
            delay(10),
            set(Line::Reset, false),
            delay(2),
            set(Line::Reset, true),
            delay(200),
        ]
    );
}

#[test]
fn init_reads_the_busy_line_once_when_idle() {
    let mut epd = Epd7in5bc::new();
    let mut fake = Fake::new(&[true]);
    assert!(run(&mut epd, &mut fake));
    assert_eq!(fake.reads, 1);
    assert_eq!(count_reads(&fake.log), 1);
    assert!(!fake.log.contains(&write(&[0x70])));
    let at = fake.log.iter().position(|action| *action == Action::ReadBusy).unwrap();
    assert_eq!(fake.log[at - 4..at], cmd(0x04)[..]);
    assert_eq!(fake.log[at + 1..at + 5], cmd(0x00)[..]);
}

#[test]
fn init_polls_while_busy_after_power_on() {
    let mut epd = Epd7in5bc::new();
    let mut fake = Fake::new(&[false, false, true]);
    assert!(run(&mut epd, &mut fake));
    let mut expected = reset(2);
    expected.extend(cmd_with_data(0x01, &[0x07, 0x07, 0x3F, 0x3F]));
    expected.extend(cmd(0x04));
    for _ in 0..2 {
        expected.push(Action::ReadBusy);
        expected.extend(cmd(0x70));
        expected.push(delay(20));
    }
    expected.push(Action::ReadBusy);
    assert_eq!(fake.log[..expected.len()], expected[..]);
    assert_eq!(fake.log[expected.len()..], init_sequence()[19..]);
}

#[test]
fn wake_up_is_the_initialisation() {
    let mut epd = ready();
    epd.sleep();
    assert!(run(&mut epd, &mut Fake::new(&[])));
    assert_eq!(epd.power_state(), PowerState::Sleeping);
    epd.wake_up();
    assert_eq!(epd.power_state(), PowerState::Active);
    let mut fake = Fake::new(&[true]);
    assert!(run(&mut epd, &mut fake));
    assert_eq!(fake.log, init_sequence());
}

#[test]
fn wait_until_idle_returns_at_once_when_idle() {
    let mut epd = ready();
    epd.wait_until_idle();
    let mut fake = Fake::new(&[true]);
    assert!(run(&mut epd, &mut fake));
    assert_eq!(fake.log, vec![Action::ReadBusy]);
}

#[test]
fn wait_until_idle_polls_three_times() {
    let mut epd = ready();
    epd.wait_until_idle();
    let mut fake = Fake::new(&[false, false, false, true]);
    assert!(run(&mut epd, &mut fake));
    let mut expected = Vec::new();
    for _ in 0..3 {
        expected.push(Action::ReadBusy);
        expected.extend(cmd(0x70));
        expected.push(delay(20));
    }
    expected.push(Action::ReadBusy);
    assert_eq!(fake.log, expected);
    assert_eq!(fake.reads, 4);
    assert_eq!(fake.log.iter().filter(|action| **action == write(&[0x70])).count(), 3);
    assert_eq!(fake.log.iter().filter(|action| **action == delay(20)).count(), 3);
    assert!(epd.is_drained());
}

#[test]
fn what_follows_a_wait_is_held_back_until_idle() {
    let mut epd = ready();
    epd.wait_until_idle();
    epd.command(Command::PowerOn);
    let mut fake = Fake::new(&[false, true]);
    assert!(run(&mut epd, &mut fake));
    let mut expected = vec![Action::ReadBusy];
    expected.extend(cmd(0x70));
    expected.push(delay(20));
    expected.push(Action::ReadBusy);
    expected.extend(cmd(0x04));
    assert_eq!(fake.log, expected);
}

#[test]
fn an_unanswered_read_is_asked_for_again() {
    let mut epd = ready();
    epd.wait_until_idle();
    epd.command(Command::PowerOff);
    assert_eq!(epd.next_action(Event::Completed), Some(Action::ReadBusy));
    assert_eq!(epd.next_action(Event::Completed), Some(Action::ReadBusy));
    assert_eq!(epd.next_action(Event::Completed), Some(Action::ReadBusy));
    assert_eq!(
        epd.next_action(Event::BusyLevel { high: true }),
        Some(set(Line::DataCommand, false))
    );
}

#[test]
fn a_level_that_was_not_asked_for_is_a_completion() {
    let mut epd = ready();
    epd.command(Command::PowerOff);
    assert_eq!(
        epd.next_action(Event::BusyLevel { high: false }),
        Some(set(Line::DataCommand, false))
    );
    assert_eq!(
        epd.next_action(Event::BusyLevel { high: false }),
        Some(set(Line::ChipSelect, false))
    );
    assert_eq!(epd.next_action(Event::Completed), Some(write(&[0x02])));
    assert_eq!(epd.next_action(Event::Completed), Some(set(Line::ChipSelect, true)));
    assert_eq!(epd.next_action(Event::Completed), None);
}

#[test]
fn sleep_powers_off_and_goes_to_deep_sleep() {
    let mut epd = ready();
    epd.sleep();
    assert_eq!(epd.power_state(), PowerState::Sleeping);
    let mut fake = Fake::new(&[false, true]);
    assert!(run(&mut epd, &mut fake));
    let mut expected = cmd(0x02);
    expected.push(Action::ReadBusy);
    expected.extend(cmd(0x70));
    expected.push(delay(20));
    expected.push(Action::ReadBusy);
    expected.extend(cmd_with_data(0x07, &[0xA5]));
    assert_eq!(fake.log, expected);
    assert_eq!(received(&fake.log), vec![(false, 0x02), (false, 0x70), (false, 0x07), (true, 0xA5)]);
}

#[test]
fn update_frame_sends_the_buffer_unchanged() {
    let buffer: Vec<u8> = (0..48000u32).map(|i| (i % 251) as u8).collect();
    let mut epd = ready();
    epd.update_frame(&buffer);
    let mut fake = Fake::new(&[true, true]);
    assert!(run(&mut epd, &mut fake));
    let mut expected = vec![Action::ReadBusy];
    expected.extend(cmd_with_data(0x10, &buffer));
    expected.extend(cmd(0x13));
    expected.extend(fill(0x00, 48000));
    expected.push(Action::ReadBusy);
    assert_eq!(fake.log, expected);
    let words = received(&fake.log);
    assert_eq!(words.len(), 1 + 48000 + 1 + 48000);
    assert_eq!(words[0], (false, 0x10));
    let plane: Vec<u8> = words[1..48001].iter().map(|word| word.1).collect();
    assert_eq!(plane, buffer);
    assert!(words[1..48001].iter().all(|word| word.0));
    assert_eq!(words[48001], (false, 0x13));
    assert!(words[48002..].iter().all(|word| *word == (true, 0x00)));
    assert_eq!(fake.reads, 2);
}

#[test]
fn update_frame_does_not_check_the_length() {
    let mut epd = ready();
    epd.update_frame(&[0xAB, 0xCD, 0xEF]);
    let mut fake = Fake::new(&[]);
    assert!(run(&mut epd, &mut fake));
    let words = received(&fake.log);
    assert_eq!(words[..5], [(false, 0x10), (true, 0xAB), (true, 0xCD), (true, 0xEF), (false, 0x13)]);
    assert_eq!(words.len(), 5 + 48000);
}

#[test]
fn update_frame_does_not_refresh() {
    let mut epd = ready();
    epd.update_frame(&[0u8; 16]);
    let mut fake = Fake::new(&[]);
    assert!(run(&mut epd, &mut fake));
    assert!(!fake.log.contains(&write(&[0x12])));
}

#[test]
fn update_color_frame_sends_both_planes() {
    let black: Vec<u8> = (0..48000u32).map(|i| (i % 7) as u8).collect();
    let chromatic: Vec<u8> = (0..48000u32).map(|i| (i % 13) as u8).collect();
    let mut epd = ready();
    epd.update_color_frame(&black, &chromatic);
    let mut fake = Fake::new(&[]);
    assert!(run(&mut epd, &mut fake));
    let mut expected = cmd_with_data(0x10, &black);
    expected.extend(cmd_with_data(0x13, &chromatic));
    assert_eq!(fake.log, expected);
    assert_eq!(fake.reads, 0);
}

#[test]
fn update_achromatic_frame_sends_the_black_plane() {
    let mut epd = ready();
    epd.update_achromatic_frame(&[1, 2, 3]);
    let mut fake = Fake::new(&[]);
    assert!(run(&mut epd, &mut fake));
    assert_eq!(fake.log, cmd_with_data(0x10, &[1, 2, 3]));
}

#[test]
fn update_chromatic_frame_sends_the_chromatic_plane() {
    let mut epd = ready();
    epd.update_chromatic_frame(&[4, 5]);
    let mut fake = Fake::new(&[]);
    assert!(run(&mut epd, &mut fake));
    assert_eq!(fake.log, cmd_with_data(0x13, &[4, 5]));
}

#[test]
fn display_frame_refreshes_pauses_and_waits() {
    let mut epd = ready();
    epd.display_frame();
    let mut fake = Fake::new(&[false, true]);
    assert!(run(&mut epd, &mut fake));
    let mut expected = cmd(0x12);
    expected.push(delay(100));
    expected.push(Action::ReadBusy);
    expected.extend(cmd(0x70));
    expected.push(delay(20));
    expected.push(Action::ReadBusy);
    assert_eq!(fake.log, expected);
}

#[test]
fn update_and_display_frame_is_update_then_display() {
    let buffer = [0x5Au8; 32];
    let mut both = ready();
    both.update_and_display_frame(&buffer);
    let mut fake_both = Fake::new(&[true, true, false, true]);
    assert!(run(&mut both, &mut fake_both));
    let mut apart = ready();
    apart.update_frame(&buffer);
    apart.display_frame();
    let mut fake_apart = Fake::new(&[true, true, false, true]);
    assert!(run(&mut apart, &mut fake_apart));
    assert_eq!(fake_both.log, fake_apart.log);
    let n = fake_both.log.len();
    let mut tail = cmd(0x12);
    tail.push(delay(100));
    tail.push(Action::ReadBusy);
    tail.extend(cmd(0x70));
    tail.push(delay(20));
    tail.push(Action::ReadBusy);
    assert_eq!(fake_both.log[n - tail.len()..], tail[..]);
}

#[test]
fn clear_frame_fills_both_planes_and_refreshes() {
    let mut epd = ready();
    epd.clear_frame();
    let mut fake = Fake::new(&[true]);
    assert!(run(&mut epd, &mut fake));
    let mut expected = vec![Action::ReadBusy];
    expected.extend(cmd(0x10));
    expected.extend(fill(0xFF, 48000));
    expected.extend(cmd(0x13));
    expected.extend(fill(0x00, 48000));
    expected.extend(cmd(0x12));
    assert_eq!(fake.log, expected);
    let words = received(&fake.log);
    assert_eq!(words.len(), 3 + 2 * 48000);
    assert_eq!(words[0], (false, 0x10));
    assert!(words[1..48001].iter().all(|word| *word == (true, 0xFF)));
    assert_eq!(words[48001], (false, 0x13));
    assert!(words[48002..96002].iter().all(|word| *word == (true, 0x00)));
    assert_eq!(words[96002], (false, 0x12));
}

#[test]
fn clear_frame_does_not_wait_for_the_refresh() {
    let mut epd = ready();
    epd.clear_frame();
    let mut fake = Fake::new(&[true, false, false]);
    assert!(run(&mut epd, &mut fake));
    assert_eq!(fake.reads, 1);
    assert_eq!(fake.log[0], Action::ReadBusy);
    assert_eq!(fake.log.last(), Some(&set(Line::ChipSelect, true)));
    assert!(!fake.log.contains(&delay(100)));
}

#[test]
fn update_partial_frame_is_unsupported() {
    let mut epd = ready();
    assert_eq!(epd.update_partial_frame(&[0u8; 8], 0, 0, 8, 8), Err(DriverError::Unsupported));
    assert!(epd.is_drained());
    assert_eq!(epd.next_action(Event::Completed), None);
}

#[test]
fn update_partial_frame_leaves_the_queue_alone() {
    let mut epd = ready();
    epd.command(Command::PowerOn);
    assert_eq!(epd.update_partial_frame(&[], 1, 2, 3, 4), Err(DriverError::Unsupported));
    let mut fake = Fake::new(&[]);
    assert!(run(&mut epd, &mut fake));
    assert_eq!(fake.log, cmd(0x04));
}

#[test]
fn set_lut_is_unsupported() {
    let mut epd = ready();
    assert_eq!(epd.set_lut(None), Err(DriverError::Unsupported));
    assert_eq!(epd.set_lut(Some(RefreshLut::Full)), Err(DriverError::Unsupported));
    assert_eq!(epd.set_lut(Some(RefreshLut::Quick)), Err(DriverError::Unsupported));
    assert!(epd.is_drained());
    assert_eq!(epd.next_action(Event::Completed), None);
}

#[test]
fn is_busy_while_the_line_is_low() {
    let epd = Epd7in5bc::new();
    assert!(epd.is_busy(false));
    assert!(!epd.is_busy(true));
}

#[test]
fn is_busy_follows_the_polarity() {
    let low = BusyWait { busy_low: true, query: Command::Revision, interval_ms: 20 };
    let high = BusyWait { busy_low: false, query: Command::Revision, interval_ms: 20 };
    assert!(low.is_busy(false));
    assert!(!high.is_busy(false));
    assert!(!low.is_busy(true));
    assert!(high.is_busy(true));
    assert!(DisplayInterface::new(low).is_busy(false));
    assert!(!DisplayInterface::new(high).is_busy(false));
    assert!(!DisplayInterface::new(low).is_busy(true));
    assert!(DisplayInterface::new(high).is_busy(true));
}

#[test]
fn a_busy_high_panel_polls_while_the_line_is_high() {
    let wait = BusyWait { busy_low: false, query: Command::PowerOn, interval_ms: 7 };
    let mut interface = DisplayInterface::new(wait);
    interface.wait_until_idle();
    assert_eq!(interface.next_action(Event::Completed), Some(Action::ReadBusy));
    let mut log = Vec::new();
    let mut event = Event::BusyLevel { high: true };
    while let Some(action) = interface.next_action(event) {
        event = if action == Action::ReadBusy {
            Event::BusyLevel { high: false }
        } else {
            Event::Completed
        };
        log.push(action);
    }
    let mut expected = cmd(0x04);
    expected.push(delay(7));
    expected.push(Action::ReadBusy);
    assert_eq!(log, expected);
}

#[test]
fn a_failed_write_ends_the_operation() {
    let mut epd = Epd7in5bc::new();
    let mut fake = Fake::new(&[]);
    fake.fail_write = Some(2);
    assert!(!run(&mut epd, &mut fake));
    let mut expected = reset(2);
    expected.extend(cmd(0x01));
    expected.push(set(Line::DataCommand, true));
    expected.push(set(Line::ChipSelect, false));
    expected.push(write(&[0x07, 0x07, 0x3F, 0x3F]));
    assert_eq!(fake.log, expected);
    assert!(epd.is_drained());
    assert_eq!(epd.next_action(Event::Completed), None);
}

#[test]
fn a_failed_write_drops_what_was_queued_behind() {
    let mut epd = ready();
    epd.update_frame(&[1, 2, 3]);
    epd.display_frame();
    let mut fake = Fake::new(&[]);
    fake.fail_write = Some(1);
    assert!(!run(&mut epd, &mut fake));
    assert_eq!(fake.writes, 1);
    assert!(epd.is_drained());
    assert!(!fake.log.contains(&write(&[0x12])));
    epd.command(Command::PowerOn);
    let mut again = Fake::new(&[]);
    assert!(run(&mut epd, &mut again));
    assert_eq!(again.log, cmd(0x04));
}

#[test]
fn command_is_framed_as_a_command() {
    let mut epd = ready();
    epd.command(Command::DisplayRefresh);
    let mut fake = Fake::new(&[]);
    assert!(run(&mut epd, &mut fake));
    assert_eq!(
        fake.log,
        vec![
            set(Line::DataCommand, false),
            set(Line::ChipSelect, false),
            write(&[0x12]),
            set(Line::ChipSelect, true),
        ]
    );
}

#[test]
fn send_data_is_framed_as_one_burst() {
    let mut epd = ready();
    epd.send_data(&[9, 8, 7, 6]);
    let mut fake = Fake::new(&[]);
    assert!(run(&mut epd, &mut fake));
    assert_eq!(
        fake.log,
        vec![
            set(Line::DataCommand, true),
            set(Line::ChipSelect, false),
            write(&[9, 8, 7, 6]),
            set(Line::ChipSelect, true),
        ]
    );
}

#[test]
fn send_data_of_nothing_is_an_empty_write() {
    let mut epd = ready();
    epd.send_data(&[]);
    let mut fake = Fake::new(&[]);
    assert!(run(&mut epd, &mut fake));
    assert_eq!(fake.log, data(&[]));
}

#[test]
fn command_with_data_is_command_then_data() {
    let mut epd = ready();
    epd.command_with_data(Command::TconSetting, &[0x22]);
    let mut fake = Fake::new(&[]);
    assert!(run(&mut epd, &mut fake));
    let mut expected = cmd(0x60);
    expected.extend(data(&[0x22]));
    assert_eq!(fake.log, expected);
}

#[test]
fn data_x_times_writes_each_copy_in_its_own_transaction() {
    let mut interface = DisplayInterface::new(BusyWait {
        busy_low: true,
        query: Command::Revision,
        interval_ms: 20,
    });
    interface.data_x_times(0x3C, 3);
    let mut log = Vec::new();
    while let Some(action) = interface.next_action(Event::Completed) {
        log.push(action);
    }
    assert_eq!(log, fill(0x3C, 3));
    assert_eq!(log.len(), 10);
}

#[test]
fn data_x_times_of_none_only_selects_data() {
    let mut interface = DisplayInterface::new(BusyWait {
        busy_low: true,
        query: Command::Revision,
        interval_ms: 20,
    });
    interface.data_x_times(0x3C, 0);
    assert_eq!(interface.next_action(Event::Completed), Some(set(Line::DataCommand, true)));
    assert_eq!(interface.next_action(Event::Completed), None);
}

#[test]
fn reset_pulse_lasts_as_long_as_asked() {
    let mut interface = DisplayInterface::new(BusyWait {
        busy_low: true,
        query: Command::Revision,
        interval_ms: 20,
    });
    interface.reset(37);
    let mut log = Vec::new();
    while let Some(action) = interface.next_action(Event::Completed) {
        log.push(action);
    }
    assert_eq!(log, reset(37));
}

#[test]
fn delay_ms_is_one_pause() {
    let mut interface = DisplayInterface::new(BusyWait {
        busy_low: true,
        query: Command::Revision,
        interval_ms: 20,
    });
    assert!(interface.is_drained());
    interface.delay_ms(55);
    assert!(!interface.is_drained());
    assert_eq!(interface.next_action(Event::Completed), Some(delay(55)));
    assert!(interface.is_drained());
    assert_eq!(interface.next_action(Event::Completed), None);
}

#[test]
fn requests_are_handed_out_in_the_order_made() {
    let mut interface = DisplayInterface::new(BusyWait {
        busy_low: true,
        query: Command::Revision,
        interval_ms: 20,
    });
    interface.cmd(Command::PowerOn);
    assert_eq!(interface.next_action(Event::Completed), Some(set(Line::DataCommand, false)));
    assert_eq!(interface.next_action(Event::Completed), Some(set(Line::ChipSelect, false)));
    interface.cmd_with_data(Command::DeepSleep, &[0xA5]);
    interface.data(&[1]);
    let mut log = Vec::new();
    while let Some(action) = interface.next_action(Event::Completed) {
        log.push(action);
    }
    let mut expected = vec![write(&[0x04]), set(Line::ChipSelect, true)];
    expected.extend(cmd_with_data(0x07, &[0xA5]));
    expected.extend(data(&[1]));
    assert_eq!(log, expected);
}

#[test]
fn chip_select_is_low_only_around_a_write() {
    let mut epd = Epd7in5bc::new();
    epd.update_frame(&[0x11; 64]);
    epd.display_frame();
    epd.sleep();
    let mut fake = Fake::new(&[false, true, true, false, true, true, true]);
    assert!(run(&mut epd, &mut fake));
    for (i, action) in fake.log.iter().enumerate() {
        if let Action::Write { .. } = action {
            assert_eq!(fake.log[i - 1], set(Line::ChipSelect, false));
            assert_eq!(fake.log[i + 1], set(Line::ChipSelect, true));
        }
        if *action == set(Line::ChipSelect, false) {
            assert!(matches!(fake.log[i + 1], Action::Write { .. }));
        }
    }
}
