use viking_firmware::buf::Writer;
use viking_firmware::gpio::{
    bit_mask, eic_sense_slot, pin_level, port_group_offset, PortGroup, led_command, led_init_level, pin_action, report_level,
    EicChannels, LedCommand, LevelCommand, LevelRequest, PinAction, PinCommand, PinPoll,
    PinWatches,
};

#[test]
fn pin_commands() {
    assert_eq!(pin_action(PinCommand::Float), Ok(PinAction::Float));
    assert_eq!(pin_action(PinCommand::Read), Ok(PinAction::Sample));
    assert_eq!(pin_action(PinCommand::Low), Ok(PinAction::DriveLow));
    assert_eq!(pin_action(PinCommand::High), Ok(PinAction::DriveHigh));
    assert_eq!(pin_action(PinCommand::Unknown), Err(()));
}

#[test]
fn level_reported_as_byte() {
    let mut out = [9u8; 2];
    let mut w = Writer::new(&mut out, 0);
    assert_eq!(report_level(true, &mut w), Ok(()));
    assert_eq!(report_level(false, &mut w), Ok(()));
    assert_eq!(report_level(true, &mut w), Err(()));
    assert_eq!(out, [1, 0]);
}

#[test]
fn led_levels() {
    assert!(led_init_level(true));
    assert!(!led_init_level(false));
    assert_eq!(led_command(true, LedCommand::On), Ok(true));
    assert_eq!(led_command(true, LedCommand::Off), Ok(false));
    assert_eq!(led_command(false, LedCommand::On), Ok(false));
    assert_eq!(led_command(false, LedCommand::Off), Ok(true));
    assert_eq!(led_command(false, LedCommand::Unknown), Err(()));
}

#[test]
fn eic_claim_and_release() {
    let mut eic = EicChannels::new();
    assert_eq!(eic.claim(3), Ok(()));
    assert_eq!(eic.claim(3), Err(()));
    eic.release(3);
    assert_eq!(eic.claim(3), Ok(()));
}

#[test]
fn eic_event_reported_once() {
    let mut eic = EicChannels::new();
    eic.claim(2).unwrap();
    eic.claim(5).unwrap();
    assert_eq!(
        eic.level_command(2, 7, LevelCommand::EventHigh),
        Ok(LevelRequest { high: true, wait: false })
    );
    assert_eq!(
        eic.level_command(5, 8, LevelCommand::EventLow),
        Ok(LevelRequest { high: false, wait: false })
    );
    // Channel 2 fires; channel 5 is re-armed.
    let out = eic.interrupt(1 << 2);
    assert_eq!(out.events, vec![(7, true)]);
    assert_eq!(out.rearm, vec![5]);
    // The same flags again: channel 2 is idle now.
    let out = eic.interrupt(1 << 2);
    assert_eq!(out.events, vec![]);
    assert_eq!(out.rearm, vec![5]);
    let out = eic.interrupt((1 << 5) | 1);
    assert_eq!(out.events, vec![(8, false)]);
    assert_eq!(out.rearm, vec![]);
}

#[test]
fn eic_wait_commands_leave_channels() {
    let mut eic = EicChannels::new();
    assert_eq!(
        eic.level_command(1, 3, LevelCommand::WaitLow),
        Ok(LevelRequest { high: false, wait: true })
    );
    assert_eq!(
        eic.level_command(1, 3, LevelCommand::WaitHigh),
        Ok(LevelRequest { high: true, wait: true })
    );
    assert_eq!(eic.level_command(1, 3, LevelCommand::Unknown), Err(()));
    let out = eic.interrupt(0xffff);
    assert!(out.events.is_empty() && out.rearm.is_empty());
}

#[test]
fn eic_register_layout() {
    assert_eq!(eic_sense_slot(0), (0, 0));
    assert_eq!(eic_sense_slot(7), (0, 7));
    assert_eq!(eic_sense_slot(8), (1, 0));
    assert_eq!(eic_sense_slot(13), (1, 5));
    assert_eq!(bit_mask(0), 1);
    assert_eq!(bit_mask(9), 0x200);
    assert_eq!(bit_mask(31), 0x8000_0000);
}

#[test]
fn rp_pin_watch_poll() {
    let mut pins = PinWatches::new();
    assert_eq!(pins.poll(4, true, true), PinPoll::Nothing);
    assert_eq!(
        pins.level_command(4, 2, LevelCommand::EventLow),
        Ok(LevelRequest { high: false, wait: false })
    );
    assert_eq!(pins.poll(4, false, true), PinPoll::Rearm(false));
    assert_eq!(pins.poll(4, true, false), PinPoll::Event(2, false));
    assert_eq!(pins.poll(4, true, false), PinPoll::Nothing);

    pins.level_command(29, 6, LevelCommand::EventHigh).unwrap();
    assert_eq!(pins.poll(29, true, false), PinPoll::Rearm(true));
    pins.release(29);
    assert_eq!(pins.poll(29, true, true), PinPoll::Nothing);
    assert_eq!(pins.level_command(0, 1, LevelCommand::Unknown), Err(()));
}

#[test]
fn port_pin_bits() {
    assert!(pin_level(0x0000_0004, 2));
    assert!(!pin_level(0x0000_0004, 3));
    assert!(pin_level(0x8000_0000, 31));
    assert!(!pin_level(0x7fff_ffff, 31));
    assert_eq!(port_group_offset(PortGroup::A), 0);
    assert_eq!(port_group_offset(PortGroup::B), 1);
}
