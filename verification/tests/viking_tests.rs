use viking_firmware::buf::Reader;
use viking_firmware::viking::{
    build_resource_descriptor, bulk_request, command_status, descriptor_tail, next_command,
    next_command_varint, run_step, split_command_byte, RunAction,
    take_delay_limited, write_response_header, Command, ProtocolError, Reconfigure, Resources,
};

const DELAY: u8 = 0x00;

#[test]
fn command_byte_splits_into_resource_and_command() {
    assert_eq!(split_command_byte(0x00), (0, 0));
    assert_eq!(split_command_byte(0x41), (1, 1));
    assert_eq!(split_command_byte(0xff), (63, 3));
    assert_eq!(split_command_byte(0x85), (5, 2));
}

#[test]
fn next_command_reads_delays_and_resource_commands() {
    let req = [DELAY, 0x34, 0x12, 0x42, 0xc1];
    let mut r = Reader::new(&req);
    assert_eq!(next_command(&mut r, DELAY), Ok(Some(Command::Delay(0x1234))));
    assert_eq!(r.remaining(), 2);
    assert_eq!(next_command(&mut r, DELAY), Ok(Some(Command::Resource { id: 2, command: 1 })));
    assert_eq!(next_command(&mut r, DELAY), Ok(Some(Command::Resource { id: 1, command: 3 })));
    assert_eq!(next_command(&mut r, DELAY), Ok(None));
    assert_eq!(next_command(&mut r, DELAY), Ok(None));
}

#[test]
fn next_command_delay_without_argument_is_missing_arg() {
    let req = [DELAY, 0x34];
    let mut r = Reader::new(&req);
    assert_eq!(next_command(&mut r, DELAY), Err(ProtocolError::MissingArg));
    assert_eq!(r.remaining(), 0);
}

#[test]
fn next_command_other_delay_code() {
    // With another delay code, a zero byte is a resource command.
    let req = [0x00, 0x3f, 0x01, 0x00];
    let mut r = Reader::new(&req);
    assert_eq!(next_command(&mut r, 0x3f), Ok(Some(Command::Resource { id: 0, command: 0 })));
    assert_eq!(next_command(&mut r, 0x3f), Ok(Some(Command::Delay(1))));
}

#[test]
fn delay_varint_within_limit() {
    // most significant group first
    let req = [0x81, 0x16, 0xaa];
    let mut r = Reader::new(&req);
    assert_eq!(take_delay_limited(&mut r, 1000), Ok(150));
    assert_eq!(r.remaining(), 1);

    let req = [0x05];
    let mut r = Reader::new(&req);
    assert_eq!(take_delay_limited(&mut r, 5), Ok(5));
}

#[test]
fn delay_varint_over_limit_stops_early() {
    let req = [0x96, 0x01, 0xaa];
    let mut r = Reader::new(&req);
    assert_eq!(take_delay_limited(&mut r, 100), Err(()));
    assert_eq!(r.remaining(), 1);

    let req = [0x81, 0x00, 0x07];
    let mut r = Reader::new(&req);
    assert_eq!(take_delay_limited(&mut r, 0), Err(()));
    assert_eq!(r.remaining(), 2);
}

#[test]
fn delay_varint_runs_out() {
    let req = [0x81, 0x82];
    let mut r = Reader::new(&req);
    assert_eq!(take_delay_limited(&mut r, u32::MAX), Err(()));
    assert_eq!(r.remaining(), 0);
    let mut r = Reader::new(&[]);
    assert_eq!(take_delay_limited(&mut r, u32::MAX), Err(()));
}

#[test]
fn resources_configure_then_command() {
    let mut res = Resources::new(vec![2, 1]);
    assert_eq!(res.command_mode(1), Err(ProtocolError::InvalidMode));
    assert_eq!(res.command_mode(0), Err(ProtocolError::InvalidResource));
    assert_eq!(res.command_mode(3), Err(ProtocolError::InvalidResource));

    assert_eq!(res.begin_configure(1, 2), Ok(Reconfigure { deinit: None, init: 2 }));
    assert_eq!(res.finish_configure(1, 2), Ok(()));
    assert_eq!(res.command_mode(1), Ok(2));
    assert_eq!(res.command_mode(2), Err(ProtocolError::InvalidMode));

    // Reconfiguring shuts the old mode down first.
    assert_eq!(res.begin_configure(1, 1), Ok(Reconfigure { deinit: Some(2), init: 1 }));
    assert_eq!(res.command_mode(1), Err(ProtocolError::InvalidMode));
    assert_eq!(res.finish_configure(1, 1), Ok(()));
    assert_eq!(res.command_mode(1), Ok(1));
}

#[test]
fn resources_refuse_unknown_resource_and_mode() {
    let mut res = Resources::new(vec![2, 1]);
    assert_eq!(res.begin_configure(0, 1), Err(ProtocolError::InvalidResource));
    assert_eq!(res.begin_configure(3, 1), Err(ProtocolError::InvalidResource));
    assert_eq!(res.begin_configure(2, 1), Ok(Reconfigure { deinit: None, init: 1 }));
    assert_eq!(res.finish_configure(2, 1), Ok(()));
    // An unknown mode leaves the resource unconfigured.
    assert_eq!(res.begin_configure(2, 2), Err(ProtocolError::InvalidMode));
    assert_eq!(res.command_mode(2), Err(ProtocolError::InvalidMode));
    assert_eq!(res.begin_configure(2, 0), Err(ProtocolError::InvalidMode));
    // finishing with an unknown resource or mode changes nothing
    assert_eq!(res.finish_configure(3, 1), Err(ProtocolError::InvalidResource));
    assert_eq!(res.finish_configure(2, 2), Err(ProtocolError::InvalidMode));
    assert_eq!(res.command_mode(2), Err(ProtocolError::InvalidMode));
}

#[test]
fn resources_reset_all_lists_configured() {
    let mut res = Resources::new(vec![1, 1, 3]);
    res.begin_configure(1, 1).unwrap();
    assert_eq!(res.finish_configure(1, 1), Ok(()));
    res.begin_configure(3, 3).unwrap();
    assert_eq!(res.finish_configure(3, 3), Ok(()));
    assert_eq!(res.reset_all(), vec![(1, 1), (3, 3)]);
    assert_eq!(res.command_mode(1), Err(ProtocolError::InvalidMode));
    assert_eq!(res.command_mode(3), Err(ProtocolError::InvalidMode));
    assert_eq!(res.reset_all(), vec![]);
}

#[test]
fn resource_descriptor_layout() {
    let header: [u8; 2] = [0, 0];
    let led_modes: [u8; 1] = [1];
    let parts: [(u8, Option<u16>, &[u8]); 3] = [
        (0x40, None, &header[..]),
        (0x41, Some(0x1234), &led_modes[..]),
        (0x42, None, &[]),
    ];
    let d = build_resource_descriptor(&parts);
    assert_eq!(d, vec![4, 0x40, 11, 0, 5, 0x41, 0x34, 0x12, 1, 2, 0x42]);
    // The total length lies in bytes 2 and 3.
    assert_eq!(d[2] as usize + 256 * d[3] as usize, d.len());
}

#[test]
fn descriptor_tail_from_offset() {
    let d = [1u8, 2, 3, 4];
    assert_eq!(descriptor_tail(&d, 0), &d[..]);
    assert_eq!(descriptor_tail(&d, 3), &[4]);
    assert_eq!(descriptor_tail(&d, 4), &[] as &[u8]);
    assert_eq!(descriptor_tail(&d, 9), &[] as &[u8]);
}

#[test]
fn bulk_request_header() {
    assert_eq!(bulk_request(&[7]), None);
    assert_eq!(bulk_request(&[]), None);
    assert_eq!(bulk_request(&[7, 0]), Some((7, &[] as &[u8])));
    assert_eq!(bulk_request(&[7, 0, 0x41, 0x42]), Some((7, &[0x41u8, 0x42][..])));
}

#[test]
fn response_header_written() {
    let mut buf = [0u8; 4];
    write_response_header(&mut buf, 9, 3);
    assert_eq!(buf, [9, 3, 0, 0]);
}

#[test]
fn varint_delay_steps() {
    // groups 0x03 then 0x68, most significant first
    let req = [DELAY, 0x83, 0x68, 0x41, DELAY, 0x05];
    let mut r = Reader::new(&req);
    assert_eq!(next_command_varint(&mut r, DELAY, SYSTICK_MAX), Ok(Some(Command::Delay(3 * 128 + 0x68))));
    assert_eq!(next_command_varint(&mut r, DELAY, SYSTICK_MAX), Ok(Some(Command::Resource { id: 1, command: 1 })));
    assert_eq!(next_command_varint(&mut r, DELAY, SYSTICK_MAX), Ok(Some(Command::Delay(5))));
    assert_eq!(next_command_varint(&mut r, DELAY, SYSTICK_MAX), Ok(None));
}

/// The longest SysTick delay at 48 MHz: 0xFFFFFF ticks.
const SYSTICK_MAX: u32 = 0xFF_FFFF / 48;

#[test]
fn varint_delay_limit_checked_per_byte() {
    // 70,000 us (0b100_0100010_1110000) is below the limit
    let mut r = Reader::new(&[DELAY, 0x84, 0xa2, 0x70, 0x42]);
    assert_eq!(next_command_varint(&mut r, DELAY, SYSTICK_MAX), Ok(Some(Command::Delay(70_000))));
    assert_eq!(r.remaining(), 1);
    // refused at the fourth byte, where the value (2^25) first passes the limit, though the
    // wrapped 32-bit value at the end would be 0
    let mut r = Reader::new(&[DELAY, 0x90, 0x80, 0x80, 0x80, 0x80, 0x00]);
    assert_eq!(next_command_varint(&mut r, DELAY, SYSTICK_MAX), Err(()));
    assert_eq!(r.remaining(), 2);
    // the limit is the board's: 0x10000 passes one of 0xffff at its last byte
    let mut r = Reader::new(&[DELAY, 0x84, 0x80, 0x00, 0x42]);
    assert_eq!(next_command_varint(&mut r, DELAY, 0xffff), Err(()));
    assert_eq!(r.remaining(), 1);
    // no terminating byte: everything is consumed
    let mut r = Reader::new(&[DELAY, 0x81, 0x82]);
    assert_eq!(next_command_varint(&mut r, DELAY, SYSTICK_MAX), Err(()));
    assert_eq!(r.remaining(), 0);
}

#[test]
fn run_steps_and_status() {
    let mut r = Reader::new(&[DELAY, 0x05, 0x41, DELAY, 0x90, 0x80, 0x80, 0x42]);
    assert_eq!(run_step(&mut r, DELAY, SYSTICK_MAX), RunAction::Delay(5));
    assert_eq!(run_step(&mut r, DELAY, SYSTICK_MAX), RunAction::Command { id: 1, command: 1 });
    // an over-long delay ends the request with status 1 before anything after it
    assert_eq!(run_step(&mut r, DELAY, SYSTICK_MAX), RunAction::Finish(1));
    let mut r = Reader::new(&[]);
    assert_eq!(run_step(&mut r, DELAY, SYSTICK_MAX), RunAction::Finish(0));
    assert_eq!(command_status(true), None);
    assert_eq!(command_status(false), Some(1));
}

#[test]
fn resources_beyond_sixty_three() {
    // configuration addresses resources by a whole byte
    let mut res = Resources::new(vec![1; 200]);
    assert_eq!(res.begin_configure(200, 1), Ok(Reconfigure { deinit: None, init: 1 }));
    assert_eq!(res.finish_configure(200, 1), Ok(()));
    assert_eq!(res.command_mode(200), Ok(1));
    assert_eq!(res.begin_configure(201, 1), Err(ProtocolError::InvalidResource));
    assert_eq!(res.reset_all(), vec![(200, 1)]);
}
