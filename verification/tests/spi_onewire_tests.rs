use viking_firmware::buf::{Reader, Writer};
use viking_firmware::onewire::{
    ds18b20_raw, read_byte_from_bits, write_byte_bits, write_slot_timing, Ds18b20Read, OnewireStep,
    CONVERT_T, POLL_DELAY_US, READ_SCRATCHPAD, SKIP_ROM,
};
use viking_firmware::sercom::{Sercom, Sercom0, Sercom1, Sercom2};
use viking_firmware::spi::{
    rp_spi_divisor, rp_spi_plan, sam_spi_clkdiv_minus_one, SamSpi, SpiCommand, SpiPlan,
};
use viking_firmware::viking::ProtocolError;

#[test]
fn rp_spi_write_plan() {
    let mut out = [0u8; 4];
    let mut res = Writer::new(&mut out, 0);
    let req = [2, 0xaa, 0xbb, 9];
    let mut r = Reader::new(&req);
    match rp_spi_plan(SpiCommand::Write, &mut r, &mut res) {
        Ok(SpiPlan::Write(tx)) => assert_eq!(tx, &[0xaa, 0xbb]),
        _ => panic!("expected a write"),
    }
    assert_eq!(r.remaining(), 1);
    assert_eq!(res.offset(), 0);
}

#[test]
fn rp_spi_read_and_transfer_reserve_response() {
    let mut out = [0u8; 4];
    let mut res = Writer::new(&mut out, 1);
    let req = [2, 1, 0x55, 5];
    let mut r = Reader::new(&req);
    match rp_spi_plan(SpiCommand::Read, &mut r, &mut res) {
        Ok(SpiPlan::Read(rx)) => {
            assert_eq!(rx.len(), 2);
            rx[0] = 7;
            rx[1] = 8;
        }
        _ => panic!("expected a read"),
    }
    match rp_spi_plan(SpiCommand::Transfer, &mut r, &mut res) {
        Ok(SpiPlan::Transfer(tx, rx)) => {
            assert_eq!(tx, &[0x55]);
            assert_eq!(rx.len(), 1);
            rx[0] = 9;
        }
        _ => panic!("expected a transfer"),
    }
    assert_eq!(res.offset(), 4);
    // No room left, and an incomplete block.
    let mut r2 = Reader::new(&[1]);
    assert!(matches!(
        rp_spi_plan(SpiCommand::Read, &mut r2, &mut res),
        Err(ProtocolError::ResponseFull)
    ));
    assert!(matches!(
        rp_spi_plan(SpiCommand::Transfer, &mut r, &mut res),
        Err(ProtocolError::MissingArg)
    ));
    assert!(matches!(
        rp_spi_plan(SpiCommand::Unknown, &mut r, &mut res),
        Err(ProtocolError::InvalidCommand)
    ));
    assert_eq!(out, [0, 7, 8, 9]);
}

#[test]
fn spi_clock_divisors() {
    assert_eq!(rp_spi_divisor(0, 125_000_000), 125);
    assert_eq!(rp_spi_divisor(10, 125_000_000), 10);
    assert_eq!(sam_spi_clkdiv_minus_one(0, 48_000_000), 47);
    assert_eq!(sam_spi_clkdiv_minus_one(4, 48_000_000), 3);
    assert_eq!(sam_spi_clkdiv_minus_one(1000, 48_000_000), 255);
    assert_eq!(sam_spi_clkdiv_minus_one(1, 48_000_000), 0);
}

#[test]
fn sam_spi_transfer_bytes() {
    let mut out = [0u8; 2];
    let mut res = Writer::new(&mut out, 0);
    let req = [2, 0x11, 0x22];
    let mut r = Reader::new(&req);
    let mut spi = SamSpi::begin(SpiCommand::Transfer, &mut r).unwrap();
    assert_eq!(spi.next_byte(&mut r), Ok(Some(0x11)));
    assert_eq!(spi.received(0x99, &mut res), Ok(()));
    assert_eq!(spi.next_byte(&mut r), Ok(Some(0x22)));
    assert_eq!(spi.received(0x98, &mut res), Ok(()));
    assert_eq!(spi.next_byte(&mut r), Ok(None));
    assert_eq!(spi.received(0x97, &mut res), Err(ProtocolError::ResponseFull));
    assert_eq!(out, [0x99, 0x98]);
}

#[test]
fn sam_spi_read_write_and_errors() {
    let mut out = [0u8; 2];
    let mut res = Writer::new(&mut out, 0);
    let mut r = Reader::new(&[1, 2, 0x33]);
    let mut spi = SamSpi::begin(SpiCommand::Read, &mut r).unwrap();
    assert_eq!(spi.next_byte(&mut r), Ok(Some(0)));
    assert_eq!(spi.next_byte(&mut r), Ok(None));
    let mut spi = SamSpi::begin(SpiCommand::Write, &mut r).unwrap();
    assert_eq!(spi.next_byte(&mut r), Ok(Some(0x33)));
    assert_eq!(spi.received(0x44, &mut res), Ok(()));
    assert_eq!(res.offset(), 0);
    assert_eq!(spi.next_byte(&mut r), Err(ProtocolError::MissingArg));
    assert!(matches!(SamSpi::begin(SpiCommand::Read, &mut r), Err(ProtocolError::MissingArg)));
    assert!(matches!(
        SamSpi::begin(SpiCommand::Unknown, &mut r),
        Err(ProtocolError::InvalidCommand)
    ));
}

#[test]
fn onewire_bits_least_significant_first() {
    assert_eq!(
        write_byte_bits(0xcc),
        [false, false, true, true, false, false, true, true]
    );
    assert_eq!(write_byte_bits(0x01), [true, false, false, false, false, false, false, false]);
    assert_eq!(
        read_byte_from_bits([false, false, true, true, false, false, true, true]),
        0xcc
    );
    for b in 0..=255u8 {
        assert_eq!(read_byte_from_bits(write_byte_bits(b)), b);
    }
}

#[test]
fn ds18b20_raw_temperature() {
    assert_eq!(ds18b20_raw(0x50, 0x05), 0x0550);
    assert_eq!(ds18b20_raw(0xff, 0xff), 0xffff);
}

#[test]
fn sercom_numbers() {
    assert_eq!(Sercom0::NUM, 0);
    assert_eq!(Sercom1::NUM, 1);
    assert_eq!(Sercom2::NUM, 1);
}

#[test]
fn onewire_write_slots() {
    assert_eq!(write_slot_timing(true), (1, 64));
    assert_eq!(write_slot_timing(false), (60, 5));
}

#[test]
fn ds18b20_read_sequence() {
    let (mut read, first) = Ds18b20Read::start();
    assert_eq!(first, OnewireStep::Reset);
    assert_eq!(read.resume(0), OnewireStep::WriteByte(SKIP_ROM));
    assert_eq!(read.resume(0), OnewireStep::WriteByte(CONVERT_T));
    assert_eq!(read.resume(0), OnewireStep::ReadByte);
    // conversion still running: pause and poll again
    assert_eq!(read.resume(0), OnewireStep::Delay(POLL_DELAY_US));
    assert_eq!(read.resume(0), OnewireStep::ReadByte);
    assert_eq!(read.resume(0xff), OnewireStep::Reset);
    assert_eq!(read.resume(0), OnewireStep::WriteByte(SKIP_ROM));
    assert_eq!(read.resume(0), OnewireStep::WriteByte(READ_SCRATCHPAD));
    assert_eq!(read.resume(0), OnewireStep::ReadByte);
    assert_eq!(read.resume(0x91), OnewireStep::ReadByte);
    assert_eq!(read.resume(0x01), OnewireStep::Done(0x0191));
}

#[test]
fn rp_spi_zero_length_read_needs_no_room() {
    let mut out = [0u8; 1];
    let mut res = Writer::new(&mut out, 3);
    let mut r = Reader::new(&[0, 2]);
    match rp_spi_plan(SpiCommand::Read, &mut r, &mut res) {
        Ok(SpiPlan::Read(rx)) => assert_eq!(rx.len(), 0),
        _ => panic!("expected an empty read"),
    }
    assert!(matches!(
        rp_spi_plan(SpiCommand::Read, &mut r, &mut res),
        Err(ProtocolError::ResponseFull)
    ));
    assert_eq!(res.offset(), 3);
}
