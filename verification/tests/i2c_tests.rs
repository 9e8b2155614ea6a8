use viking_firmware::buf::{Reader, Writer};
use viking_firmware::i2c::{
    rp_i2c_frequency, status_error, BusError, I2cCommand, I2cSpeed, StatusAction, StatusI2c,
    RpAction, RpI2c, SamAction, SamBusError, SercomI2C,
};
use viking_firmware::viking::ProtocolError;

#[test]
fn rp_write_then_read_transaction() {
    let mut i2c = RpI2c::new();
    let mut out = [0u8; 4];
    let mut res = Writer::new(&mut out, 0);

    // start, writing to 0x50
    let req = [0xa0];
    let mut r = Reader::new(&req);
    assert_eq!(i2c.command(I2cCommand::Start, &mut r), RpAction::SetAddress(0x50));
    assert_eq!(i2c.resume_finish(), RpAction::Finished(Ok(0)));

    // write two bytes
    let req = [2, 0x10, 0x20];
    let mut r = Reader::new(&req);
    assert_eq!(
        i2c.command(I2cCommand::Write, &mut r),
        RpAction::Write { byte: 0x10, restart: false }
    );
    assert_eq!(i2c.resume_write(Ok(())), RpAction::Write { byte: 0x20, restart: false });
    assert_eq!(i2c.resume_write(Ok(())), RpAction::Finished(Ok(0)));

    // repeated start to the same address, reading
    let req = [0xa1];
    let mut r = Reader::new(&req);
    assert_eq!(i2c.command(I2cCommand::Start, &mut r), RpAction::Finished(Ok(0)));

    let req = [2];
    let mut r = Reader::new(&req);
    assert_eq!(i2c.command(I2cCommand::Read, &mut r), RpAction::Read { restart: true });
    assert_eq!(i2c.resume_read(Ok(0xaa), &mut res), RpAction::Read { restart: false });
    assert_eq!(i2c.resume_read(Ok(0xbb), &mut res), RpAction::Finished(Ok(0)));
    assert_eq!(res.offset(), 2);

    let mut r = Reader::new(&[]);
    assert_eq!(i2c.command(I2cCommand::Stop, &mut r), RpAction::Abort);
    assert_eq!(i2c.resume_finish(), RpAction::Finished(Ok(0)));
    assert_eq!(out, [0xaa, 0xbb, 0, 0]);
}

#[test]
fn rp_repeated_start_to_other_address_refused() {
    let mut i2c = RpI2c::new();
    let mut r = Reader::new(&[0xa0, 0xb0]);
    assert_eq!(i2c.command(I2cCommand::Start, &mut r), RpAction::SetAddress(0x50));
    i2c.resume_finish();
    assert_eq!(
        i2c.command(I2cCommand::Start, &mut r),
        RpAction::Finished(Err(ProtocolError::InvalidState))
    );
}

#[test]
fn rp_address_nack_persists_until_stop() {
    let mut i2c = RpI2c::new();
    let mut r = Reader::new(&[0xa0, 1, 0x10, 1, 0x11]);
    i2c.command(I2cCommand::Start, &mut r);
    i2c.resume_finish();
    assert_eq!(
        i2c.command(I2cCommand::Write, &mut r),
        RpAction::Write { byte: 0x10, restart: false }
    );
    assert_eq!(
        i2c.resume_write(Err(BusError::AddrNack)),
        RpAction::Finished(Err(ProtocolError::AddrNack))
    );
    // Still failed: no bus step.
    assert_eq!(
        i2c.command(I2cCommand::Write, &mut r),
        RpAction::Finished(Err(ProtocolError::AddrNack))
    );
    let mut r = Reader::new(&[1]);
    assert_eq!(
        i2c.command(I2cCommand::Read, &mut r),
        RpAction::Finished(Err(ProtocolError::AddrNack))
    );
    let mut r = Reader::new(&[]);
    assert_eq!(i2c.command(I2cCommand::Stop, &mut r), RpAction::Abort);
    i2c.resume_finish();
    let mut r = Reader::new(&[1]);
    assert_eq!(
        i2c.command(I2cCommand::Read, &mut r),
        RpAction::Finished(Err(ProtocolError::InvalidState))
    );
}

#[test]
fn rp_missing_args_and_unknown() {
    let mut i2c = RpI2c::new();
    let mut r = Reader::new(&[]);
    assert_eq!(
        i2c.command(I2cCommand::Start, &mut r),
        RpAction::Finished(Err(ProtocolError::MissingArg))
    );
    assert_eq!(
        i2c.command(I2cCommand::Read, &mut r),
        RpAction::Finished(Err(ProtocolError::MissingArg))
    );
    let mut r = Reader::new(&[3, 1]);
    assert_eq!(
        i2c.command(I2cCommand::Write, &mut r),
        RpAction::Finished(Err(ProtocolError::MissingArg))
    );
    let mut r = Reader::new(&[]);
    assert_eq!(
        i2c.command(I2cCommand::Unknown, &mut r),
        RpAction::Finished(Err(ProtocolError::InvalidCommand))
    );
}

#[test]
fn rp_read_into_full_response() {
    let mut i2c = RpI2c::new();
    let mut out = [0u8; 1];
    let mut res = Writer::new(&mut out, 0);
    let mut r = Reader::new(&[0xa1, 3]);
    i2c.command(I2cCommand::Start, &mut r);
    i2c.resume_finish();
    assert_eq!(i2c.command(I2cCommand::Read, &mut r), RpAction::Read { restart: false });
    assert_eq!(i2c.resume_read(Ok(1), &mut res), RpAction::Read { restart: false });
    assert_eq!(
        i2c.resume_read(Ok(2), &mut res),
        RpAction::Finished(Err(ProtocolError::ResponseFull))
    );
    // a zero-length read succeeds at once
    let mut r = Reader::new(&[0]);
    assert_eq!(i2c.command(I2cCommand::Read, &mut r), RpAction::Finished(Ok(0)));
    // other bus failures leave the state as it was
    let mut r = Reader::new(&[1]);
    assert_eq!(i2c.command(I2cCommand::Read, &mut r), RpAction::Read { restart: false });
    assert_eq!(
        i2c.resume_read(Err(BusError::Other), &mut res),
        RpAction::Finished(Err(ProtocolError::Unknown))
    );
    let mut r = Reader::new(&[1]);
    assert_eq!(i2c.command(I2cCommand::Read, &mut r), RpAction::Read { restart: false });
}

#[test]
fn rp_frequencies() {
    assert_eq!(rp_i2c_frequency(I2cSpeed::Slow), Ok(10_000));
    assert_eq!(rp_i2c_frequency(I2cSpeed::Standard), Ok(100_000));
    assert_eq!(rp_i2c_frequency(I2cSpeed::Fast), Ok(400_000));
    assert_eq!(rp_i2c_frequency(I2cSpeed::Unknown), Err(ProtocolError::UnsupportedClock));
}

#[test]
fn sercom_status_error() {
    assert!(!status_error(false, false, false));
    assert!(status_error(true, false, false));
    assert!(status_error(false, true, false));
    assert!(status_error(false, false, true));
}

#[test]
fn sam_write_then_read() {
    let mut i2c = SercomI2C::new();
    let mut out = [0u8; 4];
    let mut res = Writer::new(&mut out, 0);
    let mut r = Reader::new(&[0xa0, 2, 1, 2, 0xa1, 2]);
    assert_eq!(i2c.command(I2cCommand::Start, &mut r), SamAction::Start(0xa0));
    assert_eq!(i2c.resume_start(Ok(())), SamAction::Finished(Ok(None)));
    assert_eq!(i2c.command(I2cCommand::Write, &mut r), SamAction::Write(1));
    assert_eq!(i2c.resume_write(Ok(())), SamAction::Write(2));
    assert_eq!(i2c.resume_write(Ok(())), SamAction::Finished(Ok(None)));
    assert_eq!(i2c.command(I2cCommand::Start, &mut r), SamAction::Start(0xa1));
    assert_eq!(i2c.resume_start(Ok(())), SamAction::Finished(Ok(None)));
    assert_eq!(i2c.command(I2cCommand::Read, &mut r), SamAction::ReadFirst);
    assert_eq!(i2c.resume_read(Ok(7), &mut res), SamAction::ReadNext);
    assert_eq!(i2c.resume_read(Ok(8), &mut res), SamAction::Finished(Ok(None)));
    let mut r = Reader::new(&[]);
    assert_eq!(i2c.command(I2cCommand::Stop, &mut r), SamAction::Stop);
    assert_eq!(i2c.resume_finish(), SamAction::Finished(Ok(None)));
    assert_eq!(out, [7, 8, 0, 0]);
}

#[test]
fn sam_address_nack_is_reported_then_fails_transfers() {
    let mut i2c = SercomI2C::new();
    let mut r = Reader::new(&[0xa0, 1, 5, 1]);
    assert_eq!(i2c.command(I2cCommand::Start, &mut r), SamAction::Start(0xa0));
    assert_eq!(
        i2c.resume_start(Err(SamBusError::NoAcknowledge)),
        SamAction::Finished(Ok(Some(ProtocolError::AddrNack)))
    );
    assert_eq!(
        i2c.command(I2cCommand::Write, &mut r),
        SamAction::Finished(Err(ProtocolError::AddrNack))
    );
    assert_eq!(
        i2c.command(I2cCommand::Read, &mut r),
        SamAction::Finished(Err(ProtocolError::AddrNack))
    );
}

#[test]
fn sam_arbitration_lost_and_data_nack() {
    let mut i2c = SercomI2C::new();
    let mut r = Reader::new(&[0xa0, 2, 1, 2, 0xa0]);
    i2c.command(I2cCommand::Start, &mut r);
    i2c.resume_start(Ok(()));
    assert_eq!(i2c.command(I2cCommand::Write, &mut r), SamAction::Write(1));
    assert_eq!(
        i2c.resume_write(Err(SamBusError::NoAcknowledge)),
        SamAction::Finished(Err(ProtocolError::DataNack))
    );
    assert_eq!(i2c.command(I2cCommand::Start, &mut r), SamAction::Start(0xa0));
    assert_eq!(
        i2c.resume_start(Err(SamBusError::ArbitrationLost)),
        SamAction::Finished(Err(ProtocolError::ArbitrationLost))
    );
    let mut r = Reader::new(&[1]);
    assert_eq!(
        i2c.command(I2cCommand::Read, &mut r),
        SamAction::Finished(Err(ProtocolError::ArbitrationLost))
    );
    // reading before any start is an invalid state; a zero-length read is fine
    let mut i2c = SercomI2C::new();
    let mut r = Reader::new(&[1, 0, 0]);
    assert_eq!(
        i2c.command(I2cCommand::Read, &mut r),
        SamAction::Finished(Err(ProtocolError::InvalidState))
    );
    assert_eq!(i2c.command(I2cCommand::Read, &mut r), SamAction::Finished(Ok(None)));
    assert_eq!(
        i2c.command(I2cCommand::Write, &mut r),
        SamAction::Finished(Err(ProtocolError::InvalidState))
    );
}

#[test]
fn status_start_reports_status() {
    let mut i2c = StatusI2c::new();
    let mut out = [0u8; 3];
    let mut res = Writer::new(&mut out, 0);
    let mut r = Reader::new(&[0xa1, 2, 0x40, 1, 9]);
    assert_eq!(i2c.command(I2cCommand::Start, &mut r), StatusAction::Start(0xa1));
    assert_eq!(i2c.resume_start(false, &mut res), StatusAction::Finished(Ok(())));
    assert_eq!(i2c.command(I2cCommand::Read, &mut r), StatusAction::TakeByte { ack: false });
    assert_eq!(i2c.resume_read(5, false, &mut res), StatusAction::TakeByte { ack: true });
    assert_eq!(i2c.resume_read(6, false, &mut res), StatusAction::Finished(Ok(())));
    assert_eq!(out, [0, 5, 6]);
    // a write in read state fails
    let mut i2c2 = StatusI2c::new();
    assert_eq!(i2c2.command(I2cCommand::Start, &mut r), StatusAction::Start(0x40));
    let mut out2 = [0u8; 1];
    let mut res2 = Writer::new(&mut out2, 0);
    assert_eq!(i2c2.resume_start(true, &mut res2), StatusAction::Finished(Ok(())));
    assert_eq!(out2, [1]);
    assert_eq!(i2c2.command(I2cCommand::Write, &mut r), StatusAction::Finished(Err(())));
}

#[test]
fn status_write_and_stop() {
    let mut i2c = StatusI2c::new();
    let mut out = [0u8; 1];
    let mut res = Writer::new(&mut out, 0);
    let mut r = Reader::new(&[0x40, 3, 1, 2, 3]);
    i2c.command(I2cCommand::Start, &mut r);
    i2c.resume_start(false, &mut res);
    assert_eq!(i2c.command(I2cCommand::Write, &mut r), StatusAction::Write(1));
    assert_eq!(i2c.resume_write(false), StatusAction::Write(2));
    // a NACK fails the next byte
    assert_eq!(i2c.resume_write(true), StatusAction::Finished(Err(())));
    let mut r = Reader::new(&[]);
    assert_eq!(i2c.command(I2cCommand::Stop, &mut r), StatusAction::Stop);
    assert_eq!(i2c.resume_stop(), StatusAction::Finished(Ok(())));
    assert_eq!(i2c.command(I2cCommand::Unknown, &mut r), StatusAction::Finished(Err(())));
}
