use vstd::prelude::*;
use crate::buf::{Reader, Writer};
use crate::viking::ProtocolError;

verus! {

/// The commands of the SPI controller protocol.
#[derive(Clone, Copy, PartialEq, Eq, Debug, Structural)]
pub enum SpiCommand {
    Write,
    Read,
    Transfer,
    /// A command code the protocol does not define.
    Unknown,
}

/// One SPI transfer of the RP2040 controller mode.
pub enum SpiPlan<'a, 'r> {
    /// Send these bytes, discarding what comes back.
    Write(&'a [u8]),
    /// Send zeros, as many as the region holds, and receive into the region.
    Read(&'r mut [u8]),
    /// Send these bytes and receive as many into the region.
    Transfer(&'a [u8], &'r mut [u8]),
}

/// Reads an RP2040 SPI command's arguments and plans its transfer. `Write` and `Transfer`
/// take a length-prefixed block; `Read` takes a count. The bytes received are reserved in
/// the response, which must have room for them (none are needed for zero bytes).
pub fn rp_spi_plan<'a, 'r>(cmd: SpiCommand, req: &mut Reader<'a>, res: &'r mut Writer) -> (r: Result<SpiPlan<'a, 'r>, ProtocolError>)
    ensures
        ({
            let rest = old(req).rest();
            let has_block = rest.len() > 0 && rest[0] as int <= rest.len() - 1;
            match cmd {
                SpiCommand::Write => if has_block {
                    &&& (r matches Ok(SpiPlan::Write(tx)) && tx@ == rest.subrange(1, 1 + rest[0] as int))
                    &&& final(req).rest() == rest.skip(1 + rest[0] as int)
                    &&& final(res).pos() == old(res).pos()
                    &&& final(res).contents() == old(res).contents()
                } else {
                    &&& r == Err::<SpiPlan, ProtocolError>(ProtocolError::MissingArg)
                    &&& final(req).rest() == (if rest.len() == 0 { rest } else { rest.drop_first() })
                    &&& final(res).pos() == old(res).pos()
                    &&& final(res).contents() == old(res).contents()
                },
                SpiCommand::Read => if rest.len() == 0 {
                    &&& r == Err::<SpiPlan, ProtocolError>(ProtocolError::MissingArg)
                    &&& final(req).rest() == rest
                    &&& final(res).pos() == old(res).pos()
                    &&& final(res).contents() == old(res).contents()
                } else {
                    let n = rest[0] as int;
                    &&& final(req).rest() == rest.drop_first()
                    &&& if n <= old(res).room() {
                        &&& (r matches Ok(SpiPlan::Read(out)) && out@.len() == n && final(res).pos() == old(res).pos() + n
                            && final(res).contents() == old(res).contents().subrange(0, old(res).pos() as int)
                                + final(out)@ + old(res).contents().subrange(old(res).pos() + n, old(res).contents().len() as int))
                    } else if n == 0 {
                        &&& (r matches Ok(SpiPlan::Read(out)) && out@.len() == 0)
                        &&& final(res).pos() == old(res).pos()
                        &&& final(res).contents() == old(res).contents()
                    } else {
                        &&& r == Err::<SpiPlan, ProtocolError>(ProtocolError::ResponseFull)
                        &&& final(res).pos() == old(res).pos()
                        &&& final(res).contents() == old(res).contents()
                    }
                },
                SpiCommand::Transfer => if has_block {
                    let n = rest[0] as int;
                    &&& final(req).rest() == rest.skip(1 + n)
                    &&& if n <= old(res).room() {
                        &&& (r matches Ok(SpiPlan::Transfer(tx, out)) && tx@ == rest.subrange(1, 1 + n) && out@.len() == n
                            && final(res).pos() == old(res).pos() + n
                            && final(res).contents() == old(res).contents().subrange(0, old(res).pos() as int)
                                + final(out)@ + old(res).contents().subrange(old(res).pos() + n, old(res).contents().len() as int))
                    } else if n == 0 {
                        &&& (r matches Ok(SpiPlan::Transfer(tx, out)) && tx@.len() == 0 && out@.len() == 0)
                        &&& final(res).pos() == old(res).pos()
                        &&& final(res).contents() == old(res).contents()
                    } else {
                        &&& r == Err::<SpiPlan, ProtocolError>(ProtocolError::ResponseFull)
                        &&& final(res).pos() == old(res).pos()
                        &&& final(res).contents() == old(res).contents()
                    }
                } else {
                    &&& r == Err::<SpiPlan, ProtocolError>(ProtocolError::MissingArg)
                    &&& final(req).rest() == (if rest.len() == 0 { rest } else { rest.drop_first() })
                    &&& final(res).pos() == old(res).pos()
                    &&& final(res).contents() == old(res).contents()
                },
                SpiCommand::Unknown => {
                    &&& r == Err::<SpiPlan, ProtocolError>(ProtocolError::InvalidCommand)
                    &&& final(req).rest() == rest
                    &&& final(res).pos() == old(res).pos()
                    &&& final(res).contents() == old(res).contents()
                },
            }
        }),
{
    match cmd {
        SpiCommand::Write => {
            let tx = match req.take_len() {
                Some(d) => d,
                None => return Err(ProtocolError::MissingArg),
            };
            Ok(SpiPlan::Write(tx))
        },
        SpiCommand::Read => {
            let len = match req.take_first() {
                Some(b) => b as usize,
                None => return Err(ProtocolError::MissingArg),
            };
            match res.reserve_buf(len) {
                Ok(out) => Ok(SpiPlan::Read(out)),
                Err(()) => Err(ProtocolError::ResponseFull),
            }
        },
        SpiCommand::Transfer => {
            let tx = match req.take_len() {
                Some(d) => d,
                None => return Err(ProtocolError::MissingArg),
            };
            match res.reserve_buf(tx.len()) {
                Ok(out) => Ok(SpiPlan::Transfer(tx, out)),
                Err(()) => Err(ProtocolError::ResponseFull),
            }
        },
        SpiCommand::Unknown => Err(ProtocolError::InvalidCommand),
    }
}

/// The clock divisor the RP2040 SPI mode asks for: the one configured, or the divisor for
/// 1 MHz when none (zero) is.
pub fn rp_spi_divisor(clock_div: u32, base_clock_hz: u32) -> (r: u32)
    ensures
        clock_div != 0 ==> r == clock_div,
        clock_div == 0 ==> r == base_clock_hz / 1_000_000,
{
    if clock_div != 0 {
        clock_div
    } else {
        base_clock_hz / 1_000_000
    }
}

/// The SERCOM `BAUD` value (divisor minus one) of the SAM D SPI mode: for 1 MHz when no
/// divisor (zero) is configured, otherwise the configured divisor minus one, capped at 255.
pub fn sam_spi_clkdiv_minus_one(clock_div: u32, base_clock: u32) -> (r: u8)
    requires
        base_clock >= 1_000_000,
    ensures
        clock_div == 0 ==> r == ((base_clock / 1_000_000 - 1) % 256) as u8,
        clock_div != 0 ==> r == (if clock_div - 1 < 255 { clock_div - 1 } else { 255 }),
{
    if clock_div == 0 {
        ((base_clock / 1_000_000 - 1) % 256) as u8
    } else {
        let d = clock_div - 1;
        (if d < 255 { d } else { 255 }) as u8
    }
}

/// A SAM D SPI command in progress: it moves one byte at a time, `left` bytes to go.
pub struct SamSpi {
    command: SpiCommand,
    left: u8,
}

impl SamSpi {
    pub closed spec fn cmd(&self) -> SpiCommand {
        self.command
    }

    pub closed spec fn remaining(&self) -> nat {
        self.left as nat
    }

    /// Starts a SAM D SPI command: every defined command takes a byte count first.
    pub fn begin(cmd: SpiCommand, req: &mut Reader) -> (r: Result<SamSpi, ProtocolError>)
        ensures
            cmd == SpiCommand::Unknown ==> r == Err::<SamSpi, ProtocolError>(ProtocolError::InvalidCommand)
                && final(req).rest() == old(req).rest(),
            cmd != SpiCommand::Unknown && old(req).rest().len() == 0 ==> r == Err::<SamSpi, ProtocolError>(ProtocolError::MissingArg)
                && final(req).rest() == old(req).rest(),
            cmd != SpiCommand::Unknown && old(req).rest().len() > 0 ==> (r matches Ok(s) && s.cmd() == cmd
                && s.remaining() == old(req).rest()[0]) && final(req).rest() == old(req).rest().drop_first(),
    {
        if cmd == SpiCommand::Unknown {
            return Err(ProtocolError::InvalidCommand);
        }
        match req.take_first() {
            Some(len) => Ok(SamSpi { command: cmd, left: len }),
            None => Err(ProtocolError::MissingArg),
        }
    }

    /// The next byte to send: `None` when the count is reached; zero for a read; otherwise
    /// the next request byte, or `MissingArg` when the request has run out.
    pub fn next_byte(&mut self, req: &mut Reader) -> (r: Result<Option<u8>, ProtocolError>)
        ensures
            final(self).cmd() == old(self).cmd(),
            old(self).remaining() == 0 ==> r == Ok::<Option<u8>, ProtocolError>(None) && final(self).remaining() == 0
                && final(req).rest() == old(req).rest(),
            old(self).remaining() > 0 && old(self).cmd() == SpiCommand::Read ==> r == Ok::<Option<u8>, ProtocolError>(Some(0u8))
                && final(self).remaining() == old(self).remaining() - 1 && final(req).rest() == old(req).rest(),
            old(self).remaining() > 0 && old(self).cmd() != SpiCommand::Read ==> {
                if old(req).rest().len() == 0 {
                    r == Err::<Option<u8>, ProtocolError>(ProtocolError::MissingArg) && final(req).rest() == old(req).rest()
                } else {
                    r == Ok::<Option<u8>, ProtocolError>(Some(old(req).rest()[0])) && final(self).remaining() == old(self).remaining() - 1
                        && final(req).rest() == old(req).rest().drop_first()
                }
            },
    {
        if self.left == 0 {
            return Ok(None);
        }
        if self.command == SpiCommand::Read {
            self.left = self.left - 1;
            return Ok(Some(0));
        }
        match req.take_first() {
            Some(b) => {
                self.left = self.left - 1;
                Ok(Some(b))
            },
            None => Err(ProtocolError::MissingArg),
        }
    }

    /// A byte came back: it goes into the response unless the command only writes.
    pub fn received(&self, rx: u8, res: &mut Writer) -> (r: Result<(), ProtocolError>)
        ensures
            self.cmd() == SpiCommand::Write ==> r is Ok && final(res).pos() == old(res).pos()
                && final(res).contents() == old(res).contents(),
            self.cmd() != SpiCommand::Write && old(res).pos() < old(res).contents().len() ==> r is Ok
                && final(res).pos() == old(res).pos() + 1
                && final(res).contents() == old(res).contents().update(old(res).pos() as int, rx),
            self.cmd() != SpiCommand::Write && old(res).pos() >= old(res).contents().len() ==> r
                == Err::<(), ProtocolError>(ProtocolError::ResponseFull) && final(res).pos() == old(res).pos()
                && final(res).contents() == old(res).contents(),
    {
        if self.command != SpiCommand::Write {
            if res.put(rx).is_err() {
                return Err(ProtocolError::ResponseFull);
            }
        }
        Ok(())
    }
}

} // verus!
