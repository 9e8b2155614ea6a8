use vstd::prelude::*;
use crate::buf::{Reader, Writer};
use crate::viking::ProtocolError;

verus! {

/// The commands of the I2C controller protocol.
#[derive(Clone, Copy, PartialEq, Eq, Debug, Structural)]
pub enum I2cCommand {
    Start,
    Stop,
    Read,
    Write,
    /// A command code the protocol does not define.
    Unknown,
}

/// A failed bus step, as the RP2040 controller reports it.
#[derive(Clone, Copy, PartialEq, Eq, Debug, Structural)]
pub enum BusError {
    AddrNack,
    DataNack,
    ArbitrationLost,
    /// Any other failure.
    Other,
}

/// What the controller must do next for the command in progress.
#[derive(Clone, Copy, PartialEq, Eq, Debug)]
pub enum RpAction {
    /// Set the 7-bit target address, then call `resume_finish`.
    SetAddress(u16),
    /// Abort the transfer (sending a stop), then call `resume_finish`.
    Abort,
    /// Read one byte, with a repeated start first if `restart`.
    Read { restart: bool },
    /// Write one byte, with a repeated start first if `restart`.
    Write { byte: u8, restart: bool },
    /// The command is over with this result.
    Finished(Result<u8, ProtocolError>),
}

/// State of the RP2040 I2C controller mode between bytes.
#[derive(Clone, Copy, PartialEq, Eq, Debug, Structural)]
pub enum RpState {
    Idle,
    RestartRead,
    RestartWrite,
    Read,
    Write,
    AddrNack,
    DataNack,
    ArbitrationLost,
}

/// The command in progress, as the contracts see it.
pub ghost enum RpPendingView {
    Idle,
    /// An address change or an abort awaits its completion.
    Finish,
    /// `left` bytes remain to be read; `restart` for the next one.
    Reading { left: u8, restart: bool },
    /// `data` remains to be written; `restart` for the next byte.
    Writing { data: Seq<u8>, restart: bool },
}

enum RpPending {
    Idle,
    Finish,
    Reading { left: u8, restart: bool },
    Writing { data: Vec<u8>, pos: usize, restart: bool },
}

/// The I2C controller mode of the RP2040 boards: a state machine that turns protocol
/// commands into bus steps.
pub struct RpI2c {
    state: RpState,
    address: u16,
    pending: RpPending,
}

/// The error for a transfer attempted in a failed state, or `None` when the state may not
/// fail this way.
pub open spec fn rp_failed_state_error(s: RpState) -> Option<ProtocolError> {
    match s {
        RpState::AddrNack => Some(ProtocolError::AddrNack),
        RpState::DataNack => Some(ProtocolError::DataNack),
        RpState::ArbitrationLost => Some(ProtocolError::ArbitrationLost),
        _ => None,
    }
}

/// The state a failed bus step leaves behind (`None`: unchanged) and the error that ends
/// the command.
pub open spec fn rp_bus_failure(e: BusError) -> (Option<RpState>, ProtocolError) {
    match e {
        BusError::AddrNack => (Some(RpState::AddrNack), ProtocolError::AddrNack),
        BusError::DataNack => (Some(RpState::DataNack), ProtocolError::DataNack),
        BusError::ArbitrationLost => (Some(RpState::ArbitrationLost), ProtocolError::ArbitrationLost),
        BusError::Other => (None, ProtocolError::Unknown),
    }
}

/// The state after a failed bus step.
pub open spec fn rp_state_after(s: RpState, e: BusError) -> RpState {
    match rp_bus_failure(e).0 {
        Some(t) => t,
        None => s,
    }
}

/// The error of a transfer command attempted in state `s`.
pub open spec fn rp_transfer_refusal(s: RpState) -> ProtocolError {
    match rp_failed_state_error(s) {
        Some(e) => e,
        None => ProtocolError::InvalidState,
    }
}

/// How the RP2040 controller mode starts a command with `rest` left in the request: the
/// action, the state, the controller address, the command in progress and the request left.
///
/// * `Start` takes an address byte (its low bit selects reading). From `Idle` the
///   controller's address is set to the upper seven bits; from `Read` or `Write` only a
///   repeated start to the same address is allowed. The state becomes the matching read or
///   write state (or its restart state).
/// * `Stop` aborts the transfer and returns to `Idle`.
/// * `Read` takes a length byte and reads that many bytes, in `Read` or `RestartRead`.
/// * `Write` takes a length-prefixed block and writes it, in `Write` or `RestartWrite`.
///
/// A transfer in any other state is refused as [`rp_transfer_refusal`] says; a missing
/// argument gives `MissingArg`.
pub open spec fn rp_command_spec(state: RpState, address: u16, cmd: I2cCommand, rest: Seq<u8>) -> (RpAction, RpState, u16, RpPendingView, Seq<u8>) {
    match cmd {
        I2cCommand::Start => {
            if rest.len() == 0 {
                (RpAction::Finished(Err(ProtocolError::MissingArg)), state, address, RpPendingView::Idle, rest)
            } else {
                let b = rest[0];
                let read = b % 2 == 1;
                let a = (b / 2) as u16;
                match state {
                    RpState::Idle => (
                        RpAction::SetAddress(a),
                        if read { RpState::Read } else { RpState::Write },
                        a,
                        RpPendingView::Finish,
                        rest.drop_first(),
                    ),
                    RpState::Read | RpState::Write => {
                        if a != address {
                            (RpAction::Finished(Err(ProtocolError::InvalidState)), state, address, RpPendingView::Idle, rest.drop_first())
                        } else {
                            (
                                RpAction::Finished(Ok(0)),
                                if read { RpState::RestartRead } else { RpState::RestartWrite },
                                address,
                                RpPendingView::Idle,
                                rest.drop_first(),
                            )
                        }
                    },
                    _ => (RpAction::Finished(Err(ProtocolError::InvalidState)), state, address, RpPendingView::Idle, rest.drop_first()),
                }
            }
        },
        I2cCommand::Stop => (RpAction::Abort, RpState::Idle, address, RpPendingView::Finish, rest),
        I2cCommand::Read => {
            if rest.len() == 0 {
                (RpAction::Finished(Err(ProtocolError::MissingArg)), state, address, RpPendingView::Idle, rest)
            } else {
                let len = rest[0];
                match state {
                    RpState::Read | RpState::RestartRead => {
                        let restart = state == RpState::RestartRead;
                        if len == 0 {
                            (RpAction::Finished(Ok(0)), RpState::Read, address, RpPendingView::Idle, rest.drop_first())
                        } else {
                            (RpAction::Read { restart }, RpState::Read, address, RpPendingView::Reading { left: len, restart }, rest.drop_first())
                        }
                    },
                    _ => (RpAction::Finished(Err(rp_transfer_refusal(state))), state, address, RpPendingView::Idle, rest.drop_first()),
                }
            }
        },
        I2cCommand::Write => {
            if rest.len() == 0 {
                (RpAction::Finished(Err(ProtocolError::MissingArg)), state, address, RpPendingView::Idle, rest)
            } else if rest[0] as int > rest.len() - 1 {
                (RpAction::Finished(Err(ProtocolError::MissingArg)), state, address, RpPendingView::Idle, rest.drop_first())
            } else {
                let data = rest.subrange(1, 1 + rest[0] as int);
                let left = rest.skip(1 + rest[0] as int);
                match state {
                    RpState::Write | RpState::RestartWrite => {
                        let restart = state == RpState::RestartWrite;
                        if data.len() == 0 {
                            (RpAction::Finished(Ok(0)), RpState::Write, address, RpPendingView::Idle, left)
                        } else {
                            (RpAction::Write { byte: data[0], restart }, RpState::Write, address, RpPendingView::Writing { data, restart }, left)
                        }
                    },
                    _ => (RpAction::Finished(Err(rp_transfer_refusal(state))), state, address, RpPendingView::Idle, left),
                }
            }
        },
        I2cCommand::Unknown => (RpAction::Finished(Err(ProtocolError::InvalidCommand)), state, address, RpPendingView::Idle, rest),
    }
}

impl RpI2c {
    pub closed spec fn state(&self) -> RpState {
        self.state
    }

    /// The 7-bit address the controller was last set to.
    pub closed spec fn address(&self) -> u16 {
        self.address
    }

    pub closed spec fn pending(&self) -> RpPendingView {
        match self.pending {
            RpPending::Idle => RpPendingView::Idle,
            RpPending::Finish => RpPendingView::Finish,
            RpPending::Reading { left, restart } => RpPendingView::Reading { left, restart },
            RpPending::Writing { data, pos, restart } => RpPendingView::Writing {
                data: data@.subrange(pos as int, data@.len() as int),
                restart,
            },
        }
    }

    #[verifier::type_invariant]
    closed spec fn wf(&self) -> bool {
        match self.pending {
            RpPending::Writing { data, pos, .. } => pos < data@.len(),
            RpPending::Reading { left, .. } => left > 0,
            _ => true,
        }
    }

    /// A controller mode with no transfer under way.
    pub fn new() -> (r: RpI2c)
        ensures
            r.state() == RpState::Idle,
            r.address() == 0,
            r.pending() == RpPendingView::Idle,
    {
        RpI2c { state: RpState::Idle, address: 0, pending: RpPending::Idle }
    }

    /// Starts a command, reading its arguments from `req` (see [`rp_command_spec`]).
    pub fn command(&mut self, cmd: I2cCommand, req: &mut Reader) -> (r: RpAction)
        requires
            old(self).pending() == RpPendingView::Idle,
        ensures
            ({
                let (action, state, address, pending, rest) = rp_command_spec(
                    old(self).state(),
                    old(self).address(),
                    cmd,
                    old(req).rest(),
                );
                &&& r == action
                &&& final(self).state() == state
                &&& final(self).address() == address
                &&& final(self).pending() == pending
                &&& final(req).rest() == rest
            }),
    {
        proof {
            use_type_invariant(&*self);
        }
        match cmd {
            I2cCommand::Start => {
                let b = match req.take_first() {
                    Some(b) => b,
                    None => return RpAction::Finished(Err(ProtocolError::MissingArg)),
                };
                let read = b & 1u8 != 0;
                let a = (b >> 1u8) as u16;
                assert(read == (b % 2 == 1) && a == (b / 2) as u16) by (bit_vector)
                    requires
                        read == (b & 1u8 != 0),
                        a == (b >> 1u8) as u16,
                ;
                match self.state {
                    RpState::Idle => {
                        self.address = a;
                        self.state = if read { RpState::Read } else { RpState::Write };
                        self.pending = RpPending::Finish;
                        RpAction::SetAddress(a)
                    },
                    RpState::Read | RpState::Write => {
                        if a != self.address {
                            return RpAction::Finished(Err(ProtocolError::InvalidState));
                        }
                        self.state = if read { RpState::RestartRead } else { RpState::RestartWrite };
                        RpAction::Finished(Ok(0))
                    },
                    _ => RpAction::Finished(Err(ProtocolError::InvalidState)),
                }
            },
            I2cCommand::Stop => {
                self.state = RpState::Idle;
                self.pending = RpPending::Finish;
                RpAction::Abort
            },
            I2cCommand::Read => {
                let len = match req.take_first() {
                    Some(b) => b,
                    None => return RpAction::Finished(Err(ProtocolError::MissingArg)),
                };
                let restart = match self.state {
                    RpState::Read => false,
                    RpState::RestartRead => {
                        self.state = RpState::Read;
                        true
                    },
                    RpState::AddrNack => return RpAction::Finished(Err(ProtocolError::AddrNack)),
                    RpState::DataNack => return RpAction::Finished(Err(ProtocolError::DataNack)),
                    RpState::ArbitrationLost => return RpAction::Finished(
                        Err(ProtocolError::ArbitrationLost),
                    ),
                    _ => return RpAction::Finished(Err(ProtocolError::InvalidState)),
                };
                if len == 0 {
                    return RpAction::Finished(Ok(0));
                }
                self.pending = RpPending::Reading { left: len, restart };
                RpAction::Read { restart }
            },
            I2cCommand::Write => {
                let data = match req.take_len() {
                    Some(d) => d,
                    None => return RpAction::Finished(Err(ProtocolError::MissingArg)),
                };
                let restart = match self.state {
                    RpState::Write => false,
                    RpState::RestartWrite => {
                        self.state = RpState::Write;
                        true
                    },
                    RpState::AddrNack => return RpAction::Finished(Err(ProtocolError::AddrNack)),
                    RpState::DataNack => return RpAction::Finished(Err(ProtocolError::DataNack)),
                    RpState::ArbitrationLost => return RpAction::Finished(
                        Err(ProtocolError::ArbitrationLost),
                    ),
                    _ => return RpAction::Finished(Err(ProtocolError::InvalidState)),
                };
                if data.len() == 0 {
                    return RpAction::Finished(Ok(0));
                }
                let v = vstd::slice::slice_to_vec(data);
                let first = v[0];
                self.pending = RpPending::Writing { data: v, pos: 0, restart };
                proof {
                    assert(v@.subrange(0, v@.len() as int) =~= v@);
                }
                RpAction::Write { byte: first, restart }
            },
            I2cCommand::Unknown => RpAction::Finished(Err(ProtocolError::InvalidCommand)),
        }
    }

    /// Records a bus failure: the state changes as [`rp_bus_failure`] says and the command
    /// ends with its error.
    fn fail(&mut self, e: BusError) -> (r: RpAction)
        ensures
            final(self).state() == rp_state_after(old(self).state(), e),
            final(self).address() == old(self).address(),
            final(self).pending() == RpPendingView::Idle,
            r == RpAction::Finished(Err(rp_bus_failure(e).1)),
    {
        proof {
            use_type_invariant(&*self);
        }
        self.pending = RpPending::Idle;
        match e {
            BusError::AddrNack => {
                self.state = RpState::AddrNack;
                RpAction::Finished(Err(ProtocolError::AddrNack))
            },
            BusError::DataNack => {
                self.state = RpState::DataNack;
                RpAction::Finished(Err(ProtocolError::DataNack))
            },
            BusError::ArbitrationLost => {
                self.state = RpState::ArbitrationLost;
                RpAction::Finished(Err(ProtocolError::ArbitrationLost))
            },
            BusError::Other => RpAction::Finished(Err(ProtocolError::Unknown)),
        }
    }

    /// The address change or abort finished; the command succeeds.
    pub fn resume_finish(&mut self) -> (r: RpAction)
        requires
            old(self).pending() == RpPendingView::Finish,
        ensures
            final(self).state() == old(self).state(),
            final(self).address() == old(self).address(),
            final(self).pending() == RpPendingView::Idle,
            r == RpAction::Finished(Ok(0)),
    {
        proof {
            use_type_invariant(&*self);
        }
        self.pending = RpPending::Idle;
        RpAction::Finished(Ok(0))
    }

    /// A byte read finished with `outcome`. A byte read is added to the response (a full
    /// response ends the command with `ResponseFull`); the next byte is read without a
    /// repeated start, until the requested count is reached. A failure ends the command.
    pub fn resume_read(&mut self, outcome: Result<u8, BusError>, res: &mut Writer) -> (r: RpAction)
        requires
            old(self).pending() is Reading,
        ensures
            final(self).address() == old(self).address(),
            match outcome {
                Ok(b) => {
                    let left = old(self).pending()->Reading_left;
                    if old(res).pos() < old(res).contents().len() {
                        &&& final(res).pos() == old(res).pos() + 1
                        &&& final(res).contents() == old(res).contents().update(old(res).pos() as int, b)
                        &&& final(self).state() == old(self).state()
                        &&& if left == 1 {
                            r == RpAction::Finished(Ok(0)) && final(self).pending() == RpPendingView::Idle
                        } else {
                            r == RpAction::Read { restart: false } && final(self).pending()
                                == RpPendingView::Reading { left: (left - 1) as u8, restart: false }
                        }
                    } else {
                        &&& final(res).pos() == old(res).pos()
                        &&& final(res).contents() == old(res).contents()
                        &&& final(self).state() == old(self).state()
                        &&& final(self).pending() == RpPendingView::Idle
                        &&& r == RpAction::Finished(Err(ProtocolError::ResponseFull))
                    }
                },
                Err(e) => {
                    &&& final(res).pos() == old(res).pos()
                    &&& final(res).contents() == old(res).contents()
                    &&& final(self).state() == rp_state_after(old(self).state(), e)
                    &&& final(self).pending() == RpPendingView::Idle
                    &&& r == RpAction::Finished(Err(rp_bus_failure(e).1))
                },
            },
    {
        proof {
            use_type_invariant(&*self);
        }
        let left = match self.pending {
            RpPending::Reading { left, .. } => left,
            _ => {
                assert(false);
                0
            },
        };
        match outcome {
            Ok(b) => {
                if res.put(b).is_err() {
                    self.pending = RpPending::Idle;
                    return RpAction::Finished(Err(ProtocolError::ResponseFull));
                }
                if left == 1 {
                    self.pending = RpPending::Idle;
                    RpAction::Finished(Ok(0))
                } else {
                    self.pending = RpPending::Reading { left: left - 1, restart: false };
                    RpAction::Read { restart: false }
                }
            },
            Err(e) => self.fail(e),
        }
    }

    /// A byte write finished with `outcome`. After an acknowledged byte the next one is
    /// written without a repeated start, until the block is done. A failure ends the command.
    pub fn resume_write(&mut self, outcome: Result<(), BusError>) -> (r: RpAction)
        requires
            old(self).pending() is Writing,
        ensures
            final(self).address() == old(self).address(),
            match outcome {
                Ok(()) => {
                    let data = old(self).pending()->Writing_data;
                    &&& final(self).state() == old(self).state()
                    &&& if data.len() == 1 {
                        r == RpAction::Finished(Ok(0)) && final(self).pending() == RpPendingView::Idle
                    } else {
                        r == RpAction::Write { byte: data[1], restart: false } && final(self).pending()
                            == RpPendingView::Writing { data: data.drop_first(), restart: false }
                    }
                },
                Err(e) => {
                    &&& final(self).state() == rp_state_after(old(self).state(), e)
                    &&& final(self).pending() == RpPendingView::Idle
                    &&& r == RpAction::Finished(Err(rp_bus_failure(e).1))
                },
            },
    {
        proof {
            use_type_invariant(&*self);
        }
        match outcome {
            Ok(()) => {
                let mut pending = RpPending::Idle;
                core::mem::swap(&mut pending, &mut self.pending);
                assert(pending == old(self).pending);
                match pending {
                    RpPending::Writing { data, pos, .. } => {
                        let n = data.len();
                        let next = pos + 1;
                        if next >= n {
                            RpAction::Finished(Ok(0))
                        } else {
                            let byte = data[next];
                            let ghost old_rest = data@.subrange(pos as int, data@.len() as int);
                            self.pending = RpPending::Writing { data, pos: next, restart: false };
                            proof {
                                assert(data@.subrange(next as int, data@.len() as int) =~= old_rest.drop_first());
                            }
                            RpAction::Write { byte, restart: false }
                        }
                    },
                    _ => {
                        assert(false);
                        RpAction::Finished(Ok(0))
                    },
                }
            },
            Err(e) => self.fail(e),
        }
    }
}

/// Law: a failed transfer state (address NACK, data NACK, lost arbitration) stays until a
/// stop: every other command leaves it as it is, and a read or write in it fails with its
/// error without a bus step; a stop always returns to `Idle`.
pub proof fn law_rp_failure_persists_until_stop(state: RpState, address: u16, cmd: I2cCommand, rest: Seq<u8>)
    requires
        rp_failed_state_error(state) is Some,
    ensures
        cmd != I2cCommand::Stop ==> rp_command_spec(state, address, cmd, rest).1 == state
            && rp_command_spec(state, address, cmd, rest).0 is Finished,
        cmd == I2cCommand::Read && rest.len() > 0 ==> rp_command_spec(state, address, cmd, rest).0
            == RpAction::Finished(Err(rp_failed_state_error(state)->0)),
        cmd == I2cCommand::Stop ==> rp_command_spec(state, address, cmd, rest).1 == RpState::Idle,
{
}

/// Law: a repeated start is used by exactly one transfer on the RP2040. A read or write
/// asks for a repeated start only right after one (state `RestartRead` or `RestartWrite`);
/// any read or write that gets under way leaves the state at plain `Read` or `Write`, so the
/// next read or write of the same transaction goes out without a repeated start.
pub proof fn law_rp_restart_used_once(address: u16, state: RpState, rest: Seq<u8>, rest2: Seq<u8>)
    requires
        rest.len() > 0,
        rest2.len() > 0,
        rest2[0] > 0,
    ensures
        rp_command_spec(state, address, I2cCommand::Read, rest).0 == (RpAction::Read { restart: true })
            ==> state == RpState::RestartRead,
        (state == RpState::Read || state == RpState::RestartRead) ==> {
            let s1 = rp_command_spec(state, address, I2cCommand::Read, rest).1;
            &&& s1 == RpState::Read
            &&& rp_command_spec(s1, address, I2cCommand::Read, rest2).0 == (RpAction::Read { restart: false })
        },
        rp_command_spec(state, address, I2cCommand::Write, rest).0 matches RpAction::Write { restart, .. }
            ==> (restart <==> state == RpState::RestartWrite),
        (state == RpState::Write || state == RpState::RestartWrite) && rest[0] as int <= rest.len() - 1 ==> {
            let s1 = rp_command_spec(state, address, I2cCommand::Write, rest).1;
            &&& s1 == RpState::Write
            &&& (rest2[0] as int <= rest2.len() - 1 ==> rp_command_spec(s1, address, I2cCommand::Write, rest2).0
                == (RpAction::Write { byte: rest2[1], restart: false }))
        },
{
}

/// Law: the controller's address changes only when a start begins a transfer from `Idle`;
/// a repeated start must name the address already in use.
pub proof fn law_rp_address_changes_only_from_idle(state: RpState, address: u16, cmd: I2cCommand, rest: Seq<u8>)
    ensures
        rp_command_spec(state, address, cmd, rest).2 != address ==> state == RpState::Idle
            && cmd == I2cCommand::Start,
        (state == RpState::Read || state == RpState::Write) && cmd == I2cCommand::Start
            && rest.len() > 0 && (rest[0] / 2) as u16 != address ==> rp_command_spec(state, address, cmd, rest).0
            == RpAction::Finished(Err(ProtocolError::InvalidState)),
{
}

/// A failed bus step, as the SAM D controller reports it.
#[derive(Clone, Copy, PartialEq, Eq, Debug, Structural)]
pub enum SamBusError {
    NoAcknowledge,
    ArbitrationLost,
}

/// The result of a SAM D controller command: `Ok(None)` for success, `Ok(Some(e))` for a
/// non-fatal error reported as status, `Err(e)` for a failure.
pub type SamResult = Result<Option<ProtocolError>, ProtocolError>;

/// What the SAM D controller must do next for the command in progress.
#[derive(Clone, Copy, PartialEq, Eq, Debug)]
pub enum SamAction {
    /// Send a start with this address byte, then call `resume_start`.
    Start(u8),
    /// Send a stop, then call `resume_finish`.
    Stop,
    /// Take the byte already received with the address, then call `resume_read`.
    ReadFirst,
    /// Acknowledge and read the next byte, then call `resume_read`.
    ReadNext,
    /// Write one byte, then call `resume_write`.
    Write(u8),
    /// The command is over with this result.
    Finished(SamResult),
}

/// State of the SAM D I2C controller mode between bytes.
#[derive(Clone, Copy, PartialEq, Eq, Debug, Structural)]
pub enum SamState {
    Idle,
    Read,
    ReadFirst,
    Write,
    AddrNack,
    ArbitrationLost,
}

/// The command in progress, as the contracts see it.
pub ghost enum SamPendingView {
    Idle,
    /// A start with this address byte awaits its outcome.
    Starting(u8),
    /// A stop awaits completion.
    Finish,
    /// A read awaits its byte; `left` bytes remain including it.
    Reading { left: u8 },
    /// A write of `data[0]` awaits its outcome.
    Writing { data: Seq<u8> },
}

enum SamPending {
    Idle,
    Starting(u8),
    Finish,
    Reading { left: u8 },
    Writing { data: Vec<u8>, pos: usize },
}

/// The I2C controller mode of the SAM D boards.
pub struct SercomI2C {
    state: SamState,
    pending: SamPending,
}

/// The next step of a read with `left` bytes to go in state `s`: the action, and the state
/// the step leaves. `ReadFirst` takes the byte received with the address and moves to
/// `Read`; `Read` reads the next byte; failed states end the read with their error; any
/// other state is refused.
pub open spec fn sam_read_step(s: SamState) -> (SamAction, SamState) {
    match s {
        SamState::ReadFirst => (SamAction::ReadFirst, SamState::Read),
        SamState::Read => (SamAction::ReadNext, SamState::Read),
        SamState::AddrNack => (SamAction::Finished(Err(ProtocolError::AddrNack)), s),
        SamState::ArbitrationLost => (SamAction::Finished(Err(ProtocolError::ArbitrationLost)), s),
        _ => (SamAction::Finished(Err(ProtocolError::InvalidState)), s),
    }
}

/// The error of a write command attempted in state `s`, or `None` in `Write`.
pub open spec fn sam_write_refusal(s: SamState) -> Option<ProtocolError> {
    match s {
        SamState::Write => None,
        SamState::AddrNack => Some(ProtocolError::AddrNack),
        SamState::ArbitrationLost => Some(ProtocolError::ArbitrationLost),
        _ => Some(ProtocolError::InvalidState),
    }
}

/// How the SAM D controller mode starts a command with `rest` left in the request: the
/// action, the state, the command in progress and the request left.
///
/// * `Start` takes an address byte and sends a start with it.
/// * `Stop` sends a stop; the state is kept.
/// * `Read` takes a count and reads that many bytes (see [`sam_read_step`]); a zero count
///   succeeds at once.
/// * `Write` takes a length-prefixed block; outside `Write` it is refused (see
///   [`sam_write_refusal`]), even when empty.
pub open spec fn sam_command_spec(state: SamState, cmd: I2cCommand, rest: Seq<u8>) -> (SamAction, SamState, SamPendingView, Seq<u8>) {
    match cmd {
        I2cCommand::Start => {
            if rest.len() == 0 {
                (SamAction::Finished(Err(ProtocolError::MissingArg)), state, SamPendingView::Idle, rest)
            } else {
                (SamAction::Start(rest[0]), state, SamPendingView::Starting(rest[0]), rest.drop_first())
            }
        },
        I2cCommand::Stop => (SamAction::Stop, state, SamPendingView::Finish, rest),
        I2cCommand::Read => {
            if rest.len() == 0 {
                (SamAction::Finished(Err(ProtocolError::MissingArg)), state, SamPendingView::Idle, rest)
            } else if rest[0] == 0 {
                (SamAction::Finished(Ok(None)), state, SamPendingView::Idle, rest.drop_first())
            } else {
                let (action, next) = sam_read_step(state);
                (action, next, if action is Finished { SamPendingView::Idle } else { SamPendingView::Reading { left: rest[0] } }, rest.drop_first())
            }
        },
        I2cCommand::Write => {
            if rest.len() == 0 {
                (SamAction::Finished(Err(ProtocolError::MissingArg)), state, SamPendingView::Idle, rest)
            } else if rest[0] as int > rest.len() - 1 {
                (SamAction::Finished(Err(ProtocolError::MissingArg)), state, SamPendingView::Idle, rest.drop_first())
            } else {
                let data = rest.subrange(1, 1 + rest[0] as int);
                let left = rest.skip(1 + rest[0] as int);
                match sam_write_refusal(state) {
                    Some(e) => (SamAction::Finished(Err(e)), state, SamPendingView::Idle, left),
                    None => if data.len() == 0 {
                        (SamAction::Finished(Ok(None)), state, SamPendingView::Idle, left)
                    } else {
                        (SamAction::Write(data[0]), state, SamPendingView::Writing { data }, left)
                    },
                }
            }
        },
        I2cCommand::Unknown => (SamAction::Finished(Err(ProtocolError::InvalidCommand)), state, SamPendingView::Idle, rest),
    }
}

impl SercomI2C {
    pub closed spec fn state(&self) -> SamState {
        self.state
    }

    pub closed spec fn pending(&self) -> SamPendingView {
        match self.pending {
            SamPending::Idle => SamPendingView::Idle,
            SamPending::Starting(a) => SamPendingView::Starting(a),
            SamPending::Finish => SamPendingView::Finish,
            SamPending::Reading { left } => SamPendingView::Reading { left },
            SamPending::Writing { data, pos } => SamPendingView::Writing {
                data: data@.subrange(pos as int, data@.len() as int),
            },
        }
    }

    #[verifier::type_invariant]
    closed spec fn wf(&self) -> bool {
        match self.pending {
            SamPending::Writing { data, pos } => pos < data@.len(),
            SamPending::Reading { left } => left > 0,
            _ => true,
        }
    }

    pub fn new() -> (r: SercomI2C)
        ensures
            r.state() == SamState::Idle,
            r.pending() == SamPendingView::Idle,
    {
        SercomI2C { state: SamState::Idle, pending: SamPending::Idle }
    }

    /// The next step of a read (see [`sam_read_step`]).
    fn read_step(&mut self, left: u8) -> (r: SamAction)
        requires
            left > 0,
        ensures
            r == sam_read_step(old(self).state()).0,
            final(self).state() == sam_read_step(old(self).state()).1,
            r is Finished ==> final(self).pending() == SamPendingView::Idle,
            !(r is Finished) ==> final(self).pending() == (SamPendingView::Reading { left }),
    {
        proof {
            use_type_invariant(&*self);
        }
        match self.state {
            SamState::ReadFirst => {
                self.state = SamState::Read;
                self.pending = SamPending::Reading { left };
                SamAction::ReadFirst
            },
            SamState::Read => {
                self.pending = SamPending::Reading { left };
                SamAction::ReadNext
            },
            SamState::AddrNack => {
                self.pending = SamPending::Idle;
                SamAction::Finished(Err(ProtocolError::AddrNack))
            },
            SamState::ArbitrationLost => {
                self.pending = SamPending::Idle;
                SamAction::Finished(Err(ProtocolError::ArbitrationLost))
            },
            _ => {
                self.pending = SamPending::Idle;
                SamAction::Finished(Err(ProtocolError::InvalidState))
            },
        }
    }

    /// Starts a command, reading its arguments from `req` (see [`sam_command_spec`]).
    pub fn command(&mut self, cmd: I2cCommand, req: &mut Reader) -> (r: SamAction)
        requires
            old(self).pending() == SamPendingView::Idle,
        ensures
            ({
                let (action, state, pending, rest) = sam_command_spec(old(self).state(), cmd, old(req).rest());
                &&& r == action
                &&& final(self).state() == state
                &&& final(self).pending() == pending
                &&& final(req).rest() == rest
            }),
    {
        proof {
            use_type_invariant(&*self);
        }
        match cmd {
            I2cCommand::Start => {
                let addr = match req.take_first() {
                    Some(b) => b,
                    None => return SamAction::Finished(Err(ProtocolError::MissingArg)),
                };
                self.pending = SamPending::Starting(addr);
                SamAction::Start(addr)
            },
            I2cCommand::Stop => {
                self.pending = SamPending::Finish;
                SamAction::Stop
            },
            I2cCommand::Read => {
                let len = match req.take_first() {
                    Some(b) => b,
                    None => return SamAction::Finished(Err(ProtocolError::MissingArg)),
                };
                if len == 0 {
                    return SamAction::Finished(Ok(None));
                }
                self.read_step(len)
            },
            I2cCommand::Write => {
                let data = match req.take_len() {
                    Some(d) => d,
                    None => return SamAction::Finished(Err(ProtocolError::MissingArg)),
                };
                match self.state {
                    SamState::Write => {},
                    SamState::AddrNack => return SamAction::Finished(Err(ProtocolError::AddrNack)),
                    SamState::ArbitrationLost => return SamAction::Finished(
                        Err(ProtocolError::ArbitrationLost),
                    ),
                    _ => return SamAction::Finished(Err(ProtocolError::InvalidState)),
                }
                if data.len() == 0 {
                    return SamAction::Finished(Ok(None));
                }
                let v = vstd::slice::slice_to_vec(data);
                let first = v[0];
                self.pending = SamPending::Writing { data: v, pos: 0 };
                proof {
                    assert(v@.subrange(0, v@.len() as int) =~= v@);
                }
                SamAction::Write(first)
            },
            I2cCommand::Unknown => SamAction::Finished(Err(ProtocolError::InvalidCommand)),
        }
    }

    /// The start finished: acknowledged, the state becomes `ReadFirst` or `Write` by the
    /// address's low bit; not acknowledged, `AddrNack`, reported as a non-fatal status; lost
    /// arbitration, `ArbitrationLost`, a failure.
    pub fn resume_start(&mut self, outcome: Result<(), SamBusError>) -> (r: SamAction)
        requires
            old(self).pending() is Starting,
        ensures
            final(self).pending() == SamPendingView::Idle,
            ({
                let addr = old(self).pending()->Starting_0;
                match outcome {
                    Ok(()) => r == SamAction::Finished(Ok(None)) && final(self).state() == (if addr % 2 == 1 { SamState::ReadFirst } else { SamState::Write }),
                    Err(SamBusError::NoAcknowledge) => r == SamAction::Finished(Ok(Some(ProtocolError::AddrNack))) && final(self).state() == SamState::AddrNack,
                    Err(SamBusError::ArbitrationLost) => r == SamAction::Finished(Err(ProtocolError::ArbitrationLost)) && final(self).state() == SamState::ArbitrationLost,
                }
            }),
    {
        proof {
            use_type_invariant(&*self);
        }
        let addr = match self.pending {
            SamPending::Starting(a) => a,
            _ => {
                assert(false);
                0
            },
        };
        self.pending = SamPending::Idle;
        match outcome {
            Ok(()) => {
                let low = addr & 0x01u8;
                assert((low != 0) == (addr % 2 == 1)) by (bit_vector)
                    requires
                        low == addr & 0x01u8,
                ;
                self.state = if low != 0 { SamState::ReadFirst } else { SamState::Write };
                SamAction::Finished(Ok(None))
            },
            Err(SamBusError::NoAcknowledge) => {
                self.state = SamState::AddrNack;
                SamAction::Finished(Ok(Some(ProtocolError::AddrNack)))
            },
            Err(SamBusError::ArbitrationLost) => {
                self.state = SamState::ArbitrationLost;
                SamAction::Finished(Err(ProtocolError::ArbitrationLost))
            },
        }
    }

    /// The stop finished; the command succeeds and the state is kept.
    pub fn resume_finish(&mut self) -> (r: SamAction)
        requires
            old(self).pending() == SamPendingView::Finish,
        ensures
            final(self).state() == old(self).state(),
            final(self).pending() == SamPendingView::Idle,
            r == SamAction::Finished(Ok(None)),
    {
        proof {
            use_type_invariant(&*self);
        }
        self.pending = SamPending::Idle;
        SamAction::Finished(Ok(None))
    }

    /// A byte read finished. The byte is added to the response (a full response ends the
    /// command with `ResponseFull`) and the read goes on (see [`sam_read_step`]) until the
    /// count is reached. A missing acknowledge ends the command with `DataNack`; lost
    /// arbitration ends it with `ArbitrationLost` and moves to that state.
    pub fn resume_read(&mut self, outcome: Result<u8, SamBusError>, res: &mut Writer) -> (r: SamAction)
        requires
            old(self).pending() is Reading,
        ensures
            match outcome {
                Ok(b) => {
                    let left = old(self).pending()->Reading_left;
                    if old(res).pos() < old(res).contents().len() {
                        &&& final(res).pos() == old(res).pos() + 1
                        &&& final(res).contents() == old(res).contents().update(old(res).pos() as int, b)
                        &&& if left == 1 {
                            &&& r == SamAction::Finished(Ok(None))
                            &&& final(self).state() == old(self).state()
                            &&& final(self).pending() == SamPendingView::Idle
                        } else {
                            &&& r == sam_read_step(old(self).state()).0
                            &&& final(self).state() == sam_read_step(old(self).state()).1
                            &&& final(self).pending() == (if r is Finished { SamPendingView::Idle } else { SamPendingView::Reading { left: (left - 1) as u8 } })
                        }
                    } else {
                        &&& final(res).pos() == old(res).pos()
                        &&& final(res).contents() == old(res).contents()
                        &&& final(self).state() == old(self).state()
                        &&& final(self).pending() == SamPendingView::Idle
                        &&& r == SamAction::Finished(Err(ProtocolError::ResponseFull))
                    }
                },
                Err(SamBusError::NoAcknowledge) => {
                    &&& final(res).pos() == old(res).pos()
                    &&& final(res).contents() == old(res).contents()
                    &&& final(self).state() == old(self).state()
                    &&& final(self).pending() == SamPendingView::Idle
                    &&& r == SamAction::Finished(Err(ProtocolError::DataNack))
                },
                Err(SamBusError::ArbitrationLost) => {
                    &&& final(res).pos() == old(res).pos()
                    &&& final(res).contents() == old(res).contents()
                    &&& final(self).state() == SamState::ArbitrationLost
                    &&& final(self).pending() == SamPendingView::Idle
                    &&& r == SamAction::Finished(Err(ProtocolError::ArbitrationLost))
                },
            },
    {
        proof {
            use_type_invariant(&*self);
        }
        let left = match self.pending {
            SamPending::Reading { left } => left,
            _ => {
                assert(false);
                1
            },
        };
        match outcome {
            Ok(b) => {
                if res.put(b).is_err() {
                    self.pending = SamPending::Idle;
                    return SamAction::Finished(Err(ProtocolError::ResponseFull));
                }
                if left == 1 {
                    self.pending = SamPending::Idle;
                    SamAction::Finished(Ok(None))
                } else {
                    self.read_step(left - 1)
                }
            },
            Err(SamBusError::NoAcknowledge) => {
                self.pending = SamPending::Idle;
                SamAction::Finished(Err(ProtocolError::DataNack))
            },
            Err(SamBusError::ArbitrationLost) => {
                self.pending = SamPending::Idle;
                self.state = SamState::ArbitrationLost;
                SamAction::Finished(Err(ProtocolError::ArbitrationLost))
            },
        }
    }

    /// A byte write finished: acknowledged, the next byte is written until the block is
    /// done; not acknowledged, the command ends with `DataNack`; lost arbitration ends it with
    /// `ArbitrationLost` and moves to that state.
    pub fn resume_write(&mut self, outcome: Result<(), SamBusError>) -> (r: SamAction)
        requires
            old(self).pending() is Writing,
        ensures
            match outcome {
                Ok(()) => {
                    let data = old(self).pending()->Writing_data;
                    &&& final(self).state() == old(self).state()
                    &&& if data.len() == 1 {
                        r == SamAction::Finished(Ok(None)) && final(self).pending() == SamPendingView::Idle
                    } else {
                        r == SamAction::Write(data[1]) && final(self).pending() == SamPendingView::Writing { data: data.drop_first() }
                    }
                },
                Err(SamBusError::NoAcknowledge) => {
                    &&& final(self).state() == old(self).state()
                    &&& final(self).pending() == SamPendingView::Idle
                    &&& r == SamAction::Finished(Err(ProtocolError::DataNack))
                },
                Err(SamBusError::ArbitrationLost) => {
                    &&& final(self).state() == SamState::ArbitrationLost
                    &&& final(self).pending() == SamPendingView::Idle
                    &&& r == SamAction::Finished(Err(ProtocolError::ArbitrationLost))
                },
            },
    {
        proof {
            use_type_invariant(&*self);
        }
        match outcome {
            Ok(()) => {
                let mut pending = SamPending::Idle;
                core::mem::swap(&mut pending, &mut self.pending);
                assert(pending == old(self).pending);
                match pending {
                    SamPending::Writing { data, pos } => {
                        let n = data.len();
                        let next = pos + 1;
                        if next >= n {
                            SamAction::Finished(Ok(None))
                        } else {
                            let byte = data[next];
                            let ghost old_rest = data@.subrange(pos as int, data@.len() as int);
                            self.pending = SamPending::Writing { data, pos: next };
                            proof {
                                assert(data@.subrange(next as int, data@.len() as int) =~= old_rest.drop_first());
                            }
                            SamAction::Write(byte)
                        }
                    },
                    _ => {
                        assert(false);
                        SamAction::Finished(Ok(None))
                    },
                }
            },
            Err(SamBusError::NoAcknowledge) => {
                self.pending = SamPending::Idle;
                SamAction::Finished(Err(ProtocolError::DataNack))
            },
            Err(SamBusError::ArbitrationLost) => {
                self.pending = SamPending::Idle;
                self.state = SamState::ArbitrationLost;
                SamAction::Finished(Err(ProtocolError::ArbitrationLost))
            },
        }
    }
}

/// Law: on the SAM D boards the byte received with a read's address is taken exactly once.
/// A read of at least one byte asks for that first byte (`ReadFirst`) only right after a
/// start for reading, and for a further byte from the bus (`ReadNext`) exactly in `Read`;
/// once the first byte is taken the state is `Read`, so every later byte of the transaction,
/// in the same command or the next, is a `ReadNext`.
pub proof fn law_sam_first_byte_taken_once(state: SamState, rest: Seq<u8>, rest2: Seq<u8>)
    requires
        rest.len() > 0,
        rest[0] > 0,
        rest2.len() > 0,
        rest2[0] > 0,
    ensures
        sam_command_spec(state, I2cCommand::Read, rest).0 == SamAction::ReadFirst <==> state == SamState::ReadFirst,
        sam_command_spec(state, I2cCommand::Read, rest).0 == SamAction::ReadNext <==> state == SamState::Read,
        sam_read_step(state).0 == SamAction::ReadFirst <==> state == SamState::ReadFirst,
        sam_read_step(state).0 == SamAction::ReadNext <==> state == SamState::Read,
        state == SamState::ReadFirst ==> {
            let s1 = sam_command_spec(state, I2cCommand::Read, rest).1;
            &&& s1 == SamState::Read
            &&& sam_read_step(s1).0 == SamAction::ReadNext
            &&& sam_command_spec(s1, I2cCommand::Read, rest2).0 == SamAction::ReadNext
        },
{
}

/// Law: on the SAM D boards, once arbitration is lost every read and write fails with
/// `ArbitrationLost` and the state stays, until a start succeeds; a stop does not clear it.
pub proof fn law_sam_arbitration_lost_persists(cmd: I2cCommand, rest: Seq<u8>)
    ensures
        cmd != I2cCommand::Start ==> sam_command_spec(SamState::ArbitrationLost, cmd, rest).1
            == SamState::ArbitrationLost,
        cmd == I2cCommand::Read && rest.len() > 0 && rest[0] > 0 ==> sam_command_spec(
            SamState::ArbitrationLost,
            cmd,
            rest,
        ).0 == SamAction::Finished(Err(ProtocolError::ArbitrationLost)),
        cmd == I2cCommand::Write && rest.len() > 0 && rest[0] as int <= rest.len() - 1
            ==> sam_command_spec(SamState::ArbitrationLost, cmd, rest).0 == SamAction::Finished(
            Err(ProtocolError::ArbitrationLost),
        ),
{
}

/// The bus speeds the I2C controller protocol can ask for.
#[derive(Clone, Copy, PartialEq, Eq, Debug, Structural)]
pub enum I2cSpeed {
    Slow,
    Standard,
    Fast,
    /// A speed code the protocol does not define.
    Unknown,
}

/// The bus frequency of the RP2040 I2C mode for a configured speed: 10 kHz, 100 kHz or
/// 400 kHz; anything else is an unsupported clock.
pub fn rp_i2c_frequency(speed: I2cSpeed) -> (r: Result<u32, ProtocolError>)
    ensures
        speed == I2cSpeed::Slow ==> r == Ok::<u32, ProtocolError>(10_000),
        speed == I2cSpeed::Standard ==> r == Ok::<u32, ProtocolError>(100_000),
        speed == I2cSpeed::Fast ==> r == Ok::<u32, ProtocolError>(400_000),
        speed == I2cSpeed::Unknown ==> r == Err::<u32, ProtocolError>(ProtocolError::UnsupportedClock),
{
    match speed {
        I2cSpeed::Slow => Ok(10_000),
        I2cSpeed::Standard => Ok(100_000),
        I2cSpeed::Fast => Ok(400_000),
        I2cSpeed::Unknown => Err(ProtocolError::UnsupportedClock),
    }
}

/// Whether a SERCOM I2C status shows an error: bus error, lost arbitration or a missing
/// acknowledge.
pub fn status_error(buserr: bool, arblost: bool, rxnack: bool) -> (r: bool)
    ensures
        r == (buserr || arblost || rxnack),
{
    buserr || arblost || rxnack
}

/// State of the SAM D I2C controller mode that reports bus failures as status bytes.
#[derive(Clone, Copy, PartialEq, Eq, Debug, Structural)]
pub enum StatusState {
    Idle,
    Read,
    ReadFirst,
    Write,
    Nack,
}

/// What the status-reporting SAM D controller mode must do next.
#[derive(Clone, Copy, PartialEq, Eq, Debug)]
pub enum StatusAction {
    /// Send a start with this address byte, then call `resume_start` with the error status.
    Start(u8),
    /// Send a stop (with a NACK if reading), then call `resume_stop`.
    Stop,
    /// Take the received byte, after acknowledging the previous one and waiting for the next
    /// when `ack` is set; then call `resume_read` with it and the error status.
    TakeByte { ack: bool },
    /// Write one byte, then call `resume_write` with the error status.
    Write(u8),
    /// The command is over.
    Finished(Result<(), ()>),
}

pub ghost enum StatusPendingView {
    Idle,
    Starting(u8),
    Stopping,
    Reading { left: u8 },
    Writing { data: Seq<u8> },
}

enum StatusPending {
    Idle,
    Starting(u8),
    Stopping,
    Reading { left: u8 },
    Writing { data: Vec<u8>, pos: usize },
}

/// The SAM D I2C controller mode that reports bus failures as status bytes: a start reports
/// whether the address was acknowledged, and a failed byte fails the next one.
pub struct StatusI2c {
    state: StatusState,
    pending: StatusPending,
}

/// The next step of a read in state `s`: `Read` acknowledges and waits for the next byte,
/// `ReadFirst` takes the byte received with the address and moves to `Read`; in any other
/// state the read fails.
pub open spec fn status_read_step(s: StatusState) -> (StatusAction, StatusState) {
    match s {
        StatusState::Read => (StatusAction::TakeByte { ack: true }, s),
        StatusState::ReadFirst => (StatusAction::TakeByte { ack: false }, StatusState::Read),
        _ => (StatusAction::Finished(Err(())), s),
    }
}

/// How the status-reporting SAM D mode starts a command: `Start` takes an address byte; `Stop` sends a
/// stop; `Read` takes a count and reads that many bytes; `Write` takes a length-prefixed block
/// and writes it in `Write` state. Missing arguments and unknown commands fail.
pub open spec fn status_command_spec(state: StatusState, cmd: I2cCommand, rest: Seq<u8>) -> (StatusAction, StatusState, StatusPendingView, Seq<u8>) {
    match cmd {
        I2cCommand::Start => if rest.len() == 0 {
            (StatusAction::Finished(Err(())), state, StatusPendingView::Idle, rest)
        } else {
            (StatusAction::Start(rest[0]), state, StatusPendingView::Starting(rest[0]), rest.drop_first())
        },
        I2cCommand::Stop => (StatusAction::Stop, state, StatusPendingView::Stopping, rest),
        I2cCommand::Read => if rest.len() == 0 {
            (StatusAction::Finished(Err(())), state, StatusPendingView::Idle, rest)
        } else if rest[0] == 0 {
            (StatusAction::Finished(Ok(())), state, StatusPendingView::Idle, rest.drop_first())
        } else {
            let (a, next) = status_read_step(state);
            (a, next, if a is Finished { StatusPendingView::Idle } else { StatusPendingView::Reading { left: rest[0] } }, rest.drop_first())
        },
        I2cCommand::Write => if rest.len() == 0 {
            (StatusAction::Finished(Err(())), state, StatusPendingView::Idle, rest)
        } else if rest[0] as int > rest.len() - 1 {
            (StatusAction::Finished(Err(())), state, StatusPendingView::Idle, rest.drop_first())
        } else {
            let data = rest.subrange(1, 1 + rest[0] as int);
            let left = rest.skip(1 + rest[0] as int);
            if data.len() == 0 {
                (StatusAction::Finished(Ok(())), state, StatusPendingView::Idle, left)
            } else if state != StatusState::Write {
                (StatusAction::Finished(Err(())), state, StatusPendingView::Idle, left)
            } else {
                (StatusAction::Write(data[0]), state, StatusPendingView::Writing { data }, left)
            }
        },
        I2cCommand::Unknown => (StatusAction::Finished(Err(())), state, StatusPendingView::Idle, rest),
    }
}

impl StatusI2c {
    pub closed spec fn state(&self) -> StatusState {
        self.state
    }

    pub closed spec fn pending(&self) -> StatusPendingView {
        match self.pending {
            StatusPending::Idle => StatusPendingView::Idle,
            StatusPending::Starting(a) => StatusPendingView::Starting(a),
            StatusPending::Stopping => StatusPendingView::Stopping,
            StatusPending::Reading { left } => StatusPendingView::Reading { left },
            StatusPending::Writing { data, pos } => StatusPendingView::Writing {
                data: data@.subrange(pos as int, data@.len() as int),
            },
        }
    }

    #[verifier::type_invariant]
    closed spec fn wf(&self) -> bool {
        match self.pending {
            StatusPending::Writing { data, pos } => pos < data@.len(),
            StatusPending::Reading { left } => left > 0,
            _ => true,
        }
    }

    pub fn new() -> (r: StatusI2c)
        ensures
            r.state() == StatusState::Idle,
            r.pending() == StatusPendingView::Idle,
    {
        StatusI2c { state: StatusState::Idle, pending: StatusPending::Idle }
    }

    fn read_step(&mut self, left: u8) -> (r: StatusAction)
        requires
            left > 0,
        ensures
            r == status_read_step(old(self).state()).0,
            final(self).state() == status_read_step(old(self).state()).1,
            r is Finished ==> final(self).pending() == StatusPendingView::Idle,
            !(r is Finished) ==> final(self).pending() == (StatusPendingView::Reading { left }),
    {
        proof {
            use_type_invariant(&*self);
        }
        match self.state {
            StatusState::Read => {
                self.pending = StatusPending::Reading { left };
                StatusAction::TakeByte { ack: true }
            },
            StatusState::ReadFirst => {
                self.state = StatusState::Read;
                self.pending = StatusPending::Reading { left };
                StatusAction::TakeByte { ack: false }
            },
            _ => {
                self.pending = StatusPending::Idle;
                StatusAction::Finished(Err(()))
            },
        }
    }

    /// Starts a command, reading its arguments from `req` (see [`status_command_spec`]).
    pub fn command(&mut self, cmd: I2cCommand, req: &mut Reader) -> (r: StatusAction)
        requires
            old(self).pending() == StatusPendingView::Idle,
        ensures
            ({
                let (action, state, pending, rest) = status_command_spec(old(self).state(), cmd, old(req).rest());
                &&& r == action
                &&& final(self).state() == state
                &&& final(self).pending() == pending
                &&& final(req).rest() == rest
            }),
    {
        proof {
            use_type_invariant(&*self);
        }
        match cmd {
            I2cCommand::Start => {
                let addr = match req.take_first() {
                    Some(b) => b,
                    None => return StatusAction::Finished(Err(())),
                };
                self.pending = StatusPending::Starting(addr);
                StatusAction::Start(addr)
            },
            I2cCommand::Stop => {
                self.pending = StatusPending::Stopping;
                StatusAction::Stop
            },
            I2cCommand::Read => {
                let len = match req.take_first() {
                    Some(b) => b,
                    None => return StatusAction::Finished(Err(())),
                };
                if len == 0 {
                    return StatusAction::Finished(Ok(()));
                }
                self.read_step(len)
            },
            I2cCommand::Write => {
                let data = match req.take_len() {
                    Some(d) => d,
                    None => return StatusAction::Finished(Err(())),
                };
                if data.len() == 0 {
                    return StatusAction::Finished(Ok(()));
                }
                if self.state != StatusState::Write {
                    return StatusAction::Finished(Err(()));
                }
                let v = vstd::slice::slice_to_vec(data);
                let first = v[0];
                self.pending = StatusPending::Writing { data: v, pos: 0 };
                proof {
                    assert(v@.subrange(0, v@.len() as int) =~= v@);
                }
                StatusAction::Write(first)
            },
            I2cCommand::Unknown => StatusAction::Finished(Err(())),
        }
    }

    /// The start finished: an error moves to `Nack` and reports status 1; otherwise the
    /// address's low bit selects `ReadFirst` or `Write` and status 0 is reported. The status
    /// byte is added to the response if it fits; the command succeeds either way.
    pub fn resume_start(&mut self, error: bool, res: &mut Writer) -> (r: StatusAction)
        requires
            old(self).pending() is Starting,
        ensures
            final(self).pending() == StatusPendingView::Idle,
            r == StatusAction::Finished(Ok(())),
            ({
                let addr = old(self).pending()->Starting_0;
                let status: u8 = if error { 1 } else { 0 };
                &&& final(self).state() == (if error { StatusState::Nack } else if addr % 2 == 1 { StatusState::ReadFirst } else { StatusState::Write })
                &&& old(res).pos() < old(res).contents().len() ==> final(res).pos() == old(res).pos() + 1
                    && final(res).contents() == old(res).contents().update(old(res).pos() as int, status)
                &&& old(res).pos() >= old(res).contents().len() ==> final(res).pos() == old(res).pos()
                    && final(res).contents() == old(res).contents()
            }),
    {
        proof {
            use_type_invariant(&*self);
        }
        let addr = match self.pending {
            StatusPending::Starting(a) => a,
            _ => {
                assert(false);
                0
            },
        };
        self.pending = StatusPending::Idle;
        let status: u8 = if error {
            self.state = StatusState::Nack;
            1
        } else {
            let low = addr & 0x01u8;
            assert((low != 0) == (addr % 2 == 1)) by (bit_vector)
                requires
                    low == addr & 0x01u8,
            ;
            self.state = if low != 0 { StatusState::ReadFirst } else { StatusState::Write };
            0
        };
        let _ = res.put(status);
        StatusAction::Finished(Ok(()))
    }

    /// The stop finished: back to `Idle`.
    pub fn resume_stop(&mut self) -> (r: StatusAction)
        requires
            old(self).pending() == StatusPendingView::Stopping,
        ensures
            final(self).state() == StatusState::Idle,
            final(self).pending() == StatusPendingView::Idle,
            r == StatusAction::Finished(Ok(())),
    {
        proof {
            use_type_invariant(&*self);
        }
        self.pending = StatusPending::Idle;
        self.state = StatusState::Idle;
        StatusAction::Finished(Ok(()))
    }

    /// A byte was taken, with the bus error status read after it. The byte goes into the
    /// response (a full response fails the command); an error moves to `Nack`, which fails
    /// the next byte of the read.
    pub fn resume_read(&mut self, byte: u8, error: bool, res: &mut Writer) -> (r: StatusAction)
        requires
            old(self).pending() is Reading,
        ensures
            ({
                let left = old(self).pending()->Reading_left;
                let s1 = if error { StatusState::Nack } else { old(self).state() };
                if old(res).pos() < old(res).contents().len() {
                    &&& final(res).pos() == old(res).pos() + 1
                    &&& final(res).contents() == old(res).contents().update(old(res).pos() as int, byte)
                    &&& if left == 1 {
                        &&& r == StatusAction::Finished(Ok(()))
                        &&& final(self).state() == s1
                        &&& final(self).pending() == StatusPendingView::Idle
                    } else {
                        &&& r == status_read_step(s1).0
                        &&& final(self).state() == status_read_step(s1).1
                        &&& final(self).pending() == (if r is Finished { StatusPendingView::Idle } else { StatusPendingView::Reading { left: (left - 1) as u8 } })
                    }
                } else {
                    &&& final(res).pos() == old(res).pos()
                    &&& final(res).contents() == old(res).contents()
                    &&& final(self).state() == old(self).state()
                    &&& final(self).pending() == StatusPendingView::Idle
                    &&& r == StatusAction::Finished(Err(()))
                }
            }),
    {
        proof {
            use_type_invariant(&*self);
        }
        let left = match self.pending {
            StatusPending::Reading { left } => left,
            _ => {
                assert(false);
                1
            },
        };
        if res.put(byte).is_err() {
            self.pending = StatusPending::Idle;
            return StatusAction::Finished(Err(()));
        }
        if error {
            self.state = StatusState::Nack;
        }
        if left == 1 {
            self.pending = StatusPending::Idle;
            StatusAction::Finished(Ok(()))
        } else {
            self.read_step(left - 1)
        }
    }

    /// A byte was written, with the bus error status read after it: an error moves to
    /// `Nack`, which fails the next byte; the command goes on until the block is written.
    pub fn resume_write(&mut self, error: bool) -> (r: StatusAction)
        requires
            old(self).pending() is Writing,
        ensures
            ({
                let data = old(self).pending()->Writing_data;
                let s1 = if error { StatusState::Nack } else { old(self).state() };
                &&& final(self).state() == s1
                &&& if data.len() == 1 {
                    r == StatusAction::Finished(Ok(())) && final(self).pending() == StatusPendingView::Idle
                } else if s1 != StatusState::Write {
                    r == StatusAction::Finished(Err(())) && final(self).pending() == StatusPendingView::Idle
                } else {
                    r == StatusAction::Write(data[1]) && final(self).pending() == (StatusPendingView::Writing { data: data.drop_first() })
                }
            }),
    {
        proof {
            use_type_invariant(&*self);
        }
        if error {
            self.state = StatusState::Nack;
        }
        let mut pending = StatusPending::Idle;
        core::mem::swap(&mut pending, &mut self.pending);
        assert(pending == old(self).pending);
        match pending {
            StatusPending::Writing { data, pos } => {
                let n = data.len();
                let next = pos + 1;
                if next >= n {
                    StatusAction::Finished(Ok(()))
                } else if self.state != StatusState::Write {
                    StatusAction::Finished(Err(()))
                } else {
                    let byte = data[next];
                    let ghost old_rest = data@.subrange(pos as int, data@.len() as int);
                    self.pending = StatusPending::Writing { data, pos: next };
                    proof {
                        assert(data@.subrange(next as int, data@.len() as int) =~= old_rest.drop_first());
                    }
                    StatusAction::Write(byte)
                }
            },
            _ => {
                assert(false);
                StatusAction::Finished(Ok(()))
            },
        }
    }
}

} // verus!
