use vstd::prelude::*;
use crate::buf::Reader;
use crate::descriptors::{lo_byte, hi_byte, le16};

verus! {

/// The errors a request can end with. Each stands for one error byte of the Viking
/// protocol; the byte values belong to the protocol definition.
#[derive(Clone, Copy, PartialEq, Eq, Debug, Structural)]
pub enum ProtocolError {
    MissingArg,
    InvalidCommand,
    InvalidState,
    InvalidMode,
    InvalidResource,
    AddrNack,
    DataNack,
    ArbitrationLost,
    ResponseFull,
    UnsupportedClock,
    Busy,
    Unknown,
}

/// The resource id a command byte addresses: its low six bits.
pub open spec fn command_resource(byte: u8) -> u8 {
    byte % 64
}

/// The command a command byte carries: its top two bits.
pub open spec fn command_code(byte: u8) -> u8 {
    byte / 64
}

/// Splits a command byte into the resource id (low six bits) and the command (top two bits).
pub fn split_command_byte(byte: u8) -> (r: (u8, u8))
    ensures
        r.0 == command_resource(byte),
        r.1 == command_code(byte),
{
    let id = byte & 0x3fu8;
    let command = byte >> 6u8;
    assert(id == byte % 64 && command == byte / 64) by (bit_vector)
        requires
            id == byte & 0x3fu8,
            command == byte >> 6u8,
    ;
    (id, command)
}

/// One step of a request.
#[derive(Clone, Copy, PartialEq, Eq, Debug, Structural)]
pub enum Command {
    /// Wait this many microseconds.
    Delay(u32),
    /// Run command `command` of resource `id`; the command reads its own arguments.
    Resource { id: u8, command: u8 },
}

/// What the next step of a request is: nothing when the request is used up; a delay whose
/// length follows the delay byte as a little-endian `u16`; otherwise a resource command.
/// Gives also the bytes left after the step's own bytes.
pub open spec fn next_command_spec(rest: Seq<u8>, delay_code: u8) -> (Result<Option<Command>, ProtocolError>, Seq<u8>) {
    if rest.len() == 0 {
        (Ok(None), rest)
    } else if rest[0] == delay_code {
        if rest.len() < 3 {
            (Err(ProtocolError::MissingArg), rest.skip(rest.len() as int))
        } else {
            (Ok(Some(Command::Delay((rest[1] as int + 256 * rest[2] as int) as u32))), rest.skip(3))
        }
    } else {
        (Ok(Some(Command::Resource { id: command_resource(rest[0]), command: command_code(rest[0]) })), rest.drop_first())
    }
}

/// Reads the next step of a request (see [`next_command_spec`]); `delay_code` is the
/// protocol's delay command byte.
pub fn next_command(req: &mut Reader, delay_code: u8) -> (r: Result<Option<Command>, ProtocolError>)
    ensures
        (r, final(req).rest()) == next_command_spec(old(req).rest(), delay_code),
{
    let byte = match req.take_first() {
        Some(b) => b,
        None => return Ok(None),
    };
    if byte == delay_code {
        match req.take_u16() {
            Some(us) => {
                proof {
                    assert(final(req).rest() =~= old(req).rest().skip(3));
                }
                Ok(Some(Command::Delay(us as u32)))
            },
            None => {
                proof {
                    assert(final(req).rest() =~= old(req).rest().skip(old(req).rest().len() as int));
                }
                Err(ProtocolError::MissingArg)
            },
        }
    } else {
        let (id, command) = split_command_byte(byte);
        Ok(Some(Command::Resource { id, command }))
    }
}

/// The next step of a request whose delays are varints, `max` being the longest delay the
/// board can wait: nothing when the request is used up; a delay whose value, read a byte at
/// a time, never exceeds `max` (see [`limited_varint`]; a delay that passes `max`, or whose
/// bytes run out, is refused as soon as that shows); otherwise a resource command. Gives
/// also the bytes left after the step's own bytes.
pub open spec fn next_command_varint_spec(rest: Seq<u8>, delay_code: u8, max: u32) -> (Result<Option<Command>, ()>, Seq<u8>) {
    if rest.len() == 0 {
        (Ok(None), rest)
    } else if rest[0] == delay_code {
        let (r, n) = limited_varint(rest.drop_first(), 0, max);
        (
            match r {
                Ok(us) => Ok(Some(Command::Delay(us))),
                Err(()) => Err(()),
            },
            rest.drop_first().skip(n as int),
        )
    } else {
        (Ok(Some(Command::Resource { id: command_resource(rest[0]), command: command_code(rest[0]) })), rest.drop_first())
    }
}

/// Reads the next step of a request whose delays are varints (see
/// [`next_command_varint_spec`]); `delay_code` is the protocol's delay command byte and
/// `max` the longest delay the board can wait.
pub fn next_command_varint(req: &mut Reader, delay_code: u8, max: u32) -> (r: Result<Option<Command>, ()>)
    ensures
        (r, final(req).rest()) == next_command_varint_spec(old(req).rest(), delay_code, max),
{
    let ghost rest0 = req.rest();
    let byte = match req.take_first() {
        Some(b) => b,
        None => return Ok(None),
    };
    if byte == delay_code {
        assert(req.rest() == rest0.drop_first());
        match take_delay_limited(req, max) {
            Ok(us) => Ok(Some(Command::Delay(us))),
            Err(()) => Err(()),
        }
    } else {
        let (id, command) = split_command_byte(byte);
        Ok(Some(Command::Resource { id, command }))
    }
}

proof fn lemma_limited_varint_within(s: Seq<u8>, acc: u32, max: u32)
    ensures
        limited_varint(s, acc, max).1 <= s.len(),
    decreases s.len(),
{
    if s.len() > 0 {
        let v: u32 = ((acc << 7u32) | ((s[0] & 0x7fu8) as u32)) as u32;
        lemma_limited_varint_within(s.drop_first(), v, max);
    }
}

/// Law: every step of a request, in either delay coding, consumes at least one byte and
/// leaves a suffix of the request, so running a request's steps one after another ends.
pub proof fn law_steps_consume_request(rest: Seq<u8>, delay_code: u8, max: u32)
    requires
        rest.len() > 0,
    ensures
        next_command_spec(rest, delay_code).1.len() < rest.len(),
        next_command_spec(rest, delay_code).1 == rest.skip(rest.len() - next_command_spec(rest, delay_code).1.len()),
        next_command_varint_spec(rest, delay_code, max).1.len() < rest.len(),
        next_command_varint_spec(rest, delay_code, max).1 == rest.skip(
            rest.len() - next_command_varint_spec(rest, delay_code, max).1.len(),
        ),
{
    lemma_limited_varint_within(rest.drop_first(), 0, max);
    let a = next_command_spec(rest, delay_code).1;
    assert(a =~= rest.skip(rest.len() - a.len()));
    let b = next_command_varint_spec(rest, delay_code, max).1;
    assert(b =~= rest.skip(rest.len() - b.len()));
}

/// What running a request does next.
#[derive(Clone, Copy, PartialEq, Eq, Debug, Structural)]
pub enum RunAction {
    /// Wait this many microseconds, then take the next step.
    Delay(u32),
    /// Run command `command` of resource `id`, which reads its own arguments from the
    /// request; on success take the next step, on failure end with status 1.
    Command { id: u8, command: u8 },
    /// The request is over with this status byte: 0 when every step succeeded, 1 otherwise.
    Finish(u8),
}

/// The next action of a request whose delays are varints (see [`next_command_varint_spec`]):
/// a request used up finishes with status 0, a refused delay with status 1.
pub open spec fn run_step_spec(rest: Seq<u8>, delay_code: u8, max: u32) -> (RunAction, Seq<u8>) {
    let (r, left) = next_command_varint_spec(rest, delay_code, max);
    (
        match r {
            Ok(None) => RunAction::Finish(0),
            Ok(Some(Command::Delay(us))) => RunAction::Delay(us),
            Ok(Some(Command::Resource { id, command })) => RunAction::Command { id, command },
            Err(()) => RunAction::Finish(1),
        },
        left,
    )
}

/// Takes the next action of a request (see [`run_step_spec`]).
pub fn run_step(req: &mut Reader, delay_code: u8, max: u32) -> (r: RunAction)
    ensures
        (r, final(req).rest()) == run_step_spec(old(req).rest(), delay_code, max),
{
    match next_command_varint(req, delay_code, max) {
        Ok(None) => RunAction::Finish(0),
        Ok(Some(Command::Delay(us))) => RunAction::Delay(us),
        Ok(Some(Command::Resource { id, command })) => RunAction::Command { id, command },
        Err(()) => RunAction::Finish(1),
    }
}

/// The status byte of a request whose command just ended: none while it succeeded (the run
/// goes on), 1 when it failed (the run ends there).
pub fn command_status(ok: bool) -> (r: Option<u8>)
    ensures
        ok ==> r is None,
        !ok ==> r == Some(1u8),
{
    if ok {
        None
    } else {
        Some(1)
    }
}

/// A whole request run step by step, given what each command does: `cmd(rest, id,
/// command)` is the number of argument bytes the command takes from `rest`, or `None` when
/// it fails. Gives the status byte and the actions performed, in order.
pub open spec fn run_spec(
    rest: Seq<u8>,
    delay_code: u8,
    max: u32,
    cmd: spec_fn(Seq<u8>, u8, u8) -> Option<nat>,
) -> (u8, Seq<RunAction>)
    decreases rest.len(),
{
    if rest.len() == 0 {
        (0, Seq::empty())
    } else {
        proof {
            law_steps_consume_request(rest, delay_code, max);
        }
        let (a, left) = run_step_spec(rest, delay_code, max);
        match a {
            RunAction::Finish(status) => (status, Seq::empty()),
            RunAction::Delay(_) => {
                let (status, acts) = run_spec(left, delay_code, max, cmd);
                (status, seq![a] + acts)
            },
            RunAction::Command { id, command } => match cmd(left, id, command) {
                None => (1, seq![a]),
                Some(n) => {
                    let (status, acts) = run_spec(
                        left.skip(if n <= left.len() { n as int } else { left.len() as int }),
                        delay_code,
                        max,
                        cmd,
                    );
                    (status, seq![a] + acts)
                },
            },
        }
    }
}

/// Law: a request ends with status 1 exactly when a step fails, and nothing after the
/// failing step is performed: a delay that passes the board's limit (or runs out of bytes)
/// ends it before waiting; a failing command is its last action. A request whose steps all
/// succeed ends with status 0.
pub proof fn law_run_request(
    rest: Seq<u8>,
    delay_code: u8,
    max: u32,
    cmd: spec_fn(Seq<u8>, u8, u8) -> Option<nat>,
)
    requires
        rest.len() > 0,
    ensures
        rest[0] == delay_code && limited_varint(rest.drop_first(), 0, max).0 is Err ==> run_spec(
            rest,
            delay_code,
            max,
            cmd,
        ) == (1u8, Seq::<RunAction>::empty()),
        ({
            let (a, left) = run_step_spec(rest, delay_code, max);
            a matches RunAction::Command { id, command } && cmd(left, id, command) is None
                ==> run_spec(rest, delay_code, max, cmd) == (1u8, seq![a])
        }),
        run_spec(rest, delay_code, max, cmd).0 == 0 || run_spec(rest, delay_code, max, cmd).0 == 1,
    decreases rest.len(),
{
    law_steps_consume_request(rest, delay_code, max);
    let (a, left) = run_step_spec(rest, delay_code, max);
    match a {
        RunAction::Finish(status) => {
            assert(status == 0 || status == 1);
            assert(run_spec(rest, delay_code, max, cmd).0 == status);
        },
        RunAction::Delay(_) => {
            if left.len() > 0 {
                law_run_request(left, delay_code, max, cmd);
            }
            assert(run_spec(rest, delay_code, max, cmd).0 == run_spec(left, delay_code, max, cmd).0);
        },
        RunAction::Command { id, command } => match cmd(left, id, command) {
            None => {},
            Some(n) => {
                let l2 = left.skip(if n <= left.len() { n as int } else { left.len() as int });
                if l2.len() > 0 {
                    law_run_request(l2, delay_code, max, cmd);
                }
                assert(run_spec(rest, delay_code, max, cmd).0 == run_spec(l2, delay_code, max, cmd).0);
            },
        },
    }
}

/// Reads a delay written as a varint (see [`crate::buf::varint_decode`]) and refuses it as
/// soon as the value read so far exceeds `max`. Gives the value and the bytes read, `Err`
/// with the bytes read when the limit is passed or the bytes run out.
pub open spec fn limited_varint(s: Seq<u8>, acc: u32, max: u32) -> (Result<u32, ()>, nat)
    decreases s.len(),
{
    if s.len() == 0 {
        (Err(()), 0)
    } else {
        let v: u32 = ((acc << 7u32) | ((s[0] & 0x7fu8) as u32)) as u32;
        if v > max {
            (Err(()), 1)
        } else if s[0] & 0x80u8 == 0 {
            (Ok(v), 1)
        } else {
            let (r, n) = limited_varint(s.drop_first(), v, max);
            (r, n + 1)
        }
    }
}

/// Reads a varint delay that must not exceed `max` at any point (see [`limited_varint`]).
pub fn take_delay_limited(req: &mut Reader, max: u32) -> (r: Result<u32, ()>)
    ensures
        r == limited_varint(old(req).rest(), 0, max).0,
        final(req).rest() == old(req).rest().skip(limited_varint(old(req).rest(), 0, max).1 as int),
{
    let mut us: u32 = 0;
    loop
        invariant
            old(req).rest().len() >= req.rest().len(),
            req.rest() == old(req).rest().skip(old(req).rest().len() - req.rest().len()),
            ({
                let (r0, n0) = limited_varint(old(req).rest(), 0, max);
                let (r1, n1) = limited_varint(req.rest(), us, max);
                r0 == r1 && n0 == n1 + (old(req).rest().len() - req.rest().len())
            }),
        decreases req.rest().len(),
    {
        let ghost consumed = old(req).rest().len() - req.rest().len();
        let b = match req.take_first() {
            Some(b) => b,
            None => return Err(()),
        };
        us = (us << 7u32) | ((b & 0x7fu8) as u32);
        proof {
            assert(req.rest() =~= old(req).rest().skip(consumed + 1));
        }
        if us > max {
            return Err(());
        }
        if b & 0x80u8 == 0 {
            return Ok(us);
        }
    }
}

/// The resources of a board: for each resource (ids from 1) the number of modes it offers
/// (modes numbered from 1), and the mode each one is in, if any.
pub struct Resources {
    mode_counts: Vec<u8>,
    active: Vec<Option<u8>>,
}

/// What configuring a resource asks of the board: the mode to shut down first, if any, and
/// the mode to start.
#[derive(Clone, Copy, PartialEq, Eq, Debug, Structural)]
pub struct Reconfigure {
    pub deinit: Option<u8>,
    pub init: u8,
}

impl Resources {
    pub closed spec fn counts(&self) -> Seq<u8> {
        self.mode_counts@
    }

    /// The mode of each resource; index `i` is resource `i + 1`.
    pub closed spec fn modes(&self) -> Seq<Option<u8>> {
        self.active@
    }

    /// Every resource has a mode slot, and every resource id (from 1) fits in a byte.
    #[verifier::type_invariant]
    pub closed spec fn wf(&self) -> bool {
        self.mode_counts@.len() == self.active@.len() && self.mode_counts@.len() <= 255
    }

    /// Whether `id` names a resource of the board.
    pub open spec fn has_resource(&self, id: u8) -> bool {
        1 <= id <= self.counts().len()
    }

    /// Sets the mode slot at index `idx` (resource `idx + 1`).
    fn set_mode(&mut self, idx: usize, m: Option<u8>)
        requires
            idx < old(self).modes().len(),
        ensures
            final(self).counts() == old(self).counts(),
            final(self).modes() == old(self).modes().update(idx as int, m),
    {
        proof {
            use_type_invariant(&*self);
        }
        let mut this = Resources { mode_counts: Vec::new(), active: Vec::new() };
        core::mem::swap(&mut this, self);
        let Resources { mode_counts, mut active } = this;
        active.set(idx, m);
        *self = Resources { mode_counts, active };
    }

    /// A board whose resources offer `mode_counts` modes each, all unconfigured. Resource ids
    /// are bytes counted from 1, so a board has at most 255 resources.
    pub fn new(mode_counts: Vec<u8>) -> (r: Resources)
        requires
            mode_counts@.len() <= 255,
        ensures
            r.counts() == mode_counts@,
            r.modes() == Seq::new(mode_counts@.len(), |i: int| None::<u8>),
    {
        let mut active: Vec<Option<u8>> = Vec::new();
        let mut i: usize = 0;
        while i < mode_counts.len()
            invariant
                0 <= i <= mode_counts@.len(),
                active@ == Seq::new(i as nat, |k: int| None::<u8>),
            decreases mode_counts@.len() - i,
        {
            active.push(None);
            i = i + 1;
            assert(active@ =~= Seq::new(i as nat, |k: int| None::<u8>));
        }
        Resources { mode_counts, active }
    }

    /// Starts configuring resource `id` into `mode`. An unknown resource is refused with
    /// nothing changed. Otherwise the resource's current mode (if any) is shut down; an
    /// unknown mode is then refused and leaves the resource unconfigured. A known mode is
    /// handed back to be started; [`Resources::finish_configure`] records it once it has.
    pub fn begin_configure(&mut self, id: u8, mode: u8) -> (r: Result<Reconfigure, ProtocolError>)
        ensures
            final(self).counts() == old(self).counts(),
            !old(self).has_resource(id) ==> r == Err::<Reconfigure, ProtocolError>(ProtocolError::InvalidResource)
                && final(self).modes() == old(self).modes(),
            old(self).has_resource(id) ==> final(self).modes() == old(self).modes().update(id - 1, None),
            old(self).has_resource(id) && !(1 <= mode <= old(self).counts()[id - 1]) ==> r == Err::<
                Reconfigure,
                ProtocolError,
            >(ProtocolError::InvalidMode),
            old(self).has_resource(id) && 1 <= mode <= old(self).counts()[id - 1] ==> r == Ok::<
                Reconfigure,
                ProtocolError,
            >(Reconfigure { deinit: old(self).modes()[id - 1], init: mode }),
    {
        proof {
            use_type_invariant(&*self);
        }
        if id == 0 || id as usize > self.mode_counts.len() {
            return Err(ProtocolError::InvalidResource);
        }
        let idx = (id - 1) as usize;
        let previous = self.active[idx];
        self.set_mode(idx, None);
        if mode == 0 || mode > self.mode_counts[idx] {
            return Err(ProtocolError::InvalidMode);
        }
        Ok(Reconfigure { deinit: previous, init: mode })
    }

    /// Records that resource `id` now runs in `mode`, once that mode has started. An unknown
    /// resource or mode is refused with nothing changed.
    pub fn finish_configure(&mut self, id: u8, mode: u8) -> (r: Result<(), ProtocolError>)
        ensures
            final(self).counts() == old(self).counts(),
            !old(self).has_resource(id) ==> r == Err::<(), ProtocolError>(ProtocolError::InvalidResource)
                && final(self).modes() == old(self).modes(),
            old(self).has_resource(id) && !(1 <= mode <= old(self).counts()[id - 1]) ==> r == Err::<
                (),
                ProtocolError,
            >(ProtocolError::InvalidMode) && final(self).modes() == old(self).modes(),
            old(self).has_resource(id) && 1 <= mode <= old(self).counts()[id - 1] ==> r is Ok
                && final(self).modes() == old(self).modes().update(id - 1, Some(mode)),
    {
        proof {
            use_type_invariant(&*self);
        }
        if id == 0 || id as usize > self.mode_counts.len() {
            return Err(ProtocolError::InvalidResource);
        }
        let idx = (id - 1) as usize;
        if mode == 0 || mode > self.mode_counts[idx] {
            return Err(ProtocolError::InvalidMode);
        }
        self.set_mode(idx, Some(mode));
        Ok(())
    }

    /// The mode that handles a command for resource `id`: an unknown resource and an
    /// unconfigured one are refused.
    pub fn command_mode(&self, id: u8) -> (r: Result<u8, ProtocolError>)
        ensures
            r == command_mode_spec(self.modes(), id),
    {
        proof {
            use_type_invariant(self);
        }
        if id == 0 || id as usize > self.mode_counts.len() {
            return Err(ProtocolError::InvalidResource);
        }
        match self.active[(id - 1) as usize] {
            Some(m) => Ok(m),
            None => Err(ProtocolError::InvalidMode),
        }
    }

    /// Unconfigures every resource; gives back `(id, mode)` of each one that was configured,
    /// in id order, to be shut down.
    pub fn reset_all(&mut self) -> (r: Vec<(u8, u8)>)
        ensures
            final(self).counts() == old(self).counts(),
            final(self).modes() == Seq::new(old(self).modes().len(), |i: int| None::<u8>),
            r@ == configured(old(self).modes()),
    {
        proof {
            use_type_invariant(&*self);
        }
        let ghost before = self.modes();
        let ghost counts0 = self.counts();
        let mut out: Vec<(u8, u8)> = Vec::new();
        let mut i: usize = 0;
        let n = self.active.len();
        while i < n
            invariant
                n == self.modes().len(),
                n == before.len(),
                n <= 255,
                self.counts() == counts0,
                0 <= i <= n,
                out@ == configured(before.take(i as int)),
                forall|k: int| 0 <= k < i ==> self.modes()[k] == None::<u8>,
                forall|k: int| i <= k < n ==> self.modes()[k] == before[k],
            decreases n - i,
        {
            proof {
                assert(before.take(i + 1).drop_last() =~= before.take(i as int));
            }
            match self.active[i] {
                Some(m) => {
                    out.push(((i + 1) as u8, m));
                },
                None => {},
            }
            self.set_mode(i, None);
            i = i + 1;
        }
        assert(before.take(n as int) =~= before);
        assert(self.modes() =~= Seq::new(before.len(), |k: int| None::<u8>));
        out
    }
}

/// The mode that handles a command for resource `id`, given the modes of all resources.
pub open spec fn command_mode_spec(modes: Seq<Option<u8>>, id: u8) -> Result<u8, ProtocolError> {
    if !(1 <= id <= modes.len()) {
        Err(ProtocolError::InvalidResource)
    } else {
        match modes[id - 1] {
            Some(m) => Ok(m),
            None => Err(ProtocolError::InvalidMode),
        }
    }
}

/// `(id, mode)` of each configured resource, in id order.
pub open spec fn configured(modes: Seq<Option<u8>>) -> Seq<(u8, u8)>
    decreases modes.len(),
{
    if modes.len() == 0 {
        Seq::empty()
    } else {
        configured(modes.drop_last()) + match modes.last() {
            Some(m) => seq![(modes.len() as u8, m)],
            None => Seq::empty(),
        }
    }
}

/// Law: once a resource has been configured into a mode, its commands go to that mode and
/// no other resource's commands change; after a reset, every resource of the board refuses
/// commands as unconfigured; a configuration request that names no resource changes nothing.
pub proof fn law_configure_then_command(modes: Seq<Option<u8>>, id: u8, mode: u8, other: u8)
    requires
        1 <= id <= modes.len(),
        other != id,
    ensures
        command_mode_spec(modes.update(id - 1, Some(mode)), id) == Ok::<u8, ProtocolError>(mode),
        command_mode_spec(modes.update(id - 1, Some(mode)), other) == command_mode_spec(modes, other),
        1 <= other <= modes.len() ==> command_mode_spec(
            Seq::new(modes.len(), |i: int| None::<u8>),
            other,
        ) == Err::<u8, ProtocolError>(ProtocolError::InvalidMode),
{
}

/// One part of the resource descriptor: its type, an optional 16-bit protocol number, and
/// its data.
pub type DescriptorPart<'a> = (u8, Option<u16>, &'a [u8]);

/// Size of a part: two header bytes, two more for a protocol number, and the data.
pub open spec fn part_len(p: DescriptorPart) -> int {
    2 + (if p.1 is Some { 2int } else { 0int }) + p.2@.len()
}

/// Bytes of a part: its size, its type, the protocol number little-endian if any, its data.
pub open spec fn part_bytes(p: DescriptorPart) -> Seq<u8> {
    seq![part_len(p) as u8, p.0] + match p.1 {
        Some(n) => seq![lo_byte(n), hi_byte(n)],
        None => Seq::empty(),
    } + p.2@
}

/// The parts one after another.
pub open spec fn parts_bytes(ps: Seq<DescriptorPart>) -> Seq<u8>
    decreases ps.len(),
{
    if ps.len() == 0 {
        Seq::empty()
    } else {
        parts_bytes(ps.drop_last()) + part_bytes(ps.last())
    }
}

/// The resource descriptor: the parts one after another, with the total length (modulo
/// 2^16) written little-endian over bytes 2 and 3.
pub open spec fn resource_descriptor(ps: Seq<DescriptorPart>) -> Seq<u8> {
    let b = parts_bytes(ps);
    let t = (b.len() % 65536) as u16;
    b.update(2, lo_byte(t)).update(3, hi_byte(t))
}

proof fn lemma_parts_bytes_prefix(ps: Seq<DescriptorPart>, n: int)
    requires
        0 <= n <= ps.len(),
    ensures
        parts_bytes(ps.take(n)).len() <= parts_bytes(ps).len(),
    decreases ps.len() - n,
{
    if n < ps.len() {
        lemma_parts_bytes_prefix(ps, n + 1);
        assert(ps.take(n + 1).drop_last() =~= ps.take(n));
    } else {
        assert(ps.take(n) =~= ps);
    }
}

/// Lays out the descriptor that describes the board's resources and their modes (see
/// [`resource_descriptor`]). Each part must be shorter than 255 bytes, and the whole at
/// least 4 bytes long so that the total length has its place.
pub fn build_resource_descriptor(parts: &[DescriptorPart]) -> (r: Vec<u8>)
    requires
        forall|i: int| 0 <= i < parts@.len() ==> part_len(#[trigger] parts@[i]) < 255,
        parts_bytes(parts@).len() >= 4,
        parts_bytes(parts@).len() <= usize::MAX,
    ensures
        r@ == resource_descriptor(parts@),
{
    let ghost ps = parts@;
    let mut bytes: Vec<u8> = Vec::new();
    let mut part: usize = 0;
    while part < parts.len()
        invariant
            ps == parts@,
            forall|i: int| 0 <= i < ps.len() ==> part_len(#[trigger] ps[i]) < 255,
            parts_bytes(ps).len() <= usize::MAX,
            0 <= part <= ps.len(),
            bytes@ == parts_bytes(ps.take(part as int)),
        decreases ps.len() - part,
    {
        proof {
            assert(ps.take(part + 1).drop_last() =~= ps.take(part as int));
            lemma_parts_bytes_prefix(ps, part + 1);
        }
        let p = parts[part];
        let extra: usize = if p.1.is_some() { 2 } else { 0 };
        let len = 2 + extra + p.2.len();
        let ghost base = bytes@;
        bytes.push(len as u8);
        bytes.push(p.0);
        match p.1 {
            Some(n) => {
                let b = le16(n);
                bytes.push(b[0]);
                bytes.push(b[1]);
            },
            None => {},
        }
        let data = p.2;
        let ghost mid = bytes@;
        let mut i: usize = 0;
        while i < data.len()
            invariant
                0 <= i <= data@.len(),
                bytes@ == mid + data@.subrange(0, i as int),
            decreases data@.len() - i,
        {
            bytes.push(data[i]);
            i = i + 1;
            assert(bytes@ =~= mid + data@.subrange(0, i as int));
        }
        proof {
            assert(data@.subrange(0, data@.len() as int) =~= data@);
            assert(bytes@ =~= base + part_bytes(p));
        }
        part = part + 1;
    }
    proof {
        assert(ps.take(ps.len() as int) =~= ps);
    }
    let total = bytes.len();
    let t = le16((total % 65536) as u16);
    bytes.set(2, t[0]);
    bytes.set(3, t[1]);
    bytes
}

/// Law: the total length written into the resource descriptor is its length, when that
/// fits in 16 bits, and its first byte is the size of the first part.
pub proof fn law_resource_descriptor_length(ps: Seq<DescriptorPart>)
    requires
        ps.len() > 0,
        part_len(ps[0]) >= 4,
        parts_bytes(ps).len() < 65536,
    ensures
        resource_descriptor(ps)[2] as int + 256 * resource_descriptor(ps)[3] as int
            == resource_descriptor(ps).len(),
        resource_descriptor(ps)[0] == part_len(ps[0]) as u8,
{
    lemma_parts_bytes_first(ps);
    assert(part_bytes(ps[0])[0] == part_len(ps[0]) as u8);
    assert(parts_bytes(ps)[0] == part_bytes(ps[0])[0]);
}

proof fn lemma_parts_bytes_first(ps: Seq<DescriptorPart>)
    requires
        ps.len() > 0,
    ensures
        parts_bytes(ps).len() >= part_bytes(ps[0]).len(),
        forall|i: int| 0 <= i < part_bytes(ps[0]).len() ==> parts_bytes(ps)[i] == #[trigger] part_bytes(ps[0])[i],
    decreases ps.len(),
{
    if ps.len() > 1 {
        lemma_parts_bytes_first(ps.drop_last());
        assert(ps.drop_last()[0] == ps[0]);
    } else {
        assert(ps.drop_last() =~= Seq::<DescriptorPart>::empty());
        assert(parts_bytes(ps.drop_last()) =~= Seq::<u8>::empty());
        assert(ps.last() == ps[0]);
        assert(parts_bytes(ps) =~= part_bytes(ps[0]));
    }
}

/// The part of the resource descriptor the host asked for: everything from `offset` on, or
/// nothing when `offset` lies past the end.
pub fn descriptor_tail(desc: &[u8], offset: u16) -> (r: &[u8])
    ensures
        offset <= desc@.len() ==> r@ == desc@.skip(offset as int),
        offset > desc@.len() ==> r@.len() == 0,
{
    let o = offset as usize;
    if o <= desc.len() {
        vstd::slice::slice_subrange(desc, o, desc.len())
    } else {
        vstd::slice::slice_subrange(desc, 0, 0)
    }
}

/// Splits a bulk OUT packet into its sync byte and its request, which starts after two
/// header bytes; packets shorter than two bytes are ignored.
pub fn bulk_request(packet: &[u8]) -> (r: Option<(u8, &[u8])>)
    ensures
        packet@.len() < 2 ==> r is None,
        packet@.len() >= 2 ==> (r matches Some((sync, req)) && sync == packet@[0] && req@ == packet@.skip(2)),
{
    if packet.len() < 2 {
        None
    } else {
        Some((packet[0], vstd::slice::slice_subrange(packet, 2, packet.len())))
    }
}

/// Fills the two header bytes of a bulk IN response: the request's sync byte and the status.
pub fn write_response_header(buf: &mut [u8], sync: u8, status: u8)
    requires
        old(buf)@.len() >= 2,
    ensures
        final(buf)@ == old(buf)@.update(0, sync).update(1, status),
{
    buf[0] = sync;
    buf[1] = status;
}

} // verus!
