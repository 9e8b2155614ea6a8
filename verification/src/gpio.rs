use vstd::prelude::*;
use crate::buf::Writer;

verus! {

/// The commands of the GPIO pin protocol.
#[derive(Clone, Copy, PartialEq, Eq, Debug, Structural)]
pub enum PinCommand {
    Float,
    Read,
    Low,
    High,
    Unknown,
}

/// What a pin command does to the pin.
#[derive(Clone, Copy, PartialEq, Eq, Debug, Structural)]
pub enum PinAction {
    /// Stop driving the pin.
    Float,
    /// Sample the pin and report its level.
    Sample,
    /// Set the output low, then drive it.
    DriveLow,
    /// Set the output high, then drive it.
    DriveHigh,
}

/// The action of a GPIO pin command; unknown commands are refused.
pub fn pin_action(cmd: PinCommand) -> (r: Result<PinAction, ()>)
    ensures
        cmd == PinCommand::Float ==> r == Ok::<PinAction, ()>(PinAction::Float),
        cmd == PinCommand::Read ==> r == Ok::<PinAction, ()>(PinAction::Sample),
        cmd == PinCommand::Low ==> r == Ok::<PinAction, ()>(PinAction::DriveLow),
        cmd == PinCommand::High ==> r == Ok::<PinAction, ()>(PinAction::DriveHigh),
        cmd == PinCommand::Unknown ==> r is Err,
{
    match cmd {
        PinCommand::Float => Ok(PinAction::Float),
        PinCommand::Read => Ok(PinAction::Sample),
        PinCommand::Low => Ok(PinAction::DriveLow),
        PinCommand::High => Ok(PinAction::DriveHigh),
        PinCommand::Unknown => Err(()),
    }
}

/// Reports a sampled pin level as one response byte: 1 for high, 0 for low.
pub fn report_level(level: bool, res: &mut Writer) -> (r: Result<(), ()>)
    ensures
        old(res).pos() < old(res).contents().len() ==> r is Ok && final(res).pos() == old(res).pos() + 1
            && final(res).contents() == old(res).contents().update(old(res).pos() as int, if level { 1u8 } else { 0u8 }),
        old(res).pos() >= old(res).contents().len() ==> r is Err && final(res).pos() == old(res).pos()
            && final(res).contents() == old(res).contents(),
{
    let byte: u8 = if level { 0x01 } else { 0x00 };
    res.put(byte)
}

/// The commands of the binary LED protocol.
#[derive(Clone, Copy, PartialEq, Eq, Debug, Structural)]
pub enum LedCommand {
    Off,
    On,
    Unknown,
}

/// The output level that lights an LED wired active-high (`active`) or active-low.
pub open spec fn led_level_spec(active: bool, on: bool) -> bool {
    on == active
}

/// The output level an LED starts at when its mode is set up: lit.
pub fn led_init_level(active: bool) -> (r: bool)
    ensures
        r == led_level_spec(active, true),
{
    active
}

/// The output level an LED command asks for; unknown commands are refused.
pub fn led_command(active: bool, cmd: LedCommand) -> (r: Result<bool, ()>)
    ensures
        cmd == LedCommand::On ==> r == Ok::<bool, ()>(led_level_spec(active, true)),
        cmd == LedCommand::Off ==> r == Ok::<bool, ()>(led_level_spec(active, false)),
        cmd == LedCommand::Unknown ==> r is Err,
{
    match cmd {
        LedCommand::Off => Ok(!active),
        LedCommand::On => Ok(active),
        LedCommand::Unknown => Err(()),
    }
}

/// The commands of the level-interrupt protocol.
#[derive(Clone, Copy, PartialEq, Eq, Debug, Structural)]
pub enum LevelCommand {
    WaitLow,
    WaitHigh,
    EventLow,
    EventHigh,
    Unknown,
}

/// What a level-interrupt command asks of the interrupt controller: the level to sense
/// (`true` for high), and whether to wait for it now or report it later as an event.
#[derive(Clone, Copy, PartialEq, Eq, Debug, Structural)]
pub struct LevelRequest {
    pub high: bool,
    pub wait: bool,
}

/// What an interrupt channel of the SAM D external interrupt controller is used for.
#[derive(Clone, Copy, PartialEq, Eq, Debug, Structural)]
pub enum EventWatch {
    /// No resource holds the channel.
    Free,
    /// A resource holds the channel but waits for nothing.
    Idle,
    /// The channel reports reaching this level (`true` for high) as an event of this resource.
    Level(bool, u8),
}

/// The channels of the SAM D external interrupt controller.
pub struct EicChannels {
    watch: Vec<EventWatch>,
}

/// The channels the controller has.
pub const EIC_CHANNELS: usize = 16;

/// What an interrupt does: the events to send, `(resource, high)`, and the channels whose
/// interrupt must be enabled again.
pub struct InterruptOutcome {
    pub events: Vec<(u8, bool)>,
    pub rearm: Vec<u8>,
}

/// Events raised by an interrupt with pending `flags`: each channel watching a level whose
/// flag is set reports it, in channel order.
pub open spec fn raised_events(watch: Seq<EventWatch>, flags: u16) -> Seq<(u8, bool)>
    decreases watch.len(),
{
    if watch.len() == 0 {
        Seq::empty()
    } else {
        let ch = watch.len() - 1;
        raised_events(watch.drop_last(), flags) + match watch.last() {
            EventWatch::Level(level, res) => if (flags as int / pow2(ch as nat)) % 2 == 1 {
                seq![(res, level)]
            } else {
                Seq::empty()
            },
            _ => Seq::empty(),
        }
    }
}

/// Channels still waiting for their level after an interrupt with pending `flags`.
pub open spec fn rearmed_channels(watch: Seq<EventWatch>, flags: u16) -> Seq<u8>
    decreases watch.len(),
{
    if watch.len() == 0 {
        Seq::empty()
    } else {
        let ch = watch.len() - 1;
        rearmed_channels(watch.drop_last(), flags) + match watch.last() {
            EventWatch::Level(_, _) => if (flags as int / pow2(ch as nat)) % 2 == 1 {
                Seq::empty()
            } else {
                seq![ch as u8]
            },
            _ => Seq::empty(),
        }
    }
}

pub open spec fn pow2(n: nat) -> int
    decreases n,
{
    if n == 0 {
        1
    } else {
        2 * pow2((n - 1) as nat)
    }
}

/// The channel states after an interrupt with pending `flags`: a channel whose level was
/// reached returns to `Idle`.
pub open spec fn after_interrupt(watch: Seq<EventWatch>, flags: u16) -> Seq<EventWatch> {
    Seq::new(watch.len(), |ch: int| match watch[ch] {
        EventWatch::Level(_, _) => if (flags as int / pow2(ch as nat)) % 2 == 1 {
            EventWatch::Idle
        } else {
            watch[ch]
        },
        w => w,
    })
}

fn flag_set(flags: u16, ch: usize) -> (r: bool)
    requires
        ch < 16,
    ensures
        r == ((flags as int / pow2(ch as nat)) % 2 == 1),
{
    let c = ch as u16;
    let bit = (flags >> c) & 1u16;
    assert(bit == (flags >> c) % 2) by (bit_vector)
        requires
            bit == (flags >> c) & 1u16,
    ;
    proof {
        lemma_shift_is_div(flags, c);
    }
    bit == 1
}

#[verifier::spinoff_prover]
proof fn lemma_shift_is_div(x: u16, c: u16)
    requires
        c < 16,
    ensures
        (x >> c) as int == x as int / pow2(c as nat),
    decreases c,
{
    if c == 0 {
        assert(x >> 0u16 == x) by (bit_vector);
    } else {
        lemma_shift_is_div(x, (c - 1) as u16);
        let cm = (c - 1) as u16;
        assert(x >> c == (x >> cm) / 2) by (bit_vector)
            requires
                c == cm + 1,
                c < 16,
        ;
        assert(pow2(c as nat) == 2 * pow2(cm as nat));
        assert(pow2(cm as nat) > 0) by {
            lemma_pow2_pos(cm as nat);
        }
        assert((x as int / pow2(cm as nat)) / 2 == x as int / (2 * pow2(cm as nat))) by {
            vstd::arithmetic::div_mod::lemma_div_denominator(x as int, pow2(cm as nat), 2);
        }
        assert((x >> c) as int == (x >> cm) as int / 2);
        assert((x >> c) as int == x as int / pow2(c as nat));
    }
}

proof fn lemma_pow2_pos(n: nat)
    ensures
        pow2(n) > 0,
    decreases n,
{
    if n > 0 {
        lemma_pow2_pos((n - 1) as nat);
    }
}

impl EicChannels {
    pub closed spec fn channels(&self) -> Seq<EventWatch> {
        self.watch@
    }

    #[verifier::type_invariant]
    closed spec fn wf(&self) -> bool {
        self.watch@.len() == EIC_CHANNELS
    }

    /// Sets what channel `ch` watches.
    fn set_watch(&mut self, ch: usize, w: EventWatch)
        requires
            ch < EIC_CHANNELS,
        ensures
            final(self).channels() == old(self).channels().update(ch as int, w),
    {
        proof {
            use_type_invariant(&*self);
        }
        let mut this = EicChannels { watch: vec![EventWatch::Free; EIC_CHANNELS] };
        core::mem::swap(&mut this, self);
        let EicChannels { mut watch } = this;
        watch.set(ch, w);
        *self = EicChannels { watch };
    }

    /// All channels free.
    pub fn new() -> (r: EicChannels)
        ensures
            r.channels().len() == EIC_CHANNELS,
            r.channels() == Seq::new(EIC_CHANNELS as nat, |i: int| EventWatch::Free),
    {
        let mut watch: Vec<EventWatch> = Vec::new();
        let mut i: usize = 0;
        while i < EIC_CHANNELS
            invariant
                0 <= i <= EIC_CHANNELS,
                watch@ == Seq::new(i as nat, |k: int| EventWatch::Free),
            decreases EIC_CHANNELS - i,
        {
            watch.push(EventWatch::Free);
            i = i + 1;
            assert(watch@ =~= Seq::new(i as nat, |k: int| EventWatch::Free));
        }
        EicChannels { watch }
    }

    /// A level-interrupt resource takes channel `ch`; a channel already held is refused.
    pub fn claim(&mut self, ch: u8) -> (r: Result<(), ()>)
        requires
            ch < EIC_CHANNELS,
        ensures
            old(self).channels().len() == EIC_CHANNELS,
            final(self).channels().len() == EIC_CHANNELS,
            old(self).channels()[ch as int] == EventWatch::Free ==> r is Ok && final(self).channels()
                == old(self).channels().update(ch as int, EventWatch::Idle),
            old(self).channels()[ch as int] != EventWatch::Free ==> r is Err && final(self).channels()
                == old(self).channels(),
    {
        proof {
            use_type_invariant(&*self);
        }
        if self.watch[ch as usize] != EventWatch::Free {
            return Err(());
        }
        self.set_watch(ch as usize, EventWatch::Idle);
        Ok(())
    }

    /// The resource gives channel `ch` back.
    pub fn release(&mut self, ch: u8)
        requires
            ch < EIC_CHANNELS,
        ensures
            old(self).channels().len() == EIC_CHANNELS,
            final(self).channels().len() == EIC_CHANNELS,
            final(self).channels() == old(self).channels().update(ch as int, EventWatch::Free),
    {
        proof {
            use_type_invariant(&*self);
        }
        self.set_watch(ch as usize, EventWatch::Free);
    }

    /// A level-interrupt command of `resource` on channel `ch`: the two wait commands sense
    /// the level and wait for it; the two event commands sense it and arm the channel to
    /// report it as an event. Unknown commands are refused.
    pub fn level_command(&mut self, ch: u8, resource: u8, cmd: LevelCommand) -> (r: Result<LevelRequest, ()>)
        requires
            ch < EIC_CHANNELS,
        ensures
            old(self).channels().len() == EIC_CHANNELS,
            final(self).channels().len() == EIC_CHANNELS,
            cmd == LevelCommand::WaitLow ==> r == Ok::<LevelRequest, ()>(LevelRequest { high: false, wait: true })
                && final(self).channels() == old(self).channels(),
            cmd == LevelCommand::WaitHigh ==> r == Ok::<LevelRequest, ()>(LevelRequest { high: true, wait: true })
                && final(self).channels() == old(self).channels(),
            cmd == LevelCommand::EventLow ==> r == Ok::<LevelRequest, ()>(LevelRequest { high: false, wait: false })
                && final(self).channels() == old(self).channels().update(ch as int, EventWatch::Level(false, resource)),
            cmd == LevelCommand::EventHigh ==> r == Ok::<LevelRequest, ()>(LevelRequest { high: true, wait: false })
                && final(self).channels() == old(self).channels().update(ch as int, EventWatch::Level(true, resource)),
            cmd == LevelCommand::Unknown ==> r is Err && final(self).channels() == old(self).channels(),
    {
        proof {
            use_type_invariant(&*self);
        }
        match cmd {
            LevelCommand::WaitLow => Ok(LevelRequest { high: false, wait: true }),
            LevelCommand::WaitHigh => Ok(LevelRequest { high: true, wait: true }),
            LevelCommand::EventLow => {
                self.set_watch(ch as usize, EventWatch::Level(false, resource));
                Ok(LevelRequest { high: false, wait: false })
            },
            LevelCommand::EventHigh => {
                self.set_watch(ch as usize, EventWatch::Level(true, resource));
                Ok(LevelRequest { high: true, wait: false })
            },
            LevelCommand::Unknown => Err(()),
        }
    }

    /// Handles an interrupt with pending channel `flags`: each channel watching a level
    /// whose flag is set reports its event and goes back to `Idle`; each one whose flag is
    /// clear is re-armed.
    pub fn interrupt(&mut self, flags: u16) -> (r: InterruptOutcome)
        requires
        ensures
            old(self).channels().len() == EIC_CHANNELS,
            final(self).channels().len() == EIC_CHANNELS,
            final(self).channels() == after_interrupt(old(self).channels(), flags),
            r.events@ == raised_events(old(self).channels(), flags),
            r.rearm@ == rearmed_channels(old(self).channels(), flags),
    {
        proof {
            use_type_invariant(&*self);
        }
        let ghost before = self.watch@;
        let mut events: Vec<(u8, bool)> = Vec::new();
        let mut rearm: Vec<u8> = Vec::new();
        let mut ch: usize = 0;
        while ch < EIC_CHANNELS
            invariant
                before.len() == EIC_CHANNELS,
                self.watch@.len() == EIC_CHANNELS,
                0 <= ch <= EIC_CHANNELS,
                events@ == raised_events(before.take(ch as int), flags),
                rearm@ == rearmed_channels(before.take(ch as int), flags),
                forall|k: int| 0 <= k < ch ==> self.watch@[k] == after_interrupt(before, flags)[k],
                forall|k: int| ch <= k < EIC_CHANNELS ==> self.watch@[k] == before[k],
            decreases EIC_CHANNELS - ch,
        {
            proof {
                assert(before.take(ch + 1).drop_last() =~= before.take(ch as int));
                assert(before.take(ch + 1).last() == before[ch as int]);
            }
            match self.watch[ch] {
                EventWatch::Level(level, res) => {
                    if flag_set(flags, ch) {
                        events.push((res, level));
                        self.set_watch(ch, EventWatch::Idle);
                    } else {
                        rearm.push(ch as u8);
                    }
                },
                _ => {},
            }
            ch = ch + 1;
        }
        proof {
            assert(before.take(EIC_CHANNELS as int) =~= before);
            assert(self.watch@ =~= after_interrupt(before, flags));
        }
        InterruptOutcome { events, rearm }
    }
}

/// Law: an armed channel reports its level exactly once: the interrupt that finds its flag
/// set raises its event and returns it to `Idle`, so a later interrupt raises nothing for it.
pub proof fn law_event_reported_once(watch: Seq<EventWatch>, flags: u16, ch: int)
    requires
        0 <= ch < watch.len(),
        watch[ch] is Level,
        (flags as int / pow2(ch as nat)) % 2 == 1,
    ensures
        after_interrupt(watch, flags)[ch] == EventWatch::Idle,
        after_interrupt(after_interrupt(watch, flags), flags)[ch] == EventWatch::Idle,
{
}

/// Law: an interrupt reports every armed channel whose flag is set, and nothing else: for
/// each channel watching a level whose flag is set, the events hold its `(resource, level)`
/// and the channel goes back to `Idle`; every event comes from such a channel; and there are
/// exactly as many events as such channels, so each is reported once.
pub proof fn law_interrupt_reports_raised_channels(watch: Seq<EventWatch>, flags: u16)
    ensures
        forall|ch: int|
            0 <= ch < watch.len() && (#[trigger] watch[ch]) is Level && (flags as int / pow2(ch as nat)) % 2 == 1
                ==> {
                &&& raised_events(watch, flags).contains((watch[ch]->1, watch[ch]->0))
                &&& after_interrupt(watch, flags)[ch] == EventWatch::Idle
            },
        forall|i: int|
            #![trigger raised_events(watch, flags)[i]]
            0 <= i < raised_events(watch, flags).len() ==> exists|ch: int|
                0 <= ch < watch.len() && #[trigger] watch[ch] == EventWatch::Level(
                    raised_events(watch, flags)[i].1,
                    raised_events(watch, flags)[i].0,
                ) && (flags as int / pow2(ch as nat)) % 2 == 1,
        raised_events(watch, flags).len() == raised_count(watch, flags),
    decreases watch.len(),
{
    if watch.len() > 0 {
        let w = watch.drop_last();
        let n = watch.len() - 1;
        law_interrupt_reports_raised_channels(w, flags);
        let prev = raised_events(w, flags);
        let ev = raised_events(watch, flags);
        assert forall|ch: int|
            0 <= ch < watch.len() && (#[trigger] watch[ch]) is Level && (flags as int / pow2(ch as nat)) % 2 == 1
            implies ev.contains((watch[ch]->1, watch[ch]->0)) by {
            let e = (watch[ch]->1, watch[ch]->0);
            if ch < n {
                assert(w[ch] == watch[ch]);
                let k = choose|k: int| 0 <= k < prev.len() && prev[k] == e;
                assert(ev[k] == e);
            } else {
                assert(ev[ev.len() - 1] == e);
            }
        }
        assert forall|i: int| #![trigger ev[i]] 0 <= i < ev.len() implies exists|ch: int|
            0 <= ch < watch.len() && #[trigger] watch[ch] == EventWatch::Level(ev[i].1, ev[i].0) && (
            flags as int / pow2(ch as nat)) % 2 == 1 by {
            if i < prev.len() {
                assert(ev[i] == prev[i]);
                let ch = choose|ch: int|
                    0 <= ch < w.len() && #[trigger] w[ch] == EventWatch::Level(prev[i].1, prev[i].0) && (
                    flags as int / pow2(ch as nat)) % 2 == 1;
                assert(watch[ch] == w[ch]);
            } else {
                assert(watch[n] == EventWatch::Level(ev[i].1, ev[i].0));
            }
        }
    }
}

/// The number of channels watching a level whose flag is set.
pub open spec fn raised_count(watch: Seq<EventWatch>, flags: u16) -> nat
    decreases watch.len(),
{
    if watch.len() == 0 {
        0
    } else {
        let ch = watch.len() - 1;
        raised_count(watch.drop_last(), flags) + match watch.last() {
            EventWatch::Level(_, _) => if (flags as int / pow2(ch as nat)) % 2 == 1 { 1nat } else { 0nat },
            _ => 0nat,
        }
    }
}

/// Where the sense setting of channel `ch` lives: the `CONFIG` register (channels 0-7 in
/// the first, 8-15 in the second) and the field within it (the channel's low three bits).
pub fn eic_sense_slot(ch: u8) -> (r: (usize, u8))
    ensures
        r.0 == (if ch > 7 { 1usize } else { 0usize }),
        r.1 == ch % 8,
{
    let field = ch & 0x07u8;
    assert(field == ch % 8) by (bit_vector)
        requires
            field == ch & 0x07u8,
    ;
    (if ch > 7 { 1 } else { 0 }, field)
}

/// Bit `ch` of a 32-bit register: an interrupt channel's flag and enable bit, or a port
/// pin's bit in the port registers.
pub fn bit_mask(ch: u8) -> (r: u32)
    requires
        ch < 32,
    ensures
        r as int == pow2(ch as nat),
{
    let r: u32 = 1u32 << (ch as u32);
    proof {
        lemma_one_shl(ch as u32);
    }
    r
}

/// The level of pin `num` in a port register's value (`IN`, `OUT` or `DIR`): its bit.
pub fn pin_level(bits: u32, num: u8) -> (r: bool)
    requires
        num < 32,
    ensures
        r == ((bits as int / pow2(num as nat)) % 2 == 1),
{
    let c = num as u32;
    let bit = (bits >> c) & 1u32;
    assert(bit == (bits >> c) % 2) by (bit_vector)
        requires
            bit == (bits >> c) & 1u32,
    ;
    proof {
        lemma_shift_is_div_u32(bits, c);
    }
    bit == 1
}

#[verifier::spinoff_prover]
proof fn lemma_shift_is_div_u32(x: u32, c: u32)
    requires
        c < 32,
    ensures
        (x >> c) as int == x as int / pow2(c as nat),
    decreases c,
{
    if c == 0 {
        assert(x >> 0u32 == x) by (bit_vector);
    } else {
        let cm = (c - 1) as u32;
        lemma_shift_is_div_u32(x, cm);
        assert(x >> c == (x >> cm) / 2) by (bit_vector)
            requires
                c == cm + 1,
                c < 32,
        ;
        assert(pow2(c as nat) == 2 * pow2(cm as nat));
        assert(pow2(cm as nat) > 0) by {
            lemma_pow2_pos(cm as nat);
        }
        assert((x as int / pow2(cm as nat)) / 2 == x as int / (2 * pow2(cm as nat))) by {
            vstd::arithmetic::div_mod::lemma_div_denominator(x as int, pow2(cm as nat), 2);
        }
        assert((x >> c) as int == (x >> cm) as int / 2);
        assert((x >> c) as int == x as int / pow2(c as nat));
    }
}

/// The I/O port groups of the SAM D chips.
#[derive(Clone, Copy, PartialEq, Eq, Debug, Structural)]
pub enum PortGroup {
    A,
    B,
}

/// Index of a port group's register block among the port's blocks.
pub fn port_group_offset(group: PortGroup) -> (r: usize)
    ensures
        group == PortGroup::A ==> r == 0,
        group == PortGroup::B ==> r == 1,
{
    match group {
        PortGroup::A => 0,
        PortGroup::B => 1,
    }
}

proof fn lemma_one_shl(c: u32)
    requires
        c < 32,
    ensures
        (1u32 << c) as int == pow2(c as nat),
    decreases c,
{
    if c == 0 {
        assert(1u32 << 0u32 == 1u32) by (bit_vector);
    } else {
        let d = (c - 1) as u32;
        lemma_one_shl(d);
        assert((1u32 << c) as int == 2 * (1u32 << d) as int) by (bit_vector)
            requires
                c == d + 1,
                c < 32,
        ;
    }
}

/// What an RP2040 pin's level interrupt watches for: nothing, or a low or high level to
/// report as an event of a resource.
#[derive(Clone, Copy, PartialEq, Eq, Debug, Structural)]
pub enum PinWatch {
    Off,
    Low(u8),
    High(u8),
}

/// What polling a watched pin gives: an event `(resource, high)` with the watch cleared, or
/// the level interrupt to enable again (`true` for high) while waiting.
#[derive(Clone, Copy, PartialEq, Eq, Debug, Structural)]
pub enum PinPoll {
    Nothing,
    Event(u8, bool),
    Rearm(bool),
}

/// Bank-0 pins of the RP2040 that can watch a level.
pub const RP_PINS: usize = 30;

/// The level watches of the RP2040's bank-0 pins.
pub struct PinWatches {
    watch: Vec<PinWatch>,
}

impl PinWatches {
    pub closed spec fn pins(&self) -> Seq<PinWatch> {
        self.watch@
    }

    #[verifier::type_invariant]
    closed spec fn wf(&self) -> bool {
        self.watch@.len() == RP_PINS
    }

    /// Sets what `pin` watches.
    fn set_watch(&mut self, pin: usize, w: PinWatch)
        requires
            pin < RP_PINS,
        ensures
            final(self).pins() == old(self).pins().update(pin as int, w),
    {
        proof {
            use_type_invariant(&*self);
        }
        let mut this = PinWatches { watch: vec![PinWatch::Off; RP_PINS] };
        core::mem::swap(&mut this, self);
        let PinWatches { mut watch } = this;
        watch.set(pin, w);
        *self = PinWatches { watch };
    }

    pub fn new() -> (r: PinWatches)
        ensures
            r.pins().len() == RP_PINS,
            r.pins() == Seq::new(RP_PINS as nat, |i: int| PinWatch::Off),
    {
        let mut watch: Vec<PinWatch> = Vec::new();
        let mut i: usize = 0;
        while i < RP_PINS
            invariant
                0 <= i <= RP_PINS,
                watch@ == Seq::new(i as nat, |k: int| PinWatch::Off),
            decreases RP_PINS - i,
        {
            watch.push(PinWatch::Off);
            i = i + 1;
            assert(watch@ =~= Seq::new(i as nat, |k: int| PinWatch::Off));
        }
        PinWatches { watch }
    }

    /// A level-interrupt command of `resource` on `pin`: the wait commands wait for the
    /// level at once; the event commands set the pin's watch (and wake the polling task).
    pub fn level_command(&mut self, pin: u8, resource: u8, cmd: LevelCommand) -> (r: Result<LevelRequest, ()>)
        requires
            pin < RP_PINS,
        ensures
            old(self).pins().len() == RP_PINS,
            final(self).pins().len() == RP_PINS,
            cmd == LevelCommand::WaitLow ==> r == Ok::<LevelRequest, ()>(LevelRequest { high: false, wait: true })
                && final(self).pins() == old(self).pins(),
            cmd == LevelCommand::WaitHigh ==> r == Ok::<LevelRequest, ()>(LevelRequest { high: true, wait: true })
                && final(self).pins() == old(self).pins(),
            cmd == LevelCommand::EventLow ==> r == Ok::<LevelRequest, ()>(LevelRequest { high: false, wait: false })
                && final(self).pins() == old(self).pins().update(pin as int, PinWatch::Low(resource)),
            cmd == LevelCommand::EventHigh ==> r == Ok::<LevelRequest, ()>(LevelRequest { high: true, wait: false })
                && final(self).pins() == old(self).pins().update(pin as int, PinWatch::High(resource)),
            cmd == LevelCommand::Unknown ==> r is Err && final(self).pins() == old(self).pins(),
    {
        proof {
            use_type_invariant(&*self);
        }
        match cmd {
            LevelCommand::WaitLow => Ok(LevelRequest { high: false, wait: true }),
            LevelCommand::WaitHigh => Ok(LevelRequest { high: true, wait: true }),
            LevelCommand::EventLow => {
                self.set_watch(pin as usize, PinWatch::Low(resource));
                Ok(LevelRequest { high: false, wait: false })
            },
            LevelCommand::EventHigh => {
                self.set_watch(pin as usize, PinWatch::High(resource));
                Ok(LevelRequest { high: true, wait: false })
            },
            LevelCommand::Unknown => Err(()),
        }
    }

    /// The resource on `pin` is shut down: its watch is cleared.
    pub fn release(&mut self, pin: u8)
        requires
            pin < RP_PINS,
        ensures
            old(self).pins().len() == RP_PINS,
            final(self).pins().len() == RP_PINS,
            final(self).pins() == old(self).pins().update(pin as int, PinWatch::Off),
    {
        proof {
            use_type_invariant(&*self);
        }
        self.set_watch(pin as usize, PinWatch::Off);
    }

    /// Polls `pin` with the interrupt status read from it (`low` and `high` levels seen): a
    /// watched level that was seen is reported and the watch cleared; otherwise the level
    /// interrupt is enabled again.
    pub fn poll(&mut self, pin: u8, low: bool, high: bool) -> (r: PinPoll)
        requires
            pin < RP_PINS,
        ensures
            old(self).pins().len() == RP_PINS,
            final(self).pins().len() == RP_PINS,
            match old(self).pins()[pin as int] {
                PinWatch::Off => r == PinPoll::Nothing && final(self).pins() == old(self).pins(),
                PinWatch::Low(res) => if low {
                    r == PinPoll::Event(res, false) && final(self).pins() == old(self).pins().update(pin as int, PinWatch::Off)
                } else {
                    r == PinPoll::Rearm(false) && final(self).pins() == old(self).pins()
                },
                PinWatch::High(res) => if high {
                    r == PinPoll::Event(res, true) && final(self).pins() == old(self).pins().update(pin as int, PinWatch::Off)
                } else {
                    r == PinPoll::Rearm(true) && final(self).pins() == old(self).pins()
                },
            },
    {
        proof {
            use_type_invariant(&*self);
        }
        match self.watch[pin as usize] {
            PinWatch::Off => PinPoll::Nothing,
            PinWatch::Low(res) => {
                if low {
                    self.set_watch(pin as usize, PinWatch::Off);
                    PinPoll::Event(res, false)
                } else {
                    PinPoll::Rearm(false)
                }
            },
            PinWatch::High(res) => {
                if high {
                    self.set_watch(pin as usize, PinWatch::Off);
                    PinPoll::Event(res, true)
                } else {
                    PinPoll::Rearm(true)
                }
            },
        }
    }
}

} // verus!
