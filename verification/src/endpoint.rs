use vstd::prelude::*;

verus! {

/// Maximum packet size of an endpoint bank, as the hardware codes it.
#[derive(Clone, Copy, Debug, PartialEq, Eq, PartialOrd, Ord, Structural)]
pub enum PacketSize {
    Size8,
    Size16,
    Size32,
    Size64,
    Size128,
    Size256,
    Size512,
    Size1023,
}

impl PacketSize {
    /// The 3-bit code the hardware uses for this size.
    pub open spec fn code_spec(self) -> u8 {
        match self {
            PacketSize::Size8 => 0,
            PacketSize::Size16 => 1,
            PacketSize::Size32 => 2,
            PacketSize::Size64 => 3,
            PacketSize::Size128 => 4,
            PacketSize::Size256 => 5,
            PacketSize::Size512 => 6,
            PacketSize::Size1023 => 7,
        }
    }

    /// The packet size in bytes.
    pub open spec fn value_spec(self) -> nat {
        match self {
            PacketSize::Size8 => 8,
            PacketSize::Size16 => 16,
            PacketSize::Size32 => 32,
            PacketSize::Size64 => 64,
            PacketSize::Size128 => 128,
            PacketSize::Size256 => 256,
            PacketSize::Size512 => 512,
            PacketSize::Size1023 => 1023,
        }
    }

    /// `1 << (code + 3)`: the unit that a multi-packet OUT transfer length must be a multiple of.
    pub open spec fn unit(self) -> nat {
        match self {
            PacketSize::Size8 => 8,
            PacketSize::Size16 => 16,
            PacketSize::Size32 => 32,
            PacketSize::Size64 => 64,
            PacketSize::Size128 => 128,
            PacketSize::Size256 => 256,
            PacketSize::Size512 => 512,
            PacketSize::Size1023 => 1024,
        }
    }

    pub fn code(self) -> (r: u8)
        ensures
            r == self.code_spec(),
    {
        match self {
            PacketSize::Size8 => 0,
            PacketSize::Size16 => 1,
            PacketSize::Size32 => 2,
            PacketSize::Size64 => 3,
            PacketSize::Size128 => 4,
            PacketSize::Size256 => 5,
            PacketSize::Size512 => 6,
            PacketSize::Size1023 => 7,
        }
    }

    pub fn value(self) -> (r: usize)
        ensures
            r == self.value_spec(),
    {
        match self {
            PacketSize::Size8 => 8,
            PacketSize::Size16 => 16,
            PacketSize::Size32 => 32,
            PacketSize::Size64 => 64,
            PacketSize::Size128 => 128,
            PacketSize::Size256 => 256,
            PacketSize::Size512 => 512,
            PacketSize::Size1023 => 1023,
        }
    }
}

/// `PCKSIZE` word for an OUT transfer: the expected length in the multi-packet field
/// (bits 14..28), the size code in bits 28..31, byte count zero.
pub open spec fn pcksize_out(ps: PacketSize, len: nat) -> nat {
    len * 0x4000 + (ps.code_spec() as nat) * 0x1000_0000
}

/// `PCKSIZE` word for an IN transfer: the byte count in bits 0..14, the size code in bits
/// 28..31 and the automatic zero-length packet flag in bit 31.
pub open spec fn pcksize_in(ps: PacketSize, len: nat, zlp: bool) -> nat {
    len + (ps.code_spec() as nat) * 0x1000_0000 + (if zlp { 0x8000_0000nat } else { 0nat })
}

/// The byte count field (bits 0..14) of a `PCKSIZE` word.
pub open spec fn byte_count(pcksize: u32) -> nat {
    (pcksize % 0x4000) as nat
}

/// Per-endpoint data descriptor read by the USB hardware: the buffer address and the
/// packet-size word.
pub struct EndpointBank {
    addr: usize,
    pcksize: u32,
}

impl EndpointBank {
    pub closed spec fn address(&self) -> usize {
        self.addr
    }

    pub closed spec fn pcksize_word(&self) -> u32 {
        self.pcksize
    }

    /// A bank with no buffer and a zero packet-size word.
    pub fn new() -> (r: EndpointBank)
        ensures
            r.address() == 0,
            r.pcksize_word() == 0,
    {
        EndpointBank { addr: 0, pcksize: 0 }
    }

    /// Hands the hardware a buffer of `len` bytes to receive into; `len` must be a multiple
    /// of the packet unit and below 2^14.
    pub fn prepare_out(&mut self, packet_size: PacketSize, addr: usize, len: usize)
        requires
            (len as nat) % packet_size.unit() == 0,
            len < 0x4000,
        ensures
            final(self).address() == addr,
            final(self).pcksize_word() == pcksize_out(packet_size, len as nat),
    {
        let code = packet_size.code() as u32;
        let l = len as u32;
        let w: u32 = (l << 14u32) | (code << 28u32);
        assert(w == l * 0x4000 + code * 0x1000_0000) by (bit_vector)
            requires
                l < 0x4000,
                code < 8,
                w == (l << 14u32) | (code << 28u32),
        ;
        self.addr = addr;
        self.pcksize = w;
    }

    /// The number of bytes the hardware received into this bank.
    pub fn out_len(&self) -> (r: usize)
        ensures
            r == byte_count(self.pcksize_word()),
    {
        let p = self.pcksize;
        let c = p & 0x3fffu32;
        assert(c == p % 0x4000) by (bit_vector)
            requires
                c == p & 0x3fffu32,
        ;
        c as usize
    }

    /// Hands the hardware `len` bytes to send, with or without an automatic zero-length
    /// packet; `len` must be below 2^14.
    pub fn prepare_in(&mut self, packet_size: PacketSize, addr: usize, len: usize, zlp: bool)
        requires
            len < 0x4000,
        ensures
            final(self).address() == addr,
            final(self).pcksize_word() == pcksize_in(packet_size, len as nat, zlp),
    {
        let code = packet_size.code() as u32;
        let l = len as u32;
        let z: u32 = if zlp { 1 } else { 0 };
        let w: u32 = l | (code << 28u32) | (z << 31u32);
        assert(w == l + code * 0x1000_0000 + z * 0x8000_0000) by (bit_vector)
            requires
                l < 0x4000,
                code < 8,
                z < 2,
                w == l | (code << 28u32) | (z << 31u32),
        ;
        self.addr = addr;
        self.pcksize = w;
    }
}

/// Law: a bank prepared for OUT starts with a zero byte count and carries the expected
/// length in its multi-packet field; a bank prepared for IN reports the length it was given
/// as its byte count.
pub proof fn law_pcksize_fields(ps: PacketSize, len: nat, zlp: bool)
    requires
        len < 0x4000,
    ensures
        pcksize_out(ps, len) % 0x4000 == 0,
        (pcksize_out(ps, len) / 0x4000) % 0x4000 == len,
        pcksize_in(ps, len, zlp) % 0x4000 == len,
        (pcksize_in(ps, len, zlp) / 0x1000_0000) % 8 == ps.code_spec(),
{
    let c = ps.code_spec() as nat;
    let z: nat = if zlp { 1 } else { 0 };
    assert(pcksize_out(ps, len) == len * 0x4000 + c * 0x1000_0000);
    assert((len * 0x4000 + c * 0x1000_0000) % 0x4000 == 0) by (nonlinear_arith);
    assert((len * 0x4000 + c * 0x1000_0000) / 0x4000 == len + c * 0x4000) by (nonlinear_arith);
    assert((len + c * 0x4000) % 0x4000 == len) by (nonlinear_arith)
        requires
            len < 0x4000,
    ;
    assert(pcksize_in(ps, len, zlp) == len + c * 0x1000_0000 + z * 0x8000_0000);
    assert((len + c * 0x1000_0000 + z * 0x8000_0000) % 0x4000 == len) by (nonlinear_arith)
        requires
            len < 0x4000,
    ;
    assert((len + c * 0x1000_0000 + z * 0x8000_0000) / 0x1000_0000 == c + z * 8) by (nonlinear_arith)
        requires
            len < 0x4000,
            c < 8,
    ;
    assert((c + z * 8) % 8 == c) by (nonlinear_arith)
        requires
            c < 8,
    ;
}

/// Law: the byte count [`EndpointBank::out_len`] reads back is the length a bank was
/// prepared with for IN, whatever the packet size and zero-length-packet flag, and zero for
/// a bank just prepared for OUT: the packet-size word fits in 32 bits and its other fields
/// leave the byte count alone.
pub proof fn law_out_len_after_prepare(ps: PacketSize, len: nat, zlp: bool)
    requires
        len < 0x4000,
    ensures
        pcksize_in(ps, len, zlp) < 0x1_0000_0000,
        byte_count(pcksize_in(ps, len, zlp) as u32) == len,
        pcksize_out(ps, len) < 0x1_0000_0000,
        byte_count(pcksize_out(ps, len) as u32) == 0,
{
    law_pcksize_fields(ps, len, zlp);
    let c = ps.code_spec() as nat;
    assert(c < 8);
    assert(len * 0x4000 < 0x1000_0000) by (nonlinear_arith)
        requires
            len < 0x4000,
    ;
    assert(c * 0x1000_0000 <= 0x7000_0000) by (nonlinear_arith)
        requires
            c < 8,
    ;
}

/// Offset of an endpoint's register block from the start of the USB device registers.
pub fn ep_register_offset(ep: u8) -> (r: usize)
    requires
        ep < 8,
    ensures
        r == 0x100 + 0x20 * ep,
{
    0x100 + 0x20 * (ep as usize)
}

/// Index of the bank of endpoint address `ep` among the 16 banks: two per endpoint
/// number (the low three bits), OUT first, IN (address bit 7) second.
pub open spec fn bank_index(ep: u8) -> int {
    (ep % 8) as int * 2 + (ep / 128) as int
}

/// The device's endpoint descriptor RAM and its attachment to the bus.
pub struct Usb {
    banks: Vec<EndpointBank>,
    ep_types: Vec<(u8, u8)>,
    stall_requests: Vec<(bool, bool)>,
    attached: bool,
}

pub const ENDPOINT_BANKS: usize = 16;

/// The endpoint numbers the device has.
pub const ENDPOINTS: usize = 8;

/// `EPTYPE` of a control endpoint bank.
pub const EPTYPE_CONTROL: u8 = 1;

/// `EPTYPE` of a bulk endpoint bank.
pub const EPTYPE_BULK: u8 = 3;

impl Usb {
    pub closed spec fn bank_views(&self) -> Seq<(usize, u32)> {
        self.banks@.map_values(|b: EndpointBank| (b.address(), b.pcksize_word()))
    }

    pub closed spec fn is_attached(&self) -> bool {
        self.attached
    }

    /// `EPTYPE` of bank 0 (OUT) and bank 1 (IN) of each endpoint number.
    pub closed spec fn ep_types(&self) -> Seq<(u8, u8)> {
        self.ep_types@
    }

    /// Stall requests of bank 0 (OUT) and bank 1 (IN) of each endpoint number, as software
    /// has set them; the hardware itself drops endpoint 0's when the next setup packet arrives.
    pub closed spec fn stall_requests(&self) -> Seq<(bool, bool)> {
        self.stall_requests@
    }

    #[verifier::type_invariant]
    closed spec fn wf(&self) -> bool {
        &&& self.banks@.len() == ENDPOINT_BANKS
        &&& self.ep_types@.len() == ENDPOINTS
        &&& self.stall_requests@.len() == ENDPOINTS
    }

    /// Takes the registers out, leaving an empty device in their place.
    fn take_parts(&mut self) -> (r: (Vec<EndpointBank>, Vec<(u8, u8)>, Vec<(bool, bool)>))
        ensures
            r.0@.map_values(|b: EndpointBank| (b.address(), b.pcksize_word())) == old(self).bank_views(),
            r.1@ == old(self).ep_types(),
            r.2@ == old(self).stall_requests(),
            r.0@.len() == ENDPOINT_BANKS,
            r.1@.len() == ENDPOINTS,
            r.2@.len() == ENDPOINTS,
            final(self).is_attached() == old(self).is_attached(),
    {
        proof {
            use_type_invariant(&*self);
        }
        let mut this = Usb::new();
        this.attached = self.attached;
        core::mem::swap(&mut this, self);
        let Usb { banks, ep_types, stall_requests, attached: _ } = this;
        (banks, ep_types, stall_requests)
    }

    /// Puts the registers back.
    fn restore(&mut self, banks: Vec<EndpointBank>, ep_types: Vec<(u8, u8)>, stall_requests: Vec<(bool, bool)>)
        requires
            banks@.len() == ENDPOINT_BANKS,
            ep_types@.len() == ENDPOINTS,
            stall_requests@.len() == ENDPOINTS,
        ensures
            final(self).bank_views() == banks@.map_values(|b: EndpointBank| (b.address(), b.pcksize_word())),
            final(self).ep_types() == ep_types@,
            final(self).stall_requests() == stall_requests@,
            final(self).is_attached() == old(self).is_attached(),
    {
        *self = Usb { banks, ep_types, stall_requests, attached: self.attached };
    }

    /// A detached device with all banks empty.
    pub fn new() -> (r: Usb)
        ensures
            !r.is_attached(),
            r.bank_views().len() == ENDPOINT_BANKS,
            forall|i: int| 0 <= i < ENDPOINT_BANKS ==> #[trigger] r.bank_views()[i] == (0usize, 0u32),
            r.ep_types() == Seq::new(ENDPOINTS as nat, |i: int| (0u8, 0u8)),
            r.stall_requests() == Seq::new(ENDPOINTS as nat, |i: int| (false, false)),
    {
        let mut banks: Vec<EndpointBank> = Vec::new();
        let mut i: usize = 0;
        while i < ENDPOINT_BANKS
            invariant
                0 <= i <= ENDPOINT_BANKS,
                banks@.len() == i,
                forall|k: int| 0 <= k < i ==> (#[trigger] banks@[k]).address() == 0 && banks@[k].pcksize_word() == 0,
            decreases ENDPOINT_BANKS - i,
        {
            banks.push(EndpointBank::new());
            i = i + 1;
        }
        let mut ep_types: Vec<(u8, u8)> = Vec::new();
        let mut stall_requests: Vec<(bool, bool)> = Vec::new();
        let mut e: usize = 0;
        while e < ENDPOINTS
            invariant
                0 <= e <= ENDPOINTS,
                ep_types@ == Seq::new(e as nat, |k: int| (0u8, 0u8)),
                stall_requests@ == Seq::new(e as nat, |k: int| (false, false)),
            decreases ENDPOINTS - e,
        {
            ep_types.push((0, 0));
            stall_requests.push((false, false));
            e = e + 1;
            assert(ep_types@ =~= Seq::new(e as nat, |k: int| (0u8, 0u8)));
            assert(stall_requests@ =~= Seq::new(e as nat, |k: int| (false, false)));
        }
        Usb { banks, ep_types, stall_requests, attached: false }
    }

    /// The bank of endpoint address `ep` (see [`bank_index`]).
    pub fn ep_ram(&self, ep: u8) -> (r: &EndpointBank)
        ensures
            (r.address(), r.pcksize_word()) == self.bank_views()[bank_index(ep)],
    {
        proof {
            use_type_invariant(self);
        }
        let n = (ep & 0x07u8) as usize;
        let dir = (ep >> 7u8) as usize;
        assert(n == ep % 8 && dir == ep / 128) by (bit_vector)
            requires
                n == (ep & 0x07u8) as usize,
                dir == (ep >> 7u8) as usize,
        ;
        &self.banks[n * 2 + dir]
    }

    /// Connects the device to the bus at full speed.
    pub fn attach(&mut self)
        ensures
            final(self).is_attached(),
            final(self).bank_views() == old(self).bank_views(),
            final(self).ep_types() == old(self).ep_types(),
            final(self).stall_requests() == old(self).stall_requests(),
    {
        proof {
            use_type_invariant(&*self);
        }
        self.attached = true;
    }

    /// Disconnects the device from the bus.
    pub fn detach(&mut self)
        ensures
            !final(self).is_attached(),
            final(self).bank_views() == old(self).bank_views(),
            final(self).ep_types() == old(self).ep_types(),
            final(self).stall_requests() == old(self).stall_requests(),
    {
        proof {
            use_type_invariant(&*self);
        }
        self.attached = false;
    }

    /// Refuses the current control request: both banks of endpoint 0 are asked to stall.
    pub fn stall_ep0(&mut self)
        ensures
            final(self).stall_requests() == old(self).stall_requests().update(0, (true, true)),
            final(self).bank_views() == old(self).bank_views(),
            final(self).ep_types() == old(self).ep_types(),
            final(self).is_attached() == old(self).is_attached(),
    {
        let (banks, ep_types, mut stall_requests) = self.take_parts();
        stall_requests.set(0, (true, true));
        self.restore(banks, ep_types, stall_requests);
    }

    /// After a bus reset: endpoint 0 becomes a control endpoint in both directions, and its
    /// OUT bank waits for up to 64 bytes (a setup packet) at `buf_addr`.
    pub fn configure_ep0(&mut self, buf_addr: usize)
        ensures
            final(self).bank_views() == old(self).bank_views().update(
                0,
                (buf_addr, pcksize_out(PacketSize::Size64, 64) as u32),
            ),
            final(self).ep_types() == old(self).ep_types().update(0, (EPTYPE_CONTROL, EPTYPE_CONTROL)),
            final(self).stall_requests() == old(self).stall_requests(),
            final(self).is_attached() == old(self).is_attached(),
    {
        let mut bank = EndpointBank::new();
        bank.prepare_out(PacketSize::Size64, buf_addr, 64);
        let (mut banks, mut ep_types, stall_requests) = self.take_parts();
        banks.set(0, bank);
        ep_types.set(0, (EPTYPE_CONTROL, EPTYPE_CONTROL));
        self.restore(banks, ep_types, stall_requests);
        proof {
            assert(self.bank_views() =~= old(self).bank_views().update(
                0,
                (buf_addr, pcksize_out(PacketSize::Size64, 64) as u32),
            ));
        }
    }

    /// Makes bank 1 (IN) of endpoint `EP` a bulk bank, keeping bank 0's type.
    pub fn configure_ep_in<const EP: u8>(&mut self) -> (r: Endpoint<In, EP>)
        ensures
            final(self).ep_types() == old(self).ep_types().update(
                EP as int % 8,
                (old(self).ep_types()[EP as int % 8].0, EPTYPE_BULK),
            ),
            final(self).bank_views() == old(self).bank_views(),
            final(self).stall_requests() == old(self).stall_requests(),
            final(self).is_attached() == old(self).is_attached(),
    {
        let n = Self::ep_number(EP);
        let (banks, mut ep_types, stall_requests) = self.take_parts();
        let (out_type, _) = ep_types[n];
        ep_types.set(n, (out_type, EPTYPE_BULK));
        self.restore(banks, ep_types, stall_requests);
        Endpoint { _d: core::marker::PhantomData }
    }

    /// Makes bank 0 (OUT) of endpoint `EP` a bulk bank, keeping bank 1's type.
    pub fn configure_ep_out<const EP: u8>(&mut self) -> (r: Endpoint<Out, EP>)
        ensures
            final(self).ep_types() == old(self).ep_types().update(
                EP as int % 8,
                (EPTYPE_BULK, old(self).ep_types()[EP as int % 8].1),
            ),
            final(self).bank_views() == old(self).bank_views(),
            final(self).stall_requests() == old(self).stall_requests(),
            final(self).is_attached() == old(self).is_attached(),
    {
        let n = Self::ep_number(EP);
        let (banks, mut ep_types, stall_requests) = self.take_parts();
        let (_, in_type) = ep_types[n];
        ep_types.set(n, (EPTYPE_BULK, in_type));
        self.restore(banks, ep_types, stall_requests);
        Endpoint { _d: core::marker::PhantomData }
    }

    /// The endpoint number of an endpoint address: its low three bits.
    fn ep_number(ep: u8) -> (r: usize)
        ensures
            r == ep % 8,
    {
        let n = ep & 0x07u8;
        assert(n == ep % 8) by (bit_vector)
            requires
                n == ep & 0x07u8,
        ;
        n as usize
    }
}

/// Marks an endpoint that receives from the host.
pub struct Out;

/// Marks an endpoint that sends to the host.
pub struct In;

/// A configured bulk endpoint of direction `D` and address `EP`.
pub struct Endpoint<D, const EP: u8> {
    _d: core::marker::PhantomData<D>,
}

impl<const EP: u8> Endpoint<Out, EP> {
    /// The OUT bank of this endpoint.
    pub fn ep_ram<'u>(&self, usb: &'u Usb) -> (r: &'u EndpointBank)
        ensures
            (r.address(), r.pcksize_word()) == usb.bank_views()[(EP as int % 8) * 2],
    {
        proof {
            use_type_invariant(usb);
        }
        &usb.banks[Usb::ep_number(EP) * 2]
    }
}

impl<const EP: u8> Endpoint<In, EP> {
    /// The IN bank of this endpoint.
    pub fn ep_ram<'u>(&self, usb: &'u Usb) -> (r: &'u EndpointBank)
        ensures
            (r.address(), r.pcksize_word()) == usb.bank_views()[(EP as int % 8) * 2 + 1],
    {
        proof {
            use_type_invariant(usb);
        }
        &usb.banks[Usb::ep_number(EP) * 2 + 1]
    }
}

/// Interrupt conditions of one endpoint: setup received, bank 0 (OUT) transfer complete,
/// bank 1 (IN) transfer complete.
#[derive(Clone, Copy, PartialEq, Eq, Debug, Structural)]
pub struct EpInterrupt {
    pub rxstp: bool,
    pub trcpt0: bool,
    pub trcpt1: bool,
}

/// What the USB interrupt does for one endpoint: the conditions whose interrupt it
/// disables, and whether it wakes the endpoint's OUT and IN waiters.
#[derive(Clone, Copy, PartialEq, Eq, Debug, Structural)]
pub struct EpWake {
    pub disable: EpInterrupt,
    pub wake_out: bool,
    pub wake_in: bool,
}

/// A condition counts when it is both flagged and enabled; setup and OUT completions wake
/// the OUT side, IN completions the IN side.
pub fn endpoint_wakeups(flags: EpInterrupt, enabled: EpInterrupt) -> (r: EpWake)
    ensures
        r.disable.rxstp == (flags.rxstp && enabled.rxstp),
        r.disable.trcpt0 == (flags.trcpt0 && enabled.trcpt0),
        r.disable.trcpt1 == (flags.trcpt1 && enabled.trcpt1),
        r.wake_out == (r.disable.rxstp || r.disable.trcpt0),
        r.wake_in == r.disable.trcpt1,
{
    let rxstp = flags.rxstp && enabled.rxstp;
    let trcpt0 = flags.trcpt0 && enabled.trcpt0;
    let trcpt1 = flags.trcpt1 && enabled.trcpt1;
    EpWake {
        disable: EpInterrupt { rxstp, trcpt0, trcpt1 },
        wake_out: rxstp || trcpt0,
        wake_in: trcpt1,
    }
}

/// The endpoints whose bit is set in the interrupt summary, in order.
pub fn pending_endpoints(summary: u16) -> (r: Vec<u8>)
    ensures
        forall|k: int| 0 <= k < r@.len() ==> r@[k] < 8,
        forall|i: int, j: int| 0 <= i < j < r@.len() ==> r@[i] < r@[j],
        forall|ep: u8| ep < 8 ==> (r@.contains(ep) <==> (summary >> ep) & 1u16 == 1u16),
{
    let mut out: Vec<u8> = Vec::new();
    let mut ep: u8 = 0;
    while ep < 8
        invariant
            0 <= ep <= 8,
            forall|k: int| 0 <= k < out@.len() ==> out@[k] < ep,
            forall|i: int, j: int| 0 <= i < j < out@.len() ==> out@[i] < out@[j],
            forall|e: u8| e < ep ==> (out@.contains(e) <==> (summary >> e) & 1u16 == 1u16),
        decreases 8 - ep,
    {
        let ghost before = out@;
        if (summary >> ep) & 1u16 == 1u16 {
            out.push(ep);
        }
        proof {
            assert forall|e: u8| e < ep + 1 implies (out@.contains(e) <==> (summary >> e) & 1u16 == 1u16) by {
                if e < ep {
                    if out@.contains(e) {
                        let k = choose|k: int| 0 <= k < out@.len() && out@[k] == e;
                        if k < before.len() {
                            assert(before[k] == e);
                        }
                    }
                    if before.contains(e) {
                        let k = choose|k: int| 0 <= k < before.len() && before[k] == e;
                        assert(out@[k] == e);
                    }
                } else {
                    if (summary >> e) & 1u16 == 1u16 {
                        assert(out@[out@.len() - 1] == e);
                    } else {
                        assert(out@ == before);
                        if out@.contains(e) {
                            let k = choose|k: int| 0 <= k < out@.len() && out@[k] == e;
                        }
                    }
                }
            }
        }
        ep = ep + 1;
    }
    out
}

/// A buffer the USB hardware reads or writes directly.
pub struct UsbBuffer<const SIZE: usize>([u8; SIZE]);

impl<const SIZE: usize> UsbBuffer<SIZE> {
    pub closed spec fn contents(&self) -> Seq<u8> {
        self.0@
    }

    /// A zeroed buffer.
    pub fn new() -> (r: Self)
        ensures
            r.contents() == Seq::new(SIZE as nat, |i: int| 0u8),
    {
        let r = UsbBuffer([0u8; SIZE]);
        assert(r.contents() =~= Seq::new(SIZE as nat, |i: int| 0u8));
        r
    }

    pub fn as_slice(&self) -> (r: &[u8])
        ensures
            r@ == self.contents(),
    {
        self.0.as_slice()
    }

    pub fn as_mut_slice(&mut self) -> (r: &mut [u8])
        ensures
            r@ == old(self).contents(),
            final(self).contents() == final(r)@,
    {
        vstd::array::ref_mut_array_unsizing_coercion(&mut self.0)
    }
}

} // verus!
