use vstd::prelude::*;
use crate::usb_consts::{
    descriptor_type_bos, descriptor_type_configuration, descriptor_type_device,
    descriptor_type_string, standard_request_get_descriptor, standard_request_get_status,
    standard_request_set_address, standard_request_set_configuration,
    standard_request_set_interface,
};
use crate::endpoint::Usb;

verus! {

/// Specification defining the request.
#[derive(Clone, Copy, PartialEq, Eq, Debug, Structural)]
pub enum ControlType {
    /// Request defined by the USB standard.
    Standard,
    /// Request defined by the standard USB class specification.
    Class,
    /// Non-standard request.
    Vendor,
}

/// Entity targeted by the request.
#[derive(Clone, Copy, PartialEq, Eq, Debug, Structural)]
pub enum Recipient {
    /// Request made to device as a whole.
    Device,
    /// Request made to specific interface.
    Interface,
    /// Request made to specific endpoint.
    Endpoint,
    /// Other request.
    Other,
}

/// A control request whose data stage goes from device to host.
#[derive(Clone, Copy, PartialEq, Eq, Debug, Structural)]
pub struct ControlIn {
    /// The number of bytes the host asked for (`wLength`).
    pub length: u16,
}

/// A control request whose data stage goes from host to device.
#[derive(Clone, Copy, PartialEq, Eq, Debug, Structural)]
pub struct ControlOut {
    /// The number of bytes of the data stage (`wLength`).
    pub length: u16,
}

/// The endpoint that is stalled to refuse a control request.
pub const CONTROL_ENDPOINT: u8 = 0;

/// Size of a control endpoint packet.
pub const CONTROL_PACKET_SIZE: usize = 64;

/// Sizes of the IN packets sent for `remaining` bytes: full packets of 64 bytes, ending
/// with a short packet (possibly empty), except that no short packet follows when the whole
/// requested length was sent (`is_full`) and nothing remains.
pub open spec fn in_packets(remaining: nat, is_full: bool) -> Seq<nat>
    decreases remaining,
{
    let pkt: nat = if remaining < 64 { remaining } else { 64 };
    let rest: nat = (remaining - pkt) as nat;
    if pkt < 64 || (rest == 0 && is_full) {
        seq![pkt]
    } else {
        seq![pkt] + in_packets(rest, is_full)
    }
}

impl ControlIn {
    /// The length the host asked for.
    pub open spec fn requested(self) -> nat {
        self.length as nat
    }

    /// The number of bytes the host asked for.
    pub fn len(&self) -> (r: usize)
        ensures
            r == self.requested(),
    {
        self.length as usize
    }

    /// Refusing the request stalls both directions of the control endpoint; gives the
    /// endpoint stalled.
    pub fn reject(self, usb: &mut Usb) -> (ep: u8)
        ensures
            ep == CONTROL_ENDPOINT,
            final(usb).stall_requests() == old(usb).stall_requests().update(CONTROL_ENDPOINT as int, (true, true)),
            final(usb).bank_views() == old(usb).bank_views(),
            final(usb).ep_types() == old(usb).ep_types(),
            final(usb).is_attached() == old(usb).is_attached(),
    {
        usb.stall_ep0();
        CONTROL_ENDPOINT
    }

    /// The sizes of the IN packets that answer this request with `data_len` bytes: the reply
    /// is cut to the requested length, sent in packets of 64 bytes, and closed by a short
    /// packet unless exactly the requested length went out in full packets.
    pub fn packets(&self, data_len: usize) -> (r: Vec<usize>)
        ensures
            r@.map_values(|x: usize| x as nat) == in_packets(
                if data_len < self.requested() { data_len as nat } else { self.requested() },
                data_len >= self.requested(),
            ),
    {
        let length = self.length as usize;
        let is_full = data_len >= length;
        let mut remaining: usize = if data_len < length { data_len } else { length };
        let ghost total = remaining as nat;
        let mut out: Vec<usize> = Vec::new();
        loop
            invariant
                total == (if data_len < self.requested() { data_len as nat } else { self.requested() }),
                is_full == (data_len >= self.requested()),
                remaining <= total,
                out@.map_values(|x: usize| x as nat) + in_packets(remaining as nat, is_full)
                    == in_packets(total, is_full),
            decreases remaining,
        {
            let pkt = if remaining < CONTROL_PACKET_SIZE { remaining } else { CONTROL_PACKET_SIZE };
            let rest = remaining - pkt;
            let ghost before = out@;
            out.push(pkt);
            assert(out@.map_values(|x: usize| x as nat) =~= before.map_values(|x: usize| x as nat)
                + seq![pkt as nat]);
            if pkt < CONTROL_PACKET_SIZE || (rest == 0 && is_full) {
                assert(in_packets(remaining as nat, is_full) =~= seq![pkt as nat]);
                assert(out@.map_values(|x: usize| x as nat) =~= in_packets(total, is_full));
                return out;
            }
            assert(in_packets(remaining as nat, is_full) =~= seq![pkt as nat] + in_packets(
                rest as nat,
                is_full,
            ));
            assert(out@.map_values(|x: usize| x as nat) + in_packets(rest as nat, is_full)
                =~= before.map_values(|x: usize| x as nat) + in_packets(remaining as nat, is_full));
            remaining = rest;
        }
    }
}

impl ControlOut {
    pub open spec fn requested(self) -> nat {
        self.length as nat
    }

    /// The number of bytes of the data stage.
    pub fn len(&self) -> (r: usize)
        ensures
            r == self.requested(),
    {
        self.length as usize
    }

    /// Refusing the request stalls both directions of the control endpoint; gives the
    /// endpoint stalled.
    pub fn reject(self, usb: &mut Usb) -> (ep: u8)
        ensures
            ep == CONTROL_ENDPOINT,
            final(usb).stall_requests() == old(usb).stall_requests().update(CONTROL_ENDPOINT as int, (true, true)),
            final(usb).bank_views() == old(usb).bank_views(),
            final(usb).ep_types() == old(usb).ep_types(),
            final(usb).is_attached() == old(usb).is_attached(),
    {
        usb.stall_ep0();
        CONTROL_ENDPOINT
    }
}

/// The data stage of a control request, with its direction.
#[derive(Clone, Copy, PartialEq, Eq, Debug, Structural)]
pub enum ControlData {
    In(ControlIn),
    Out(ControlOut),
}

/// A parsed SETUP packet.
#[derive(Clone, Copy, PartialEq, Eq, Debug, Structural)]
pub struct Setup {
    pub data: ControlData,
    /// Request type used for the `bmRequestType` field sent in the SETUP packet.
    pub ty: ControlType,
    /// Recipient used for the `bmRequestType` field sent in the SETUP packet.
    pub recipient: Recipient,
    /// `bRequest` field sent in the SETUP packet.
    pub request: u8,
    /// `wValue` field sent in the SETUP packet.
    pub value: u16,
    /// `wIndex` field sent in the SETUP packet.
    ///
    /// For [`Recipient::Interface`] this is the interface number. For [`Recipient::Endpoint`] this is the endpoint number.
    pub index: u16,
}

/// The recipient coded in the low four bits of `bmRequestType`, if it is one of the four known.
pub open spec fn recipient_of(b: u8) -> Option<Recipient> {
    let r = b % 16;
    if r == 0 {
        Some(Recipient::Device)
    } else if r == 1 {
        Some(Recipient::Interface)
    } else if r == 2 {
        Some(Recipient::Endpoint)
    } else if r == 3 {
        Some(Recipient::Other)
    } else {
        None
    }
}

/// The request type coded in bits 5 and 6 of `bmRequestType`, unless it is the reserved value.
pub open spec fn type_of(b: u8) -> Option<ControlType> {
    let t = (b / 32) % 4;
    if t == 0 {
        Some(ControlType::Standard)
    } else if t == 1 {
        Some(ControlType::Class)
    } else if t == 2 {
        Some(ControlType::Vendor)
    } else {
        None
    }
}

/// Little-endian `u16` from two bytes.
pub open spec fn u16_le(lo: u8, hi: u8) -> u16 {
    (lo as int + 256 * hi as int) as u16
}

/// What a SETUP packet means, or `None` for a recipient or request type that is not known.
pub open spec fn parse_setup(p: Seq<u8>) -> Option<Setup> {
    match (recipient_of(p[0]), type_of(p[0])) {
        (Some(recipient), Some(ty)) => {
            let length = u16_le(p[6], p[7]);
            Some(
                Setup {
                    data: if p[0] < 128 {
                        ControlData::Out(ControlOut { length })
                    } else {
                        ControlData::In(ControlIn { length })
                    },
                    ty,
                    recipient,
                    request: p[1],
                    value: u16_le(p[2], p[3]),
                    index: u16_le(p[4], p[5]),
                },
            )
        },
        _ => None,
    }
}

fn u16_from_le(lo: u8, hi: u8) -> (r: u16)
    ensures
        r == u16_le(lo, hi),
{
    let v: u16 = lo as u16 | ((hi as u16) << 8u16);
    assert(v == (lo as int + 256 * hi as int) as u16) by (bit_vector)
        requires
            v == lo as u16 | ((hi as u16) << 8u16),
    ;
    v
}

/// The standard requests the device answers itself; every other request goes to the
/// application's handler.
#[derive(Clone, Copy, PartialEq, Eq, Debug, Structural)]
pub enum StandardRequest {
    /// `GET_STATUS`, answered with two zero bytes.
    GetStatus,
    /// `GET_DESCRIPTOR` of the given type and index; `lang` is the language ID of a string.
    GetDescriptor { kind: u8, index: u8, lang: u16 },
    /// `SET_ADDRESS`, applied after the status stage.
    SetAddress(u8),
    /// `SET_CONFIGURATION` to the given value.
    SetConfiguration(u8),
    /// `SET_INTERFACE`: interface number and alternate setting.
    SetInterface { interface: u8, alt: u8 },
    /// Anything else.
    Other,
}

impl Setup {
    /// Parses an 8-byte SETUP packet. The low four bits of `bmRequestType` give the recipient
    /// (values above 3 are refused), bits 5 and 6 the request type (3 is refused), and bit 7
    /// the direction; the remaining fields are little-endian.
    pub fn parse(packet: [u8; 8]) -> (r: Result<Setup, ()>)
        ensures
            match parse_setup(packet@) {
                Some(s) => r == Ok::<Setup, ()>(s),
                None => r is Err,
            },
    {
        let b = packet[0];
        let r4 = b & 0x0fu8;
        let t = (b >> 5u8) & 0x03u8;
        assert(r4 == b % 16 && t == (b / 32) % 4) by (bit_vector)
            requires
                r4 == b & 0x0fu8,
                t == (b >> 5u8) & 0x03u8,
        ;
        let recipient = if r4 == 0 {
            Recipient::Device
        } else if r4 == 1 {
            Recipient::Interface
        } else if r4 == 2 {
            Recipient::Endpoint
        } else if r4 == 3 {
            Recipient::Other
        } else {
            return Err(());
        };
        let ty = if t == 0 {
            ControlType::Standard
        } else if t == 1 {
            ControlType::Class
        } else if t == 2 {
            ControlType::Vendor
        } else {
            return Err(());
        };
        let length = u16_from_le(packet[6], packet[7]);
        let dir = b & 0x80u8;
        assert((dir == 0) == (b < 128)) by (bit_vector)
            requires
                dir == b & 0x80u8,
        ;
        let data = if dir == 0 {
            ControlData::Out(ControlOut { length })
        } else {
            ControlData::In(ControlIn { length })
        };
        Ok(
            Setup {
                data,
                ty,
                recipient,
                request: packet[1],
                value: u16_from_le(packet[2], packet[3]),
                index: u16_from_le(packet[4], packet[5]),
            },
        )
    }

    /// A SETUP packet as it arrives: a request to handle, or, for a packet that does not
    /// parse (see [`Setup::parse`]), nothing, with the control endpoint stalled.
    pub fn receive(packet: [u8; 8], usb: &mut Usb) -> (r: Option<Setup>)
        ensures
            match parse_setup(packet@) {
                Some(s) => r == Some(s) && *final(usb) == *old(usb),
                None => {
                    &&& r is None
                    &&& final(usb).stall_requests() == old(usb).stall_requests().update(CONTROL_ENDPOINT as int, (true, true))
                    &&& final(usb).bank_views() == old(usb).bank_views()
                    &&& final(usb).ep_types() == old(usb).ep_types()
                    &&& final(usb).is_attached() == old(usb).is_attached()
                },
            },
    {
        match Setup::parse(packet) {
            Ok(s) => Some(s),
            Err(()) => {
                usb.stall_ep0();
                None
            },
        }
    }

    /// Refusing a request stalls both directions of the control endpoint, whatever the
    /// request's direction; gives the endpoint stalled.
    pub fn reject(self, usb: &mut Usb) -> (ep: u8)
        ensures
            ep == CONTROL_ENDPOINT,
            final(usb).stall_requests() == old(usb).stall_requests().update(CONTROL_ENDPOINT as int, (true, true)),
            final(usb).bank_views() == old(usb).bank_views(),
            final(usb).ep_types() == old(usb).ep_types(),
            final(usb).is_attached() == old(usb).is_attached(),
    {
        match self.data {
            ControlData::In(d) => d.reject(usb),
            ControlData::Out(d) => d.reject(usb),
        }
    }

    /// Sorts the request into the standard requests the device answers itself
    /// (see [`standard_request_of`]).
    pub fn classify(&self) -> (r: StandardRequest)
        ensures
            r == standard_request_of(*self),
    {
        let get_status = standard_request_get_status();
        let get_descriptor = standard_request_get_descriptor();
        let set_address = standard_request_set_address();
        let set_configuration = standard_request_set_configuration();
        let set_interface = standard_request_set_interface();
        if self.ty != ControlType::Standard {
            return StandardRequest::Other;
        }
        match self.data {
            ControlData::In(_) => {
                if self.request == get_status {
                    StandardRequest::GetStatus
                } else if self.recipient == Recipient::Device && self.request == get_descriptor {
                    StandardRequest::GetDescriptor {
                        kind: (self.value >> 8u16) as u8,
                        index: (self.value & 0xffu16) as u8,
                        lang: self.index,
                    }
                } else {
                    StandardRequest::Other
                }
            },
            ControlData::Out(_) => {
                if self.recipient == Recipient::Device && self.request == set_address {
                    StandardRequest::SetAddress(self.value as u8)
                } else if self.recipient == Recipient::Device && self.request == set_configuration {
                    StandardRequest::SetConfiguration(self.value as u8)
                } else if self.recipient == Recipient::Interface && self.request == set_interface {
                    StandardRequest::SetInterface { interface: self.index as u8, alt: self.value as u8 }
                } else {
                    StandardRequest::Other
                }
            },
        }
    }
}

/// What the device asks of the application's handler to answer a standard request.
#[derive(Clone, Copy, PartialEq, Eq, Debug, Structural)]
pub enum HandlerCall {
    /// Nothing: the device answers by itself.
    Nothing,
    /// Look up string descriptor `index` in language `lang`.
    StringDescriptor { index: u8, lang: u16 },
    /// Look up descriptor `index` of type `kind`.
    Descriptor { kind: u8, index: u8 },
    /// Apply the configuration.
    SetConfiguration(u8),
    /// Select the interface's alternate setting.
    SetInterface { interface: u8, alt: u8 },
    /// Hand the whole request over (every request that is not one of the above).
    Control,
}

/// The handler call for a standard request: strings (descriptor type 3) and other
/// descriptors go to their own lookups; `GET_STATUS` and `SET_ADDRESS` need no call.
pub open spec fn handler_call_spec(r: StandardRequest) -> HandlerCall {
    match r {
        StandardRequest::GetStatus => HandlerCall::Nothing,
        StandardRequest::GetDescriptor { kind, index, lang } => if kind == 3 {
            HandlerCall::StringDescriptor { index, lang }
        } else {
            HandlerCall::Descriptor { kind, index }
        },
        StandardRequest::SetAddress(_) => HandlerCall::Nothing,
        StandardRequest::SetConfiguration(c) => HandlerCall::SetConfiguration(c),
        StandardRequest::SetInterface { interface, alt } => HandlerCall::SetInterface { interface, alt },
        StandardRequest::Other => HandlerCall::Control,
    }
}

/// Which handler call answers the request (see [`handler_call_spec`]).
pub fn handler_call(r: StandardRequest) -> (c: HandlerCall)
    ensures
        c == handler_call_spec(r),
{
    match r {
        StandardRequest::GetStatus => HandlerCall::Nothing,
        StandardRequest::GetDescriptor { kind, index, lang } => if kind == descriptor_type_string() {
            HandlerCall::StringDescriptor { index, lang }
        } else {
            HandlerCall::Descriptor { kind, index }
        },
        StandardRequest::SetAddress(_) => HandlerCall::Nothing,
        StandardRequest::SetConfiguration(c) => HandlerCall::SetConfiguration(c),
        StandardRequest::SetInterface { interface, alt } => HandlerCall::SetInterface { interface, alt },
        StandardRequest::Other => HandlerCall::Control,
    }
}

/// How the device finishes a standard request.
#[derive(Clone, Copy, PartialEq, Eq, Debug, Structural)]
pub enum ControlReply {
    /// Send the two status bytes, both zero.
    Status,
    /// Send the descriptor the handler found.
    Respond,
    /// Complete the status stage.
    Accept,
    /// Complete the status stage, then take on this address.
    AcceptAndSetAddress(u8),
    /// Stall the control endpoint.
    Stall,
    /// The handler answered the whole request itself.
    Handled,
}

/// The reply to a standard request once its handler call (if any) came back with
/// `handler_ok` (a descriptor found, a configuration or setting applied): `GET_STATUS`
/// answers two zero bytes; a descriptor is sent when found and the request stalled when
/// not; `SET_ADDRESS` is accepted and the address taken on afterwards; a configuration or
/// setting is accepted when applied and stalled when refused; any other request is the
/// handler's to answer.
pub open spec fn control_reply_spec(r: StandardRequest, handler_ok: bool) -> ControlReply {
    match r {
        StandardRequest::GetStatus => ControlReply::Status,
        StandardRequest::GetDescriptor { .. } => if handler_ok { ControlReply::Respond } else { ControlReply::Stall },
        StandardRequest::SetAddress(a) => ControlReply::AcceptAndSetAddress(a),
        StandardRequest::SetConfiguration(_) => if handler_ok { ControlReply::Accept } else { ControlReply::Stall },
        StandardRequest::SetInterface { .. } => if handler_ok { ControlReply::Accept } else { ControlReply::Stall },
        StandardRequest::Other => ControlReply::Handled,
    }
}

/// Law: for every request that asks the handler to find a descriptor or to apply a
/// configuration or interface setting, the handler's answer decides the reply: the request
/// is stalled exactly when the handler failed, and when it succeeded the found descriptor
/// is sent or the setting accepted.
pub proof fn law_handler_outcome_decides(r: StandardRequest, handler_ok: bool)
    ensures
        (handler_call_spec(r) is Descriptor || handler_call_spec(r) is StringDescriptor
            || handler_call_spec(r) is SetConfiguration || handler_call_spec(r) is SetInterface) ==> {
            &&& (control_reply_spec(r, handler_ok) == ControlReply::Stall <==> !handler_ok)
            &&& (handler_ok && (handler_call_spec(r) is Descriptor || handler_call_spec(r) is StringDescriptor))
                ==> control_reply_spec(r, handler_ok) == ControlReply::Respond
            &&& (handler_ok && (handler_call_spec(r) is SetConfiguration || handler_call_spec(r) is SetInterface))
                ==> control_reply_spec(r, handler_ok) == ControlReply::Accept
        },
        handler_call_spec(r) is Nothing || handler_call_spec(r) is Control ==> control_reply_spec(r, true)
            == control_reply_spec(r, false) && control_reply_spec(r, handler_ok) != ControlReply::Stall,
{
}

/// How a standard request is finished (see [`control_reply_spec`]).
pub fn control_reply(r: StandardRequest, handler_ok: bool) -> (c: ControlReply)
    ensures
        c == control_reply_spec(r, handler_ok),
{
    match r {
        StandardRequest::GetStatus => ControlReply::Status,
        StandardRequest::GetDescriptor { .. } => if handler_ok { ControlReply::Respond } else { ControlReply::Stall },
        StandardRequest::SetAddress(a) => ControlReply::AcceptAndSetAddress(a),
        StandardRequest::SetConfiguration(_) => if handler_ok { ControlReply::Accept } else { ControlReply::Stall },
        StandardRequest::SetInterface { .. } => if handler_ok { ControlReply::Accept } else { ControlReply::Stall },
        StandardRequest::Other => ControlReply::Handled,
    }
}

/// The standard request a SETUP packet carries: `GET_STATUS` (0) IN to any recipient,
/// `GET_DESCRIPTOR` (6) IN to the device, `SET_ADDRESS` (5) and `SET_CONFIGURATION` (9) OUT
/// to the device, `SET_INTERFACE` (11) OUT to an interface; all of type standard.
pub open spec fn standard_request_of(s: Setup) -> StandardRequest {
    if s.ty != ControlType::Standard {
        StandardRequest::Other
    } else {
        match s.data {
            ControlData::In(_) => {
                if s.request == 0 {
                    StandardRequest::GetStatus
                } else if s.recipient == Recipient::Device && s.request == 6 {
                    StandardRequest::GetDescriptor {
                        kind: (s.value >> 8u16) as u8,
                        index: (s.value & 0xffu16) as u8,
                        lang: s.index,
                    }
                } else {
                    StandardRequest::Other
                }
            },
            ControlData::Out(_) => {
                if s.recipient == Recipient::Device && s.request == 5 {
                    StandardRequest::SetAddress(s.value as u8)
                } else if s.recipient == Recipient::Device && s.request == 9 {
                    StandardRequest::SetConfiguration(s.value as u8)
                } else if s.recipient == Recipient::Interface && s.request == 11 {
                    StandardRequest::SetInterface { interface: s.index as u8, alt: s.value as u8 }
                } else {
                    StandardRequest::Other
                }
            },
        }
    }
}

/// Sum of packet sizes.
pub open spec fn packets_total(p: Seq<nat>) -> nat
    decreases p.len(),
{
    if p.len() == 0 {
        0
    } else {
        p[0] + packets_total(p.drop_first())
    }
}

/// Law: answering a control IN request sends exactly the reply cut to the requested length;
/// every packet but the last is a full 64-byte packet, and the last is short (possibly
/// empty) unless the reply filled the request exactly.
pub proof fn law_in_packets(remaining: nat, is_full: bool)
    ensures
        in_packets(remaining, is_full).len() >= 1,
        packets_total(in_packets(remaining, is_full)) == remaining,
        forall|i: int|
            0 <= i < in_packets(remaining, is_full).len() - 1 ==> #[trigger] in_packets(
                remaining,
                is_full,
            )[i] == 64,
        in_packets(remaining, is_full).last() < 64 || (is_full && in_packets(
            remaining,
            is_full,
        ).last() == 64),
    decreases remaining,
{
    let p = in_packets(remaining, is_full);
    let pkt: nat = if remaining < 64 { remaining } else { 64 };
    let rest: nat = (remaining - pkt) as nat;
    if pkt < 64 || (rest == 0 && is_full) {
        assert(p.drop_first() =~= Seq::<nat>::empty());
        assert(packets_total(p.drop_first()) == 0);
    } else {
        law_in_packets(rest, is_full);
        let q = in_packets(rest, is_full);
        assert(p =~= seq![pkt] + q);
        assert(p.drop_first() =~= q);
        assert forall|i: int| 0 <= i < p.len() - 1 implies #[trigger] p[i] == 64 by {
            if i > 0 {
                assert(p[i] == q[i - 1]);
            }
        }
    }
}

/// Law: a SETUP packet is refused exactly when its recipient field is above 3 or its type
/// field is the reserved value 3; otherwise its fields are read back unchanged.
pub proof fn law_setup_parse(p: Seq<u8>)
    requires
        p.len() == 8,
    ensures
        parse_setup(p) is None <==> (p[0] % 16 > 3 || (p[0] / 32) % 4 == 3),
        parse_setup(p) matches Some(s) ==> s.request == p[1] && s.value == u16_le(p[2], p[3])
            && s.index == u16_le(p[4], p[5]) && (s.data is In <==> p[0] >= 128),
{
}

} // verus!
