use vstd::prelude::*;
use crate::control::{ControlData, ControlType, Recipient, Setup};
use crate::events::EventState;
use crate::viking::ProtocolError;
use crate::usb_consts::{descriptor_type_bos, descriptor_type_configuration, descriptor_type_device, descriptor_type_string};
use crate::descriptors::{string_raw, BinaryObjectStore, Config, Device};

verus! {

/// The interface carrying the Viking protocol.
pub const INTF_VIKING: u8 = 0;

/// String descriptor indices.
pub const STRING_MFG: u8 = 1;
pub const STRING_PRODUCT: u8 = 2;
pub const STRING_SERIAL: u8 = 3;

/// Bulk endpoints: requests in, responses out, events out.
pub const EP_OUT: u8 = 0x01;
pub const EP_IN: u8 = 0x82;
pub const EP_EVT: u8 = 0x83;

/// Vendor request code under which the Microsoft OS 2.0 descriptor set is fetched.
pub const MSOS_VENDOR_CODE: u8 = 0xf0;

/// `wIndex` of the Microsoft OS 2.0 descriptor-set request.
pub const MSOS_DESCRIPTOR_INDEX: u16 = 0x07;

/// The descriptors the device hands out on `GET_DESCRIPTOR`.
#[derive(Clone, Copy, PartialEq, Eq, Debug, Structural)]
pub enum DescriptorChoice {
    Device,
    Configuration,
    Bos,
    LanguageList,
    Manufacturer,
    Product,
    Serial,
}

/// The descriptor for a `GET_DESCRIPTOR` of type `kind` and index `index`: the device
/// descriptor at any index, the configuration and BOS descriptors at index 0, and the
/// language list and the three strings at string indices 0 to 3.
pub open spec fn descriptor_choice_spec(kind: u8, index: u8) -> Option<DescriptorChoice> {
    if kind == 1 {
        Some(DescriptorChoice::Device)
    } else if kind == 2 && index == 0 {
        Some(DescriptorChoice::Configuration)
    } else if kind == 15 && index == 0 {
        Some(DescriptorChoice::Bos)
    } else if kind == 3 && index == 0 {
        Some(DescriptorChoice::LanguageList)
    } else if kind == 3 && index == STRING_MFG {
        Some(DescriptorChoice::Manufacturer)
    } else if kind == 3 && index == STRING_PRODUCT {
        Some(DescriptorChoice::Product)
    } else if kind == 3 && index == STRING_SERIAL {
        Some(DescriptorChoice::Serial)
    } else {
        None
    }
}

pub fn descriptor_choice(kind: u8, index: u8) -> (r: Option<DescriptorChoice>)
    ensures
        r == descriptor_choice_spec(kind, index),
{
    let device = descriptor_type_device();
    let configuration = descriptor_type_configuration();
    let bos = descriptor_type_bos();
    let string = descriptor_type_string();
    if kind == device {
        Some(DescriptorChoice::Device)
    } else if kind == configuration && index == 0 {
        Some(DescriptorChoice::Configuration)
    } else if kind == bos && index == 0 {
        Some(DescriptorChoice::Bos)
    } else if kind == string && index == 0 {
        Some(DescriptorChoice::LanguageList)
    } else if kind == string && index == STRING_MFG {
        Some(DescriptorChoice::Manufacturer)
    } else if kind == string && index == STRING_PRODUCT {
        Some(DescriptorChoice::Product)
    } else if kind == string && index == STRING_SERIAL {
        Some(DescriptorChoice::Serial)
    } else {
        None
    }
}

/// Law: `GET_DESCRIPTOR` is answered with a descriptor of the type it asked for: the
/// descriptor chosen for type `kind` carries `kind` in its type byte, whatever its fields and
/// children (strings of at least two bytes).
pub proof fn law_descriptor_has_requested_type(
    kind: u8,
    index: u8,
    device: Device,
    config: Config,
    config_children: Seq<Seq<u8>>,
    bos_children: Seq<Seq<u8>>,
    string: Seq<u8>,
    string_len: nat,
)
    requires
        string_len >= 2,
    ensures
        descriptor_choice_spec(kind, index) == Some(DescriptorChoice::Device) ==> device.encoding()[1] == kind,
        descriptor_choice_spec(kind, index) == Some(DescriptorChoice::Configuration) ==> config.encoding(
            config_children,
        )[1] == kind,
        descriptor_choice_spec(kind, index) == Some(DescriptorChoice::Bos) ==> (BinaryObjectStore {  }).encoding(
            bos_children,
        )[1] == kind,
        descriptor_choice_spec(kind, index) matches Some(c) && (c == DescriptorChoice::LanguageList
            || c == DescriptorChoice::Manufacturer || c == DescriptorChoice::Product || c
            == DescriptorChoice::Serial) ==> string_raw(string, string_len)[1] == kind,
{
}

/// The vendor requests the firmware answers.
#[derive(Clone, Copy, PartialEq, Eq, Debug, Structural)]
pub enum VendorRequest {
    /// Fetch the Microsoft OS 2.0 descriptor set.
    MsosDescriptor,
    /// Fetch the resource descriptor from this offset on.
    DescribeResources { offset: u16 },
    /// Configure a resource into a mode; the configuration follows in the data stage.
    ConfigureMode { resource: u8, mode: u8 },
    /// Read back the error of the last configuration.
    LastConfigError,
    /// Anything else, which is refused.
    Unknown,
}

/// What a vendor request asks for; `describe_resources` and `configure_mode` are the
/// protocol's request codes.
pub open spec fn vendor_request_spec(s: Setup, describe_resources: u8, configure_mode: u8) -> VendorRequest {
    if s.ty != ControlType::Vendor {
        VendorRequest::Unknown
    } else if s.recipient == Recipient::Device && s.request == MSOS_VENDOR_CODE && s.index
        == MSOS_DESCRIPTOR_INDEX && s.data is In {
        VendorRequest::MsosDescriptor
    } else if s.recipient == Recipient::Interface && s.index == INTF_VIKING as u16 {
        if s.request == describe_resources && s.data is In {
            VendorRequest::DescribeResources { offset: s.value }
        } else if s.request == configure_mode && s.data is Out {
            VendorRequest::ConfigureMode { resource: (s.value / 256) as u8, mode: (s.value % 256) as u8 }
        } else if s.request == configure_mode && s.data is In {
            VendorRequest::LastConfigError
        } else {
            VendorRequest::Unknown
        }
    } else {
        VendorRequest::Unknown
    }
}

/// Sorts a control request into the vendor requests the firmware answers.
pub fn classify_vendor(s: &Setup, describe_resources: u8, configure_mode: u8) -> (r: VendorRequest)
    ensures
        r == vendor_request_spec(*s, describe_resources, configure_mode),
{
    if s.ty != ControlType::Vendor {
        return VendorRequest::Unknown;
    }
    let is_in = match s.data {
        ControlData::In(_) => true,
        ControlData::Out(_) => false,
    };
    if s.recipient == Recipient::Device && s.request == MSOS_VENDOR_CODE && s.index
        == MSOS_DESCRIPTOR_INDEX && is_in {
        VendorRequest::MsosDescriptor
    } else if s.recipient == Recipient::Interface && s.index == INTF_VIKING as u16 {
        if s.request == describe_resources && is_in {
            VendorRequest::DescribeResources { offset: s.value }
        } else if s.request == configure_mode && !is_in {
            let value = s.value;
            let resource = (value >> 8u16) as u8;
            let mode = (value & 0xffu16) as u8;
            assert(resource == value / 256 && mode == value % 256) by (bit_vector)
                requires
                    resource == (value >> 8u16) as u8,
                    mode == (value & 0xffu16) as u8,
            ;
            VendorRequest::ConfigureMode { resource, mode }
        } else if s.request == configure_mode && is_in {
            VendorRequest::LastConfigError
        } else {
            VendorRequest::Unknown
        }
    } else {
        VendorRequest::Unknown
    }
}

/// The outcome of the last configuration request, which the host reads back with the
/// configuration request's IN form.
pub struct ConfigStatus {
    last: Option<ProtocolError>,
}

/// What recording a configuration outcome gives: whether the request is accepted (its
/// status stage completed; otherwise it is stalled), and the error kept for reading back.
pub open spec fn record_spec(outcome: Result<(), ProtocolError>) -> (bool, Option<ProtocolError>) {
    match outcome {
        Ok(()) => (true, None),
        Err(e) => (false, Some(e)),
    }
}

impl ConfigStatus {
    /// The error of the last configuration, `None` when it succeeded or none happened since
    /// the interface was last set up.
    pub closed spec fn last(&self) -> Option<ProtocolError> {
        self.last
    }

    /// No configuration yet.
    pub fn new() -> (r: ConfigStatus)
        ensures
            r.last() is None,
    {
        ConfigStatus { last: None }
    }

    /// Records the outcome of a configuration request (`Err(Busy)` when the resources were
    /// in use by a running request); gives whether to accept the request.
    pub fn record(&mut self, outcome: Result<(), ProtocolError>) -> (accept: bool)
        ensures
            (accept, final(self).last()) == record_spec(outcome),
    {
        match outcome {
            Ok(()) => {
                self.last = None;
                true
            },
            Err(e) => {
                self.last = Some(e);
                false
            },
        }
    }

    /// The error the configuration request's IN form answers: that of the last
    /// configuration, if it failed.
    pub fn last_error(&self) -> (r: Option<ProtocolError>)
        ensures
            r == self.last(),
    {
        self.last
    }

    /// Setting up the interface again forgets the last error.
    pub fn clear(&mut self)
        ensures
            final(self).last() is None,
    {
        self.last = None;
    }
}

/// Law: a configuration request is accepted exactly when it succeeded, and the IN request
/// that follows reads back its error: nothing after a success, the error after a failure.
pub proof fn law_config_error_round_trip(outcome: Result<(), ProtocolError>)
    ensures
        record_spec(outcome).0 <==> outcome is Ok,
        outcome is Ok ==> record_spec(outcome).1 is None,
        outcome matches Err(e) ==> record_spec(outcome).1 == Some(e),
{
}

/// What selecting an alternate setting of the Viking interface does: the running tasks
/// are stopped and every resource reset, then the tasks start again for setting 1.
#[derive(Clone, Copy, PartialEq, Eq, Debug, Structural)]
pub enum InterfaceAction {
    Disable,
    Enable,
}

/// `SET_INTERFACE`: only the Viking interface exists; alternate setting 1 enables it, any
/// other setting disables it.
pub fn interface_action(intf: u8, alt: u8) -> (r: Result<InterfaceAction, ()>)
    ensures
        intf != INTF_VIKING ==> r is Err,
        intf == INTF_VIKING && alt == 1 ==> r == Ok::<InterfaceAction, ()>(InterfaceAction::Enable),
        intf == INTF_VIKING && alt != 1 ==> r == Ok::<InterfaceAction, ()>(InterfaceAction::Disable),
{
    if intf == INTF_VIKING {
        if alt == 1 {
            Ok(InterfaceAction::Enable)
        } else {
            Ok(InterfaceAction::Disable)
        }
    } else {
        Err(())
    }
}

/// `SET_CONFIGURATION`: configuration 1 is accepted and selects the interface's default
/// (disabled) setting; any other value is refused.
pub fn configuration_action(cfg: u8) -> (r: Result<InterfaceAction, ()>)
    ensures
        cfg == 1 ==> r == Ok::<InterfaceAction, ()>(InterfaceAction::Disable),
        cfg != 1 ==> r is Err,
{
    if cfg == 1 {
        interface_action(INTF_VIKING, 0)
    } else {
        Err(())
    }
}

/// The event task sends the collected events once the previous transfer is done and at
/// least one byte is waiting; it gives the number of bytes to send.
pub fn events_to_send(transfer_idle: bool, state: &EventState) -> (r: Option<usize>)
    ensures
        transfer_idle && state.pos() > 0 ==> r == Some(state.pos() as usize),
        !(transfer_idle && state.pos() > 0) ==> r is None,
{
    let len = state.write_pos();
    if transfer_idle && len > 0 {
        Some(len)
    } else {
        None
    }
}

} // verus!
