use viking_firmware::control::{
    control_reply, handler_call, ControlData, ControlIn, ControlOut, ControlReply, ControlType,
    HandlerCall, Recipient, Setup, StandardRequest, CONTROL_ENDPOINT,
};
use viking_firmware::endpoint::Usb;

#[test]
fn parse_get_descriptor() {
    // IN, standard, device; GET_DESCRIPTOR of the configuration descriptor, 255 bytes
    let s = Setup::parse([0x80, 6, 0x00, 0x02, 0x09, 0x04, 0xff, 0x00]).unwrap();
    assert_eq!(s.recipient, Recipient::Device);
    assert_eq!(s.ty, ControlType::Standard);
    assert_eq!(s.request, 6);
    assert_eq!(s.value, 0x0200);
    assert_eq!(s.index, 0x0409);
    assert_eq!(s.data, ControlData::In(ControlIn { length: 255 }));
    assert_eq!(s.classify(), StandardRequest::GetDescriptor { kind: 2, index: 0, lang: 0x0409 });
}

#[test]
fn parse_vendor_interface_out() {
    let s = Setup::parse([0x41, 0x12, 0x02, 0x01, 0x00, 0x00, 0x04, 0x00]).unwrap();
    assert_eq!(s.recipient, Recipient::Interface);
    assert_eq!(s.ty, ControlType::Vendor);
    assert_eq!(s.data, ControlData::Out(ControlOut { length: 4 }));
    assert_eq!(s.classify(), StandardRequest::Other);
}

#[test]
fn parse_rejects_unknown_recipient_and_type() {
    assert!(Setup::parse([0x04, 0, 0, 0, 0, 0, 0, 0]).is_err());
    assert!(Setup::parse([0x60, 0, 0, 0, 0, 0, 0, 0]).is_err());
    assert!(Setup::parse([0x23, 0, 0, 0, 0, 0, 0, 0]).is_ok());
}

#[test]
fn classify_standard_requests() {
    let s = Setup::parse([0x82, 0, 0, 0, 0x81, 0, 2, 0]).unwrap();
    assert_eq!(s.classify(), StandardRequest::GetStatus);
    let s = Setup::parse([0x00, 5, 0x12, 0, 0, 0, 0, 0]).unwrap();
    assert_eq!(s.classify(), StandardRequest::SetAddress(0x12));
    let s = Setup::parse([0x00, 9, 1, 0, 0, 0, 0, 0]).unwrap();
    assert_eq!(s.classify(), StandardRequest::SetConfiguration(1));
    let s = Setup::parse([0x01, 11, 1, 0, 0, 0, 0, 0]).unwrap();
    assert_eq!(s.classify(), StandardRequest::SetInterface { interface: 0, alt: 1 });
    // SET_ADDRESS to an interface is not handled by the device
    let s = Setup::parse([0x01, 5, 0x12, 0, 0, 0, 0, 0]).unwrap();
    assert_eq!(s.classify(), StandardRequest::Other);
}

#[test]
fn reject_stalls_control_endpoint() {
    let mut usb = Usb::new();
    let s = Setup::parse([0x80, 6, 0, 1, 0, 0, 18, 0]).unwrap();
    assert_eq!(s.reject(&mut usb), CONTROL_ENDPOINT);
    assert_eq!(ControlOut { length: 3 }.len(), 3);
    assert_eq!(ControlOut { length: 3 }.reject(&mut usb), 0);
    assert_eq!(ControlIn { length: 8 }.reject(&mut usb), 0);
    // refusing leaves the endpoint banks alone
    assert_eq!(usb.ep_ram(0x00).out_len(), 0);
}

#[test]
fn in_packets_short_reply() {
    let d = ControlIn { length: 255 };
    assert_eq!(d.packets(18), vec![18]);
    assert_eq!(d.len(), 255);
}

#[test]
fn in_packets_cut_to_request() {
    // host asks for 9 bytes of a 48-byte configuration descriptor
    let d = ControlIn { length: 9 };
    assert_eq!(d.packets(48), vec![9]);
}

#[test]
fn in_packets_zero_length_packet() {
    // a 64-byte reply to a longer request ends with an empty packet
    let d = ControlIn { length: 255 };
    assert_eq!(d.packets(64), vec![64, 0]);
    assert_eq!(d.packets(130), vec![64, 64, 2]);
    // exactly the requested length in full packets: no empty packet
    let d = ControlIn { length: 128 };
    assert_eq!(d.packets(128), vec![64, 64]);
    assert_eq!(d.packets(200), vec![64, 64]);
    assert_eq!(ControlIn { length: 0 }.packets(5), vec![0]);
}

#[test]
fn handler_calls_for_standard_requests() {
    assert_eq!(handler_call(StandardRequest::GetStatus), HandlerCall::Nothing);
    assert_eq!(
        handler_call(StandardRequest::GetDescriptor { kind: 3, index: 2, lang: 0x0409 }),
        HandlerCall::StringDescriptor { index: 2, lang: 0x0409 }
    );
    assert_eq!(
        handler_call(StandardRequest::GetDescriptor { kind: 2, index: 0, lang: 0 }),
        HandlerCall::Descriptor { kind: 2, index: 0 }
    );
    assert_eq!(handler_call(StandardRequest::SetAddress(7)), HandlerCall::Nothing);
    assert_eq!(handler_call(StandardRequest::SetConfiguration(1)), HandlerCall::SetConfiguration(1));
    assert_eq!(
        handler_call(StandardRequest::SetInterface { interface: 0, alt: 1 }),
        HandlerCall::SetInterface { interface: 0, alt: 1 }
    );
    assert_eq!(handler_call(StandardRequest::Other), HandlerCall::Control);
}

#[test]
fn control_replies_follow_handler_outcome() {
    let get = StandardRequest::GetDescriptor { kind: 1, index: 0, lang: 0 };
    assert_eq!(control_reply(StandardRequest::GetStatus, false), ControlReply::Status);
    assert_eq!(control_reply(get, true), ControlReply::Respond);
    assert_eq!(control_reply(get, false), ControlReply::Stall);
    assert_eq!(control_reply(StandardRequest::SetAddress(9), false), ControlReply::AcceptAndSetAddress(9));
    assert_eq!(control_reply(StandardRequest::SetConfiguration(1), true), ControlReply::Accept);
    assert_eq!(control_reply(StandardRequest::SetConfiguration(2), false), ControlReply::Stall);
    assert_eq!(
        control_reply(StandardRequest::SetInterface { interface: 0, alt: 1 }, false),
        ControlReply::Stall
    );
    assert_eq!(control_reply(StandardRequest::Other, false), ControlReply::Handled);
}

#[test]
fn bad_setup_packet_is_dropped() {
    let mut usb = Usb::new();
    assert!(Setup::receive([0x04, 0, 0, 0, 0, 0, 0, 0], &mut usb).is_none());
    let s = Setup::receive([0x80, 6, 0, 1, 0, 0, 18, 0], &mut usb).unwrap();
    assert_eq!(s.request, 6);
}
