use viking_firmware::endpoint::{
    endpoint_wakeups, ep_register_offset, pending_endpoints, EndpointBank, EpInterrupt,
    PacketSize, Usb, UsbBuffer, EPTYPE_BULK, EPTYPE_CONTROL,
};

#[test]
fn packet_size_values() {
    assert_eq!(PacketSize::Size8.value(), 8);
    assert_eq!(PacketSize::Size64.value(), 64);
    assert_eq!(PacketSize::Size1023.value(), 1023);
    assert_eq!(PacketSize::Size64.code(), 3);
}

#[test]
fn bank_out_starts_with_zero_byte_count() {
    let mut bank = EndpointBank::new();
    bank.prepare_out(PacketSize::Size64, 0x2000_0000, 128);
    assert_eq!(bank.out_len(), 0);
}

#[test]
fn bank_in_reports_length() {
    let mut bank = EndpointBank::new();
    bank.prepare_in(PacketSize::Size64, 0x2000_0000, 37, true);
    assert_eq!(bank.out_len(), 37);
}

#[test]
fn endpoint_registers_and_banks() {
    assert_eq!(ep_register_offset(0), 0x100);
    assert_eq!(ep_register_offset(3), 0x160);
    let mut usb = Usb::new();
    usb.attach();
    usb.detach();
    assert_eq!(usb.ep_ram(0x82).out_len(), 0);
}

#[test]
fn wakeups_need_flag_and_enable() {
    let flags = EpInterrupt { rxstp: true, trcpt0: false, trcpt1: true };
    let enabled = EpInterrupt { rxstp: true, trcpt0: true, trcpt1: false };
    let w = endpoint_wakeups(flags, enabled);
    assert!(w.wake_out);
    assert!(!w.wake_in);
    assert_eq!(w.disable, EpInterrupt { rxstp: true, trcpt0: false, trcpt1: false });
}

#[test]
fn summary_bits() {
    assert_eq!(pending_endpoints(0b1000_0101), vec![0, 2, 7]);
    assert_eq!(pending_endpoints(0xff00), Vec::<u8>::new());
}

#[test]
fn usb_buffer_is_zeroed() {
    let mut b = UsbBuffer::<4>::new();
    assert_eq!(b.as_slice(), &[0, 0, 0, 0]);
    b.as_mut_slice()[1] = 9;
    assert_eq!(b.as_slice(), &[0, 9, 0, 0]);
}

#[test]
fn control_endpoint_setup_and_stall() {
    let mut usb = Usb::new();
    usb.configure_ep0(0x2000_0100);
    // the OUT bank of endpoint 0 waits for a packet: nothing received yet
    assert_eq!(usb.ep_ram(0x00).out_len(), 0);
    usb.stall_ep0();
    usb.attach();
    assert_eq!(EPTYPE_CONTROL, 1);
}

#[test]
fn bulk_endpoints_use_their_banks() {
    let mut usb = Usb::new();
    let ep_out = usb.configure_ep_out::<0x01>();
    let ep_in = usb.configure_ep_in::<0x82>();
    assert_eq!(EPTYPE_BULK, 3);
    assert_eq!(ep_out.ep_ram(&usb).out_len(), 0);
    assert_eq!(ep_in.ep_ram(&usb).out_len(), 0);
}

#[test]
fn bank_in_byte_count_any_size_and_zlp() {
    for (ps, zlp) in [(PacketSize::Size8, false), (PacketSize::Size1023, true)] {
        let mut bank = EndpointBank::new();
        bank.prepare_in(ps, 0x2000_0000, 0x3fff, zlp);
        assert_eq!(bank.out_len(), 0x3fff);
        bank.prepare_out(ps, 0x2000_0000, 0);
        assert_eq!(bank.out_len(), 0);
    }
}
