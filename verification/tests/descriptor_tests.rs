use viking_firmware::descriptors::{
    build_descriptor, BinaryObjectStore, Config, Device, Endpoint, Interface, MicrosoftOs,
    MicrosoftOsCompatibleID, MicrosoftOsConfiguration, MicrosoftOsDeviceInterfaceGUID,
    MicrosoftOsFunction, PlatformCapabilityMicrosoftOs, StringDecriptor,
};

fn device() -> Device {
    Device {
        bcdUSB: 0x0201,
        bDeviceClass: 0x00,
        bDeviceSubClass: 0x00,
        bDeviceProtocol: 0x00,
        bMaxPacketSize0: 64,
        idVendor: 0x59e3,
        idProduct: 0x2222,
        bcdDevice: 0x0000,
        iManufacturer: 1,
        iProduct: 2,
        iSerialNumber: 3,
        bNumConfigurations: 1,
    }
}

fn ep(addr: u8) -> [u8; 7] {
    Endpoint { bEndpointAddress: addr, bmAttributes: 0b10, wMaxPacketSize: 64, bInterval: 0 }.bytes(&[])
}

fn intf(alt: u8, children: &[&[u8]]) -> [u8; 9] {
    Interface {
        bInterfaceNumber: 0,
        bAlternateSetting: alt,
        bInterfaceClass: 0xff,
        bInterfaceSubClass: 0,
        bInterfaceProtocol: 0,
        iInterface: 0,
    }
    .bytes(children)
}

#[test]
fn device_descriptor_bytes() {
    assert_eq!(
        device().bytes(&[]),
        [18, 1, 0x01, 0x02, 0, 0, 0, 64, 0xe3, 0x59, 0x22, 0x22, 0, 0, 1, 2, 3, 1]
    );
}

#[test]
fn endpoint_descriptor_bytes() {
    assert_eq!(ep(0x82), [7, 5, 0x82, 2, 64, 0, 0]);
}

#[test]
fn interface_counts_endpoints() {
    let e1 = ep(0x01);
    let e2 = ep(0x82);
    let e3 = ep(0x83);
    assert_eq!(intf(1, &[&e1, &e2, &e3]), [9, 4, 0, 1, 3, 0xff, 0, 0, 0]);
    assert_eq!(intf(0, &[]), [9, 4, 0, 0, 0, 0xff, 0, 0, 0]);
}

#[test]
fn configuration_tree() {
    let e1 = ep(0x01);
    let e2 = ep(0x82);
    let e3 = ep(0x83);
    let alt0 = intf(0, &[]);
    let alt1_head = intf(1, &[&e1, &e2, &e3]);
    let alt1 = build_descriptor(&alt1_head, &[&e1, &e2, &e3]);
    assert_eq!(alt1.len(), 30);
    let cfg = Config { bConfigurationValue: 1, iConfiguration: 0, bmAttributes: 0x80, bMaxPower: 250 };
    let head = cfg.bytes(&[&alt0, &alt1]);
    assert_eq!(head, [9, 2, 48, 0, 1, 1, 0, 0x80, 250]);
    let whole = build_descriptor(&head, &[&alt0, &alt1]);
    assert_eq!(whole.len(), 48);
    assert_eq!(&whole[..9], &head[..]);
    assert_eq!(&whole[9..18], &alt0[..]);
    assert_eq!(&whole[41..48], &e3[..]);
}

#[test]
fn configuration_counts_two_interfaces() {
    let i0 = intf(0, &[]);
    let mut i1 = intf(0, &[]);
    i1[2] = 1;
    let cfg = Config { bConfigurationValue: 1, iConfiguration: 4, bmAttributes: 0xc0, bMaxPower: 50 };
    assert_eq!(cfg.bytes(&[&i0, &i1]), [9, 2, 27, 0, 2, 1, 4, 0xc0, 50]);
}

#[test]
fn bos_and_platform_capability() {
    let cap = PlatformCapabilityMicrosoftOs {
        windows_version: 0x06030000,
        vendor_code: 0xf0,
        alt_enum_code: 0,
        msos_descriptor_len: 30,
    }
    .bytes(&[]);
    assert_eq!(
        cap,
        [
            28, 16, 5, 0, 0xdf, 0x60, 0xdd, 0xd8, 0x89, 0x45, 0xc7, 0x4c, 0x9c, 0xd2, 0x65, 0x9d,
            0x9e, 0x64, 0x8a, 0x9f, 0x00, 0x00, 0x03, 0x06, 30, 0, 0xf0, 0
        ]
    );
    assert_eq!(BinaryObjectStore {}.bytes(&[&cap]), [5, 15, 33, 0, 1]);
}

#[test]
fn platform_capability_truncates_length() {
    let cap = PlatformCapabilityMicrosoftOs {
        windows_version: 1,
        vendor_code: 2,
        alt_enum_code: 3,
        msos_descriptor_len: 0x1_0005,
    }
    .bytes(&[]);
    assert_eq!(&cap[20..], &[1, 0, 0, 0, 5, 0, 2, 3]);
}

#[test]
fn microsoft_os_descriptor_set() {
    let id = MicrosoftOsCompatibleID { compatible_id: "WINUSB", sub_compatible_id: "" }.bytes(&[]);
    assert_eq!(
        id,
        [20, 0, 3, 0, b'W', b'I', b'N', b'U', b'S', b'B', 0, 0, 0, 0, 0, 0, 0, 0, 0, 0]
    );
    let head = MicrosoftOs { windows_version: 0x06030000 }.bytes(&[&id]);
    assert_eq!(head, [10, 0, 0, 0, 0x00, 0x00, 0x03, 0x06, 30, 0]);
    assert_eq!(build_descriptor(&head, &[&id]).len(), 30);
}

#[test]
fn compatible_id_with_sub_id() {
    let id = MicrosoftOsCompatibleID { compatible_id: "A", sub_compatible_id: "XYZ" }.bytes(&[]);
    assert_eq!(&id[4..12], &[b'A', 0, 0, 0, 0, 0, 0, 0]);
    assert_eq!(&id[12..20], &[b'X', b'Y', b'Z', 0, 0, 0, 0, 0]);
}

#[test]
fn microsoft_os_subsets() {
    let child = [3u8, 0, 0];
    assert_eq!(
        MicrosoftOsConfiguration { configuration_value: 0 }.bytes(&[&child]),
        [8, 0, 1, 0, 0, 0, 11, 0]
    );
    assert_eq!(MicrosoftOsFunction { first_interface: 2 }.bytes(&[]), [8, 0, 2, 0, 2, 0, 8, 0]);
}

#[test]
fn device_interface_guid_property() {
    let guid = "{01234567-89AB-CDEF-0123-456789ABCDEF}";
    assert_eq!(guid.len(), 38);
    let d = MicrosoftOsDeviceInterfaceGUID { guid }.bytes(&[]);
    assert_eq!(d.len(), 132);
    assert_eq!(&d[..8], &[132, 0, 4, 0, 7, 0, 42, 0]);
    let name: Vec<u8> = "DeviceInterfaceGUIDs".bytes().flat_map(|b| [b, 0]).collect();
    assert_eq!(&d[8..48], &name[..]);
    assert_eq!(&d[48..52], &[0, 0, 80, 0]);
    let value: Vec<u8> = guid.bytes().flat_map(|b| [b, 0]).collect();
    assert_eq!(&d[52..128], &value[..]);
    assert_eq!(&d[128..], &[0, 0, 0, 0]);
}

#[test]
fn string_descriptors() {
    let s = StringDecriptor::<128>::new("ab");
    assert_eq!(s.bytes(), &[6, 3, b'a', 0, b'b', 0]);
    let s = StringDecriptor::<16>::new("é😀");
    // U+00E9 then the surrogate pair D83D DE00
    assert_eq!(s.bytes(), &[8, 3, 0xe9, 0x00, 0x3d, 0xd8, 0x00, 0xde]);
    let l = StringDecriptor::<8>::language_list();
    assert_eq!(l.bytes(), &[4, 3, 0x09, 0x04]);
}

#[test]
fn string_descriptor_hex() {
    let s = StringDecriptor::<32>::new_hex(&[0x1f, 0xa0]);
    assert_eq!(s.bytes(), &[10, 3, b'1', 0, b'F', 0, b'A', 0, b'0', 0]);
    let e = StringDecriptor::<2>::new_hex(&[]);
    assert_eq!(e.bytes(), &[2, 3]);
}
