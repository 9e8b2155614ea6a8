use viking_firmware::control::Setup;
use viking_firmware::viking::ProtocolError;
use viking_firmware::descriptors::{BinaryObjectStore, Config, Device, StringDecriptor};
use viking_firmware::device::{
    ConfigStatus,
    classify_vendor, configuration_action, descriptor_choice, interface_action,
    DescriptorChoice, InterfaceAction, VendorRequest,
};

const DESCRIBE: u8 = 0x10;
const CONFIGURE: u8 = 0x11;

#[test]
fn descriptor_choice_by_type_and_index() {
    assert_eq!(descriptor_choice(1, 0), Some(DescriptorChoice::Device));
    assert_eq!(descriptor_choice(1, 5), Some(DescriptorChoice::Device));
    assert_eq!(descriptor_choice(2, 0), Some(DescriptorChoice::Configuration));
    assert_eq!(descriptor_choice(2, 1), None);
    assert_eq!(descriptor_choice(15, 0), Some(DescriptorChoice::Bos));
    assert_eq!(descriptor_choice(3, 0), Some(DescriptorChoice::LanguageList));
    assert_eq!(descriptor_choice(3, 1), Some(DescriptorChoice::Manufacturer));
    assert_eq!(descriptor_choice(3, 2), Some(DescriptorChoice::Product));
    assert_eq!(descriptor_choice(3, 3), Some(DescriptorChoice::Serial));
    assert_eq!(descriptor_choice(3, 4), None);
    assert_eq!(descriptor_choice(6, 0), None);
}

#[test]
fn vendor_msos_request() {
    let s = Setup::parse([0xc0, 0xf0, 0, 0, 0x07, 0, 0xff, 0]).unwrap();
    assert_eq!(classify_vendor(&s, DESCRIBE, CONFIGURE), VendorRequest::MsosDescriptor);
    // Wrong index, or an OUT transfer, is no descriptor request.
    let s = Setup::parse([0xc0, 0xf0, 0, 0, 0x08, 0, 0xff, 0]).unwrap();
    assert_eq!(classify_vendor(&s, DESCRIBE, CONFIGURE), VendorRequest::Unknown);
    let s = Setup::parse([0x40, 0xf0, 0, 0, 0x07, 0, 0, 0]).unwrap();
    assert_eq!(classify_vendor(&s, DESCRIBE, CONFIGURE), VendorRequest::Unknown);
}

#[test]
fn vendor_interface_requests() {
    let s = Setup::parse([0xc1, DESCRIBE, 0x40, 0x00, 0, 0, 0x40, 0]).unwrap();
    assert_eq!(
        classify_vendor(&s, DESCRIBE, CONFIGURE),
        VendorRequest::DescribeResources { offset: 0x40 }
    );
    let s = Setup::parse([0x41, CONFIGURE, 0x02, 0x05, 0, 0, 0, 0]).unwrap();
    assert_eq!(
        classify_vendor(&s, DESCRIBE, CONFIGURE),
        VendorRequest::ConfigureMode { resource: 5, mode: 2 }
    );
    let s = Setup::parse([0xc1, CONFIGURE, 0, 0, 0, 0, 1, 0]).unwrap();
    assert_eq!(classify_vendor(&s, DESCRIBE, CONFIGURE), VendorRequest::LastConfigError);
    // The describe request as an OUT transfer, and requests to another interface.
    let s = Setup::parse([0x41, DESCRIBE, 0, 0, 0, 0, 0, 0]).unwrap();
    assert_eq!(classify_vendor(&s, DESCRIBE, CONFIGURE), VendorRequest::Unknown);
    let s = Setup::parse([0xc1, DESCRIBE, 0, 0, 1, 0, 0x40, 0]).unwrap();
    assert_eq!(classify_vendor(&s, DESCRIBE, CONFIGURE), VendorRequest::Unknown);
    // A standard request is no vendor request.
    let s = Setup::parse([0x81, DESCRIBE, 0, 0, 0, 0, 0x40, 0]).unwrap();
    assert_eq!(classify_vendor(&s, DESCRIBE, CONFIGURE), VendorRequest::Unknown);
}

#[test]
fn interface_and_configuration_actions() {
    assert_eq!(interface_action(0, 1), Ok(InterfaceAction::Enable));
    assert_eq!(interface_action(0, 0), Ok(InterfaceAction::Disable));
    assert_eq!(interface_action(0, 2), Ok(InterfaceAction::Disable));
    assert_eq!(interface_action(1, 1), Err(()));
    assert_eq!(configuration_action(1), Ok(InterfaceAction::Disable));
    assert_eq!(configuration_action(0), Err(()));
    assert_eq!(configuration_action(2), Err(()));
}

#[test]
fn chosen_descriptor_has_requested_type() {
    let device = Device {
        bcdUSB: 0x0201,
        bDeviceClass: 0,
        bDeviceSubClass: 0,
        bDeviceProtocol: 0,
        bMaxPacketSize0: 64,
        idVendor: 0x59e3,
        idProduct: 0x2222,
        bcdDevice: 0,
        iManufacturer: 1,
        iProduct: 2,
        iSerialNumber: 3,
        bNumConfigurations: 1,
    }
    .bytes(&[]);
    let config = Config { bConfigurationValue: 1, iConfiguration: 0, bmAttributes: 0x80, bMaxPower: 250 }
        .bytes(&[]);
    let bos = BinaryObjectStore {}.bytes(&[]);
    let product = StringDecriptor::<16>::new("Zero");
    let cases: [(u8, u8, u8); 4] = [(1, 0, device[1]), (2, 0, config[1]), (15, 0, bos[1]), (3, 2, product.bytes()[1])];
    for (kind, index, type_byte) in cases {
        assert!(descriptor_choice(kind, index).is_some());
        assert_eq!(type_byte, kind);
    }
}

#[test]
fn configuration_error_read_back() {
    let mut status = ConfigStatus::new();
    assert_eq!(status.last_error(), None);
    assert!(!status.record(Err(ProtocolError::InvalidMode)));
    assert_eq!(status.last_error(), Some(ProtocolError::InvalidMode));
    assert!(!status.record(Err(ProtocolError::Busy)));
    assert_eq!(status.last_error(), Some(ProtocolError::Busy));
    assert!(status.record(Ok(())));
    assert_eq!(status.last_error(), None);
    assert!(!status.record(Err(ProtocolError::InvalidResource)));
    status.clear();
    assert_eq!(status.last_error(), None);
}
