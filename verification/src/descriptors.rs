use vstd::prelude::*;
use vstd::string::StringSliceAdditionalSpecFns;
use crate::usb_consts::{
    descriptor_type_bos, descriptor_type_configuration, descriptor_type_device,
    descriptor_type_device_capability, descriptor_type_endpoint, descriptor_type_interface,
    descriptor_type_string, language_id_english_us,
};

verus! {

/// Low byte of a `u16`.
pub open spec fn lo_byte(x: u16) -> u8 {
    (x % 256) as u8
}

/// High byte of a `u16`.
pub open spec fn hi_byte(x: u16) -> u8 {
    (x / 256) as u8
}

/// The `n`-th byte (0 = least significant) of a `u32`.
pub open spec fn byte_of_u32(x: u32, n: nat) -> u8 {
    ((x as int / pow256(n)) % 256) as u8
}

pub open spec fn pow256(n: nat) -> int
    decreases n,
{
    if n == 0 {
        1
    } else {
        256 * pow256((n - 1) as nat)
    }
}

/// Little-endian bytes of a `u16`.
pub fn le16(x: u16) -> (r: [u8; 2])
    ensures
        r@ == seq![lo_byte(x), hi_byte(x)],
{
    let lo = (x & 0xff) as u8;
    let hi = (x >> 8u16) as u8;
    assert(lo == x % 256) by (bit_vector)
        requires
            lo == (x & 0xff) as u8,
    ;
    assert(hi == x / 256) by (bit_vector)
        requires
            hi == (x >> 8u16) as u8,
    ;
    let r = [lo, hi];
    assert(r@ =~= seq![lo_byte(x), hi_byte(x)]);
    r
}

/// Little-endian bytes of a `u32`.
pub fn le32(x: u32) -> (r: [u8; 4])
    ensures
        r@ == seq![byte_of_u32(x, 0), byte_of_u32(x, 1), byte_of_u32(x, 2), byte_of_u32(x, 3)],
{
    let b0 = (x & 0xff) as u8;
    let b1 = ((x >> 8u32) & 0xff) as u8;
    let b2 = ((x >> 16u32) & 0xff) as u8;
    let b3 = (x >> 24u32) as u8;
    assert(b0 == x % 256 && b1 == (x / 256) % 256 && b2 == (x / 65536) % 256 && b3 == (x
        / 16777216) % 256) by (bit_vector)
        requires
            b0 == (x & 0xff) as u8,
            b1 == ((x >> 8u32) & 0xff) as u8,
            b2 == ((x >> 16u32) & 0xff) as u8,
            b3 == (x >> 24u32) as u8,
    ;
    assert(pow256(1) == 256 && pow256(2) == 65536 && pow256(3) == 16777216) by {
        reveal_with_fuel(pow256, 4);
    }
    let r = [b0, b1, b2, b3];
    assert(r@ =~= seq![byte_of_u32(x, 0), byte_of_u32(x, 1), byte_of_u32(x, 2), byte_of_u32(x, 3)]);
    r
}

/// The contents of each child descriptor.
pub open spec fn child_views(children: Seq<&[u8]>) -> Seq<Seq<u8>> {
    Seq::new(children.len(), |i: int| children[i]@)
}

/// Sum of the children's lengths, each taken modulo 2^16 as the `as u16` cast does.
pub open spec fn sum_len16(cs: Seq<Seq<u8>>) -> int
    decreases cs.len(),
{
    if cs.len() == 0 {
        0
    } else {
        sum_len16(cs.drop_last()) + (cs.last().len() % 65536)
    }
}

/// Number of children whose descriptor-type byte (index 1) is `t`.
pub open spec fn count_type(cs: Seq<Seq<u8>>, t: u8) -> nat
    decreases cs.len(),
{
    if cs.len() == 0 {
        0
    } else {
        count_type(cs.drop_last(), t) + (if cs.last()[1] == t {
            1nat
        } else {
            0nat
        })
    }
}

/// Every child holds at least a length byte and a type byte.
pub open spec fn children_have_headers(cs: Seq<Seq<u8>>) -> bool {
    forall|i: int| 0 <= i < cs.len() ==> (#[trigger] cs[i]).len() >= 2
}

/// Sums the children's lengths onto `base` as the descriptor total-length field does.
fn total_len(base: u16, children: &[&[u8]]) -> (r: u16)
    requires
        base + sum_len16(child_views(children@)) <= u16::MAX,
    ensures
        r == base + sum_len16(child_views(children@)),
{
    let ghost cs = child_views(children@);
    let mut total = base;
    let mut i: usize = 0;
    while i < children.len()
        invariant
            cs == child_views(children@),
            0 <= i <= children@.len(),
            total == base + sum_len16(cs.take(i as int)),
            base + sum_len16(cs) <= u16::MAX,
        decreases children@.len() - i,
    {
        proof {
            assert(cs.take(i + 1).drop_last() =~= cs.take(i as int));
            lemma_sum_len16_prefix(cs, i + 1);
        }
        let l = children[i].len();
        total = total + (l % 65536) as u16;
        i = i + 1;
    }
    assert(cs.take(i as int) =~= cs);
    total
}

proof fn lemma_sum_len16_prefix(cs: Seq<Seq<u8>>, n: int)
    requires
        0 <= n <= cs.len(),
    ensures
        sum_len16(cs.take(n)) <= sum_len16(cs),
    decreases cs.len() - n,
{
    if n < cs.len() {
        lemma_sum_len16_prefix(cs, n + 1);
        assert(cs.take(n + 1).drop_last() =~= cs.take(n));
    } else {
        assert(cs.take(n) =~= cs);
    }
}

/// Counts the children of type `t`.
fn count_children(children: &[&[u8]], t: u8) -> (r: usize)
    requires
        children_have_headers(child_views(children@)),
    ensures
        r == count_type(child_views(children@), t),
{
    let ghost cs = child_views(children@);
    let mut n: usize = 0;
    let mut i: usize = 0;
    while i < children.len()
        invariant
            cs == child_views(children@),
            children_have_headers(cs),
            0 <= i <= children@.len(),
            n == count_type(cs.take(i as int), t),
            n <= i,
        decreases children@.len() - i,
    {
        proof {
            assert(cs.take(i + 1).drop_last() =~= cs.take(i as int));
            assert(cs[i as int].len() >= 2);
        }
        if children[i][1] == t {
            n = n + 1;
        }
        i = i + 1;
    }
    assert(cs.take(i as int) =~= cs);
    n
}

/// Fields of a USB device descriptor.
#[allow(non_snake_case)]
pub struct Device {
    pub bcdUSB: u16,
    pub bDeviceClass: u8,
    pub bDeviceSubClass: u8,
    pub bDeviceProtocol: u8,
    pub bMaxPacketSize0: u8,
    pub idVendor: u16,
    pub idProduct: u16,
    pub bcdDevice: u16,
    pub iManufacturer: u8,
    pub iProduct: u8,
    pub iSerialNumber: u8,
    pub bNumConfigurations: u8,
}

impl Device {
    pub const LEN: usize = 18;

    /// The 18 bytes of the device descriptor.
    pub open spec fn encoding(self) -> Seq<u8> {
        seq![
            18u8,
            1u8,
            lo_byte(self.bcdUSB),
            hi_byte(self.bcdUSB),
            self.bDeviceClass,
            self.bDeviceSubClass,
            self.bDeviceProtocol,
            self.bMaxPacketSize0,
            lo_byte(self.idVendor),
            hi_byte(self.idVendor),
            lo_byte(self.idProduct),
            hi_byte(self.idProduct),
            lo_byte(self.bcdDevice),
            hi_byte(self.bcdDevice),
            self.iManufacturer,
            self.iProduct,
            self.iSerialNumber,
            self.bNumConfigurations,
        ]
    }

    /// A device descriptor has no children.
    pub fn bytes(self, children: &[&[u8]]) -> (r: [u8; 18])
        requires
            children@.len() == 0,
        ensures
            r@ == self.encoding(),
    {
        let t = descriptor_type_device();
        let usb = le16(self.bcdUSB);
        let vendor = le16(self.idVendor);
        let product = le16(self.idProduct);
        let device = le16(self.bcdDevice);
        let r = [
            18u8,
            t,
            usb[0],
            usb[1],
            self.bDeviceClass,
            self.bDeviceSubClass,
            self.bDeviceProtocol,
            self.bMaxPacketSize0,
            vendor[0],
            vendor[1],
            product[0],
            product[1],
            device[0],
            device[1],
            self.iManufacturer,
            self.iProduct,
            self.iSerialNumber,
            self.bNumConfigurations,
        ];
        assert(r@ =~= self.encoding());
        r
    }
}

/// Fields of a USB endpoint descriptor.
#[allow(non_snake_case)]
pub struct Endpoint {
    pub bEndpointAddress: u8,
    pub bmAttributes: u8,
    pub wMaxPacketSize: u16,
    pub bInterval: u8,
}

impl Endpoint {
    pub const LEN: usize = 7;

    pub open spec fn encoding(self) -> Seq<u8> {
        seq![
            7u8,
            5u8,
            self.bEndpointAddress,
            self.bmAttributes,
            lo_byte(self.wMaxPacketSize),
            hi_byte(self.wMaxPacketSize),
            self.bInterval,
        ]
    }

    /// The 7 bytes of the endpoint descriptor; children are ignored.
    pub fn bytes(self, _children: &[&[u8]]) -> (r: [u8; 7])
        ensures
            r@ == self.encoding(),
    {
        let t = descriptor_type_endpoint();
        let mps = le16(self.wMaxPacketSize);
        let r = [7u8, t, self.bEndpointAddress, self.bmAttributes, mps[0], mps[1], self.bInterval];
        assert(r@ =~= self.encoding());
        r
    }
}

/// Fields of a USB interface descriptor.
///
/// The `bLength` and `bDescriptorType` are fixed. `bNumEndpoints` is populated from the
/// number of child endpoint descriptors.
#[allow(non_snake_case)]
pub struct Interface {
    pub bInterfaceNumber: u8,
    pub bAlternateSetting: u8,
    pub bInterfaceClass: u8,
    pub bInterfaceSubClass: u8,
    pub bInterfaceProtocol: u8,
    pub iInterface: u8,
}

impl Interface {
    pub const LEN: usize = 9;

    pub open spec fn encoding(self, children: Seq<Seq<u8>>) -> Seq<u8> {
        seq![
            9u8,
            4u8,
            self.bInterfaceNumber,
            self.bAlternateSetting,
            (count_type(children, 5) % 256) as u8,
            self.bInterfaceClass,
            self.bInterfaceSubClass,
            self.bInterfaceProtocol,
            self.iInterface,
        ]
    }

    /// The 9 bytes of the interface descriptor; `bNumEndpoints` counts the endpoint children.
    pub fn bytes(self, children: &[&[u8]]) -> (r: [u8; 9])
        requires
            children_have_headers(child_views(children@)),
            count_type(child_views(children@), 5) <= i32::MAX,
        ensures
            r@ == self.encoding(child_views(children@)),
    {
        let t = descriptor_type_interface();
        let n = count_children(children, descriptor_type_endpoint());
        let r = [
            9u8,
            t,
            self.bInterfaceNumber,
            self.bAlternateSetting,
            (n % 256) as u8,
            self.bInterfaceClass,
            self.bInterfaceSubClass,
            self.bInterfaceProtocol,
            self.iInterface,
        ];
        assert(r@ =~= self.encoding(child_views(children@)));
        r
    }
}


/// Walks the interface children of a configuration in order, as `Config::bytes` does:
/// each interface number must equal the previous one or be one more (the first is compared
/// against 0), and no interface number may be 255. Gives the last interface number seen and
/// the resulting interface count, or `None` when the numbering is refused.
pub open spec fn interface_numbering(cs: Seq<Seq<u8>>) -> Option<(u8, u8)>
    decreases cs.len(),
{
    if cs.len() == 0 {
        Some((0u8, 0u8))
    } else {
        match interface_numbering(cs.drop_last()) {
            None => None,
            Some((prev, count)) => {
                let c = cs.last();
                if c[1] == 4 {
                    let intf = c[2];
                    if (intf == prev || (prev < 255 && intf == prev + 1)) && intf < 255 {
                        Some((intf, (intf + 1) as u8))
                    } else {
                        None
                    }
                } else {
                    Some((prev, count))
                }
            },
        }
    }
}

/// Interface children carry an interface number (index 2).
pub open spec fn interfaces_have_numbers(cs: Seq<Seq<u8>>) -> bool {
    forall|i: int| 0 <= i < cs.len() && #[trigger] cs[i][1] == 4 ==> cs[i].len() >= 3
}

/// Fields of a USB configuration descriptor. `wTotalLength` and `bNumInterfaces` come from
/// the children.
#[allow(non_snake_case)]
pub struct Config {
    pub bConfigurationValue: u8,
    pub iConfiguration: u8,
    pub bmAttributes: u8,
    pub bMaxPower: u8,
}

impl Config {
    pub const LEN: usize = 9;

    pub open spec fn encoding(self, children: Seq<Seq<u8>>) -> Seq<u8> {
        let total = (9 + sum_len16(children)) as u16;
        let num_interfaces = interface_numbering(children).unwrap().1;
        seq![
            9u8,
            2u8,
            lo_byte(total),
            hi_byte(total),
            num_interfaces,
            self.bConfigurationValue,
            self.iConfiguration,
            self.bmAttributes,
            self.bMaxPower,
        ]
    }

    /// The 9 bytes of the configuration descriptor. The total length counts this descriptor
    /// and all children; the interface count is one more than the last interface number.
    pub fn bytes(self, children: &[&[u8]]) -> (r: [u8; 9])
        requires
            children_have_headers(child_views(children@)),
            interfaces_have_numbers(child_views(children@)),
            interface_numbering(child_views(children@)) is Some,
            9 + sum_len16(child_views(children@)) <= u16::MAX,
        ensures
            r@ == self.encoding(child_views(children@)),
    {
        let ghost cs = child_views(children@);
        let intf_type = descriptor_type_interface();
        let mut interface_number: u8 = 0;
        let mut num_interfaces: u8 = 0;
        let mut i: usize = 0;
        while i < children.len()
            invariant
                cs == child_views(children@),
                children_have_headers(cs),
                interfaces_have_numbers(cs),
                interface_numbering(cs) is Some,
                intf_type == 4,
                0 <= i <= children@.len(),
                interface_numbering(cs.take(i as int)) == Some((interface_number, num_interfaces)),
            decreases children@.len() - i,
        {
            proof {
                assert(cs.take(i + 1).drop_last() =~= cs.take(i as int));
                lemma_numbering_prefix(cs, i + 1);
                assert(cs[i as int].len() >= 2);
            }
            if children[i][1] == intf_type {
                proof {
                    assert(cs[i as int][1] == 4);
                }
                let intf = children[i][2];
                interface_number = intf;
                num_interfaces = intf + 1;
            }
            i = i + 1;
        }
        assert(cs.take(i as int) =~= cs);
        let total = total_len(9, children);
        let t = descriptor_type_configuration();
        let tl = le16(total);
        let r = [
            9u8,
            t,
            tl[0],
            tl[1],
            num_interfaces,
            self.bConfigurationValue,
            self.iConfiguration,
            self.bmAttributes,
            self.bMaxPower,
        ];
        assert(r@ =~= self.encoding(cs));
        r
    }
}

/// A prefix of an accepted numbering is accepted.
proof fn lemma_numbering_prefix(cs: Seq<Seq<u8>>, n: int)
    requires
        0 <= n <= cs.len(),
        interface_numbering(cs) is Some,
    ensures
        interface_numbering(cs.take(n)) is Some,
    decreases cs.len() - n,
{
    if n < cs.len() {
        lemma_numbering_prefix(cs, n + 1);
        assert(cs.take(n + 1).drop_last() =~= cs.take(n));
    } else {
        assert(cs.take(n) =~= cs);
    }
}

/// The binary object store header. `wTotalLength` and `bNumDeviceCaps` come from the children.
pub struct BinaryObjectStore {}

impl BinaryObjectStore {
    pub const LEN: usize = 5;

    pub open spec fn encoding(self, children: Seq<Seq<u8>>) -> Seq<u8> {
        let total = (5 + sum_len16(children)) as u16;
        seq![5u8, 15u8, lo_byte(total), hi_byte(total), count_type(children, 16) as u8]
    }

    /// The 5 bytes of the BOS descriptor: its total length and the number of device
    /// capability children.
    pub fn bytes(self, children: &[&[u8]]) -> (r: [u8; 5])
        requires
            children_have_headers(child_views(children@)),
            5 + sum_len16(child_views(children@)) <= u16::MAX,
            count_type(child_views(children@), 16) <= u8::MAX,
        ensures
            r@ == self.encoding(child_views(children@)),
    {
        let total = total_len(5, children);
        let caps = count_children(children, descriptor_type_device_capability());
        let t = descriptor_type_bos();
        let tl = le16(total);
        let r = [5u8, t, tl[0], tl[1], caps as u8];
        assert(r@ =~= self.encoding(child_views(children@)));
        r
    }
}

const DEVICE_CAPABILITY_TYPE_PLATFORM: u8 = 0x05;

/// The Microsoft OS 2.0 platform capability UUID, in descriptor byte order.
pub open spec fn msos_platform_uuid() -> Seq<u8> {
    seq![
        0xdfu8, 0x60u8, 0xddu8, 0xd8u8, 0x89u8, 0x45u8, 0xc7u8, 0x4cu8,
        0x9cu8, 0xd2u8, 0x65u8, 0x9du8, 0x9eu8, 0x64u8, 0x8au8, 0x9fu8,
    ]
}

/// A BOS platform capability announcing a Microsoft OS 2.0 descriptor set.
pub struct PlatformCapabilityMicrosoftOs {
    pub windows_version: u32,
    pub vendor_code: u8,
    pub alt_enum_code: u8,
    pub msos_descriptor_len: usize,
}

impl PlatformCapabilityMicrosoftOs {
    pub const LEN: usize = 28;

    pub open spec fn encoding(self) -> Seq<u8> {
        let len16 = (self.msos_descriptor_len % 65536) as u16;
        seq![28u8, 16u8, 5u8, 0u8] + msos_platform_uuid() + seq![
            byte_of_u32(self.windows_version, 0),
            byte_of_u32(self.windows_version, 1),
            byte_of_u32(self.windows_version, 2),
            byte_of_u32(self.windows_version, 3),
            lo_byte(len16),
            hi_byte(len16),
            self.vendor_code,
            self.alt_enum_code,
        ]
    }

    /// The 28 bytes of the capability; the descriptor-set length is truncated to 16 bits.
    pub fn bytes(self, _children: &[&[u8]]) -> (r: [u8; 28])
        ensures
            r@ == self.encoding(),
    {
        let t = descriptor_type_device_capability();
        let v = le32(self.windows_version);
        let l = le16((self.msos_descriptor_len % 65536) as u16);
        let r = [
            28u8,
            t,
            DEVICE_CAPABILITY_TYPE_PLATFORM,
            0,
            0xdf,
            0x60,
            0xdd,
            0xd8,
            0x89,
            0x45,
            0xc7,
            0x4c,
            0x9c,
            0xd2,
            0x65,
            0x9d,
            0x9e,
            0x64,
            0x8a,
            0x9f,
            v[0],
            v[1],
            v[2],
            v[3],
            l[0],
            l[1],
            self.vendor_code,
            self.alt_enum_code,
        ];
        assert(r@ =~= self.encoding());
        r
    }
}

const MS_OS_20_SET_HEADER_DESCRIPTOR: u8 = 0x00;
const MS_OS_20_SUBSET_HEADER_CONFIGURATION: u8 = 0x01;
const MS_OS_20_SUBSET_HEADER_FUNCTION: u8 = 0x02;
const MS_OS_20_FEATURE_COMPATBLE_ID: u8 = 0x03;
const MS_OS_20_FEATURE_REG_PROPERTY: u8 = 0x04;

/// The Microsoft OS 2.0 descriptor set header; its total length covers the children.
pub struct MicrosoftOs {
    pub windows_version: u32,
}

impl MicrosoftOs {
    pub const LEN: usize = 10;

    pub open spec fn encoding(self, children: Seq<Seq<u8>>) -> Seq<u8> {
        let total = (10 + sum_len16(children)) as u16;
        seq![
            10u8,
            0u8,
            0u8,
            0u8,
            byte_of_u32(self.windows_version, 0),
            byte_of_u32(self.windows_version, 1),
            byte_of_u32(self.windows_version, 2),
            byte_of_u32(self.windows_version, 3),
            lo_byte(total),
            hi_byte(total),
        ]
    }

    pub fn bytes(self, children: &[&[u8]]) -> (r: [u8; 10])
        requires
            10 + sum_len16(child_views(children@)) <= u16::MAX,
        ensures
            r@ == self.encoding(child_views(children@)),
    {
        let total = total_len(10, children);
        let v = le32(self.windows_version);
        let tl = le16(total);
        let r = [10u8, 0, MS_OS_20_SET_HEADER_DESCRIPTOR, 0, v[0], v[1], v[2], v[3], tl[0], tl[1]];
        assert(r@ =~= self.encoding(child_views(children@)));
        r
    }
}

/// A Microsoft OS 2.0 configuration subset header.
pub struct MicrosoftOsConfiguration {
    /// Despite the name, it doesn't correspond directly to the configuration descriptor and is 0-indexed
    pub configuration_value: u8,
}

impl MicrosoftOsConfiguration {
    pub const LEN: usize = 8;

    pub open spec fn encoding(self, children: Seq<Seq<u8>>) -> Seq<u8> {
        let total = (8 + sum_len16(children)) as u16;
        seq![8u8, 0u8, 1u8, 0u8, self.configuration_value, 0u8, lo_byte(total), hi_byte(total)]
    }

    pub fn bytes(self, children: &[&[u8]]) -> (r: [u8; 8])
        requires
            8 + sum_len16(child_views(children@)) <= u16::MAX,
        ensures
            r@ == self.encoding(child_views(children@)),
    {
        let total = total_len(8, children);
        let tl = le16(total);
        let r = [
            8u8,
            0,
            MS_OS_20_SUBSET_HEADER_CONFIGURATION,
            0,
            self.configuration_value,
            0,
            tl[0],
            tl[1],
        ];
        assert(r@ =~= self.encoding(child_views(children@)));
        r
    }
}

/// A Microsoft OS 2.0 function subset header.
pub struct MicrosoftOsFunction {
    pub first_interface: u8,
}

impl MicrosoftOsFunction {
    pub const LEN: usize = 8;

    pub open spec fn encoding(self, children: Seq<Seq<u8>>) -> Seq<u8> {
        let total = (8 + sum_len16(children)) as u16;
        seq![8u8, 0u8, 2u8, 0u8, self.first_interface, 0u8, lo_byte(total), hi_byte(total)]
    }

    pub fn bytes(self, children: &[&[u8]]) -> (r: [u8; 8])
        requires
            8 + sum_len16(child_views(children@)) <= u16::MAX,
        ensures
            r@ == self.encoding(child_views(children@)),
    {
        let total = total_len(8, children);
        let tl = le16(total);
        let r = [8u8, 0, MS_OS_20_SUBSET_HEADER_FUNCTION, 0, self.first_interface, 0, tl[0], tl[1]];
        assert(r@ =~= self.encoding(child_views(children@)));
        r
    }
}


/// `s` padded with zero bytes to eight bytes.
pub open spec fn pad8(s: Seq<u8>) -> Seq<u8> {
    Seq::new(8, |i: int| if i < s.len() { s[i] } else { 0u8 })
}

/// The Microsoft OS 2.0 compatible-ID feature descriptor.
pub struct MicrosoftOsCompatibleID {
    pub compatible_id: &'static str,
    pub sub_compatible_id: &'static str,
}

impl MicrosoftOsCompatibleID {
    pub const LEN: usize = 20;

    pub open spec fn encoding(self) -> Seq<u8> {
        seq![20u8, 0u8, 3u8, 0u8] + pad8(self.compatible_id.spec_bytes()) + pad8(
            self.sub_compatible_id.spec_bytes(),
        )
    }

    /// The 20 bytes of the descriptor; each ID is copied as UTF-8 and padded with zeros.
    pub fn bytes(self, _children: &[&[u8]]) -> (r: [u8; 20])
        requires
            self.compatible_id.spec_bytes().len() < 8,
            self.sub_compatible_id.spec_bytes().len() < 8,
        ensures
            r@ == self.encoding(),
    {
        let mut bytes: [u8; 20] = [
            20u8,
            0,
            MS_OS_20_FEATURE_COMPATBLE_ID,
            0,
            0,
            0,
            0,
            0,
            0,
            0,
            0,
            0,
            0,
            0,
            0,
            0,
            0,
            0,
            0,
            0,
        ];
        let src = self.compatible_id.as_bytes();
        let mut i: usize = 0;
        while i < src.len()
            invariant
                src@ == self.compatible_id.spec_bytes(),
                src@.len() < 8,
                0 <= i <= src@.len(),
                bytes@.len() == 20,
                bytes@.subrange(0, 4) == seq![20u8, 0u8, 3u8, 0u8],
                forall|k: int| 4 <= k < 20 ==> bytes@[k] == (if k < 4 + i { src@[k - 4] } else { 0u8 }),
            decreases src@.len() - i,
        {
            bytes[i + 4] = src[i];
            i = i + 1;
        }
        let src = self.sub_compatible_id.as_bytes();
        let ghost id = self.compatible_id.spec_bytes();
        let mut i: usize = 0;
        while i < src.len()
            invariant
                src@ == self.sub_compatible_id.spec_bytes(),
                src@.len() < 8,
                id == self.compatible_id.spec_bytes(),
                id.len() < 8,
                0 <= i <= src@.len(),
                bytes@.len() == 20,
                bytes@.subrange(0, 4) == seq![20u8, 0u8, 3u8, 0u8],
                forall|k: int| 4 <= k < 12 ==> bytes@[k] == (if k < 4 + id.len() { id[k - 4] } else { 0u8 }),
                forall|k: int| 12 <= k < 20 ==> bytes@[k] == (if k < 12 + i { src@[k - 12] } else { 0u8 }),
            decreases src@.len() - i,
        {
            bytes[i + 12] = src[i];
            i = i + 1;
        }
        assert(bytes@ =~= self.encoding());
        bytes
    }
}

/// ASCII of "DeviceInterfaceGUIDs", the registry property this descriptor sets.
const PROPERTY_NAME: [u8; 20] = [
    0x44, 0x65, 0x76, 0x69, 0x63, 0x65, 0x49, 0x6e, 0x74, 0x65, 0x72, 0x66, 0x61, 0x63, 0x65, 0x47,
    0x55, 0x49, 0x44, 0x73,
];

/// The property name as the contracts speak of it.
pub open spec fn property_name() -> Seq<u8> {
    seq![
        0x44u8, 0x65u8, 0x76u8, 0x69u8, 0x63u8, 0x65u8, 0x49u8, 0x6eu8, 0x74u8, 0x65u8,
        0x72u8, 0x66u8, 0x61u8, 0x63u8, 0x65u8, 0x47u8, 0x55u8, 0x49u8, 0x44u8, 0x73u8,
    ]
}

/// The Microsoft OS 2.0 registry-property descriptor setting `DeviceInterfaceGUIDs`.
pub struct MicrosoftOsDeviceInterfaceGUID {
    pub guid: &'static str,
}

impl MicrosoftOsDeviceInterfaceGUID {
    /// 10 header bytes, the property name and the value in UTF-16 with terminators, and a
    /// final empty string.
    pub const LEN: usize = 132;

    /// Byte `i` of the descriptor: header fields, the property name at offset 8 and the GUID
    /// at offset 52, each ASCII byte followed by a zero byte, everything else zero.
    pub open spec fn byte_at(self, i: int) -> u8 {
        let guid = self.guid.spec_bytes();
        if i == 0 {
            132u8
        } else if i == 2 {
            4u8
        } else if i == 4 {
            7u8
        } else if i == 6 {
            42u8
        } else if i == 50 {
            80u8
        } else if 8 <= i < 48 && (i - 8) % 2 == 0 {
            property_name()[(i - 8) / 2]
        } else if 52 <= i < 128 && (i - 52) % 2 == 0 {
            guid[(i - 52) / 2]
        } else {
            0u8
        }
    }

    pub open spec fn encoding(self) -> Seq<u8> {
        Seq::new(132, |i: int| self.byte_at(i))
    }

    /// The 132 bytes of the descriptor; the GUID string must be 38 bytes long.
    pub fn bytes(self, _children: &[&[u8]]) -> (r: [u8; 132])
        requires
            self.guid.spec_bytes().len() == 38,
        ensures
            r@ == self.encoding(),
    {
        let mut bytes: [u8; 132] = [0u8; 132];
        bytes[0] = 132;
        bytes[2] = MS_OS_20_FEATURE_REG_PROPERTY;
        bytes[4] = 7;  // wPropertyDataType = REG_MULTI_SZ
        bytes[6] = 42;
        let value_offset: usize = 50;
        bytes[value_offset] = 80;
        assert(PROPERTY_NAME@ =~= property_name());
        let mut i: usize = 0;
        while i < 20
            invariant
                PROPERTY_NAME@ == property_name(),
                0 <= i <= 20,
                bytes@.len() == 132,
                forall|k: int|
                    0 <= k < 132 ==> bytes@[k] == (if 8 <= k < 48 && (k - 8) % 2 == 0 && k >= 8
                        + 2 * i {
                        0u8
                    } else if 52 <= k < 128 && (k - 52) % 2 == 0 {
                        0u8
                    } else {
                        self.byte_at(k)
                    }),
            decreases 20 - i,
        {
            bytes[8 + i * 2] = PROPERTY_NAME[i];
            i = i + 1;
        }
        let src = self.guid.as_bytes();
        let mut i: usize = 0;
        while i < src.len()
            invariant
                src@ == self.guid.spec_bytes(),
                src@.len() == 38,
                value_offset == 50,
                0 <= i <= 38,
                bytes@.len() == 132,
                forall|k: int|
                    0 <= k < 132 ==> bytes@[k] == (if 52 <= k < 128 && (k - 52) % 2 == 0 && k
                        >= 52 + 2 * i {
                        0u8
                    } else {
                        self.byte_at(k)
                    }),
            decreases 38 - i,
        {
            bytes[value_offset + 2 + i * 2] = src[i];
            i = i + 1;
        }
        assert(bytes@ =~= self.encoding());
        bytes
    }
}

/// Joins a descriptor with the bytes of its children, in order, as a descriptor tree is laid
/// out on the wire.
pub fn build_descriptor(header: &[u8], children: &[&[u8]]) -> (r: Vec<u8>)
    ensures
        r@ == header@ + child_views(children@).flatten(),
{
    let ghost cs = child_views(children@);
    let mut out: Vec<u8> = Vec::new();
    let mut pos: usize = 0;
    while pos < header.len()
        invariant
            0 <= pos <= header@.len(),
            out@ == header@.subrange(0, pos as int),
        decreases header@.len() - pos,
    {
        out.push(header[pos]);
        pos = pos + 1;
        assert(out@ =~= header@.subrange(0, pos as int));
    }
    let mut child: usize = 0;
    while child < children.len()
        invariant
            cs == child_views(children@),
            0 <= child <= children@.len(),
            out@ == header@ + cs.take(child as int).flatten_alt(),
        decreases children@.len() - child,
    {
        let c = children[child];
        let ghost base = out@;
        let mut cpos: usize = 0;
        while cpos < c.len()
            invariant
                0 <= cpos <= c@.len(),
                out@ == base + c@.subrange(0, cpos as int),
            decreases c@.len() - cpos,
        {
            out.push(c[cpos]);
            cpos = cpos + 1;
            assert(out@ =~= base + c@.subrange(0, cpos as int));
        }
        proof {
            assert(cs.take(child + 1).drop_last() =~= cs.take(child as int));
            assert(c@.subrange(0, c@.len() as int) =~= c@);
            assert(out@ =~= header@ + cs.take(child + 1).flatten_alt());
        }
        child = child + 1;
    }
    proof {
        assert(cs.take(child as int) =~= cs);
        cs.lemma_flatten_and_flatten_alt_are_equivalent();
    }
    out
}


/// UTF-16 code units of one character.
pub open spec fn utf16_units(c: char) -> Seq<u16> {
    let v = (c as u32) as int;
    if v < 0x10000 {
        seq![v as u16]
    } else {
        let w = v - 0x10000;
        seq![(0xD800 + w / 1024) as u16, (0xDC00 + w % 1024) as u16]
    }
}

/// Little-endian bytes of a sequence of UTF-16 code units.
pub open spec fn units_le(units: Seq<u16>) -> Seq<u8>
    decreases units.len(),
{
    if units.len() == 0 {
        Seq::empty()
    } else {
        units_le(units.drop_last()) + seq![lo_byte(units.last()), hi_byte(units.last())]
    }
}

/// UTF-16LE encoding of a string.
pub open spec fn utf16le(s: Seq<char>) -> Seq<u8>
    decreases s.len(),
{
    if s.len() == 0 {
        Seq::empty()
    } else {
        utf16le(s.drop_last()) + units_le(utf16_units(s.last()))
    }
}

proof fn lemma_utf16le_prefix(s: Seq<char>, n: int)
    requires
        0 <= n <= s.len(),
    ensures
        utf16le(s.take(n)).len() <= utf16le(s).len(),
    decreases s.len() - n,
{
    if n < s.len() {
        lemma_utf16le_prefix(s, n + 1);
        assert(s.take(n + 1).drop_last() =~= s.take(n));
    } else {
        assert(s.take(n) =~= s);
    }
}

/// Uppercase hexadecimal digit of a nibble.
pub open spec fn hex_digit(v: u8) -> u8 {
    if v < 10 {
        (48 + v) as u8
    } else {
        (55 + v) as u8
    }
}

fn hex(b: u8) -> (r: u8)
    requires
        b < 16,
    ensures
        r == hex_digit(b),
{
    if b < 10 {
        48 + b
    } else {
        55 + b
    }
}

/// A string descriptor of `n` bytes holding the bytes `e` after its header: a length byte
/// (modulo 256), the string descriptor type, `e`, then zeros.
pub open spec fn string_raw(e: Seq<u8>, n: nat) -> Seq<u8> {
    Seq::new(n, |i: int| if i == 0 { ((2 + e.len()) % 256) as u8 } else if i == 1 { 3u8 } else if i < 2 + e.len() { e[i - 2] } else { 0u8 })
}

/// A USB string descriptor held in a buffer of `N` bytes; byte 0 gives the length in use.
pub struct StringDecriptor<const N: usize>([u8; N]);

impl<const N: usize> StringDecriptor<N> {
    /// The whole buffer.
    pub closed spec fn raw(self) -> Seq<u8> {
        self.0@
    }

    /// The descriptor listing the supported languages: US English only.
    pub fn language_list() -> (r: Self)
        requires
            N >= 4,
        ensures
            r.raw() == Seq::new(N as nat, |i: int| if i == 0 { 4u8 } else if i == 1 { 3u8 } else if i == 2 { 0x09u8 } else if i == 3 { 0x04u8 } else { 0u8 }),
    {
        let mut buf: [u8; N] = [0u8; N];
        let lang = le16(language_id_english_us());
        buf[0] = 4;
        buf[1] = descriptor_type_string();
        buf[2] = lang[0];
        buf[3] = lang[1];
        assert(buf@ =~= Seq::new(N as nat, |i: int| if i == 0 { 4u8 } else if i == 1 { 3u8 } else if i == 2 { 0x09u8 } else if i == 3 { 0x04u8 } else { 0u8 }));
        StringDecriptor(buf)
    }

    /// A string descriptor holding `s` in UTF-16LE; byte 0 is the length (modulo 256) and
    /// byte 1 the string descriptor type; the rest of the buffer is zero.
    pub fn new(s: &str) -> (r: Self)
        requires
            2 + utf16le(s@).len() <= N,
        ensures
            r.raw() == string_raw(utf16le(s@), N as nat),
    {
        let ghost e = utf16le(s@);
        let mut buf: [u8; N] = [0u8; N];
        let mut len: usize = 2;
        for c in it: s.chars()
            invariant
                e == utf16le(s@),
                2 + e.len() <= N,
                it.seq() == s@,
                0 <= it.index() <= s@.len(),
                len == 2 + utf16le(s@.take(it.index() as int)).len(),
                buf@.len() == N,
                forall|k: int| 0 <= k < N ==> buf@[k] == (if 2 <= k < len { utf16le(s@.take(it.index() as int))[k - 2] } else { 0u8 }),
        {
            proof {
                let n = it.index() as int;
                assert(s@.take(n + 1).drop_last() =~= s@.take(n));
                assert(s@.take(n + 1).last() == c);
                lemma_utf16le_prefix(s@, n + 1);
            }
            let v = c as u32;
            proof {
                let n = it.index() as int;
                vstd::utf8::char_is_scalar(c);
                assert(v <= 0x10FFFF);
                assert(utf16le(s@.take(n + 1)) == utf16le(s@.take(n)) + units_le(utf16_units(c)));
            }
            if v < 0x10000 {
                let unit = v as u16;
                proof {
                    let u = utf16_units(c);
                    assert(u =~= seq![unit]);
                    assert(u.drop_last() =~= Seq::<u16>::empty());
                    reveal_with_fuel(units_le, 2);
                    assert(units_le(u) =~= seq![lo_byte(unit), hi_byte(unit)]);
                }
                let b = le16(unit);
                buf[len] = b[0];
                buf[len + 1] = b[1];
                len = len + 2;
            } else {
                let w = v - 0x10000;
                let high = (0xD800 + w / 1024) as u16;
                let low = (0xDC00 + w % 1024) as u16;
                proof {
                    let u = utf16_units(c);
                    assert(u =~= seq![high, low]);
                    assert(u.drop_last() =~= seq![high]);
                    assert(u.drop_last().drop_last() =~= Seq::<u16>::empty());
                    reveal_with_fuel(units_le, 3);
                    assert(units_le(u) =~= seq![lo_byte(high), hi_byte(high), lo_byte(low), hi_byte(low)]);
                }
                let hb = le16(high);
                let lb = le16(low);
                buf[len] = hb[0];
                buf[len + 1] = hb[1];
                buf[len + 2] = lb[0];
                buf[len + 3] = lb[1];
                len = len + 4;
            }
        }
        proof {
            assert(s@.take(s@.len() as int) =~= s@);
        }
        buf[0] = (len % 256) as u8;
        buf[1] = descriptor_type_string();
        let r = StringDecriptor(buf);
        assert(r.raw() =~= string_raw(e, N as nat));
        r
    }

    /// A string descriptor spelling `s` in uppercase hexadecimal, two UTF-16 characters per
    /// byte, high nibble first.
    pub fn new_hex(s: &[u8]) -> (r: Self)
        requires
            N >= 2,
            s@.len() > 0 ==> 4 * s@.len() < N,
        ensures
            r.raw() == Seq::new(N as nat, |i: int| if i == 0 { ((2 + 4 * s@.len()) % 256) as u8 } else if i == 1 { 3u8 } else if 2 <= i < 2 + 4 * s@.len() && (i - 2) % 4 == 0 { hex_digit(s@[(i - 2) / 4] / 16) } else if 2 <= i < 2 + 4 * s@.len() && (i - 2) % 4 == 2 { hex_digit(s@[(i - 2) / 4] % 16) } else { 0u8 }),
    {
        let mut buf: [u8; N] = [0u8; N];
        let mut len: usize = 2;
        let mut j: usize = 0;
        while j < s.len()
            invariant
                N >= 2,
                s@.len() > 0 ==> 4 * s@.len() < N,
                0 <= j <= s@.len(),
                len == 2 + 4 * j,
                buf@.len() == N,
                forall|k: int| 0 <= k < N ==> buf@[k] == (if 2 <= k < len && (k - 2) % 4 == 0 { hex_digit(s@[(k - 2) / 4] / 16) } else if 2 <= k < len && (k - 2) % 4 == 2 { hex_digit(s@[(k - 2) / 4] % 16) } else { 0u8 }),
            decreases s@.len() - j,
        {
            let b = s[j];
            assert(b >> 4u8 == b / 16 && b & 0x0fu8 == b % 16) by (bit_vector);
            buf[len] = hex(b >> 4u8);
            buf[len + 2] = hex(b & 0x0fu8);
            len = len + 4;
            j = j + 1;
        }
        buf[0] = (len % 256) as u8;
        buf[1] = descriptor_type_string();
        let r = StringDecriptor(buf);
        assert(r.raw() =~= Seq::new(N as nat, |i: int| if i == 0 { ((2 + 4 * s@.len()) % 256) as u8 } else if i == 1 { 3u8 } else if 2 <= i < 2 + 4 * s@.len() && (i - 2) % 4 == 0 { hex_digit(s@[(i - 2) / 4] / 16) } else if 2 <= i < 2 + 4 * s@.len() && (i - 2) % 4 == 2 { hex_digit(s@[(i - 2) / 4] % 16) } else { 0u8 }));
        r
    }

    /// The descriptor's bytes: the buffer up to the length in byte 0.
    pub fn bytes(&self) -> (r: &[u8])
        requires
            N > 0,
            self.raw()[0] <= N,
        ensures
            r@ == self.raw().subrange(0, self.raw()[0] as int),
    {
        let n = self.0[0] as usize;
        let whole: &[u8] = self.0.as_slice();
        vstd::slice::slice_subrange(whole, 0, n)
    }
}

/// Every child shorter than 2^16 bytes.
pub open spec fn children_fit_u16(cs: Seq<Seq<u8>>) -> bool {
    forall|i: int| 0 <= i < cs.len() ==> (#[trigger] cs[i]).len() < 65536
}

/// With children shorter than 2^16 bytes, the summed lengths are the length of the
/// children laid out one after another.
pub proof fn lemma_sum_len16_is_flat_len(cs: Seq<Seq<u8>>)
    requires
        children_fit_u16(cs),
    ensures
        sum_len16(cs) == cs.flatten().len(),
    decreases cs.len(),
{
    if cs.len() > 0 {
        lemma_sum_len16_is_flat_len(cs.drop_last());
        cs.lemma_flatten_and_flatten_alt_are_equivalent();
        cs.drop_last().lemma_flatten_and_flatten_alt_are_equivalent();
        assert(cs.last().len() % 65536 == cs.last().len());
    }
}

/// The little-endian `u16` stored at `i` and `i + 1`.
pub open spec fn u16_at(s: Seq<u8>, i: int) -> int {
    s[i] as int + 256 * s[i + 1] as int
}

proof fn lemma_lo_hi(x: u16)
    ensures
        lo_byte(x) as int + 256 * hi_byte(x) as int == x,
{
}

/// Law: the total length a configuration descriptor announces is the length of the whole
/// tree laid out by [`build_descriptor`]: the configuration descriptor and all its children.
pub proof fn law_config_total_length(c: Config, cs: Seq<Seq<u8>>)
    requires
        children_fit_u16(cs),
        interface_numbering(cs) is Some,
        9 + sum_len16(cs) <= u16::MAX,
    ensures
        u16_at(c.encoding(cs), 2) == (c.encoding(cs) + cs.flatten()).len(),
{
    lemma_sum_len16_is_flat_len(cs);
    lemma_lo_hi((9 + sum_len16(cs)) as u16);
}

/// Law: the total length a BOS descriptor announces is the length of the whole store.
pub proof fn law_bos_total_length(b: BinaryObjectStore, cs: Seq<Seq<u8>>)
    requires
        children_fit_u16(cs),
        5 + sum_len16(cs) <= u16::MAX,
    ensures
        u16_at(b.encoding(cs), 2) == (b.encoding(cs) + cs.flatten()).len(),
{
    lemma_sum_len16_is_flat_len(cs);
    lemma_lo_hi((5 + sum_len16(cs)) as u16);
}

/// Law: the total length a Microsoft OS 2.0 descriptor set (or one of its subsets)
/// announces is the length of the whole set (or subset).
pub proof fn law_msos_total_length(m: MicrosoftOs, c: MicrosoftOsConfiguration, f: MicrosoftOsFunction, cs: Seq<Seq<u8>>)
    requires
        children_fit_u16(cs),
        10 + sum_len16(cs) <= u16::MAX,
    ensures
        u16_at(m.encoding(cs), 8) == (m.encoding(cs) + cs.flatten()).len(),
        u16_at(c.encoding(cs), 6) == (c.encoding(cs) + cs.flatten()).len(),
        u16_at(f.encoding(cs), 6) == (f.encoding(cs) + cs.flatten()).len(),
{
    lemma_sum_len16_is_flat_len(cs);
    lemma_lo_hi((10 + sum_len16(cs)) as u16);
    lemma_lo_hi((8 + sum_len16(cs)) as u16);
}

/// Law: every fixed-size descriptor starts with its own length.
pub proof fn law_length_byte(d: Device, e: Endpoint, i: Interface, c: Config, p: PlatformCapabilityMicrosoftOs, cs: Seq<Seq<u8>>)
    ensures
        d.encoding()[0] == d.encoding().len(),
        e.encoding()[0] == e.encoding().len(),
        i.encoding(cs)[0] == i.encoding(cs).len(),
        c.encoding(cs)[0] == c.encoding(cs).len(),
        p.encoding()[0] == p.encoding().len(),
{
}

/// Law: a string descriptor built from a string holds the string in UTF-16LE right after
/// its two header bytes, and its length byte covers exactly those bytes when they fit in
/// one byte.
pub proof fn law_string_descriptor_length(s: Seq<char>, n: nat)
    requires
        2 + utf16le(s).len() < 256,
        2 + utf16le(s).len() <= n,
    ensures
        string_raw(utf16le(s), n)[0] == 2 + utf16le(s).len(),
        string_raw(utf16le(s), n).subrange(2, string_raw(utf16le(s), n)[0] as int) == utf16le(s),
{
    let e = utf16le(s);
    let raw = string_raw(e, n);
    assert(raw.subrange(2, raw[0] as int) =~= e);
}

} // verus!
