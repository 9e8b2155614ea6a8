use vstd::prelude::*;

verus! {

/// Reads `usb::descriptor_type::DEVICE`, which the `usb` crate defines as 1.
#[verifier::external_body]
pub(crate) fn descriptor_type_device() -> (r: u8)
    ensures
        r == 1,
{
    usb::descriptor_type::DEVICE
}

/// Reads `usb::descriptor_type::CONFIGURATION`, which the `usb` crate defines as 2.
#[verifier::external_body]
pub(crate) fn descriptor_type_configuration() -> (r: u8)
    ensures
        r == 2,
{
    usb::descriptor_type::CONFIGURATION
}

/// Reads `usb::descriptor_type::STRING`, which the `usb` crate defines as 3.
#[verifier::external_body]
pub(crate) fn descriptor_type_string() -> (r: u8)
    ensures
        r == 3,
{
    usb::descriptor_type::STRING
}

/// Reads `usb::descriptor_type::INTERFACE`, which the `usb` crate defines as 4.
#[verifier::external_body]
pub(crate) fn descriptor_type_interface() -> (r: u8)
    ensures
        r == 4,
{
    usb::descriptor_type::INTERFACE
}

/// Reads `usb::descriptor_type::ENDPOINT`, which the `usb` crate defines as 5.
#[verifier::external_body]
pub(crate) fn descriptor_type_endpoint() -> (r: u8)
    ensures
        r == 5,
{
    usb::descriptor_type::ENDPOINT
}

/// Reads `usb::descriptor_type::BOS`, which the `usb` crate defines as 15.
#[verifier::external_body]
pub(crate) fn descriptor_type_bos() -> (r: u8)
    ensures
        r == 15,
{
    usb::descriptor_type::BOS
}

/// Reads `usb::descriptor_type::DEVICE_CAPABILITY`, which the `usb` crate defines as 16.
#[verifier::external_body]
pub(crate) fn descriptor_type_device_capability() -> (r: u8)
    ensures
        r == 16,
{
    usb::descriptor_type::DEVICE_CAPABILITY
}

/// Reads `usb::language_id::ENGLISH_US`, which the `usb` crate defines as 0x0409.
#[verifier::external_body]
pub(crate) fn language_id_english_us() -> (r: u16)
    ensures
        r == 0x0409,
{
    usb::language_id::ENGLISH_US
}

/// Reads `usb::standard_request::GET_STATUS`, which the `usb` crate defines as 0.
#[verifier::external_body]
pub(crate) fn standard_request_get_status() -> (r: u8)
    ensures
        r == 0,
{
    usb::standard_request::GET_STATUS
}

/// Reads `usb::standard_request::SET_ADDRESS`, which the `usb` crate defines as 5.
#[verifier::external_body]
pub(crate) fn standard_request_set_address() -> (r: u8)
    ensures
        r == 5,
{
    usb::standard_request::SET_ADDRESS
}

/// Reads `usb::standard_request::GET_DESCRIPTOR`, which the `usb` crate defines as 6.
#[verifier::external_body]
pub(crate) fn standard_request_get_descriptor() -> (r: u8)
    ensures
        r == 6,
{
    usb::standard_request::GET_DESCRIPTOR
}

/// Reads `usb::standard_request::SET_CONFIGURATION`, which the `usb` crate defines as 9.
#[verifier::external_body]
pub(crate) fn standard_request_set_configuration() -> (r: u8)
    ensures
        r == 9,
{
    usb::standard_request::SET_CONFIGURATION
}

/// Reads `usb::standard_request::SET_INTERFACE`, which the `usb` crate defines as 11.
#[verifier::external_body]
pub(crate) fn standard_request_set_interface() -> (r: u8)
    ensures
        r == 11,
{
    usb::standard_request::SET_INTERFACE
}

} // verus!
