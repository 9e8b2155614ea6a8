pub mod buf;
pub mod descriptors;
mod usb_consts;
pub mod control;
pub mod endpoint;
pub mod events;
pub mod viking;
pub mod device;
pub mod i2c;
pub mod spi;
pub mod gpio;
pub mod onewire;
pub mod sercom;
