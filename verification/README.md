# viking_firmware

Firmware logic for [Viking](https://github.com/signalspec/viking) USB adapters, verified
with Verus. A host sends requests over a USB bulk endpoint; each request is a string of
steps (delays and commands addressed to numbered resources such as GPIO pins, I2C and SPI
controllers and LEDs), and the device answers with a status byte and the bytes the commands
produced. Resources are configured into modes through vendor control requests, and level
interrupts report events over a second bulk endpoint.

## Layout

- `src/` — the verified library:
  - `buf` — request reader and response writer, varint decoding;
  - `descriptors` — USB device, configuration, BOS, Microsoft OS 2.0 and string
    descriptors, laid out byte for byte;
  - `control` — SETUP packet parsing, standard requests, control IN packetisation;
  - `endpoint` — endpoint descriptor RAM, packet-size words, endpoint configuration and the
    USB interrupt's bookkeeping;
  - `device` — the device's answers to descriptor, configuration, interface and vendor
    requests;
  - `viking` — request steps, resource/mode bookkeeping, the resource descriptor and the
    bulk framing;
  - `events` — the event buffer;
  - `i2c`, `spi`, `gpio`, `onewire`, `sercom` — the resource modes, as state machines and
    decision functions that a board's hardware layer drives;
  - `usb_consts` — the USB constants taken from the `usb` crate.
- `tests/` — tests on concrete values, one file per module.
- `app/` — firmware for the Arduino Zero (SAM D21): the board's resource table, the USB
  tasks and the register-level side of each mode, all driven by the library's decisions.

Each public function states its result exactly in its `ensures`; the laws that relate
several functions are public proof functions next to them (`law_*`).
