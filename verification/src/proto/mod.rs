//! Wire-format parsers and encoders for the Maschine Mk3 USB/HID protocol.
pub mod types;
pub mod hid_in;
pub mod hid_out;
pub mod display;
