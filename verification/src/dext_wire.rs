//! Wire structures shared with the macOS DriverKit extension: external
//! method selectors, limits, flags, and the payload layouts, whose sizes
//! match the extension's packed C structures.
use vstd::prelude::*;
use crate::text::{hex8, push_hex};

verus! {

/// External method selectors.
pub const K_SEL_OPEN: u32 = 0;
pub const K_SEL_CLOSE: u32 = 1;
pub const K_SEL_REGISTER_HID_CALLBACK: u32 = 2;
pub const K_SEL_REGISTER_DISPLAY_CALLBACK: u32 = 3;
pub const K_SEL_HID_OUT_REPORT: u32 = 4;
pub const K_SEL_BULK_OUT: u32 = 5;
pub const K_SEL_DEVICE_STATE: u32 = 6;
pub const K_SEL_ABORT: u32 = 7;
pub const K_MASCHINE_SELECTOR_COUNT: u32 = 8;

pub const MASCHINE_IPC_VERSION: u32 = 1;
pub const MASCHINE_HID_REPORT_MAX: usize = 512;
pub const MASCHINE_BULK_FRAME_MAX: usize = 524_288;

/// `K_SEL_OPEN` flags.
pub const OPEN_FLAG_WANT_DISPLAY: u32 = 1;
pub const OPEN_FLAG_WANT_HID: u32 = 2;

/// Arguments of `K_SEL_ABORT`.
pub const ABORT_ALL: u64 = 0;
pub const ABORT_HID_OUT: u64 = 1;
pub const ABORT_DISPLAY: u64 = 2;

/// `K_SEL_OPEN` input.
#[derive(Clone, Copy)]
pub struct MaschineOpenIn {
    pub client_version: u32,
    pub flags: u32,
}

/// `K_SEL_OPEN` output.
#[derive(Clone, Copy)]
pub struct MaschineOpenOut {
    pub dext_version: u32,
    pub vendor_id: u32,
    pub product_id: u32,
    pub interface_number: u8,
    pub pad: [u8; 3],
}

/// HID OUT report; `data[..length]` is sent.
#[derive(Clone, Copy)]
pub struct MaschineHidOut {
    pub length: u32,
    pub data: [u8; MASCHINE_HID_REPORT_MAX],
}

/// Display frame; `data[..length]` is sent, `seq` is echoed in the
/// completion.
#[derive(Clone, Copy)]
pub struct MaschineBulkOut {
    pub length: u32,
    pub seq: u32,
    pub data: [u8; MASCHINE_BULK_FRAME_MAX],
}

/// Device descriptor summary.
#[derive(Clone, Copy)]
pub struct MaschineDeviceState {
    pub vendor_id: [u8; 2],
    pub product_id: [u8; 2],
    pub b_interface_number: u8,
    pub ep_in_addr: u8,
    pub ep_out_addr: u8,
    pub ep_bulk_addr: u8,
    pub in_max_packet: u16,
    pub out_max_packet: u16,
    pub bulk_max_packet: u16,
}

/// HID IN callback payload; `data[..length]` is the raw report.
#[derive(Clone, Copy)]
pub struct MaschineHidInEvent {
    pub length: u32,
    pub seq: u32,
    pub timestamp: u64,
    pub data: [u8; 64],
}

/// The text of a failed IOKit call: `IOKit error 0x` and the return code as
/// eight hexadecimal digits.
pub open spec fn kern_error_text(kr: i32) -> Seq<char> {
    "IOKit error 0x"@ + hex8(kr as u32)
}

/// An IOKit return code as a result: success for `KERN_SUCCESS` (0), else
/// the error text.
pub fn map_kr(kr: i32) -> (r: Result<(), String>)
    ensures
        kr == 0 ==> r is Ok,
        kr != 0 ==> (r matches Err(m) && m@ == kern_error_text(kr)),
{
    if kr == 0 {
        Ok(())
    } else {
        proof {
            reveal_strlit("IOKit error 0x");
        }
        let mut m = "IOKit error 0x".to_string();
        push_hex(&mut m, (kr as u32) as u64, 8);
        Err(m)
    }
}

} // verus!
