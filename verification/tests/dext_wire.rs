use core::mem::size_of;
use openmk3::dext_wire::{
    map_kr, MaschineBulkOut, MaschineDeviceState, MaschineHidInEvent, MaschineHidOut,
    MaschineOpenIn, MaschineOpenOut, MASCHINE_BULK_FRAME_MAX, MASCHINE_HID_REPORT_MAX,
};

#[test]
fn open_structs_sized() {
    assert_eq!(size_of::<MaschineOpenIn>(), 8);
    assert_eq!(size_of::<MaschineOpenOut>(), 16);
}

#[test]
fn hid_out_is_516() {
    assert_eq!(size_of::<MaschineHidOut>(), 4 + MASCHINE_HID_REPORT_MAX);
}

#[test]
fn bulk_out_is_524296() {
    assert_eq!(size_of::<MaschineBulkOut>(), 4 + 4 + MASCHINE_BULK_FRAME_MAX);
}

#[test]
fn device_state_sized() {
    assert_eq!(size_of::<MaschineDeviceState>(), 14);
}

#[test]
fn hid_in_event_sized() {
    assert_eq!(size_of::<MaschineHidInEvent>(), 80);
}

#[test]
fn kern_return_codes_map_to_results() {
    assert_eq!(map_kr(0), Ok(()));
    assert_eq!(map_kr(-536870206), Err("IOKit error 0xe00002c2".to_string()));
    assert_eq!(map_kr(1), Err("IOKit error 0x00000001".to_string()));
}
