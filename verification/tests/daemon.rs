use openmk3::daemon::ipc::{BrowseArgs, Op};
use openmk3::daemon::osc::{event_message, event_packet, osc_command, osc_verb, OscVerb};
use openmk3::daemon::paths::{
    default_root_candidates, index_db_path, join, komplete_db_candidate, plugin_host_path,
    runtime_dir, socket_path, state_dir,
};
use openmk3::daemon::session::{Dispatch, Route};
use openmk3::event::{AnalogKnob, Event, PadPhase};

#[test]
fn browse_defaults_to_a_hundred_rows() {
    let args = BrowseArgs { text: Some("lead".into()), vendor: None, type_filter: Some("Bass".into()), limit: None };
    let q = args.to_query();
    assert_eq!(q.text.as_deref(), Some("lead"));
    assert_eq!(q.vendor, None);
    assert_eq!(q.type_filter.as_deref(), Some("Bass"));
    assert_eq!(q.limit, Some(100));
    let q = BrowseArgs { text: None, vendor: None, type_filter: None, limit: Some(5) }.to_query();
    assert_eq!(q.limit, Some(5));
    assert!(matches!(Op::Load { preset_id: 3 }, Op::Load { preset_id: 3 }));
}

#[test]
fn events_become_osc_messages() {
    let m = event_message(&Event::Pad { pad: 3, pressure: 0x4100, velocity: Some(64), phase: PadPhase::Attack }).unwrap();
    assert_eq!(m.addr, "/mk3/pad/3/down");
    assert_eq!(m.args, vec![0x4100, 64]);
    let m = event_message(&Event::Pad { pad: 15, pressure: 7, velocity: None, phase: PadPhase::Release }).unwrap();
    assert_eq!((m.addr.as_str(), m.args), ("/mk3/pad/15/up", vec![7]));
    let m = event_message(&Event::Pad { pad: 0, pressure: 9, velocity: None, phase: PadPhase::Pressure }).unwrap();
    assert_eq!(m.addr, "/mk3/pad/0/pressure");
    let m = event_message(&Event::Button { bit: 42, pressed: false }).unwrap();
    assert_eq!((m.addr.as_str(), m.args.len()), ("/mk3/button/42/up", 0));
    let m = event_message(&Event::MacroEncoder { index: 7, delta: -3, absolute: 1000 }).unwrap();
    assert_eq!((m.addr.as_str(), m.args), ("/mk3/encoder/macro/7", vec![-3, 1000]));
    let m = event_message(&Event::MasterEncoder { delta: 2, absolute: 5 }).unwrap();
    assert_eq!((m.addr.as_str(), m.args), ("/mk3/encoder/master", vec![2, 5]));
    let m = event_message(&Event::TouchStrip { position: 100, pressure: 20 }).unwrap();
    assert_eq!((m.addr.as_str(), m.args), ("/mk3/touchstrip", vec![100, 20]));
    let m = event_message(&Event::TouchStripReleased).unwrap();
    assert_eq!(m.addr, "/mk3/touchstrip/release");
    let m = event_message(&Event::Analog { which: AnalogKnob::MasterVolume, value: 512 }).unwrap();
    assert_eq!((m.addr.as_str(), m.args), ("/mk3/analog/MasterVolume", vec![512]));
}

#[test]
fn daemon_paths_follow_the_environment() {
    assert_eq!(runtime_dir(&None), "/tmp");
    assert_eq!(runtime_dir(&Some("/run/user/501".into())), "/run/user/501");
    assert_eq!(socket_path(&None), "/tmp/maschined.sock");
    assert_eq!(socket_path(&Some("/run/".into())), "/run/maschined.sock");
    assert_eq!(state_dir(&None), "/tmp/maschined");
    assert_eq!(state_dir(&Some("/Users/a".into())), "/Users/a/Library/Application Support/maschined");
    assert_eq!(index_db_path(&None), "/tmp/maschined/index.sqlite");
    assert_eq!(plugin_host_path(&Some("/opt/host".into())), "/opt/host");
    assert_eq!(
        plugin_host_path(&None),
        "pluginhost/build/maschine-pluginhost_artefacts/maschine-pluginhost"
    );
    assert_eq!(join("", "a"), "a");
    assert_eq!(
        default_root_candidates(&Some("/Users/a".into())),
        vec![
            "/Library/Application Support/Native Instruments".to_string(),
            "/Users/a/Documents/Native Instruments/User Content".to_string(),
            "/Users/a/Library/Application Support/Native Instruments".to_string(),
        ]
    );
    assert_eq!(default_root_candidates(&None).len(), 1);
    assert_eq!(komplete_db_candidate(&None), None);
    assert_eq!(
        komplete_db_candidate(&Some("/h".into())).unwrap(),
        "/h/Library/Application Support/Native Instruments/Komplete Kontrol/komplete.db3"
    );
}

#[test]
fn replies_reach_the_waiting_request() {
    let mut d: Dispatch<&str> = Dispatch::new();
    let a = d.register("first");
    let b = d.register("second");
    assert_eq!((a, b), (1, 2));
    assert!(matches!(d.route(0), Route::Event));
    assert!(matches!(d.route(2), Route::Reply("second")));
    assert!(matches!(d.route(2), Route::Unmatched));
    assert!(matches!(d.route(1), Route::Reply("first")));
    assert!(matches!(d.route(7), Route::Unmatched));
}

#[test]
fn event_packets_use_the_osc_layout() {
    let b = event_packet(&Event::MacroEncoder { index: 7, delta: -3, absolute: 1000 }).unwrap();
    let mut expected = b"/mk3/encoder/macro/7".to_vec();
    expected.extend_from_slice(&[0, 0, 0, 0]);
    expected.extend_from_slice(b",ii\0");
    expected.extend_from_slice(&[0xff, 0xff, 0xff, 0xfd, 0x00, 0x00, 0x03, 0xe8]);
    assert_eq!(b, expected);
    let r = event_packet(&Event::TouchStripReleased).unwrap();
    assert_eq!(r, b"/mk3/touchstrip/release\0,\0\0\0".to_vec());
    assert!(event_packet(&Event::Raw(openmk3::proto::hid_in::InReport::Pads(
        openmk3::proto::hid_in::PadsReport { samples: vec![] }
    )))
    .is_none());
}

fn osc_datagram(addr: &str) -> Vec<u8> {
    let msg = rosc::OscMessage { addr: addr.to_string(), args: vec![rosc::OscType::Int(3)] };
    rosc::encoder::encode(&rosc::OscPacket::Message(msg)).unwrap()
}

#[test]
fn osc_commands_are_decoded_from_datagrams() {
    assert_eq!(osc_command(&osc_datagram("/mk3/led/pad")), Some(OscVerb::PadLed));
    assert_eq!(osc_command(&osc_datagram("/mk3/led/button")), Some(OscVerb::ButtonLed));
    assert_eq!(osc_command(&osc_datagram("/mk3/display/1/image")), Some(OscVerb::DisplayImage(1)));
    assert_eq!(osc_command(&osc_datagram("/mk3/other")), Some(OscVerb::Other));
    assert_eq!(osc_command(b"not osc"), None);
    assert_eq!(osc_command(&[]), None);
    let bundle = rosc::OscPacket::Bundle(rosc::OscBundle {
        timetag: rosc::OscTime { seconds: 0, fractional: 1 },
        content: vec![],
    });
    assert_eq!(osc_command(&rosc::encoder::encode(&bundle).unwrap()), None);
}

#[test]
fn osc_verbs_match_whole_addresses() {
    assert_eq!(osc_verb("/mk3/display/0/image"), OscVerb::DisplayImage(0));
    assert_eq!(osc_verb("/mk3/led/pad/"), OscVerb::Other);
    assert_eq!(osc_verb(""), OscVerb::Other);
}
