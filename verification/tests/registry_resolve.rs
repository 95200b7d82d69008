use openmk3::daemon::load::{load_target, state_base64, LoadRefusal};
use openmk3::nks::plid::NksPluginId;
use openmk3::registry::au::fourcc;
use openmk3::registry::resolve::{AuPlugin, PluginEntry, PluginKey, Registry, Vst3Plugin};
use openmk3::registry::vst3::{cid_splits_char, parse_cid, plugin_from_module, ClassInfo};

fn vst3(bundle: &str, uid: [u32; 4]) -> Vst3Plugin {
    Vst3Plugin {
        bundle: bundle.to_string(),
        name: "Massive X".to_string(),
        vendor: "Native Instruments".to_string(),
        class_uid: uid,
        categories: vec!["Audio Module Class".to_string(), "Instrument".to_string()],
    }
}

fn au(name: &str, ty: u32, subtype: u32, manu: u32) -> AuPlugin {
    AuPlugin { ty, subtype, manufacturer: manu, name: name.to_string(), manufacturer_name: "NI".to_string() }
}

#[test]
fn plugin_keys_spell_uids_and_codes() {
    assert_eq!(PluginKey::from_vst3_uid([0x11223344, 0x55667788, 0xaabbccdd, 0x10203040]).0,
        "vst3:1122334455667788aabbccdd10203040");
    assert_eq!(PluginKey::from_au(0x61756d75, 0x4e494d58, 0x2d4e492d).0, "au:aumu:NIMX:-NI-");
    assert_eq!(PluginKey::from_au(1, 0x41424344, 0xff).0, "au:\u{0}\u{0}\u{0}\u{1}:ABCD:\u{0}\u{0}\u{0}\u{ff}");
    assert_eq!(PluginKey::from_vst2(0xabc).0, "vst2:00000abc");
}

#[test]
fn resolve_finds_registered_plugins_by_plid() {
    let uid = [0x11223344u32, 0x55667788, 0xaabbccdd, 0x10203040];
    let r = Registry::scan(
        vec![vst3("/old/Massive X.vst3", uid), vst3("/new/Massive X.vst3", uid)],
        vec![au("Massive X", 1, 2, 3)],
    );
    assert_eq!(r.len(), 2);
    assert!(!r.is_empty());
    let plid = NksPluginId::Vst3 {
        uid: [0x11223344, 0x55667788u32 as i32, 0xaabbccddu32 as i32, 0x10203040],
        name: None,
    };
    match r.resolve(&plid) {
        Some(PluginEntry::Vst3(v)) => assert_eq!(v.bundle, "/new/Massive X.vst3"),
        other => panic!("got {other:?}"),
    }
    let aplid = NksPluginId::AudioUnit { ty: 1, subtype: 2, manufacturer: 3, name: None };
    assert!(matches!(r.resolve(&aplid), Some(PluginEntry::AudioUnit(a)) if a.name == "Massive X"));
    assert!(r.resolve(&NksPluginId::Vst2 { magic: 1 }).is_none());
    assert!(r.resolve(&NksPluginId::Unknown).is_none());
    assert_eq!(r.bundles(), vec!["/new/Massive X.vst3".to_string()]);
    assert!(Registry::new().is_empty());
}

#[test]
fn load_target_picks_the_vst3_bundle() {
    let uid = [1u32, 2, 3, 4];
    let r = Registry::scan(vec![vst3("/a.vst3", uid)], vec![au("Synth", 5, 6, 7)]);
    let plid = NksPluginId::Vst3 { uid: [1, 2, 3, 4], name: None };
    assert_eq!(load_target(&r, &plid), Ok("/a.vst3".to_string()));
    let aplid = NksPluginId::AudioUnit { ty: 5, subtype: 6, manufacturer: 7, name: None };
    assert_eq!(load_target(&r, &aplid), Err(LoadRefusal::AudioUnit("Synth".to_string())));
    assert_eq!(load_target(&r, &NksPluginId::Unknown), Err(LoadRefusal::NotInstalled));
    let other = NksPluginId::Vst3 { uid: [4, 3, 2, 1], name: None };
    assert_eq!(load_target(&r, &other), Err(LoadRefusal::NotInstalled));
}

#[test]
fn state_is_standard_padded_base64() {
    assert_eq!(state_base64(b""), "");
    assert_eq!(state_base64(b"f"), "Zg==");
    assert_eq!(state_base64(b"fo"), "Zm8=");
    assert_eq!(state_base64(b"foo"), "Zm9v");
    assert_eq!(state_base64(b"foobar"), "Zm9vYmFy");
    assert_eq!(state_base64(&[0xfb, 0xff]), "+/8=");
}

#[test]
fn class_ids_parse_as_four_big_endian_words() {
    assert_eq!(parse_cid("5653545342444D4D4153534956455800"), Some([0x56535453, 0x42444D4D, 0x41535349, 0x56455800]));
    assert_eq!(parse_cid("0x0x5653545342444d4d4153534956455800"), Some([0x56535453, 0x42444d4d, 0x41535349, 0x56455800]));
    assert_eq!(parse_cid("+6535453+4244D4D4153534956455800"), Some([0x06535453, 0x04244D4D, 0x41535349, 0x56455800]));
    assert_eq!(parse_cid("5653545342444D4D415353495645580"), None);
    assert_eq!(parse_cid("5653545342444D4D41535349564558zz"), None);
    assert_eq!(parse_cid("-653545342444D4D4153534956455800"), None);
    assert!(!cid_splits_char("5653545342444D4D4153534956455800"));
    assert!(cid_splits_char("5653545é42444D4D415353495645580"));
}

#[test]
fn four_char_codes_are_big_endian() {
    assert_eq!(fourcc("aumu"), Some(0x61756d75));
    assert_eq!(fourcc("-NI-"), Some(0x2d4e492d));
    assert_eq!(fourcc("abc"), None);
    assert_eq!(fourcc("abcde"), None);
    assert_eq!(fourcc("é12"), Some(0xc3a93132));
}

#[test]
fn auval_listing_lines_become_audio_units() {
    let text = "--\n  \naumu  NIMX  -NI-  -  Native Instruments: Massive X\r\naufx dely appl - No colon here\nshort line here\nbad NIMX -NI- x\n";
    let units = openmk3::registry::au::parse_auval(text);
    assert_eq!(units.len(), 2);
    assert_eq!((units[0].ty, units[0].subtype, units[0].manufacturer), (0x61756d75, 0x4e494d58, 0x2d4e492d));
    assert_eq!(units[0].manufacturer_name, "Native Instruments");
    assert_eq!(units[0].name, "Massive X");
    assert_eq!(units[1].ty, 0x61756678);
    assert_eq!(units[1].manufacturer_name, "");
    assert_eq!(units[1].name, "No colon here");
    assert!(openmk3::registry::au::parse_auval("").is_empty());
    // Without the `-` column the names follow the codes directly; a
    // manufacturer code starting with `-` is kept.
    let units = openmk3::registry::au::parse_auval("aufx bpas appl Apple: AUBandpass\naumu abcd -NI- -x: y");
    assert_eq!(units.len(), 2);
    assert_eq!((units[0].manufacturer_name.as_str(), units[0].name.as_str()), ("Apple", "AUBandpass"));
    assert_eq!((units[1].manufacturer_name.as_str(), units[1].name.as_str()), ("-x", "y"));
}

#[test]
fn module_info_offers_its_first_audio_module() {
    let class = |name: &str, category: &str, cid: &str| ClassInfo {
        name: name.to_string(),
        category: category.to_string(),
        cid: cid.to_string(),
        sub_categories: vec!["Instrument".to_string(), "Synth".to_string()],
    };
    let classes = vec![
        class("Controller", "Component Controller Class", "00000000000000000000000000000001"),
        class("Massive X", "Audio Module Class", "5653545342444D4D4153534956455800"),
        class("Other", "Audio Module Class", "00000000000000000000000000000002"),
    ];
    let p = plugin_from_module(&"/L/Massive X.vst3".to_string(), &"NI".to_string(), &classes).unwrap();
    assert_eq!(p.name, "Massive X");
    assert_eq!(p.vendor, "NI");
    assert_eq!(p.class_uid, [0x56535453, 0x42444D4D, 0x41535349, 0x56455800]);
    assert_eq!(p.categories, vec!["Audio Module Class", "Instrument", "Synth"]);
    let bad = vec![class("X", "Audio Module Class", "nope"), class("Y", "Audio Module Class", "00000000000000000000000000000002")];
    assert!(plugin_from_module(&"/b".to_string(), &"V".to_string(), &bad).is_none());
    assert!(plugin_from_module(&"/b".to_string(), &"V".to_string(), &vec![]).is_none());
}
