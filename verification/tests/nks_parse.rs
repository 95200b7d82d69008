use openmk3::nks::plid::{classify, NksPluginId, PlidFields};
use openmk3::nks::riff::{frame_metadata, layout, metadata_in_order, walk_niks, Chunk, MetaKind, NksError};
use serde_json::{Map as JsonMap, Value};

fn riff_le(tag: &[u8; 4], body: &[u8]) -> Vec<u8> {
    let mut payload = Vec::with_capacity(4 + body.len());
    payload.extend_from_slice(&1u32.to_le_bytes());
    payload.extend_from_slice(body);
    let mut out = Vec::with_capacity(payload.len() + 8);
    out.extend_from_slice(tag);
    out.extend_from_slice(&(payload.len() as u32).to_le_bytes());
    out.extend_from_slice(&payload);
    if payload.len() % 2 == 1 {
        out.push(0);
    }
    out
}

fn strings(v: &[&str]) -> Value {
    Value::Array(v.iter().map(|s| Value::String(s.to_string())).collect())
}

fn nksf(nisi: &[u8], plid: &[u8], nica: &[u8], pchk: &[u8]) -> Vec<u8> {
    let mut body = Vec::new();
    body.extend_from_slice(b"NIKS");
    body.extend(riff_le(b"NISI", nisi));
    body.extend(riff_le(b"PLID", plid));
    body.extend(riff_le(b"NICA", nica));
    body.extend(riff_le(b"PCHK", pchk));
    let mut whole = Vec::new();
    whole.extend_from_slice(b"RIFF");
    whole.extend_from_slice(&(body.len() as u32).to_le_bytes());
    whole.extend_from_slice(&body);
    whole
}

#[test]
fn round_trip_nisi_plid_nica_pchk() {
    let mut m = JsonMap::new();
    m.insert("name".into(), Value::String("Acid Lead".into()));
    m.insert("vendor".into(), Value::String("TestVendor".into()));
    m.insert("author".into(), Value::String("cannuri".into()));
    m.insert("comment".into(), Value::String("unit-test preset".into()));
    m.insert("bankchain".into(), strings(&["Massive X", "Factory", "Leads"]));
    m.insert(
        "types".into(),
        Value::Array(vec![strings(&["Synth Lead", "Hard Lead"]), strings(&["Bass", "Synth Bass"])]),
    );
    m.insert("modes".into(), strings(&["Bright", "Arpeggiated"]));
    m.insert("deviceType".into(), Value::String("INST".into()));
    let nisi = rmp_serde::to_vec_named(&Value::Object(m)).unwrap();

    let mut p = JsonMap::new();
    p.insert(
        "VST3.uid".into(),
        Value::Array(vec![
            Value::from(0x11223344i32),
            Value::from(0x55667788u32 as i32),
            Value::from(0xaabbccddu32 as i32),
            Value::from(0x10203040i32),
        ]),
    );
    p.insert("VST3.plugin_name".into(), Value::String("Massive X".into()));
    p.insert("plugin_name".into(), Value::String("Massive X".into()));
    let plid = rmp_serde::to_vec_named(&Value::Object(p)).unwrap();
    let nica = b"\x80".to_vec();
    let pchk = b"PLUGIN-STATE-BLOB-xxxxxxxx".to_vec();

    let whole = nksf(&nisi, &plid, &nica, &pchk);
    let frames = frame_metadata(&whole).expect("scan");

    // The MessagePack payloads come back without their version prefix.
    assert_eq!(frames.nisi, nisi);
    assert_eq!(frames.plid, plid);
    assert_eq!(frames.nica, Some(nica.clone()));

    let summary: Value = rmp_serde::from_slice(&frames.nisi).unwrap();
    assert_eq!(summary["name"], "Acid Lead");
    assert_eq!(summary["vendor"], "TestVendor");
    assert_eq!(summary["author"], "cannuri");
    assert_eq!(summary["bankchain"].as_array().unwrap().len(), 3);
    assert_eq!(summary["types"][0][1], "Hard Lead");
    assert_eq!(summary["modes"].as_array().unwrap().len(), 2);
    assert_eq!(summary["deviceType"], "INST");

    let raw: Value = rmp_serde::from_slice(&frames.plid).unwrap();
    let uid: Vec<i64> = raw["VST3.uid"].as_array().unwrap().iter().map(|v| v.as_i64().unwrap()).collect();
    let fields = PlidFields {
        vst3_uid: Some(uid),
        vst3_plugin_name: raw["VST3.plugin_name"].as_str().map(|s| s.to_string()),
        plugin_name: raw["plugin_name"].as_str().map(|s| s.to_string()),
        ..Default::default()
    };
    match classify(fields) {
        NksPluginId::Vst3 { uid, name } => {
            assert_eq!(uid[0] as u32, 0x11223344);
            assert_eq!(uid[3] as u32, 0x10203040);
            assert_eq!(name.as_deref(), Some("Massive X"));
        }
        other => panic!("expected Vst3, got {other:?}"),
    }

    assert_eq!(frames.pchk_len, pchk.len() as u64);
    let off = frames.pchk_offset as usize;
    assert_eq!(&whole[off..off + frames.pchk_len as usize], &pchk[..]);
}

#[test]
fn rejects_non_niks_container() {
    let bytes = b"RIFF\x04\x00\x00\x00WAVE";
    let err = frame_metadata(bytes).unwrap_err();
    assert!(matches!(err, NksError::NotNks), "got {err:?}");
    assert_eq!(walk_niks(bytes).end, Err(NksError::NotNks));
}

#[test]
fn walk_reports_truncation_and_padding() {
    assert_eq!(walk_niks(b"RI").end, Err(NksError::Truncated));
    assert_eq!(walk_niks(b"RIFF\0\0\0\0NI").end, Err(NksError::Truncated));
    // A metadata chunk that claims more bytes than the file has.
    let mut cut = b"RIFF\0\0\0\0NIKSNISI".to_vec();
    cut.extend_from_slice(&100u32.to_le_bytes());
    cut.extend_from_slice(b"abc");
    assert_eq!(walk_niks(&cut).end, Err(NksError::Truncated));
    // An odd-length chunk is followed by a pad byte.
    let mut odd = b"RIFF\0\0\0\0NIKSabcd".to_vec();
    odd.extend_from_slice(&3u32.to_le_bytes());
    odd.extend_from_slice(b"xyz\0");
    odd.extend_from_slice(b"PCHK");
    odd.extend_from_slice(&2u32.to_le_bytes());
    odd.extend_from_slice(b"ok");
    let w = walk_niks(&odd);
    assert_eq!(w.end, Ok(()));
    assert_eq!(w.chunks.len(), 2);
    assert_eq!(w.chunks[1], Chunk { id: *b"PCHK", offset: 32, len: 2 });
}

#[test]
fn layout_requires_nisi_then_plid_and_takes_the_last() {
    let c = |id: &[u8; 4], offset: u64| Chunk { id: *id, offset, len: 4 };
    assert_eq!(layout(&[c(b"PLID", 20)]).unwrap_err(), NksError::MissingChunk("NISI"));
    assert_eq!(layout(&[c(b"NISI", 20)]).unwrap_err(), NksError::MissingChunk("PLID"));
    let l = layout(&[c(b"NISI", 20), c(b"PLID", 32), c(b"NISI", 44)]).unwrap();
    assert_eq!(l.nisi.offset, 44);
    assert_eq!(l.plid.offset, 32);
    assert!(l.nica.is_none());
    assert_eq!((l.pchk_offset, l.pchk_len), (0, 0));
}

#[test]
fn plid_classification_order() {
    let au = PlidFields {
        au_type: Some(1),
        au_subtype: Some(2),
        au_manufacturer: Some(3),
        vst2_magic: Some(9),
        plugin_name: Some("X".into()),
        ..Default::default()
    };
    assert_eq!(
        classify(au),
        NksPluginId::AudioUnit { ty: 1, subtype: 2, manufacturer: 3, name: Some("X".into()) }
    );
    let vst2 = PlidFields { vst2_magic: Some(-1), ..Default::default() };
    assert_eq!(classify(vst2), NksPluginId::Vst2 { magic: 0xffff_ffff });
    let short_uid = PlidFields { vst3_uid: Some(vec![1, 2, 3]), ..Default::default() };
    assert_eq!(classify(short_uid), NksPluginId::Unknown);
}

#[test]
fn metadata_payloads_come_in_file_order() {
    let bytes = nksf(b"\x91\x01", b"\x80", b"raw", b"state");
    let v = metadata_in_order(&bytes);
    assert_eq!(v, vec![(MetaKind::Summary, b"\x91\x01".to_vec()), (MetaKind::Plugin, b"\x80".to_vec())]);
    // A file cut inside its PLID chunk still hands over the NISI met before.
    let cut = &bytes[..36];
    assert_eq!(walk_niks(cut).end, Err(NksError::Truncated));
    assert_eq!(metadata_in_order(cut), vec![(MetaKind::Summary, b"\x91\x01".to_vec())]);
    assert!(metadata_in_order(b"nope").is_empty());
}

#[test]
fn framing_errors_have_their_messages() {
    assert_eq!(NksError::NotNks.message(), "not an NKS file: missing NIKS RIFF header");
    assert_eq!(NksError::MissingChunk("PLID").message(), "required chunk missing: PLID");
    assert_eq!(NksError::Truncated.message(), "riff error: truncated chunk");
}
