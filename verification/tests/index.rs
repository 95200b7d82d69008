use openmk3::index::query::Query;
use openmk3::index::scan::{
    bank_chain, needs_reindex, plugin_ref, preset_record, type_pair, ScanOutcome, ScanStats,
};
use openmk3::index::watch::{is_interesting, Debounce, IDLE_WAIT_MS};
use openmk3::nks::plid::NksPluginId;
use openmk3::nks::riff::NksSummary;

const SELECT: &str = "SELECT DISTINCT p.id, p.path, p.name, p.vendor, p.plugin_ref, p.bank_chain FROM presets p";

#[test]
fn empty_query_selects_everything_by_name() {
    let q = Query::default().to_sql();
    assert_eq!(q.sql, format!("{SELECT} ORDER BY p.name COLLATE NOCASE"));
    assert!(q.args.is_empty());
}

#[test]
fn filters_number_their_arguments_in_order() {
    let q = Query {
        text: Some("acid".into()),
        vendor: Some("NI".into()),
        type_filter: Some("Lead".into()),
        limit: Some(50),
    }
    .to_sql();
    assert_eq!(
        q.sql,
        format!(
            "{SELECT} JOIN preset_types pt ON pt.preset_id = p.id JOIN presets_fts f ON f.rowid = p.id \
             WHERE pt.type = ?1 AND presets_fts MATCH ?2 AND p.vendor = ?3 ORDER BY p.name COLLATE NOCASE LIMIT 50"
        )
    );
    assert_eq!(q.args, vec!["Lead".to_string(), "acid".to_string(), "NI".to_string()]);
}

#[test]
fn empty_text_does_not_filter() {
    let q = Query { text: Some(String::new()), vendor: Some("U-he".into()), type_filter: None, limit: None }.to_sql();
    assert_eq!(q.sql, format!("{SELECT} WHERE p.vendor = ?1 ORDER BY p.name COLLATE NOCASE"));
    assert_eq!(q.args, vec!["U-he".to_string()]);
}

#[test]
fn unchanged_files_are_not_reparsed() {
    assert!(needs_reindex(None, 5, 10));
    assert!(!needs_reindex(Some((5, 10)), 5, 10));
    assert!(needs_reindex(Some((5, 11)), 5, 10));
    assert!(needs_reindex(Some((4, 10)), 5, 10));
}

#[test]
fn scan_stats_count_outcomes() {
    let mut s = ScanStats::default();
    s.record(ScanOutcome::Indexed);
    s.record(ScanOutcome::Unchanged);
    s.record(ScanOutcome::Failed);
    s.record(ScanOutcome::Indexed);
    assert_eq!((s.seen, s.added, s.updated, s.skipped, s.failed), (4, 2, 1, 0, 1));
}

#[test]
fn stored_plugin_refs_and_bank_chains() {
    assert_eq!(plugin_ref(&NksPluginId::Unknown), "unknown");
    assert_eq!(plugin_ref(&NksPluginId::Vst2 { magic: 0x1234 }), "vst2:00001234");
    assert_eq!(
        plugin_ref(&NksPluginId::Vst3 { uid: [-1, 0, 1, 2], name: None }),
        "vst3:ffffffff000000000000000100000002"
    );
    assert_eq!(bank_chain(&None), "");
    assert_eq!(bank_chain(&Some(vec!["Massive X".into(), "Factory".into()])), "Massive X / Factory");
    assert_eq!(type_pair(&vec!["Synth".into()]), ("Synth".to_string(), String::new()));
    assert_eq!(type_pair(&vec![]), (String::new(), String::new()));
}

#[test]
fn preset_record_fills_absent_fields_with_empty_text() {
    let summary = NksSummary {
        name: Some("Acid Lead".into()),
        vendor: None,
        bankchain: Some(vec!["A".into(), "B".into()]),
        types: Some(vec![vec!["Synth".into(), "Lead".into()], vec!["Bass".into()]]),
        modes: Some(vec!["Bright".into()]),
        ..Default::default()
    };
    let r = preset_record(&summary, &NksPluginId::AudioUnit { ty: 0x61756d75, subtype: 0x4e494d58, manufacturer: 0x2d4e492d, name: None });
    assert_eq!(r.name, "Acid Lead");
    assert_eq!(r.vendor, "");
    assert_eq!(r.author, "");
    assert_eq!(r.plugin_ref, "au:aumu:NIMX:-NI-");
    assert_eq!(r.bank_chain, "A / B");
    assert_eq!(
        r.types,
        vec![("Synth".to_string(), "Lead".to_string()), ("Bass".to_string(), String::new())]
    );
    assert_eq!(r.modes, vec!["Bright".to_string()]);
}

#[test]
fn only_nksf_files_are_interesting() {
    assert!(is_interesting("/lib/Acid Lead.nksf"));
    assert!(is_interesting("a.b.nksf"));
    assert!(!is_interesting("/lib/.nksf"));
    assert!(!is_interesting("/lib/preset.nksfx"));
    assert!(!is_interesting("/lib/preset.NKSF"));
    assert!(!is_interesting("nksf"));
    assert!(is_interesting("/lib/x.nksf/"));
    assert!(is_interesting("/lib/x.nksf/."));
    assert!(is_interesting("..nksf"));
    assert!(!is_interesting("/"));
    assert!(!is_interesting("."));
    assert!(!is_interesting("/lib/x.nksf/.."));
}

#[test]
fn debounce_releases_a_batch_after_quiet() {
    let mut d = Debounce::new();
    assert_eq!(d.wait_ms(0), IDLE_WAIT_MS);
    let paths = vec!["/a.nksf".to_string(), "/b.wav".to_string(), "/c.nksf".to_string()];
    d.on_event(false, &paths, 10, 500);
    assert!(d.pending.is_empty());
    d.on_event(true, &paths, 10, 500);
    assert_eq!(d.pending, vec!["/a.nksf".to_string(), "/c.nksf".to_string()]);
    assert_eq!(d.wait_ms(100), 410);
    assert_eq!(d.on_timeout(400), None);
    d.on_event(true, &vec!["/d.nksf".to_string()], 400, 500);
    assert_eq!(d.on_timeout(600), None);
    assert_eq!(
        d.on_timeout(900),
        Some(vec!["/a.nksf".to_string(), "/c.nksf".to_string(), "/d.nksf".to_string()])
    );
    assert!(d.pending.is_empty());
    assert_eq!(d.deadline, None);
    assert_eq!(d.wait_ms(1000), IDLE_WAIT_MS);
    assert_eq!(d.on_timeout(2000), None);
}

#[test]
fn changed_presets_add_up() {
    let mut s = ScanStats::default();
    s.record(ScanOutcome::Indexed);
    s.record(ScanOutcome::Unchanged);
    s.record(ScanOutcome::Failed);
    assert_eq!(s.add_changed(5), Some(7));
    assert_eq!(s.add_changed(usize::MAX - 1), None);
}
