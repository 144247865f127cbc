use glowbe::layouts::{layout_catalog_entry, layout_catalog_ids, read_layout_hash, read_led_count, LayoutMeta, LayoutSourceKind};
use glowbe::layouts::{layout_catalog, layout_source_id, pick_layout_source, LayoutSourceFile};

#[test]
fn catalog_ids_are_sorted_and_unique() {
    let ids: Vec<String> = ["b", "a", "custom-x", "a", "B", "b"].iter().map(|s| s.to_string()).collect();
    let out = layout_catalog_ids(&ids);
    assert_eq!(out, vec!["B".to_string(), "a".into(), "b".into(), "custom-x".into()]);
    assert!(layout_catalog_ids(&Vec::new()).is_empty());
}

#[test]
fn meta_counts_are_truncated_like_casts() {
    assert_eq!(read_led_count(Some(1260)), Some(1260));
    assert_eq!(read_led_count(Some(65536 + 5)), Some(5));
    assert_eq!(read_led_count(None), None);
    assert_eq!(read_layout_hash(Some(0x1_7c50_1117)), Some(0x7c50_1117));
    assert_eq!(read_layout_hash(None), None);
}

#[test]
fn catalog_entry_saturates_counts_and_lists_users() {
    let meta = LayoutMeta {
        display_name: Some("Dome".into()),
        variant: None,
        led_count: Some(70_000),
        data_line_count: Some(4),
        layout_hash: Some(0x1_0000_0002),
        gpios: Some(vec![Some(4), None, Some(300), Some(18)]),
    };
    let usage = vec![
        ("dev-a".to_string(), "dome".to_string()),
        ("dev-b".to_string(), "other".to_string()),
        ("dev-c".to_string(), "dome".to_string()),
    ];
    let e = layout_catalog_entry("dome".into(), &meta, LayoutSourceKind::User, &usage);
    assert_eq!(e.layout_id, "dome");
    assert_eq!(e.display_name.as_deref(), Some("Dome"));
    assert_eq!(e.led_count, 65535);
    assert_eq!(e.data_line_count, 4);
    assert_eq!(e.layout_hash, 2);
    assert_eq!(e.gpios, vec![4, 255, 18]);
    assert!(e.editable);
    assert_eq!(e.in_use_by_devices, vec!["dev-a".to_string(), "dev-c".to_string()]);
}

#[test]
fn catalog_entry_defaults_for_missing_fields() {
    let meta = LayoutMeta { display_name: None, variant: Some("preset".into()), led_count: None, data_line_count: Some(999), layout_hash: None, gpios: None };
    let e = layout_catalog_entry("p".into(), &meta, LayoutSourceKind::Preset, &[]);
    assert_eq!(e.led_count, 0);
    assert_eq!(e.data_line_count, 255);
    assert_eq!(e.layout_hash, 0);
    assert!(e.gpios.is_empty());
    assert!(!e.editable);
    assert_eq!(e.variant.as_deref(), Some("preset"));
    assert!(e.in_use_by_devices.is_empty());
}

fn src_file(format: Option<&str>, version: Option<u64>, id: Option<&str>) -> LayoutSourceFile {
    LayoutSourceFile { format: format.map(String::from), version, id: id.map(String::from) }
}

#[test]
fn layout_source_id_needs_format_and_version() {
    assert_eq!(layout_source_id(&src_file(Some("glowbe-layout"), Some(1), Some("p"))), Some("p".to_string()));
    assert_eq!(layout_source_id(&src_file(Some("glowbe-layout"), Some(2), Some("p"))), None);
    assert_eq!(layout_source_id(&src_file(Some("other"), Some(1), Some("p"))), None);
    assert_eq!(layout_source_id(&src_file(None, Some(1), Some("p"))), None);
    assert_eq!(layout_source_id(&src_file(Some("glowbe-layout"), Some(1), None)), None);
}

#[test]
fn layout_source_preference_order() {
    let presets = vec![None, Some("x".to_string()), Some("p".to_string()), Some("p".to_string())];
    let users = vec![Some("p".to_string()), Some("u".to_string())];
    assert_eq!(pick_layout_source("p", true, true, &presets, &users), Some((LayoutSourceKind::Preset, None)));
    assert_eq!(pick_layout_source("p", false, true, &presets, &users), Some((LayoutSourceKind::User, None)));
    assert_eq!(pick_layout_source("p", false, false, &presets, &users), Some((LayoutSourceKind::Preset, Some(2))));
    assert_eq!(pick_layout_source("u", false, false, &presets, &users), Some((LayoutSourceKind::User, Some(1))));
    assert_eq!(pick_layout_source("q", false, false, &presets, &users), None);
}

fn meta_with_leds(n: u64) -> LayoutMeta {
    LayoutMeta { display_name: None, variant: None, led_count: Some(n), data_line_count: None, layout_hash: None, gpios: None }
}

#[test]
fn catalog_keeps_rows_with_metadata_in_order() {
    let rows = vec![
        ("a".to_string(), Some((meta_with_leds(10), LayoutSourceKind::Preset))),
        ("b".to_string(), None),
        ("c".to_string(), Some((meta_with_leds(70000), LayoutSourceKind::User))),
    ];
    let usage = vec![("d1".to_string(), "c".to_string()), ("d2".to_string(), "a".to_string())];
    let out = layout_catalog(&rows, &usage);
    let ids: Vec<&str> = out.iter().map(|e| e.layout_id.as_str()).collect();
    assert_eq!(ids, vec!["a", "c"]);
    assert_eq!(out[0].led_count, 10);
    assert_eq!(out[1].led_count, 65535);
    assert!(!out[0].editable && out[1].editable);
    assert_eq!(out[1].in_use_by_devices, vec!["d1".to_string()]);
}
