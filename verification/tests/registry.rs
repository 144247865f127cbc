use glowbe::devices::{
    merge_discovered, migrate_legacy_device_ids, new_device_id, validate_all, validate_record, DeviceError,
    DeviceRecord, DeviceRegistry, GlowbeService, DEFAULT_OUTPUT_FPS,
};

type Tone = (f32, f32);

fn record(id: &str, ip: Option<&str>) -> DeviceRecord<Tone> {
    DeviceRecord {
        id: id.to_string(),
        display_name: "A".into(),
        esp_ip: ip.map(|s| s.to_string()),
        mdns_hostname: None,
        layout_id: "prototype-icosahedron-15".into(),
        output_fps: DEFAULT_OUTPUT_FPS,
        tone: (1.0, 1.0),
    }
}

#[test]
fn device_id_must_be_uuid_v7() {
    let rec = DeviceRecord {
        id: new_device_id(),
        display_name: "P".into(),
        esp_ip: Some("192.168.0.1".into()),
        mdns_hostname: None,
        layout_id: "prototype-icosahedron-15".into(),
        output_fps: DEFAULT_OUTPUT_FPS,
        tone: (1.0f32, 1.0f32),
    };
    assert!(validate_record(&rec, true).is_ok());
    let bad = DeviceRecord { id: "proto-1".into(), ..rec.clone() };
    assert!(validate_record(&bad, true).is_err());
}

#[test]
fn upsert_same_ip_for_same_device_is_allowed() {
    let id = new_device_id();
    let mut reg = DeviceRegistry::from_devices(vec![DeviceRecord {
        id: id.clone(),
        display_name: "A".into(),
        esp_ip: Some("10.0.0.1".into()),
        mdns_hostname: None,
        layout_id: "prototype-icosahedron-15".into(),
        output_fps: DEFAULT_OUTPUT_FPS,
        tone: (1.0f32, 1.0f32),
    }]);
    let updated = DeviceRecord {
        id,
        display_name: "A2".into(),
        esp_ip: Some("10.0.0.1".into()),
        mdns_hostname: None,
        layout_id: "prototype-icosahedron-15".into(),
        output_fps: 60,
        tone: (1.0f32, 1.0f32),
    };
    assert!(reg.upsert(updated, true).is_ok());
    assert_eq!(reg.devices()[0].display_name, "A2");
}

#[test]
fn record_checks_run_in_order() {
    let id = new_device_id();
    let mut r = record(&id, None);
    r.layout_id = "bad/layout".into();
    r.output_fps = 0;
    assert!(matches!(validate_record(&r, false), Err(DeviceError::LayoutIdInvalid)));
    r.layout_id = "ok".into();
    assert!(matches!(validate_record(&r, false), Err(DeviceError::OutputFpsZero)));
    r.output_fps = 30;
    match validate_record(&r, false) {
        Err(e @ DeviceError::UnknownLayout(_)) => assert_eq!(e.message(), "unknown layout_id: ok"),
        other => panic!("unexpected {other:?}"),
    }
    assert!(validate_record(&r, true).is_ok());
}

#[test]
fn upsert_refuses_ip_of_another_device_and_adds_new_ones() {
    let a = new_device_id();
    let b = new_device_id();
    let mut reg = DeviceRegistry::from_devices(vec![record(&a, Some("10.0.0.1"))]);
    match reg.upsert(record(&b, Some(" 10.0.0.1 ")), true) {
        Err(e) => assert_eq!(e.message(), format!("esp_ip already used by device {a}")),
        Ok(()) => panic!("duplicate ip accepted"),
    }
    assert_eq!(reg.devices().len(), 1);
    reg.upsert(record(&b, Some("10.0.0.2")), true).unwrap();
    assert_eq!(reg.devices().len(), 2);
    assert_eq!(reg.devices()[1].id, b);
}

#[test]
fn upsert_stores_mdns_hostname_normalized() {
    let a = new_device_id();
    let mut reg = DeviceRegistry::from_devices(Vec::new());
    let mut rec = record(&a, None);
    rec.mdns_hostname = Some(" glowbe-proto.local. ".into());
    reg.upsert(rec, true).unwrap();
    assert_eq!(reg.devices()[0].mdns_hostname.as_deref(), Some("glowbe-proto"));
}

#[test]
fn remove_keeps_the_last_device() {
    let a = new_device_id();
    let b = new_device_id();
    let mut reg = DeviceRegistry::from_devices(vec![record(&a, None), record(&b, None)]);
    match reg.remove("nope") {
        Err(e) => assert_eq!(e.message(), "device not found: nope"),
        Ok(_) => panic!("removed unknown device"),
    }
    let removed = reg.remove(&a).unwrap();
    assert_eq!(removed.id, a);
    assert_eq!(reg.devices().len(), 1);
    match reg.remove(&b) {
        Err(e) => assert_eq!(e.message(), "cannot remove the last registered device"),
        Ok(_) => panic!("removed last device"),
    }
}

#[test]
fn update_master_tone_changes_only_the_tone() {
    let a = new_device_id();
    let mut reg = DeviceRegistry::from_devices(vec![record(&a, Some("10.0.0.9"))]);
    reg.update_master_tone(&a, (0.5, 2.0)).unwrap();
    assert_eq!(reg.devices()[0].tone, (0.5, 2.0));
    assert_eq!(reg.devices()[0].esp_ip.as_deref(), Some("10.0.0.9"));
    assert!(reg.update_master_tone("missing", (1.0, 1.0)).is_err());
}

#[test]
fn validate_all_reports_duplicates() {
    let a = new_device_id();
    let b = new_device_id();
    let devs = vec![record(&a, Some("10.0.0.1")), record(&a, Some("10.0.0.2"))];
    match validate_all(&devs, &vec![true, true]) {
        Err(e) => assert_eq!(e.message(), format!("duplicate device id: {a}")),
        Ok(()) => panic!("duplicate id accepted"),
    }
    let devs = vec![record(&a, Some("10.0.0.1")), record(&b, Some("10.0.0.1"))];
    match validate_all(&devs, &vec![true, true]) {
        Err(e) => assert_eq!(e.message(), "duplicate esp_ip: 10.0.0.1"),
        Ok(()) => panic!("duplicate ip accepted"),
    }
    let devs = vec![record(&a, Some("10.0.0.1")), record(&b, Some("10.0.0.2"))];
    assert!(validate_all(&devs, &vec![true, true]).is_ok());
}

#[test]
fn discovered_services_match_by_ip_then_host() {
    let a = new_device_id();
    let b = new_device_id();
    let mut rb = record(&b, None);
    rb.mdns_hostname = Some("glowbe-proto".into());
    let devs = vec![record(&a, Some("10.0.0.1")), rb];
    let found = vec![
        GlowbeService { hostname: "x.local.".into(), ipv4: "10.0.0.1".into(), port: 49152 },
        GlowbeService { hostname: "glowbe-proto".into(), ipv4: "10.0.0.7".into(), port: 49152 },
        GlowbeService { hostname: "glowbe-proto.local.".into(), ipv4: "10.0.0.8".into(), port: 1 },
    ];
    let merged = merge_discovered(&devs, &found);
    assert_eq!(merged.len(), 3);
    assert_eq!(merged[0].registered_device_id.as_deref(), Some(a.as_str()));
    assert_eq!(merged[1].registered_device_id.as_deref(), Some(b.as_str()));
    assert_eq!(merged[2].registered_device_id, None);
    assert_eq!(merged[2].port, 1);
}

#[test]
fn legacy_ids_are_replaced_by_uuid_v7() {
    let a = new_device_id();
    let mut devs = vec![record("proto-1", None), record(&a, None)];
    assert!(migrate_legacy_device_ids(&mut devs));
    assert!(glowbe::devices::is_uuid_v7(&devs[0].id));
    assert_eq!(devs[1].id, a);
    assert!(!migrate_legacy_device_ids(&mut devs));
}
