use glowbe::clip::{is_demo_id, validate_clip_id, ClipIdError};
use glowbe::demos::{DemoId, DEMO_PREFIX};
use glowbe::devices::{is_uuid_v7, mdns_hosts_match, new_device_id, normalize_mdns_hostname, validate_device_id, DeviceError};
use glowbe::layouts::{infer_source_kind_from_meta, validate_layout_id, LayoutSourceKind};
use glowbe::source::validate_source_id;

#[test]
fn validate_clip_id_allows_builtin_demo_slash() {
    validate_clip_id("demo/expanding-rings").unwrap();
    validate_clip_id("up-550e8400-e29b-41d4-a716-446655440000").unwrap();
    assert!(validate_clip_id("").is_err());
    assert!(validate_clip_id("foo/bar").is_err());
}

#[test]
fn clip_id_errors_name_the_problem() {
    assert_eq!(validate_clip_id(""), Err(ClipIdError::Empty));
    assert_eq!(validate_clip_id("demo/unknown"), Err(ClipIdError::PathSeparator));
    assert_eq!(validate_clip_id("a\\b"), Err(ClipIdError::PathSeparator));
    assert_eq!(ClipIdError::Empty.message(), "clip id must be non-empty");
    assert_eq!(ClipIdError::PathSeparator.message(), "clip id must not contain path separators");
    assert_eq!(validate_clip_id("."), Err(ClipIdError::DotSegment));
    assert_eq!(validate_clip_id(".."), Err(ClipIdError::DotSegment));
    assert_eq!(validate_clip_id("..a"), Ok(()));
    assert_eq!(ClipIdError::DotSegment.message(), "clip id must not be . or ..");
    assert!(is_demo_id("demo/twinkle"));
    assert!(!is_demo_id("twinkle"));
}

#[test]
fn validate_layout_id_rejects_slashes() {
    assert!(validate_layout_id("ok-id").is_ok());
    assert!(validate_layout_id("bad/id").is_err());
}

#[test]
fn layout_id_rejects_empty_and_backslash() {
    assert!(validate_layout_id("").is_err());
    assert!(validate_layout_id("bad\\id").is_err());
    assert!(validate_layout_id("geodesic-2v-60").is_ok());
}

#[test]
fn source_kind_inferred_from_variant_or_prefix() {
    assert_eq!(infer_source_kind_from_meta(Some("custom"), "x"), LayoutSourceKind::User);
    assert_eq!(infer_source_kind_from_meta(None, "custom-dome"), LayoutSourceKind::User);
    assert_eq!(infer_source_kind_from_meta(Some("preset"), "geodesic-2v-60"), LayoutSourceKind::Preset);
    assert_eq!(infer_source_kind_from_meta(None, "custom"), LayoutSourceKind::Preset);
}

#[test]
fn normalize_mdns_hostname_strips_local_suffix() {
    assert_eq!(normalize_mdns_hostname("glowbe-60faces.local."), Some("glowbe-60faces".into()));
    assert_eq!(normalize_mdns_hostname("  glowbe-proto.local  "), Some("glowbe-proto".into()));
    assert!(mdns_hosts_match("glowbe-60faces", "glowbe-60faces.local"));
}

#[test]
fn mdns_hostname_blank_or_bare_suffix_is_none() {
    assert_eq!(normalize_mdns_hostname("   "), None);
    assert_eq!(normalize_mdns_hostname("..."), None);
    assert_eq!(normalize_mdns_hostname(".local"), None);
    assert_eq!(normalize_mdns_hostname("host.LOCAL"), Some("host.LOCAL".into()));
    assert!(!mdns_hosts_match("", ""));
    assert!(!mdns_hosts_match("a", "b.local"));
}

#[test]
fn source_id_must_be_path_safe() {
    assert!(validate_source_id("550e8400-e29b-41d4-a716-446655440000").is_ok());
    assert!(validate_source_id("").is_err());
    assert!(validate_source_id("a/b").is_err());
    assert!(validate_source_id("a\\b").is_err());
    assert!(validate_source_id("a..b").is_err());
    assert!(validate_source_id("a.b").is_ok());
}

#[test]
fn new_device_ids_are_uuid_v7() {
    let id = new_device_id();
    assert_eq!(id.len(), 36);
    assert!(is_uuid_v7(&id));
    assert!(validate_device_id(&id).is_ok());
    assert_ne!(new_device_id(), id);
}

#[test]
fn uuid_v7_check_reads_the_version_nibble() {
    assert!(is_uuid_v7("01890a5d-ac96-774b-bcce-b302099a8057"));
    assert!(!is_uuid_v7("550e8400-e29b-41d4-a716-446655440000"));
    assert!(!is_uuid_v7("proto-1"));
    assert!(matches!(validate_device_id("proto-1"), Err(DeviceError::InvalidId)));
}

#[test]
fn demo_ids_round_trip_through_clip_ids() {
    for d in DemoId::all() {
        let id = d.clip_id();
        assert!(id.starts_with(DEMO_PREFIX));
        assert_eq!(DemoId::parse(&id), Some(d));
        assert_eq!(d.fps(), 30);
    }
    assert_eq!(DemoId::RainbowRings.clip_id(), "demo/rainbow-rings");
    assert_eq!(DemoId::RainbowRings.display_name(), "Rainbow + rings");
    assert_eq!(DemoId::parse("demo/"), None);
    assert_eq!(DemoId::parse("rainbow-rings"), None);
}

#[test]
fn normalize_mdns_hostname_strips_every_local_suffix() {
    assert_eq!(normalize_mdns_hostname("x.local.local"), Some("x".into()));
    assert_eq!(normalize_mdns_hostname("x.local..local."), Some("x".into()));
    assert_eq!(normalize_mdns_hostname(""), None);
    assert_eq!(normalize_mdns_hostname(" . "), None);
    assert_eq!(normalize_mdns_hostname(".local"), None);
    assert_eq!(normalize_mdns_hostname("local"), Some("local".into()));
    assert!(mdns_hosts_match("x.local.local", "x"));
}
