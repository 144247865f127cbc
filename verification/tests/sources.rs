use glowbe::source::{
    check_source_frame_index, check_source_manifest_format, set_source_display_name, sort_sources_newest_first,
    summary_from_manifest, SourceManifest, SourceSummary,
};

fn manifest(kind: &str, frames: u32, fps: Option<u32>) -> SourceManifest {
    SourceManifest {
        format: "glowbe-source".into(),
        id: "s1".into(),
        kind: kind.into(),
        frame_count: frames,
        width: 4,
        height: 2,
        fps,
        created_at_unix_sec: 7,
        display_name: None,
    }
}

fn summary(id: &str, t: u64) -> SourceSummary {
    SourceSummary { id: id.into(), kind: "k".into(), frame_count: 1, width: 1, height: 1, fps: None, created_at_unix_sec: t, display_name: None }
}

#[test]
fn sources_sort_newest_first_keeping_ties() {
    let v = vec![summary("a", 5), summary("b", 9), summary("c", 5), summary("d", 1), summary("e", 9)];
    let ids: Vec<String> = sort_sources_newest_first(v).into_iter().map(|s| s.id).collect();
    assert_eq!(ids, vec!["b", "e", "a", "c", "d"]);
}

#[test]
fn source_frame_index_range() {
    assert_eq!(check_source_frame_index(&manifest("equirectangular-image-sequence", 3, None), 2), Ok(30));
    assert_eq!(
        check_source_frame_index(&manifest("equirectangular-image-sequence", 3, None), 3),
        Err("frame index 3 out of range (frameCount=3)".to_string())
    );
    assert_eq!(check_source_frame_index(&manifest("equirectangular-video", 0, Some(24)), 500), Ok(24));
}

#[test]
fn source_format_and_rename() {
    let mut m = manifest("equirectangular-image", 1, None);
    assert!(check_source_manifest_format(&m).is_ok());
    assert!(set_source_display_name("s1", &mut m, Some("  Sky\tdome  ")).is_ok());
    assert_eq!(m.display_name.as_deref(), Some("Sky dome"));
    assert_eq!(m.frame_count, 1);
    assert!(set_source_display_name("s1", &mut m, Some("   ")).is_ok());
    assert_eq!(m.display_name, None);
    assert!(set_source_display_name("../s1", &mut m, Some("Other")).is_err());
    assert!(set_source_display_name("", &mut m, Some("Other")).is_err());
    assert_eq!(m.display_name, None);
    let s = summary_from_manifest(&m);
    assert_eq!(s.id, "s1");
    assert_eq!(s.created_at_unix_sec, 7);
    m.format = "other".into();
    assert_eq!(check_source_manifest_format(&m), Err("unsupported source format: other".to_string()));
}
