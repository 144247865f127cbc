use glowbe::api::{
    health, check_clip_changeable, check_clip_patch_fields, clip_delete_error_status, clip_job_status, mate_expression_error_status,
    mate_expression_request, source_delete_error_status, ClipChange,
};
use glowbe::state::ClipJobPhase;
use std::sync::atomic::AtomicU8;
use std::sync::Arc;

#[test]
fn clip_changes_need_a_plain_non_demo_id() {
    assert!(check_clip_changeable("clip-1", ClipChange::Edit).is_ok());
    let e = check_clip_changeable("", ClipChange::Delete).unwrap_err();
    assert_eq!((e.status, e.error.as_str()), (400, "clipId must be non-empty and path-safe"));
    let e = check_clip_changeable("demo/twinkle", ClipChange::Delete).unwrap_err();
    assert_eq!(e.error, "clipId must be non-empty and path-safe");
    let e = check_clip_changeable("a\\b", ClipChange::Edit).unwrap_err();
    assert_eq!(e.status, 400);
}

#[test]
fn clip_patch_needs_a_field() {
    assert!(check_clip_patch_fields(false, false, true).is_ok());
    let e = check_clip_patch_fields(false, false, false).unwrap_err();
    assert_eq!(e.error, "at least one of displayName, thumbFrameIndex, or gamma is required");
}

#[test]
fn delete_errors_map_to_statuses() {
    assert_eq!(clip_delete_error_status("clip not found: x"), 404);
    assert_eq!(clip_delete_error_status("permission denied"), 400);
    assert_eq!(source_delete_error_status("source is referenced by clips: a, b"), 409);
    assert_eq!(source_delete_error_status("source not found"), 404);
    assert_eq!(source_delete_error_status("io"), 400);
}

#[test]
fn clip_job_status_reports_each_phase() {
    let r = clip_job_status("j1", &ClipJobPhase::Running { progress: Arc::new(AtomicU8::new(7)) });
    assert_eq!((r.job_id.as_str(), r.status, r.progress), ("j1", "running", Some(7)));
    let r = clip_job_status("j1", &ClipJobPhase::Done { clip_id: "clip-9".into() });
    assert_eq!((r.status, r.clip_id.as_deref(), r.progress), ("done", Some("clip-9"), Some(100)));
    let r = clip_job_status("j1", &ClipJobPhase::Failed { message: "bad".into() });
    assert_eq!((r.status, r.error.as_deref(), r.progress), ("failed", Some("bad"), None));
}

#[test]
fn mate_expression_requests() {
    assert_eq!(mate_expression_request(" happy ", None).unwrap(), ("happy".to_string(), 480));
    assert_eq!(mate_expression_request("sad", Some(0)).unwrap(), ("sad".to_string(), 0));
    let e = mate_expression_request("  ", Some(5)).unwrap_err();
    assert_eq!((e.status, e.error.as_str()), (400, "preset must be non-empty"));
    assert_eq!(mate_expression_error_status("unknown mate preset: x"), 400);
    assert_eq!(mate_expression_error_status("ledmap missing"), 500);
}

#[test]
fn health_is_unavailable_only_when_every_loop_is_stale() {
    assert_eq!(health(&vec![]), (200, "ok"));
    assert_eq!(health(&vec![1001, 5000]), (503, "stale: output loop tick too old"));
    assert_eq!(health(&vec![1001, 1000]), (503, "stale: output loop tick too old"));
    assert_eq!(health(&vec![1000]), (503, "stale: output loop tick too old"));
    assert_eq!(health(&vec![999, 5000]), (200, "ok"));
    assert_eq!(health(&vec![0]), (200, "ok"));
}
