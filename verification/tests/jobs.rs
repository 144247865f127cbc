use glowbe::media_jobs::{
    begin_media_convert, clip_job_finished, convert_settings, finish_media_convert, hyphenated_uuid, new_job_id,
    new_source_clip_id, normalize_upload_id, unknown_upload_error, upload_clip_id,
};
use glowbe::state::{ClipJobPhase, MediaUploadEntry, MediaUploadPhase};
use std::path::PathBuf;
use std::sync::atomic::AtomicU8;
use std::sync::Arc;

#[test]
fn upload_ids_are_normalized_to_hyphenated_lowercase() {
    assert_eq!(
        normalize_upload_id("  550E8400-E29B-41D4-A716-446655440000 ").as_deref(),
        Some("550e8400-e29b-41d4-a716-446655440000")
    );
    assert_eq!(
        normalize_upload_id("550e8400e29b41d4a716446655440000").as_deref(),
        Some("550e8400-e29b-41d4-a716-446655440000")
    );
    assert_eq!(normalize_upload_id("not-a-uuid"), None);
    assert_eq!(unknown_upload_error().status, 404);
    assert_eq!(unknown_upload_error().error, "unknown upload");
}

#[test]
fn hyphenated_uuid_matches_the_uuid_crate() {
    let bits = 0x550e8400_e29b_41d4_a716_446655440000u128;
    assert_eq!(hyphenated_uuid(bits), "550e8400-e29b-41d4-a716-446655440000");
    assert_eq!(hyphenated_uuid(0), "00000000-0000-0000-0000-000000000000");
    assert_eq!(hyphenated_uuid(u128::MAX), "ffffffff-ffff-ffff-ffff-ffffffffffff");
    let u = uuid::Uuid::from_u128(0x0123_4567_89ab_cdef_fedc_ba98_7654_3210);
    assert_eq!(hyphenated_uuid(u.as_u128()), u.hyphenated().to_string());
}

#[test]
fn fresh_ids_have_their_shapes() {
    let j = new_job_id();
    assert_eq!(j.len(), 36);
    assert_eq!(uuid::Uuid::parse_str(&j).unwrap().get_version_num(), 4);
    let c = new_source_clip_id();
    assert!(c.starts_with("clip-"));
    assert_eq!(c.len(), 41);
    assert_eq!(upload_clip_id("abc"), "up-abc");
}

#[test]
fn convert_settings_apply_limits() {
    let s = convert_settings(0, Some("  My clip "), None);
    assert_eq!(s.fps, 1);
    assert_eq!(s.display_name.as_deref(), Some("My clip"));
    assert_eq!((s.width, s.height), (256, 128));
    let s = convert_settings(500, None, Some((0, 64)));
    assert_eq!(s.fps, 120);
    assert_eq!(s.display_name, None);
    assert_eq!((s.width, s.height), (1, 64));
    assert_eq!(convert_settings(24, None, Some((512, 256))).fps, 24);
}

#[test]
fn conversion_starts_only_from_stored_or_failed() {
    let mut e = MediaUploadEntry { source_path: PathBuf::from("/tmp/x.png"), phase: MediaUploadPhase::Stored };
    let job = begin_media_convert(&mut e, Arc::new(AtomicU8::new(0))).unwrap();
    match &e.phase {
        MediaUploadPhase::Converting { job_id, .. } => assert_eq!(job_id, &job),
        other => panic!("unexpected {other:?}"),
    }
    let err = begin_media_convert(&mut e, Arc::new(AtomicU8::new(0))).unwrap_err();
    assert_eq!(err.status, 409);
    assert_eq!(err.error, "upload is already converting or already converted");
    finish_media_convert(&mut e, job.clone(), "up-x".into(), Err("decode failed".into()));
    match &e.phase {
        MediaUploadPhase::Failed { job_id, message } => {
            assert_eq!(job_id.as_deref(), Some(job.as_str()));
            assert_eq!(message, "decode failed");
        }
        other => panic!("unexpected {other:?}"),
    }
    let job2 = begin_media_convert(&mut e, Arc::new(AtomicU8::new(0))).unwrap();
    finish_media_convert(&mut e, job2.clone(), "up-x".into(), Ok(()));
    match &e.phase {
        MediaUploadPhase::Done { job_id, clip_id } => {
            assert_eq!(job_id, &job2);
            assert_eq!(clip_id, "up-x");
        }
        other => panic!("unexpected {other:?}"),
    }
    assert!(begin_media_convert(&mut e, Arc::new(AtomicU8::new(0))).is_err());
}

#[test]
fn clip_jobs_end_done_or_failed() {
    match clip_job_finished("clip-1".into(), Ok(())) {
        ClipJobPhase::Done { clip_id } => assert_eq!(clip_id, "clip-1"),
        other => panic!("unexpected {other:?}"),
    }
    match clip_job_finished("clip-1".into(), Err("bad".into())) {
        ClipJobPhase::Failed { message } => assert_eq!(message, "bad"),
        other => panic!("unexpected {other:?}"),
    }
}
