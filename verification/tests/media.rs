use glowbe::api::{default_breathing_enabled, default_media_fps, media_status_json, safe_disk_ext, UNSUPPORTED_UPLOAD_MESSAGE};
use glowbe::media::{equirect_from_zip, equirect_image, equirect_sequence, probe_zip_image_sequence};
use glowbe::media::{check_clip_thumbnail, check_ledmap_layout_id, check_uv_layout_id, source_frame_png, thumbnail_source_id, SourceFrame};
use glowbe::source::probe_source_bytes;
use glowbe::media::{clip_kind_from_source, is_image_zip_entry, is_video_file_public, is_zip_file_public, next_progress, sanitize_display_name};
use glowbe::state::{MediaUploadEntry, MediaUploadPhase};
use std::path::PathBuf;
use std::sync::atomic::AtomicU8;
use std::sync::Arc;

#[test]
fn sanitize_display_name_trims_and_drops_empty() {
    assert_eq!(sanitize_display_name(None), None);
    assert_eq!(sanitize_display_name(Some("")), None);
    assert_eq!(sanitize_display_name(Some("   ")), None);
    assert_eq!(sanitize_display_name(Some("  hello \n ")), Some("hello".into()));
}

#[test]
fn display_name_controls_become_spaces_and_length_is_capped() {
    assert_eq!(sanitize_display_name(Some("a\tb")), Some("a b".into()));
    assert_eq!(sanitize_display_name(Some("\u{7}")), None);
    let long: String = std::iter::repeat('x').take(130).collect();
    assert_eq!(sanitize_display_name(Some(&long)).unwrap().chars().count(), 120);
    let wide: String = std::iter::repeat('ä').take(121).collect();
    assert_eq!(sanitize_display_name(Some(&wide)).unwrap().chars().count(), 120);
}

#[test]
fn upload_extensions_map_to_disk_names() {
    assert_eq!(safe_disk_ext(Some("photo.JPEG")), Ok("jpg"));
    assert_eq!(safe_disk_ext(Some("a.jpg")), Ok("jpg"));
    assert_eq!(safe_disk_ext(Some("frames.zip")), Ok("zip"));
    assert_eq!(safe_disk_ext(Some("movie.MkV")), Ok("mkv"));
    assert_eq!(safe_disk_ext(Some("noext")), Ok("png"));
    assert_eq!(safe_disk_ext(None), Ok("png"));
    assert_eq!(safe_disk_ext(Some("doc.pdf")), Err(UNSUPPORTED_UPLOAD_MESSAGE));
    assert_eq!(default_media_fps(), 30);
    assert!(default_breathing_enabled());
}

#[test]
fn media_kinds_by_name_and_signature() {
    assert!(is_video_file_public("clip.MP4"));
    assert!(is_video_file_public("/tmp/a.webm"));
    assert!(!is_video_file_public("a.png"));
    assert!(!is_video_file_public("mp4"));
    assert!(is_zip_file_public("a.ZIP", &[]));
    assert!(is_zip_file_public("upload.bin", &[0x50, 0x4b, 0x03, 0x04, 0]));
    assert!(!is_zip_file_public("upload.bin", &[0x50, 0x4b, 0x03]));
    assert!(is_image_zip_entry("frames/0001.PNG"));
    assert!(is_image_zip_entry("a.jpeg"));
    assert!(!is_image_zip_entry("readme.txt"));
}

#[test]
fn clip_kinds_follow_source_kinds() {
    assert_eq!(clip_kind_from_source("equirectangular-image"), "equirect-image");
    assert_eq!(clip_kind_from_source("equirectangular-image-sequence"), "equirect-image-sequence");
    assert_eq!(clip_kind_from_source("equirectangular-video"), "equirect-video");
    assert_eq!(clip_kind_from_source("other"), "other");
}

#[test]
fn progress_only_moves_forward_and_caps_at_hundred() {
    assert_eq!(next_progress(10, 20), Some(20));
    assert_eq!(next_progress(20, 20), None);
    assert_eq!(next_progress(50, 10), None);
    assert_eq!(next_progress(90, 250), Some(100));
    assert_eq!(next_progress(100, 250), None);
}

#[test]
fn upload_status_reports_each_phase() {
    let stored = MediaUploadEntry { source_path: PathBuf::from("/tmp/u"), phase: MediaUploadPhase::Stored };
    let r = media_status_json("u1", &stored);
    assert_eq!(r.upload_id, "u1");
    assert_eq!(r.status, "stored");
    assert!(r.progress.is_none());
    let running = MediaUploadEntry {
        source_path: PathBuf::from("/tmp/u"),
        phase: MediaUploadPhase::Converting { job_id: "j".into(), progress: Arc::new(AtomicU8::new(42)) },
    };
    let r = media_status_json("u1", &running);
    assert_eq!(r.status, "running");
    assert_eq!(r.job_id.as_deref(), Some("j"));
    assert_eq!(r.progress, Some(42));
    let done = MediaUploadEntry {
        source_path: PathBuf::from("/tmp/u"),
        phase: MediaUploadPhase::Done { job_id: "j".into(), clip_id: "up-u1".into() },
    };
    let r = media_status_json("u1", &done);
    assert_eq!(r.status, "done");
    assert_eq!(r.clip_id.as_deref(), Some("up-u1"));
    assert_eq!(r.progress, Some(100));
    let failed = MediaUploadEntry {
        source_path: PathBuf::from("/tmp/u"),
        phase: MediaUploadPhase::Failed { job_id: None, message: "boom".into() },
    };
    let r = media_status_json("u1", &failed);
    assert_eq!(r.status, "failed");
    assert_eq!(r.error.as_deref(), Some("boom"));
    assert!(r.job_id.is_none());
}

#[test]
fn sanitized_names_are_stable_when_sanitized_again() {
    let long: String = std::iter::repeat("ab\t").take(60).collect();
    for raw in ["  hello \n ", "a\tb", "\u{3000}全角\u{3000}", &long, "x\u{1}\u{2} "] {
        if let Some(once) = sanitize_display_name(Some(raw)) {
            assert_eq!(sanitize_display_name(Some(&once)).as_deref(), Some(once.as_str()));
        }
    }
}

fn encode_png(w: u32, h: u32, px: &[[u8; 4]]) -> Vec<u8> {
    let mut img = image::RgbaImage::new(w, h);
    for (i, p) in px.iter().enumerate() {
        img.put_pixel(i as u32 % w, i as u32 / w, image::Rgba(*p));
    }
    let mut out = std::io::Cursor::new(Vec::new());
    img.write_to(&mut out, image::ImageFormat::Png).unwrap();
    out.into_inner()
}

#[test]
fn equirect_sequence_concatenates_frames_in_order() {
    let a = encode_png(2, 1, &[[1, 2, 3, 255], [4, 5, 6, 0]]);
    let b = encode_png(2, 1, &[[7, 8, 9, 255], [10, 11, 12, 255]]);
    let frames = vec![("a.png".to_string(), a), ("b.png".to_string(), b)];
    let (buf, n) = equirect_sequence(&frames, 2, 1).unwrap();
    assert_eq!(n, 2);
    assert_eq!(buf, vec![1, 2, 3, 4, 5, 6, 7, 8, 9, 10, 11, 12]);
    let (small, n1) = equirect_sequence(&frames[..1].to_vec(), 1, 1).unwrap();
    assert_eq!((small.len(), n1), (3, 1));
}

#[test]
fn equirect_sequence_errors() {
    let a = encode_png(2, 1, &[[1, 2, 3, 255], [4, 5, 6, 255]]);
    let c = encode_png(1, 1, &[[1, 1, 1, 255]]);
    assert_eq!(
        equirect_sequence(&vec![("a.png".into(), a.clone()), ("c.png".into(), c)], 4, 2).unwrap_err(),
        "all zip images must share size 2×1, but c.png is 1×1"
    );
    assert_eq!(
        equirect_sequence(&vec![("a.png".into(), a.clone()), ("bad.png".into(), b"xx".to_vec())], 4, 2).unwrap_err(),
        "decode bad.png"
    );
    assert_eq!(equirect_sequence(&vec![], 4, 2).unwrap_err(), "zip contains no png/jpeg images");
    let many: Vec<(String, Vec<u8>)> = (0..3601).map(|i| (format!("{i}.png"), Vec::new())).collect();
    assert_eq!(equirect_sequence(&many, 4, 2).unwrap_err(), "zip has too many images (max 3600)");
}

#[test]
fn equirect_image_resizes_one_frame() {
    let a = encode_png(2, 2, &[[1, 2, 3, 255], [4, 5, 6, 255], [7, 8, 9, 255], [10, 11, 12, 255]]);
    assert_eq!(equirect_image(&a, 2, 2).unwrap(), (vec![1, 2, 3, 4, 5, 6, 7, 8, 9, 10, 11, 12], 2, 2));
    let (one, w, h) = equirect_image(&a, 1, 1).unwrap();
    assert_eq!((one.len(), w, h), (3, 2, 2));
    assert_eq!(equirect_image(b"nope", 2, 2).unwrap_err(), "decode image");
}

#[test]
fn display_names_trim_unicode_space_and_blank_controls() {
    assert_eq!(sanitize_display_name(Some("\u{3000}Sky\u{85}")), Some("Sky".to_string()));
    assert_eq!(sanitize_display_name(Some("a\u{7}b")), Some("a b".to_string()));
    assert_eq!(sanitize_display_name(Some("\u{2000}\u{9f}")), None);
}

fn zip_of(entries: &[(&str, Vec<u8>)], dirs: &[&str]) -> Vec<u8> {
    let mut w = zip::ZipWriter::new(std::io::Cursor::new(Vec::new()));
    let opts = zip::write::SimpleFileOptions::default();
    for d in dirs {
        w.add_directory(*d, opts).unwrap();
    }
    for (name, bytes) in entries {
        w.start_file(*name, opts).unwrap();
        std::io::Write::write_all(&mut w, bytes).unwrap();
    }
    w.finish().unwrap().into_inner()
}

#[test]
fn zip_sequence_plays_frames_in_name_order() {
    let a = encode_png(2, 1, &[[1, 2, 3, 255], [4, 5, 6, 255]]);
    let b = encode_png(2, 1, &[[7, 8, 9, 255], [10, 11, 12, 255]]);
    let junk = encode_png(1, 1, &[[0, 0, 0, 255]]);
    let archive = zip_of(
        &[("b.png", b), ("notes.txt", b"hi".to_vec()), ("__MACOSX/a.png", junk), ("a.png", a)],
        &["d/"],
    );
    assert_eq!(equirect_from_zip(&archive, 2, 1), Ok((vec![1, 2, 3, 4, 5, 6, 7, 8, 9, 10, 11, 12], 2)));
    assert_eq!(probe_zip_image_sequence(&archive), Ok((2, 1, 2)));
}

#[test]
fn zip_sequence_errors() {
    assert_eq!(equirect_from_zip(b"not a zip", 2, 1).unwrap_err(), "open zip archive");
    assert_eq!(probe_zip_image_sequence(b"not a zip").unwrap_err(), "open zip archive");
    let text_only = zip_of(&[("notes.txt", b"hi".to_vec())], &[]);
    assert_eq!(equirect_from_zip(&text_only, 2, 1).unwrap_err(), "zip contains no png/jpeg images");
    assert_eq!(probe_zip_image_sequence(&text_only).unwrap_err(), "zip contains no png/jpeg images");
    let bad = zip_of(&[("a.png", b"xx".to_vec())], &[]);
    assert_eq!(equirect_from_zip(&bad, 2, 1).unwrap_err(), "decode a.png");
    assert_eq!(probe_zip_image_sequence(&bad).unwrap_err(), "decode a.png");
}

fn rgba_of_png(png: &[u8]) -> (u32, u32, Vec<u8>) {
    let img = image::load_from_memory(png).unwrap().to_rgba8();
    (img.width(), img.height(), img.into_raw())
}

#[test]
fn single_image_source_frame_round_trips() {
    let a = encode_png(2, 1, &[[1, 2, 3, 255], [4, 5, 6, 128]]);
    match source_frame_png("equirectangular-image", &a, 0).unwrap() {
        SourceFrame::Png(p) => assert_eq!(rgba_of_png(&p), (2, 1, vec![1, 2, 3, 255, 4, 5, 6, 128])),
        SourceFrame::Video => panic!("expected a png"),
    }
    assert_eq!(source_frame_png("equirectangular-image", &a, 1), Err("single-image source only has frame 0".to_string()));
    assert_eq!(source_frame_png("equirectangular-image", b"junk", 0), Err("decode image".to_string()));
    assert_eq!(source_frame_png("equirectangular-video", b"", 3), Ok(SourceFrame::Video));
    assert_eq!(source_frame_png("hologram", b"", 0), Err("unsupported source kind: hologram".to_string()));
}

#[test]
fn sequence_source_frame_takes_play_order() {
    let a = encode_png(1, 1, &[[10, 20, 30, 255]]);
    let b = encode_png(1, 1, &[[40, 50, 60, 255]]);
    let archive = zip_of(&[("b.png", b), ("a.png", a)], &[]);
    match source_frame_png("equirectangular-image-sequence", &archive, 1).unwrap() {
        SourceFrame::Png(p) => assert_eq!(rgba_of_png(&p), (1, 1, vec![40, 50, 60, 255])),
        SourceFrame::Video => panic!("expected a png"),
    }
    assert_eq!(
        source_frame_png("equirectangular-image-sequence", &archive, 2),
        Err("zip frame index 2 out of range".to_string())
    );
    assert_eq!(source_frame_png("equirectangular-image-sequence", b"nope", 0), Err("open zip".to_string()));
}

#[test]
fn probe_uploaded_sources() {
    let a = encode_png(3, 2, &[[0, 0, 0, 255]; 6]);
    assert_eq!(
        probe_source_bytes("sky.png", &a),
        Ok(Some(("equirectangular-image".to_string(), 1, 3, 2, None)))
    );
    assert_eq!(probe_source_bytes("sky.png", b"junk"), Err("decode image".to_string()));
    assert_eq!(probe_source_bytes("clip.MP4", b"whatever"), Ok(None));
    let archive = zip_of(&[("f1.png", a.clone()), ("f2.png", a)], &[]);
    assert_eq!(
        probe_source_bytes("upload.bin", &archive),
        Ok(Some(("equirectangular-image-sequence".to_string(), 2, 3, 2, None)))
    );
    assert_eq!(probe_source_bytes("x.zip", b"nope"), Err("open zip archive".to_string()));
}

#[test]
fn clip_thumbnail_and_ledmap_checks() {
    assert_eq!(check_clip_thumbnail("clip-1"), Ok(()));
    assert_eq!(check_clip_thumbnail("demo/twinkle"), Err("demo clips have no source thumbnail".to_string()));
    assert_eq!(check_clip_thumbnail(".."), Err("clip id must not be . or ..".to_string()));
    assert_eq!(thumbnail_source_id(&Some("s1".to_string())), Ok("s1".to_string()));
    assert_eq!(thumbnail_source_id(&None), Err("clip has no sourceId".to_string()));
    assert_eq!(check_uv_layout_id("proto"), Ok(()));
    assert_eq!(
        check_uv_layout_id("a/b"),
        Err("layout id must be non-empty and must not contain path separators".to_string())
    );
    assert_eq!(check_ledmap_layout_id("proto", "proto"), Ok(()));
    assert_eq!(
        check_ledmap_layout_id("proto", "other"),
        Err("layout id mismatch in ledmap: got other, expected proto".to_string())
    );
}
