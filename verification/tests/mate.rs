use glowbe::mate::persona::{appearance_color, AutoFlags, Expression, IdleRoutine, MateLook, MatePatch, Mood};
use glowbe::mate::stamp_import::{import_stamp_from_png_bytes, import_stamp_from_rgba, validate_stamp_id, StampImportError};
use glowbe::mate::{layout_supported, BreathingParams, Layer, DEFAULT_PRESET_ID, DEFAULT_TRANSITION_MS, MATE_MIN_LED_COUNT};
use glowbe::mate::{check_preset_header, resolve_recolor, sort_summaries_by_id, upsert_summary, MatePresetSummary, PresetError};
use glowbe::mate_api::{guard_mate_layout, unsupported_layout_response};

fn solid(w: u32, h: u32, px: [u8; 4]) -> Vec<u8> {
    let mut v = Vec::new();
    for _ in 0..(w * h) {
        v.extend_from_slice(&px);
    }
    v
}

#[test]
fn rejects_non_square() {
    let rgba = solid(16, 8, [255, 255, 255, 255]);
    let err = import_stamp_from_rgba("test", 16, 8, &rgba).unwrap_err();
    assert!(err.message().contains("square"));
    assert_eq!(err.message(), "stamp png must be square (got 16×8)");
}

#[test]
fn preserves_native_pixel_grid() {
    let rgba = solid(32, 32, [255, 255, 255, 255]);
    let stamp = import_stamp_from_rgba("test", 32, 32, &rgba).unwrap();
    assert_eq!(stamp.size, 32);
    assert_eq!(stamp.pixels.len(), 32 * 32);
    assert_eq!(stamp.palette.len(), 1);
    assert_eq!(stamp.palette[0], [255, 255, 255]);
    assert!(stamp.pixels.iter().all(|&p| p == 1));
}

#[test]
fn preserves_distinct_color_regions() {
    let mut rgba = solid(2, 2, [255, 0, 0, 255]);
    rgba[12..16].copy_from_slice(&[0, 0, 255, 255]);
    rgba[8..12].copy_from_slice(&[0, 0, 0, 0]);
    let stamp = import_stamp_from_rgba("test", 2, 2, &rgba).unwrap();
    assert_eq!(stamp.palette.len(), 2);
    assert_eq!(stamp.palette[0], [255, 0, 0]);
    assert_eq!(stamp.palette[1], [0, 0, 255]);
    assert_eq!(stamp.pixels, vec![1, 1, 0, 2]);
}

#[test]
fn transparent_is_outside() {
    let rgba = solid(4, 4, [255, 255, 255, 0]);
    let stamp = import_stamp_from_rgba("test", 4, 4, &rgba).unwrap();
    assert!(stamp.palette.is_empty());
    assert!(stamp.pixels.iter().all(|&p| p == 0));
}

#[test]
fn stamp_alpha_threshold_is_one_half() {
    let mut rgba = solid(2, 1, [10, 20, 30, 127]);
    rgba[7] = 128;
    let stamp = import_stamp_from_rgba("s", 2, 1, &rgba).unwrap_err();
    assert_eq!(stamp, StampImportError::NotSquare { width: 2, height: 1 });
    let mut rgba = solid(2, 2, [10, 20, 30, 127]);
    rgba[7] = 128;
    let stamp = import_stamp_from_rgba("s", 2, 2, &rgba).unwrap();
    assert_eq!(stamp.pixels, vec![0, 1, 0, 0]);
    assert_eq!(stamp.format, "glowbe-mate-stamp");
    assert_eq!(stamp.version, 2);
    assert_eq!(stamp.id, "s");
}

#[test]
fn stamp_palette_is_limited_to_sixteen_colours() {
    let mut rgba = Vec::new();
    for i in 0..25u8 {
        rgba.extend_from_slice(&[i, 0, 0, 255]);
    }
    let err = import_stamp_from_rgba("many", 5, 5, &rgba).unwrap_err();
    assert_eq!(err, StampImportError::TooManyColors);
    assert_eq!(err.message(), "stamp png has more than 16 opaque colors; use crisp pixel art with a small palette");
    let mut rgba = Vec::new();
    for i in 0..16u8 {
        rgba.extend_from_slice(&[i, 0, 0, 255]);
    }
    let ok = import_stamp_from_rgba("sixteen", 4, 4, &rgba).unwrap();
    assert_eq!(ok.palette.len(), 16);
    assert_eq!(ok.pixels[15], 16);
}

#[test]
fn stamp_size_and_id_checks() {
    assert_eq!(validate_stamp_id("a/b"), Err(StampImportError::InvalidId));
    assert_eq!(import_stamp_from_rgba("", 1, 1, &[0, 0, 0, 255]).unwrap_err(), StampImportError::InvalidId);
    let e = import_stamp_from_rgba("z", 0, 0, &[]).unwrap_err();
    assert_eq!(e.message(), "stamp png must be at least 1×1px (got 0)");
    let big = solid(257, 257, [0, 0, 0, 0]);
    let e = import_stamp_from_rgba("big", 257, 257, &big).unwrap_err();
    assert_eq!(e.message(), "stamp png exceeds safety limit 256×256px (got 257)");
    assert_eq!(StampImportError::InvalidId.message(), "stamp id must be non-empty and path-safe");
}

#[test]
fn mate_names_round_trip() {
    for e in [Expression::Neutral, Expression::Happy, Expression::Sad, Expression::Angry, Expression::Sleepy, Expression::Surprised, Expression::Curious, Expression::Playful] {
        assert_eq!(Expression::parse(e.as_str()), Some(e));
    }
    for m in [Mood::Calm, Mood::Curious, Mood::Playful, Mood::Sleepy, Mood::Alert] {
        assert_eq!(Mood::parse(m.as_str()), Some(m));
    }
    for r in [IdleRoutine::Drift, IdleRoutine::Orbit, IdleRoutine::Figure8, IdleRoutine::SpiralPole, IdleRoutine::Wander] {
        assert_eq!(IdleRoutine::parse(r.as_str()), Some(r));
    }
    assert_eq!(IdleRoutine::parse("spiral_pole"), Some(IdleRoutine::SpiralPole));
    assert_eq!(Expression::parse("Happy"), None);
    assert_eq!(Layer::parse("eyes"), Some(Layer::Eyes));
    assert_eq!(Layer::parse("hair"), None);
    assert!(Layer::Background.rank() < Layer::Accessories.rank());
}

#[test]
fn mate_defaults() {
    let a = AutoFlags::default();
    assert!(a.breath && a.blink && a.saccade && !a.tremor);
    assert!(BreathingParams::default().enabled);
    assert_eq!(DEFAULT_PRESET_ID, "happy");
    assert_eq!(DEFAULT_TRANSITION_MS, 480);
}

#[test]
fn mate_needs_enough_leds() {
    assert!(layout_supported(Some(MATE_MIN_LED_COUNT)));
    assert!(layout_supported(Some(1260)));
    assert!(!layout_supported(Some(224)));
    assert!(!layout_supported(None));
    assert!(guard_mate_layout(Some(225), "icosa-15").is_ok());
    let e = guard_mate_layout(Some(60), "tiny").unwrap_err();
    assert_eq!(e.status, 400);
    assert_eq!(e.error, "mate mode is not supported for layout tiny");
    assert_eq!(unsupported_layout_response("x").error, "mate mode is not supported for layout x");
}

#[test]
fn stamp_pixels_name_their_own_colours() {
    let colours = [[9u8, 8, 7], [1, 2, 3], [9, 8, 7], [0, 0, 0]];
    let alphas = [255u8, 200, 128, 10];
    let mut rgba = Vec::new();
    for (c, a) in colours.iter().zip(alphas.iter()) {
        rgba.extend_from_slice(&[c[0], c[1], c[2], *a]);
    }
    let stamp = import_stamp_from_rgba("law", 2, 2, &rgba).unwrap();
    assert_eq!(stamp.pixels.len(), 4);
    for (i, &p) in stamp.pixels.iter().enumerate() {
        if alphas[i] < 128 {
            assert_eq!(p, 0);
        } else {
            assert_eq!(stamp.palette[p as usize - 1], colours[i]);
        }
    }
    assert_eq!(stamp.palette, vec![[9, 8, 7], [1, 2, 3]]);
}

/// A one-slot design palette, as the built-in heart stamp has.
fn one_slot_palette() -> Vec<[u8; 3]> {
    vec![[255, 70, 120]]
}

#[test]
fn resolve_recolor_prefers_preset_palette() {
    let source = one_slot_palette();
    let preset = vec![[10u8, 20, 30]];
    let recolor = resolve_recolor(&source, Some(&preset), [0, 0, 0]);
    assert_eq!(recolor, vec![[10, 20, 30]]);
}

#[test]
fn resolve_recolor_single_slot_uses_color() {
    let source = one_slot_palette();
    let recolor = resolve_recolor(&source, None, [200, 50, 90]);
    assert_eq!(recolor, vec![[200, 50, 90]]);
}

#[test]
fn resolve_recolor_short_palette_keeps_remaining_design_colors() {
    let source = vec![[1u8, 2, 3], [4, 5, 6], [7, 8, 9]];
    let preset = vec![[10u8, 20, 30]];
    assert_eq!(
        resolve_recolor(&source, Some(&preset), [0, 0, 0]),
        vec![[10, 20, 30], [4, 5, 6], [7, 8, 9]]
    );
    assert_eq!(resolve_recolor(&source, None, [200, 50, 90]), source);
}

#[test]
fn preset_header_checks() {
    assert_eq!(check_preset_header("glowbe-mate-face", 1, "happy"), Ok(()));
    assert_eq!(
        check_preset_header("glowbe-mate-face", 2, "happy"),
        Err(PresetError::UnsupportedFormat)
    );
    assert_eq!(check_preset_header("other", 1, "happy"), Err(PresetError::UnsupportedFormat));
    assert_eq!(check_preset_header("glowbe-mate-face", 1, ""), Err(PresetError::UnsafeId));
    assert_eq!(check_preset_header("glowbe-mate-face", 1, "a/b"), Err(PresetError::UnsafeId));
    assert_eq!(check_preset_header("glowbe-mate-face", 1, "a\\b"), Err(PresetError::UnsafeId));
    assert_eq!(PresetError::UnsupportedFormat.message(), "unsupported preset format");
    assert_eq!(PresetError::UnsafeId.message(), "preset id must be non-empty and path-safe");
}

fn summary(id: &str, source: &'static str, parts: usize) -> MatePresetSummary {
    MatePresetSummary {
        id: id.to_string(),
        display_name: id.to_uppercase(),
        part_count: parts,
        source,
        breathing_period_ms: 4200,
    }
}

#[test]
fn user_preset_replaces_builtin_with_same_id() {
    let mut list = vec![summary("happy", "builtin", 4), summary("sad", "builtin", 6)];
    upsert_summary(&mut list, summary("happy", "user", 2));
    let ids: Vec<(&str, &str)> = list.iter().map(|s| (s.id.as_str(), s.source)).collect();
    assert_eq!(ids, vec![("sad", "builtin"), ("happy", "user")]);
    assert_eq!(list[1].part_count, 2);
    upsert_summary(&mut list, summary("angry", "user", 3));
    assert_eq!(list.len(), 3);
}

#[test]
fn preset_listing_sorts_by_id() {
    let list = vec![
        summary("sad", "builtin", 1),
        summary("angry", "builtin", 2),
        summary("happy", "user", 3),
        summary("Zed", "user", 4),
    ];
    let sorted = sort_summaries_by_id(list);
    let ids: Vec<&str> = sorted.iter().map(|s| s.id.as_str()).collect();
    assert_eq!(ids, vec!["Zed", "angry", "happy", "sad"]);
}

fn empty_patch() -> MatePatch {
    MatePatch {
        expression: None,
        mood: None,
        use_expression_tint: false,
        routine: None,
        appearance_use_expression_tint: false,
        appearance_color: None,
        auto_breath: None,
        auto_blink: None,
        auto_saccade: None,
        auto_tremor: None,
    }
}

#[test]
fn mate_look_defaults() {
    let l = MateLook::default();
    assert_eq!(l.expression, Expression::Neutral);
    assert_eq!(l.mood, Mood::Calm);
    assert_eq!(l.routine, IdleRoutine::Orbit);
    assert_eq!(l.color, [200, 240, 255]);
    assert_eq!(l.color_override, None);
}

#[test]
fn patch_sets_named_fields_and_ignores_unknown_names() {
    let mut l = MateLook::default();
    let mut p = empty_patch();
    p.expression = Some("angry".to_string());
    p.mood = Some("no-such-mood".to_string());
    p.routine = Some("figure8".to_string());
    p.use_expression_tint = true;
    p.auto_tremor = Some(true);
    p.auto_blink = Some(false);
    l.apply_patch(&p);
    assert_eq!(l.expression, Expression::Angry);
    assert_eq!(l.mood, Mood::Calm);
    assert_eq!(l.routine, IdleRoutine::Figure8);
    assert_eq!(l.color, [255, 120, 100]);
    assert_eq!(l.color_override, None);
    assert!(l.auto.tremor && !l.auto.blink && l.auto.breath && l.auto.saccade);
}

#[test]
fn appearance_color_overrides_after_tint() {
    let mut l = MateLook::default();
    let mut p = empty_patch();
    p.expression = Some("happy".to_string());
    p.appearance_use_expression_tint = true;
    p.appearance_color = Some(vec![Some(10), None, Some(900), Some(1)]);
    l.apply_patch(&p);
    assert_eq!(l.color, [10, 240, 255]);
    assert_eq!(l.color_override, Some([10, 240, 255]));
    l.apply_patch(&p);
    assert_eq!(l.color, [10, 240, 255]);
    let mut q = empty_patch();
    q.use_expression_tint = true;
    l.apply_patch(&q);
    assert_eq!(l.color, [255, 230, 200]);
    assert_eq!(l.color_override, None);
}

#[test]
fn short_appearance_color_is_ignored() {
    assert_eq!(appearance_color(&vec![Some(1), Some(2)]), None);
    assert_eq!(appearance_color(&vec![Some(300), Some(2), None]), Some([255, 2, 255]));
    let mut l = MateLook::default();
    let mut p = empty_patch();
    p.appearance_color = Some(vec![Some(1), Some(2)]);
    l.apply_patch(&p);
    assert_eq!(l.color, [200, 240, 255]);
    assert_eq!(l.color_override, None);
}

#[test]
fn expression_tints() {
    assert_eq!(Expression::Sad.tint(), [160, 200, 255]);
    assert_eq!(Expression::Playful.tint(), [255, 200, 255]);
    assert_eq!(Expression::Neutral.tint(), [200, 240, 255]);
}

#[test]
fn empty_patch_changes_nothing() {
    let mut l = MateLook::default();
    let mut p = empty_patch();
    p.expression = Some("sleepy".to_string());
    l.apply_patch(&p);
    let before = l;
    l.apply_patch(&empty_patch());
    assert_eq!(l.expression, before.expression);
    assert_eq!(l.mood, before.mood);
    assert_eq!(l.routine, before.routine);
    assert_eq!(l.color, before.color);
    assert_eq!(l.color_override, before.color_override);
    assert_eq!(l.auto.breath, before.auto.breath);
    assert_eq!(l.auto.tremor, before.auto.tremor);
}

fn png_bytes(w: u32, h: u32, px: &[[u8; 4]]) -> Vec<u8> {
    let mut img = image::RgbaImage::new(w, h);
    for (i, p) in px.iter().enumerate() {
        img.put_pixel(i as u32 % w, i as u32 / w, image::Rgba(*p));
    }
    let mut out = std::io::Cursor::new(Vec::new());
    img.write_to(&mut out, image::ImageFormat::Png).unwrap();
    out.into_inner()
}

#[test]
fn png_bytes_import_as_their_pixels() {
    let red = [255, 0, 0, 255];
    let clear = [0, 0, 0, 0];
    let blue = [0, 0, 255, 255];
    let png = png_bytes(2, 2, &[red, clear, blue, red]);
    let s = import_stamp_from_png_bytes("dot", &png).unwrap();
    assert_eq!(s.size, 2);
    assert_eq!(s.palette, vec![[255, 0, 0], [0, 0, 255]]);
    assert_eq!(s.pixels, vec![1, 0, 2, 1]);
    assert_eq!(s.id, "dot");
}

#[test]
fn png_bytes_errors() {
    assert_eq!(import_stamp_from_png_bytes("dot", b"not an image").unwrap_err(), StampImportError::Undecodable);
    assert_eq!(import_stamp_from_png_bytes("a/b", b"not an image").unwrap_err(), StampImportError::InvalidId);
    let png = png_bytes(2, 1, &[[1, 2, 3, 255], [1, 2, 3, 255]]);
    assert_eq!(
        import_stamp_from_png_bytes("wide", &png).unwrap_err(),
        StampImportError::NotSquare { width: 2, height: 1 }
    );
    assert_eq!(StampImportError::Undecodable.message(), "stamp png could not be decoded");
}
