use glowbe::text_api::{clamp_text_content, hex_rgb, parse_hex_rgb, parse_text_color_field, MAX_CONTENT_CHARS};
use glowbe::text_state::dilate;

#[test]
fn hex_roundtrip() {
    assert_eq!(parse_hex_rgb("#1a2b3c"), Some([0x1a, 0x2b, 0x3c]));
    assert_eq!(parse_hex_rgb("FFFFFF"), Some([255, 255, 255]));
    assert_eq!(hex_rgb([0, 128, 255]), "#0080ff");
    assert_eq!(parse_hex_rgb("#fff"), None);
    assert_eq!(parse_hex_rgb("zzzzzz"), None);
}

#[test]
fn hex_colour_is_trimmed_and_printed_back() {
    assert_eq!(parse_hex_rgb("  #0A0b0C "), Some([10, 11, 12]));
    for c in [[0u8, 0, 0], [1, 2, 3], [255, 254, 16]] {
        assert_eq!(parse_hex_rgb(&hex_rgb(c)), Some(c));
    }
}

#[test]
fn text_colour_field_reports_the_field_name() {
    assert_eq!(parse_text_color_field(None, "bgColor"), Ok(None));
    assert_eq!(parse_text_color_field(Some("#102030".into()), "bgColor"), Ok(Some([0x10, 0x20, 0x30])));
    assert_eq!(parse_text_color_field(Some("red".into()), "textColor"), Err("invalid textColor: red".to_string()));
}

#[test]
fn text_content_is_capped_in_characters() {
    assert_eq!(clamp_text_content("hello"), "hello");
    let long: String = std::iter::repeat('字').take(MAX_CONTENT_CHARS + 10).collect();
    let kept = clamp_text_content(&long);
    assert_eq!(kept.chars().count(), MAX_CONTENT_CHARS);
    assert!(long.starts_with(&kept));
}

#[test]
fn dilate_spreads_a_dot_to_its_square() {
    let mut src = vec![0u8; 5 * 5];
    src[2 * 5 + 2] = 200;
    let out = dilate(&src, 5, 5, 1);
    for y in 0..5 {
        for x in 0..5 {
            let inside = (1..=3).contains(&y) && (1..=3).contains(&x);
            assert_eq!(out[y * 5 + x], if inside { 200 } else { 0 }, "({x},{y})");
        }
    }
}

#[test]
fn dilate_takes_the_window_maximum_clipped_at_edges() {
    let src: Vec<u8> = vec![1, 9, 2, 3, 4, 5];
    let out = dilate(&src, 3, 2, 1);
    assert_eq!(out, vec![9, 9, 9, 9, 9, 9]);
    let out = dilate(&[7, 1, 1, 1, 1, 8], 6, 1, 2);
    assert_eq!(out, vec![7, 7, 7, 8, 8, 8]);
}

#[test]
fn dilate_radius_zero_is_identity() {
    let src = vec![3u8, 1, 4, 1, 5, 9];
    assert_eq!(dilate(&src, 3, 2, 0), src);
    assert_eq!(dilate(&src, 0, 2, 3), src);
}

#[test]
fn hex_colour_rejects_signs_and_non_ascii_bodies() {
    assert_eq!(parse_hex_rgb("+1+2+3"), None);
    assert_eq!(parse_hex_rgb("aébcd"), None);
    assert_eq!(parse_hex_rgb("#12345g"), None);
    assert_eq!(parse_hex_rgb("##abcdef"), Some([0xab, 0xcd, 0xef]));
    assert_eq!(
        parse_text_color_field(Some("aébcd".into()), "bgColor"),
        Err("invalid bgColor: aébcd".to_string())
    );
}

#[test]
fn hex_colour_round_trips_in_every_spelling() {
    for c in [[0u8, 0, 0], [10, 171, 205], [255, 254, 16]] {
        let h = hex_rgb(c);
        assert_eq!(parse_hex_rgb(&h.to_uppercase()), Some(c));
        assert_eq!(parse_hex_rgb(&h[1..]), Some(c));
        assert_eq!(parse_hex_rgb(&format!("  {}\n", h)), Some(c));
    }
}
