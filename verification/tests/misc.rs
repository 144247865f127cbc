use glowbe::api::{mix64, parse_mode_request};
use glowbe::config::{default_analysis_hz, default_mode, default_status_port, Assets, Audio, Modes};
use glowbe::device_slot::{fill_interactive_base, push_interactive_pulse, wire_frame_id_from_status};
use glowbe::metrics::{stale_ms, OutputMetrics};
use glowbe::output::frame_id_before;
use glowbe::pattern::{fill_loop_rgb, hsv_to_rgb};
use glowbe::state::{OutputMode, MAX_INTERACTIVE_PULSES};

#[test]
fn config_defaults() {
    assert_eq!(default_analysis_hz(), 60);
    assert_eq!(default_status_port(), 49153);
    assert_eq!(default_mode(), "idle");
    assert_eq!(Modes::default().default, "idle");
    let a = Audio::default();
    assert!(a.default_input.is_none());
    assert_eq!(a.analysis_hz, 0);
    assert!(Assets::default().compiled_dir.is_none());
}

#[test]
fn metrics_count_frames_and_staleness_saturates() {
    let mut m = OutputMetrics::new();
    assert_eq!(m.frames_sent(), 0);
    m.increment_frames_sent();
    m.increment_frames_sent();
    assert_eq!(m.frames_sent(), 2);
    assert_eq!(m.fps_out_bits(), 0);
    m.store_fps_out_bits(60.0f64.to_bits());
    assert_eq!(f64::from_bits(m.fps_out_bits()), 60.0);
    m.mark_tick();
    assert!(m.frame_loop_stale_ms() < 60_000);
    assert_eq!(m.frames_sent(), 2);
    assert_eq!(m.stale_ms_at(0), 0);
    assert_eq!(stale_ms(1_500, 1_000), 500);
    assert_eq!(stale_ms(1_000, 1_500), 0);
}

#[test]
fn hsv_regions() {
    assert_eq!(hsv_to_rgb(0, 255, 255), (255, 0, 0));
    assert_eq!(hsv_to_rgb(85, 255, 255), (3, 255, 0));
    assert_eq!(hsv_to_rgb(200, 255, 100), (65, 0, 100));
    assert_eq!(hsv_to_rgb(17, 0, 77), (77, 77, 77));
}

#[test]
fn loop_pattern_fills_only_the_leds() {
    let mut rgb = [9u8; 9];
    fill_loop_rgb(2, 0, &mut rgb);
    assert_eq!(&rgb[0..3], &[180, 24, 24]);
    assert_eq!(&rgb[3..6], &[180, 32, 24]);
    assert_eq!(&rgb[6..9], &[9, 9, 9]);
    let mut big = vec![0u8; 47 * 3];
    fill_loop_rgb(47, 800, &mut big);
    assert_eq!(&big[46 * 3..47 * 3], &[24, 132, 180]);
}

#[test]
fn frame_ids_order_across_wraparound() {
    assert!(frame_id_before(1, 2));
    assert!(!frame_id_before(2, 1));
    assert!(frame_id_before(u32::MAX, 0));
    assert!(!frame_id_before(5, 5));
    assert_eq!(wire_frame_id_from_status(Some(u32::MAX)), 0);
    assert_eq!(wire_frame_id_from_status(Some(41)), 42);
    assert_eq!(wire_frame_id_from_status(None), 0);
}

#[test]
fn pulses_are_capped_oldest_first() {
    let mut q: Vec<u32> = Vec::new();
    for i in 0..(MAX_INTERACTIVE_PULSES as u32 + 3) {
        push_interactive_pulse(&mut q, i);
    }
    assert_eq!(q.len(), MAX_INTERACTIVE_PULSES);
    assert_eq!(q[0], 3);
    assert_eq!(*q.last().unwrap(), MAX_INTERACTIVE_PULSES as u32 + 2);
}

#[test]
fn interactive_base_is_solid_or_untouched() {
    let mut rgb = [1u8, 2, 3, 4, 5, 6, 7];
    fill_interactive_base(Some([10, 20, 30]), &mut rgb);
    assert_eq!(rgb, [10, 20, 30, 10, 20, 30, 7]);
    let mut rgb2 = [1u8, 2, 3];
    fill_interactive_base(None, &mut rgb2);
    assert_eq!(rgb2, [0, 0, 0]);
}

#[test]
fn mode_requests_and_seed_mixing() {
    assert_eq!(parse_mode_request("mate").unwrap(), OutputMode::Mate);
    let e = parse_mode_request("disco").unwrap_err();
    assert_eq!(e.status, 400);
    assert_eq!(e.error, "unsupported mode: disco");
    assert_eq!(mix64(0), 0);
    assert_eq!(mix64(1), 0xb456bcfc34c2cb2c);
}
