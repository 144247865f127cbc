use glowbe::state::{extract_ip, InteractiveEffectKind, LoopPlaybackTiming, OutputMode};

#[test]
fn output_modes_round_trip_by_name_and_code() {
    for m in [OutputMode::Idle, OutputMode::Loop, OutputMode::Interactive, OutputMode::Mate, OutputMode::Text] {
        assert_eq!(OutputMode::parse(m.as_str()), Some(m));
        assert_eq!(OutputMode::from_code(m.code()), m);
    }
    assert_eq!(OutputMode::from_code(200), OutputMode::Loop);
    assert_eq!(OutputMode::parse("Idle"), None);
}

#[test]
fn effect_kinds_round_trip_by_name_and_code() {
    for e in [InteractiveEffectKind::SphereGaussian, InteractiveEffectKind::ExpandingRingDiagonal] {
        assert_eq!(InteractiveEffectKind::parse(e.as_str()), Some(e));
        assert_eq!(InteractiveEffectKind::from_code(e.code()), e);
    }
    assert_eq!(InteractiveEffectKind::from_code(9), InteractiveEffectKind::SphereGaussian);
}

#[test]
fn reset_starts_the_clip_at_zero() {
    let mut t = LoopPlaybackTiming::default();
    t.reset_loop_playback_timing(1_000);
    assert_eq!(t.clip_elapsed_for_loop(1_000), 0);
    assert_eq!(t.clip_elapsed_for_loop(1_750), 750);
    assert_eq!(t.clip_elapsed_for_loop(500), 0);
    assert!(!t.loop_playback_paused());
}

#[test]
fn pause_and_resume_continue_where_the_clip_stopped() {
    let mut t = LoopPlaybackTiming::default();
    t.reset_loop_playback_timing(100);
    t.pause_loop_playback(400);
    assert!(t.loop_playback_paused());
    assert_eq!(t.clip_elapsed_for_loop(10_000), 300);
    t.resume_loop_playback(1_000);
    assert_eq!(t.clip_elapsed_for_loop(1_000), 300);
    assert_eq!(t.clip_elapsed_for_loop(1_250), 550);
    let before = t;
    t.resume_loop_playback(5_000);
    assert_eq!(t.skew, before.skew);
}

#[test]
fn host_part_of_an_address() {
    assert_eq!(extract_ip("192.168.0.7:49153"), "192.168.0.7");
    assert_eq!(extract_ip("10.0.0.1"), "10.0.0.1");
    assert_eq!(extract_ip(":80"), "");
}
