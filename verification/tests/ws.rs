use glowbe::state::{InteractiveEffectKind, OutputMode};
use glowbe::ws::{ws_command, WsCommand, WsMessage};

fn msg(kind: Option<&str>) -> WsMessage {
    WsMessage {
        kind: kind.map(|s| s.to_string()),
        action: None,
        effect: None,
        enable: None,
        enabled: None,
        rotate: None,
        preset: None,
        transition_ms: None,
        duration_ms: None,
        color_rgb_len: None,
    }
}

#[test]
fn ws_simple_commands() {
    assert_eq!(ws_command(&msg(Some("ping")), OutputMode::Idle), WsCommand::Pong);
    assert_eq!(ws_command(&msg(Some("getLayoutUv")), OutputMode::Loop), WsCommand::GetLayoutUv);
    assert_eq!(ws_command(&msg(Some("masterSettings")), OutputMode::Loop), WsCommand::MasterSettings);
    assert_eq!(ws_command(&msg(Some("previewSubscribe")), OutputMode::Loop), WsCommand::PreviewSubscribe { enable: true });
    let mut m = msg(Some("previewSubscribe"));
    m.enable = Some(false);
    assert_eq!(ws_command(&m, OutputMode::Loop), WsCommand::PreviewSubscribe { enable: false });
    assert_eq!(ws_command(&msg(None), OutputMode::Loop), WsCommand::Unsupported { kind: String::new() });
    assert_eq!(ws_command(&msg(Some("dance")), OutputMode::Loop), WsCommand::Unsupported { kind: "dance".into() });
}

#[test]
fn ws_interactive_needs_interactive_mode() {
    assert_eq!(ws_command(&msg(Some("interactive")), OutputMode::Mate), WsCommand::InteractiveWrongMode);
    assert_eq!(
        ws_command(&msg(Some("interactive")), OutputMode::Interactive),
        WsCommand::Pulse { duration_ms: 450, effect: None }
    );
}

#[test]
fn ws_pulse_duration_is_clamped_and_effect_parsed() {
    let mut m = msg(Some("interactive"));
    m.action = Some("pulse".into());
    m.duration_ms = Some(10);
    m.effect = Some("expandingRingDiagonal".into());
    assert_eq!(
        ws_command(&m, OutputMode::Interactive),
        WsCommand::Pulse { duration_ms: 100, effect: Some(InteractiveEffectKind::ExpandingRingDiagonal) }
    );
    m.duration_ms = Some(99_999);
    m.effect = Some("nope".into());
    assert_eq!(ws_command(&m, OutputMode::Interactive), WsCommand::Pulse { duration_ms: 5000, effect: None });
}

#[test]
fn ws_interactive_actions() {
    let mut m = msg(Some("interactive"));
    m.action = Some("setEffect".into());
    assert_eq!(ws_command(&m, OutputMode::Interactive), WsCommand::SetEffectMissing);
    m.effect = Some("sphereGaussian".into());
    assert_eq!(
        ws_command(&m, OutputMode::Interactive),
        WsCommand::SetEffect { effect: InteractiveEffectKind::SphereGaussian }
    );
    let mut m = msg(Some("interactive"));
    m.action = Some("setSolid".into());
    assert_eq!(ws_command(&m, OutputMode::Interactive), WsCommand::SolidOff);
    m.enabled = Some(true);
    assert_eq!(ws_command(&m, OutputMode::Interactive), WsCommand::SolidOn { from_array: false });
    m.color_rgb_len = Some(2);
    assert_eq!(ws_command(&m, OutputMode::Interactive), WsCommand::SolidBadColor);
    m.color_rgb_len = Some(3);
    assert_eq!(ws_command(&m, OutputMode::Interactive), WsCommand::SolidOn { from_array: true });
    let mut m = msg(Some("interactive"));
    m.action = Some("zap".into());
    assert_eq!(
        ws_command(&m, OutputMode::Interactive),
        WsCommand::UnknownInteractiveAction { action: "zap".into() }
    );
}

#[test]
fn ws_mate_actions() {
    let mut m = msg(Some("mate"));
    assert_eq!(ws_command(&m, OutputMode::Text), WsCommand::MateWrongMode);
    assert_eq!(ws_command(&m, OutputMode::Mate), WsCommand::MateUnsupported { action: String::new() });
    m.action = Some("blink".into());
    assert_eq!(ws_command(&m, OutputMode::Mate), WsCommand::MateBlink);
    m.action = Some("setBreathing".into());
    m.enabled = Some(false);
    assert_eq!(ws_command(&m, OutputMode::Mate), WsCommand::MateSetBreathing { enabled: Some(false) });
    m.action = Some("setTransitionRotate".into());
    assert_eq!(ws_command(&m, OutputMode::Mate), WsCommand::MateSetTransitionRotate { rotate: None });
    m.action = Some("setExpression".into());
    assert_eq!(ws_command(&m, OutputMode::Mate), WsCommand::MateExpressionMissing);
    m.preset = Some("   ".into());
    assert_eq!(ws_command(&m, OutputMode::Mate), WsCommand::MateExpressionMissing);
    m.preset = Some("  sad ".into());
    assert_eq!(
        ws_command(&m, OutputMode::Mate),
        WsCommand::MateSetExpression { preset: "sad".into(), transition_ms: 480 }
    );
    m.transition_ms = Some(20_000);
    assert_eq!(
        ws_command(&m, OutputMode::Mate),
        WsCommand::MateSetExpression { preset: "sad".into(), transition_ms: 10_000 }
    );
    m.action = Some("wink".into());
    assert_eq!(ws_command(&m, OutputMode::Mate), WsCommand::MateUnsupported { action: "wink".into() });
}
