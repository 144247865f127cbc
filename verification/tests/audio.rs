use glowbe::audio::capture::{parse_pw_cli_nodes, platform_info};
use glowbe::audio::engine::{find_input, IngestStart, InputSelection, SelectStep};
use glowbe::audio::ring::SharedRing;
use glowbe::audio::types::{AudioInputDevice, AudioInputKind, AudioVisualizerPalette, AudioVisualizerPattern, RING_CAPACITY};

#[test]
fn parse_source_and_sink() {
    let text = r#"
	id 37, type PipeWire:Interface:Node/3
 		node.description = "USB Mic"
 		node.name = "alsa_input.usb.mic"
 		media.class = "Audio/Source"
	id 38, type PipeWire:Interface:Node/3
 		node.description = "Speakers"
 		node.name = "alsa_output.speakers"
 		media.class = "Audio/Sink"
	id 39, type PipeWire:Interface:Node/3
 		node.name = "Dummy-Driver"
"#;
    let devices = parse_pw_cli_nodes(text);
    assert_eq!(devices.len(), 2);
    assert_eq!(devices[0].kind, AudioInputKind::Monitor);
    assert!(devices[0].name.contains("monitor"));
    assert_eq!(devices[1].kind, AudioInputKind::Source);
    assert_eq!(devices[1].id, "alsa_input.usb.mic");
}

#[test]
fn pw_nodes_sorted_by_lowercase_label_and_described_by_name_when_unlabelled() {
    let text = "id 1, type Node\n node.name = \"b.node\"\n media.class = \"Audio/Source\"\nid 2, type Node\n node.name = \"a.node\"\n node.description = \"Zed\"\n media.class = \"Audio/Source\"\nid 3, type Node\n node.name = \"c.node\"\n node.description = \"alpha\"\n media.class = \"Audio/Sink\"\n";
    let devices = parse_pw_cli_nodes(text);
    let names: Vec<&str> = devices.iter().map(|d| d.name.as_str()).collect();
    assert_eq!(names, vec!["alpha (monitor)", "b.node", "Zed"]);
    assert_eq!(devices[0].id, "c.node");
    assert_eq!(devices[1].id, "b.node");
    assert_eq!(devices[2].id, "a.node");
}

#[test]
fn platform_info_reports_missing_pipewire() {
    let ok = platform_info(true);
    assert!(ok.available);
    assert!(ok.reason.is_none());
    assert_eq!(ok.backend, "pipewire");
    let missing = platform_info(false);
    assert!(!missing.available);
    assert_eq!(missing.reason.as_deref(), Some("pw-cli / pw-record not found (install pipewire-bin)"));
    assert_eq!(missing.backend, "none");
}

#[test]
fn visualizer_pattern_and_palette_names_round_trip() {
    for name in ["radial-spectrum", "aurora-globe", "orbital-spectrum", "impact-constellation", "spectrum-bars", "wobbly-ring"] {
        let p = AudioVisualizerPattern::parse(name).unwrap();
        assert_eq!(p.as_str(), name);
    }
    for name in ["rainbow", "aurora", "nebula", "solar", "ice"] {
        let p = AudioVisualizerPalette::parse(name).unwrap();
        assert_eq!(p.as_str(), name);
    }
    assert!(AudioVisualizerPattern::parse("no-such-pattern").is_none());
    assert!(AudioVisualizerPalette::parse("Rainbow").is_none());
}

#[test]
fn retired_pattern_aliases_map_to_current_scenes() {
    assert_eq!(AudioVisualizerPattern::parse("spectrum-rings"), Some(AudioVisualizerPattern::AuroraGlobe));
    assert_eq!(AudioVisualizerPattern::parse("wave-ribbon"), Some(AudioVisualizerPattern::OrbitalSpectrum));
    assert_eq!(AudioVisualizerPattern::parse("bass-pulse"), Some(AudioVisualizerPattern::ImpactConstellation));
    assert_eq!(AudioVisualizerPattern::parse("bass-pulse").unwrap().as_str(), "impact-constellation");
}

#[test]
fn ring_keeps_the_latest_second() {
    let mut r: SharedRing<f32> = SharedRing::new();
    let mut out = [9.0f32; 4];
    assert_eq!(r.copy_latest(&mut out, 0.0), 0);
    assert_eq!(out, [0.0; 4]);
    r.push(&[1.0, 2.0]);
    assert_eq!(r.copy_latest(&mut out, 0.0), 2);
    assert_eq!(out, [0.0, 0.0, 1.0, 2.0]);
    let chunk: Vec<f32> = (0..RING_CAPACITY as u32 + 10).map(|i| i as f32).collect();
    r.push(&chunk);
    assert_eq!(r.len(), RING_CAPACITY);
    let mut last = [0.0f32; 3];
    assert_eq!(r.copy_latest(&mut last, -1.0), 3);
    let top = (RING_CAPACITY + 9) as f32;
    assert_eq!(last, [top - 2.0, top - 1.0, top]);
    r.clear();
    assert_eq!(r.len(), 0);
}

#[test]
fn ingest_round_trip_restores_the_pipewire_input() {
    let mut sel = InputSelection::new();
    assert!(!sel.connected());
    let platform = platform_info(true);
    match sel.select_input_begin(Some("alsa_input.usb.mic"), &platform) {
        SelectStep::Capture { id } => assert_eq!(id, "alsa_input.usb.mic"),
        other => panic!("unexpected {other:?}"),
    }
    sel.capture_started(AudioInputDevice { id: "alsa_input.usb.mic".into(), name: "USB Mic".into(), kind: AudioInputKind::Source });
    assert!(sel.connected());
    assert_eq!(sel.begin_ingest(), IngestStart::Started { stop_capture: true });
    assert_eq!(sel.begin_ingest(), IngestStart::AlreadyActive);
    assert!(sel.selected_input().is_none());
    assert_eq!(sel.selected.as_ref().map(|d| d.id.as_str()), Some("browser-ingest"));
    match sel.select_input_begin(Some("x"), &platform) {
        SelectStep::Refused { error } => {
            assert_eq!(error, "browser audio ingest is active; stop it before selecting a host input")
        }
        other => panic!("unexpected {other:?}"),
    }
    assert_eq!(sel.end_ingest().as_deref(), Some("alsa_input.usb.mic"));
    assert_eq!(sel.end_ingest(), None);
    assert!(sel.selected.is_none());
}

#[test]
fn input_selection_without_audio_or_id() {
    let mut sel = InputSelection::new();
    assert_eq!(sel.select_input_begin(Some(""), &platform_info(true)), SelectStep::Deselected);
    match sel.select_input_begin(Some("mic"), &platform_info(false)) {
        SelectStep::Unavailable { error } => assert_eq!(error, "pw-cli / pw-record not found (install pipewire-bin)"),
        other => panic!("unexpected {other:?}"),
    }
    assert_eq!(sel.last_error.as_deref(), Some("pw-cli / pw-record not found (install pipewire-bin)"));
    sel.capture_failed("boom".into());
    assert!(!sel.connected());
    let devices = vec![
        AudioInputDevice { id: "a".into(), name: "A".into(), kind: AudioInputKind::Source },
        AudioInputDevice { id: "b".into(), name: "B".into(), kind: AudioInputKind::Monitor },
    ];
    assert_eq!(find_input(&devices, "b"), Ok(1));
    assert_eq!(find_input(&devices, "c"), Err("unknown audio input: c".to_string()));
}
