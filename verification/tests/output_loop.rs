use glowbe::devices::{check_devices_file, collect_glowbe_services, service_hostname, GlowbeService};
use glowbe::media::{check_zip_frame_count, check_zip_frame_size, first_frame_progress, frame_progress, zip_collect_image_names};
use glowbe::output::{check_layout_hash, session_frame_id, LayoutHashCheck, SendAction, SendState, FORCED_SENDS_AFTER_CHANGE};
use glowbe::state::{find_device_by_status_ip, StatusRoute};

#[test]
fn session_frame_id_follows_the_esp_baseline() {
    assert_eq!(session_frame_id(false, 500, 10), 10);
    assert_eq!(session_frame_id(true, 5, 10), 10);
    assert_eq!(session_frame_id(true, 50, 10), 50);
    assert_eq!(session_frame_id(true, u32::MAX, 2), 2);
}

#[test]
fn forced_sends_after_a_change() {
    let mut s = SendState::new(u32::MAX);
    assert_eq!(s.decide(true, false), SendAction::Nothing);
    assert_eq!(s.decide(false, false), SendAction::Frame);
    s.restart_sends();
    for _ in 0..FORCED_SENDS_AFTER_CHANGE {
        assert_eq!(s.decide(true, true), SendAction::Frame);
        s.frame_sent();
    }
    assert_eq!(s.frame_id, 3);
    assert_eq!(s.decide(true, true), SendAction::LinkEconomy);
    s.link_economy_sent();
    assert_eq!(s.decide(true, true), SendAction::Nothing);
    s.mark_active();
    assert_eq!(s.decide(true, true), SendAction::LinkEconomy);
}

#[test]
fn send_failures_reconnect_after_sixty() {
    let mut s = SendState::new(0);
    for _ in 0..59 {
        assert!(!s.frame_failed());
    }
    assert!(s.frame_failed());
    let mut t = SendState::new(0);
    t.frame_failed();
    t.frame_sent();
    assert_eq!(t.consecutive_failures, 0);
}

#[test]
fn layout_hash_verdicts() {
    assert_eq!(check_layout_hash(Some(1), Some(1)), LayoutHashCheck::Match);
    assert_eq!(check_layout_hash(Some(1), Some(2)), LayoutHashCheck::Mismatch);
    assert_eq!(check_layout_hash(Some(1), None), LayoutHashCheck::Unreported);
    assert_eq!(check_layout_hash(None, Some(2)), LayoutHashCheck::Unexpected);
    assert_eq!(check_layout_hash(None, None), LayoutHashCheck::Unknown);
}

#[test]
fn status_datagrams_find_their_device() {
    let routes = vec![
        StatusRoute { esp_ip: None, output_target_addr: Some("10.0.0.5:49152".into()), esp_status_addr: None },
        StatusRoute { esp_ip: Some(" 10.0.0.5 ".into()), output_target_addr: None, esp_status_addr: None },
        StatusRoute { esp_ip: None, output_target_addr: None, esp_status_addr: Some("10.0.0.9:5000".into()) },
    ];
    assert_eq!(find_device_by_status_ip(&routes, "10.0.0.5"), Some(1));
    assert_eq!(find_device_by_status_ip(&routes, "10.0.0.9"), Some(2));
    assert_eq!(find_device_by_status_ip(&routes, "10.0.0.1"), None);
}

#[test]
fn discovered_services_deduplicate_and_sort() {
    let s = |h: &str, ip: &str, p: u16| GlowbeService { hostname: h.into(), ipv4: ip.into(), port: p };
    let resolved = vec![s("b", "10.0.0.2", 1), s("a", "10.0.0.1", 1), s("b", "10.0.0.3", 1), s("b", "10.0.0.4", 2)];
    let out = collect_glowbe_services(&resolved);
    let got: Vec<(String, String, u16)> = out.into_iter().map(|x| (x.hostname, x.ipv4, x.port)).collect();
    assert_eq!(
        got,
        vec![
            ("a".to_string(), "10.0.0.1".to_string(), 1),
            ("b".to_string(), "10.0.0.3".to_string(), 1),
            ("b".to_string(), "10.0.0.4".to_string(), 2),
        ]
    );
    assert_eq!(service_hostname("glowbe-proto.local."), "glowbe-proto.local");
    assert_eq!(service_hostname("host.."), "host");
}

#[test]
fn devices_file_header() {
    assert!(check_devices_file("glowbe-devices", 1).is_ok());
    assert_eq!(check_devices_file("glowbe-devices", 2), Err("unsupported devices file format/version".to_string()));
    assert!(check_devices_file("other", 1).is_err());
}

#[test]
fn zip_frames_are_filtered_and_sorted() {
    let entries = vec![
        (true, "frames/b.png".to_string()),
        (false, "frames/".to_string()),
        (true, "__MACOSX/frames/._a.png".to_string()),
        (true, "frames/a.JPG".to_string()),
        (true, "../evil.png".to_string()),
        (true, "notes.txt".to_string()),
        (true, "frames/a.JPG".to_string()),
    ];
    let names = zip_collect_image_names(&entries).unwrap();
    assert_eq!(names, vec!["frames/a.JPG", "frames/a.JPG", "frames/b.png"]);
    let none = zip_collect_image_names(&vec![(true, "a.txt".to_string())]).unwrap_err();
    assert_eq!(none, "zip contains no png/jpeg images");
}

#[test]
fn zip_limits_and_progress() {
    assert!(check_zip_frame_count(3600).is_ok());
    assert_eq!(check_zip_frame_count(3601), Err("zip has too many images (max 3600)".to_string()));
    assert!(check_zip_frame_size(4, 2, "a.png", 4, 2).is_ok());
    assert_eq!(
        check_zip_frame_size(4, 2, "b.png", 8, 2),
        Err("all zip images must share size 4×2, but b.png is 8×2".to_string())
    );
    assert_eq!(first_frame_progress(1), 100);
    assert_eq!(first_frame_progress(3), 33);
    assert_eq!(first_frame_progress(500), 1);
    assert_eq!(frame_progress(1, 3), 66);
    assert_eq!(frame_progress(2, 3), 99);
    assert_eq!(frame_progress(1, 1000), 2);
}
