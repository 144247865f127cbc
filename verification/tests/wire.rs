use glowbe::wire::{encode_frame, parse_status, HEADER_SIZE, MAGIC0, MAGIC1, MAX_CHUNK_PAYLOAD, MSG_FRAME, MSG_STATUS, VERSION};

#[test]
fn encode_single_chunk_prototype() {
    let led_count = 225u16;
    let rgb: Vec<u8> = (0..led_count as usize * 3).map(|i| i as u8).collect();
    let pkts = encode_frame(led_count, 42, &rgb);
    assert_eq!(pkts.len(), 1);
    let p = &pkts[0];
    assert_eq!(&p[0..4], &[MAGIC0, MAGIC1, VERSION, MSG_FRAME]);
    assert_eq!(u32::from_le_bytes(p[4..8].try_into().unwrap()), 42);
    assert_eq!(u16::from_le_bytes(p[8..10].try_into().unwrap()), led_count);
    assert_eq!(u16::from_le_bytes(p[14..16].try_into().unwrap()), 675);
    assert_eq!(p.len(), HEADER_SIZE + 675);
}

#[test]
fn parse_status_roundtrip_fields() {
    let mut pkt = [0u8; 16];
    pkt[0] = MAGIC0;
    pkt[1] = MAGIC1;
    pkt[2] = VERSION;
    pkt[3] = MSG_STATUS;
    pkt[4..8].copy_from_slice(&100u32.to_le_bytes());
    pkt[8..10].copy_from_slice(&602u16.to_le_bytes());
    pkt[10..12].copy_from_slice(&3u16.to_le_bytes());
    pkt[12] = (-55i8) as u8;
    let st = parse_status(&pkt).unwrap();
    assert_eq!(st.frames_complete, 100);
    assert!((st.fps_rx_x10 as f32 / 10.0 - 60.2).abs() < 0.01);
    assert_eq!(st.drops, 3);
    assert_eq!(st.rssi, -55);
    assert!(st.layout_hash.is_none());
}

#[test]
fn parse_status_with_layout_hash() {
    let mut pkt = [0u8; 20];
    pkt[0] = MAGIC0;
    pkt[1] = MAGIC1;
    pkt[2] = VERSION;
    pkt[3] = MSG_STATUS;
    pkt[16..20].copy_from_slice(&0x7c501117u32.to_le_bytes());
    let st = parse_status(&pkt).unwrap();
    assert_eq!(st.layout_hash, Some(0x7c501117));
}

#[test]
fn encode_multi_chunk_when_payload_exceeds_max() {
    let led_count = 500u16;
    let rgb: Vec<u8> = vec![0; led_count as usize * 3];
    let pkts = encode_frame(led_count, 1, &rgb);
    assert!(pkts.len() > 1);
    let total_payload: usize = pkts.iter().map(|p| p.len() - HEADER_SIZE).sum();
    assert_eq!(total_payload, rgb.len());
}

#[test]
fn multi_chunk_payloads_reassemble_in_order() {
    let led_count = 1260u16;
    let rgb: Vec<u8> = (0..led_count as usize * 3).map(|i| (i * 7 % 251) as u8).collect();
    let pkts = encode_frame(led_count, 9, &rgb);
    assert_eq!(pkts.len(), 3);
    let mut joined = Vec::new();
    for p in &pkts {
        joined.extend_from_slice(&p[HEADER_SIZE..]);
    }
    assert_eq!(joined, rgb);
}

#[test]
fn multi_chunk_headers_number_the_chunks() {
    let led_count = 1260u16;
    let rgb: Vec<u8> = vec![5; led_count as usize * 3];
    let pkts = encode_frame(led_count, 0xdead_beef, &rgb);
    for (k, p) in pkts.iter().enumerate() {
        assert_eq!(&p[0..4], &[MAGIC0, MAGIC1, VERSION, MSG_FRAME]);
        assert_eq!(u32::from_le_bytes(p[4..8].try_into().unwrap()), 0xdead_beef);
        assert_eq!(u16::from_le_bytes(p[8..10].try_into().unwrap()), led_count);
        assert_eq!(u16::from_le_bytes(p[10..12].try_into().unwrap()) as usize, k);
        assert_eq!(u16::from_le_bytes(p[12..14].try_into().unwrap()), 3);
        assert_eq!(u16::from_le_bytes(p[14..16].try_into().unwrap()) as usize, p.len() - HEADER_SIZE);
    }
    assert_eq!(pkts[0].len() - HEADER_SIZE, MAX_CHUNK_PAYLOAD);
    assert_eq!(pkts[2].len() - HEADER_SIZE, 3780 - 2 * MAX_CHUNK_PAYLOAD);
}

#[test]
fn empty_frame_has_no_datagrams() {
    let pkts = encode_frame(0, 1, &[]);
    assert!(pkts.is_empty());
}

#[test]
fn parse_status_rejects_short_or_foreign_datagrams() {
    let mut pkt = [0u8; 16];
    pkt[0] = MAGIC0;
    pkt[1] = MAGIC1;
    pkt[2] = VERSION;
    pkt[3] = MSG_STATUS;
    assert!(parse_status(&pkt[..15]).is_none());
    let mut frame = pkt;
    frame[3] = MSG_FRAME;
    assert!(parse_status(&frame).is_none());
    let mut foreign = pkt;
    foreign[0] = 0;
    assert!(parse_status(&foreign).is_none());
    assert!(parse_status(&pkt).is_some());
}
