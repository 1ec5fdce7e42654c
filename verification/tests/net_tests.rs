use quotefeed::parse_udp;
use quotefeed::process_frame;

fn udp_frame(dest_port: u16, payload: &[u8]) -> Vec<u8> {
    let mut f = Vec::new();
    f.extend_from_slice(&5000u16.to_be_bytes());
    f.extend_from_slice(&dest_port.to_be_bytes());
    f.extend_from_slice(&((8 + payload.len()) as u16).to_be_bytes());
    f.extend_from_slice(&0u16.to_be_bytes());
    f.extend_from_slice(payload);
    f
}

fn quote_payload() -> Vec<u8> {
    let mut p = vec![0u8; 248];
    p[34..39].copy_from_slice(b"B6034");
    p[39..51].copy_from_slice(b"KR7005930003");
    p[240..248].copy_from_slice(b"09301234");
    p
}

#[test]
fn too_short_for_udp_header_is_discarded() {
    assert!(parse_udp(&[]).is_none());
    assert!(parse_udp(&[0u8; 7]).is_none());
}

#[test]
fn feed_ports_are_accepted() {
    let f = udp_frame(15515, b"hello");
    assert_eq!(parse_udp(&f).unwrap(), b"hello");
    let g = udp_frame(15516, b"");
    assert_eq!(parse_udp(&g).unwrap(), Vec::<u8>::new());
}

#[test]
fn other_ports_are_discarded() {
    assert!(parse_udp(&udp_frame(80, b"hello")).is_none());
    assert!(parse_udp(&udp_frame(15514, b"hello")).is_none());
    assert!(parse_udp(&udp_frame(15517, b"hello")).is_none());
}

#[test]
fn wrong_port_never_reaches_the_decoder() {
    // this payload decodes validly, but the port is not a feed port
    let payload = quote_payload();
    let f = udp_frame(8080, &payload);
    assert!(process_frame(&f, 0).is_none());
}

#[test]
fn right_port_decodes_end_to_end() {
    let payload = quote_payload();
    let f = udp_frame(15515, &payload);
    let q = process_frame(&f, 42).expect("feed-port frame with a valid quote must decode");
    assert_eq!(q.pkt_secs, 42);
    assert_eq!(q.issue_code, "KR7005930003");
    assert_eq!(q.accept_time, "09:30:12.34");
    let g = udp_frame(15516, &payload);
    assert!(process_frame(&g, 42).is_some());
}
