use quotefeed::format_quote;
use quotefeed::parse_quote;

fn put_level(p: &mut Vec<u8>, off: usize, quantity: u64, price: u64) {
    p[off..off + 4].copy_from_slice(&(price as u32).to_be_bytes());
    let qb = quantity.to_be_bytes();
    p[off + 4..off + 10].copy_from_slice(&qb[2..8]);
}

fn build_payload(
    len: usize,
    marker: &[u8],
    ic: &[u8],
    bids: &[(u64, u64)],
    asks: &[(u64, u64)],
    ts: &[u8],
) -> Vec<u8> {
    let mut p = vec![0u8; len];
    if len >= 39 {
        p[34..39].copy_from_slice(marker);
    }
    if len >= 51 {
        p[39..51].copy_from_slice(ic);
    }
    if len >= 163 {
        for (i, &(q, pr)) in bids.iter().enumerate() {
            put_level(&mut p, 63 + 10 * i, q, pr);
        }
        for (i, &(q, pr)) in asks.iter().enumerate() {
            put_level(&mut p, 113 + 10 * i, q, pr);
        }
    }
    if len >= 248 {
        p[240..248].copy_from_slice(ts);
    }
    p
}

fn sample_bids() -> Vec<(u64, u64)> {
    vec![(10, 70000), (20, 69900), (30, 69800), (40, 69700), (50, 69600)]
}

fn sample_asks() -> Vec<(u64, u64)> {
    vec![(15, 70100), (25, 70200), (35, 70300), (45, 70400), (55, 70500)]
}

#[test]
fn short_payload_yields_no_quote() {
    // anything under 143 bytes is rejected, whatever it holds
    let p = build_payload(142, b"B6034", b"KR7005930003", &[], &[], b"09301234");
    assert!(parse_quote(&p, 0).is_none());
    assert!(parse_quote(&[], 0).is_none());
    let q = vec![0xffu8; 100];
    assert!(parse_quote(&q, 0).is_none());
}

#[test]
fn wrong_marker_yields_no_quote() {
    let p = build_payload(
        248,
        b"B6035",
        b"KR7005930003",
        &sample_bids(),
        &sample_asks(),
        b"09301234",
    );
    assert!(parse_quote(&p, 0).is_none());
    let z = build_payload(
        248,
        b"A6034",
        b"KR7005930003",
        &sample_bids(),
        &sample_asks(),
        b"09301234",
    );
    assert!(parse_quote(&z, 0).is_none());
}

#[test]
fn payload_too_short_for_timestamp_yields_no_quote() {
    // long enough for the marker and levels, too short for the fixed
    // absolute timestamp offset
    let p = build_payload(200, b"B6034", b"KR7005930003", &sample_bids(), &sample_asks(), b"");
    assert!(parse_quote(&p, 0).is_none());
    let q = build_payload(247, b"B6034", b"KR7005930003", &sample_bids(), &sample_asks(), b"");
    assert!(parse_quote(&q, 0).is_none());
}

#[test]
fn invalid_instrument_code_fails_whole_decode() {
    // check digit is wrong: 4 instead of 3
    let p = build_payload(
        248,
        b"B6034",
        b"KR7005930004",
        &sample_bids(),
        &sample_asks(),
        b"09301234",
    );
    assert!(parse_quote(&p, 0).is_none());
}

#[test]
fn round_trip_of_encoded_fields() {
    let p = build_payload(
        248,
        b"B6034",
        b"KR7005930003",
        &sample_bids(),
        &sample_asks(),
        b"09301234",
    );
    let q = parse_quote(&p, 7).expect("well-formed payload must decode");
    assert_eq!(q.pkt_secs, 7);
    assert_eq!(q.issue_code, "KR7005930003");
    assert_eq!(q.accept_time, "09:30:12.34");
    assert_eq!(q.bids, sample_bids());
    assert_eq!(q.asks, sample_asks());
}

#[test]
fn lowercase_instrument_code_is_accepted_uppercased() {
    // the validator uppercases before checking, and hands the canonical
    // uppercase code back
    let p = build_payload(
        248,
        b"B6034",
        b"kr7005930003",
        &sample_bids(),
        &sample_asks(),
        b"09301234",
    );
    let q = parse_quote(&p, 0).expect("lowercase code validates loosely");
    assert_eq!(q.issue_code, "KR7005930003");
}

#[test]
fn scenario_full_line() {
    let p = build_payload(
        248,
        b"B6034",
        b"KR7005930003",
        &sample_bids(),
        &sample_asks(),
        b"09301234",
    );
    let q = parse_quote(&p, 7).expect("well-formed payload must decode");
    let line = format_quote(&q);
    assert_eq!(
        line,
        "7 09:30:12.34 KR7005930003 50@69600 40@69700 30@69800 20@69900 10@70000 \
         15@70100 25@70200 35@70300 45@70400 55@70500"
    );
}

#[test]
fn large_field_values_survive() {
    let bids = vec![(0xFFFFFFFFFFFF, 0xFFFFFFFF), (1, 2), (3, 4), (5, 6), (7, 8)];
    let asks = vec![(0, 0), (0, 1), (1, 0), (9, 9), (281474976710655, 4294967295)];
    let p = build_payload(248, b"B6034", b"US0378331005", &bids, &asks, b"23595999");
    let q = parse_quote(&p, 0).expect("well-formed payload must decode");
    assert_eq!(q.bids, bids);
    assert_eq!(q.asks, asks);
    assert_eq!(q.accept_time, "23:59:59.99");
}
