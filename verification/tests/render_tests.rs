use quotefeed::format_quote;
use quotefeed::Quote;

#[test]
fn formats_one_line_with_bids_reversed() {
    let q = Quote {
        pkt_secs: 0,
        accept_time: "00:00:00.00".to_string(),
        issue_code: "US0378331005".to_string(),
        bids: vec![(1, 10), (2, 20), (3, 30), (4, 40), (5, 50)],
        asks: vec![(6, 60), (7, 70), (8, 80), (9, 90), (11, 110)],
    };
    assert_eq!(
        format_quote(&q),
        "0 00:00:00.00 US0378331005 5@50 4@40 3@30 2@20 1@10 6@60 7@70 8@80 9@90 11@110"
    );
}

#[test]
fn formats_large_numbers() {
    let q = Quote {
        pkt_secs: 18446744073709551615,
        accept_time: "23:59:59.99".to_string(),
        issue_code: "KR7005930003".to_string(),
        bids: vec![(0, 0); 5],
        asks: vec![(281474976710655, 4294967295); 5],
    };
    let line = format_quote(&q);
    assert!(line.starts_with("18446744073709551615 23:59:59.99 KR7005930003 0@0"));
    assert!(line.ends_with("281474976710655@4294967295"));
}
