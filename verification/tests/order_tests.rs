use quotefeed::format_quote;
use quotefeed::sort_by_accept_time;
use quotefeed::str_lex_le;
use quotefeed::Collector;
use quotefeed::Quote;

fn synthetic(accept_time: &str, tag: u64) -> Quote {
    Quote {
        pkt_secs: tag,
        accept_time: accept_time.to_string(),
        issue_code: "KR7005930003".to_string(),
        bids: vec![(1, 1); 5],
        asks: vec![(2, 2); 5],
    }
}

fn times(quotes: &[Quote]) -> Vec<String> {
    quotes.iter().map(|q| q.accept_time.clone()).collect()
}

fn tags(quotes: &[Quote]) -> Vec<u64> {
    quotes.iter().map(|q| q.pkt_secs).collect()
}

#[test]
fn lexicographic_compare() {
    assert!(str_lex_le("09:00:00.00", "15:00:00.00"));
    assert!(!str_lex_le("15:00:00.00", "09:00:00.00"));
    assert!(str_lex_le("09:00:00.00", "09:00:00.00"));
    assert!(str_lex_le("", "a"));
    assert!(!str_lex_le("a", ""));
    assert!(str_lex_le("ab", "abc"));
    assert!(!str_lex_le("abc", "ab"));
    assert!(str_lex_le("09:30:12.33", "09:30:12.34"));
}

#[test]
fn tied_quotes_keep_arrival_order() {
    let mut v = vec![synthetic("12:00:00.00", 1), synthetic("12:00:00.00", 2)];
    sort_by_accept_time(&mut v);
    assert_eq!(tags(&v), vec![1, 2]);
}

#[test]
fn many_ties_keep_arrival_order() {
    let mut v = vec![
        synthetic("12:00:00.00", 1),
        synthetic("09:00:00.00", 2),
        synthetic("12:00:00.00", 3),
        synthetic("09:00:00.00", 4),
        synthetic("12:00:00.00", 5),
    ];
    sort_by_accept_time(&mut v);
    assert_eq!(tags(&v), vec![2, 4, 1, 3, 5]);
}

#[test]
fn scrambled_times_come_out_sorted() {
    let scrambled = vec![
        "15:00:00.00",
        "09:00:00.01",
        "23:59:59.99",
        "00:00:00.00",
        "12:30:45.67",
        "09:00:00.00",
        "12:30:45.66",
    ];
    let mut v: Vec<Quote> = scrambled
        .iter()
        .enumerate()
        .map(|(i, t)| synthetic(t, i as u64))
        .collect();
    sort_by_accept_time(&mut v);
    let got = times(&v);
    for w in got.windows(2) {
        assert!(w[0] <= w[1]);
    }
    assert_eq!(
        got,
        vec![
            "00:00:00.00",
            "09:00:00.00",
            "09:00:00.01",
            "12:30:45.66",
            "12:30:45.67",
            "15:00:00.00",
            "23:59:59.99",
        ]
    );
}

#[test]
fn collector_keeps_arrival_order_without_reordering() {
    let mut c = Collector::new(false);
    c.push(synthetic("15:00:00.00", 1));
    c.push(synthetic("09:00:00.00", 2));
    let out = c.into_quotes();
    assert_eq!(times(&out), vec!["15:00:00.00", "09:00:00.00"]);
}

#[test]
fn collector_reorders_chronologically_when_asked() {
    let mut c = Collector::new(true);
    c.push(synthetic("15:00:00.00", 1));
    c.push(synthetic("09:00:00.00", 2));
    let out = c.into_quotes();
    assert_eq!(times(&out), vec!["09:00:00.00", "15:00:00.00"]);
    let first = format_quote(&out[0]);
    let second = format_quote(&out[1]);
    assert!(first.contains("09:00:00.00"));
    assert!(second.contains("15:00:00.00"));
}
