//! Tests of the fixed-width numeric fields, the accept-time decoder,
//! and the stable reordering of quotes.

use parse_quote::accept_time::accept_time_micros;
use parse_quote::fields::encode_digits;
use parse_quote::fields::parse_digits;
use parse_quote::quote::sort_by_accept_time;
use parse_quote::quote::Quote;
use parse_quote::quote_packet::Price;
use parse_quote::quote_packet::Quantity;

#[test]
fn price_round_trip() {
    let field = encode_digits(12345, 5);
    assert_eq!(field, b"12345".to_vec());
    let price = Price(field);
    let hundredths = price.hundredths();
    assert_eq!(hundredths, 12345);
    assert_eq!(hundredths as f64 / 100.0, 123.45);
}

#[test]
fn quantity_round_trip() {
    let qty = Quantity(b"0001000".to_vec());
    assert_eq!(qty.units(), 1000);
    assert_eq!(encode_digits(1000, 7), b"0001000".to_vec());
}

#[test]
fn digits_parse_exact_values() {
    assert_eq!(parse_digits(b"00000"), 0);
    assert_eq!(parse_digits(b"00100"), 100);
    assert_eq!(parse_digits(b"99999"), 99999);
    assert_eq!(parse_digits(b"9999999"), 9999999);
    assert_eq!(parse_digits(b""), 0);
}

#[test]
fn malformed_digits_decode_to_zero() {
    assert_eq!(parse_digits(b"12a45"), 0);
    assert_eq!(parse_digits(b" 1234"), 0);
    assert_eq!(parse_digits(b"1234-"), 0);
    assert_eq!(parse_digits(b"\xff\xff\xff\xff\xff"), 0);
    let price = Price(b"1.2e3".to_vec());
    assert_eq!(price.hundredths(), 0);
}

fn today_midnight_secs() -> i64 {
    chrono::Utc::now()
        .date_naive()
        .and_hms_opt(0, 0, 0)
        .unwrap()
        .and_utc()
        .timestamp()
}

#[test]
fn accept_time_today_afternoon() {
    let date = chrono::Utc::now().date_naive();
    let midnight = date.and_hms_opt(0, 0, 0).unwrap().and_utc().timestamp();
    let expected = date.and_hms_micro_opt(13, 30, 50, 250_000).unwrap().and_utc();
    let expected_micros =
        expected.timestamp() as u64 * 1_000_000 + expected.timestamp_subsec_micros() as u64;
    assert_eq!(accept_time_micros(midnight, b"13305025"), expected_micros);
}

#[test]
fn accept_time_invalid_time_of_day_falls_back_to_midnight() {
    let midnight = today_midnight_secs();
    assert_eq!(
        accept_time_micros(midnight, b"24000000"),
        midnight as u64 * 1_000_000
    );
    assert_eq!(
        accept_time_micros(midnight, b"23600000"),
        midnight as u64 * 1_000_000
    );
}

#[test]
fn accept_time_malformed_group_decodes_as_zero() {
    let midnight = today_midnight_secs();
    // Bad minutes group counts as zero; the rest still counts.
    assert_eq!(
        accept_time_micros(midnight, b"09xx0000"),
        midnight as u64 * 1_000_000 + 9 * 3600 * 1_000_000
    );
    // A field that is not text at all decodes to midnight.
    assert_eq!(
        accept_time_micros(midnight, b"\xff\xff\xff\xff\xff\xff\xff\xff"),
        midnight as u64 * 1_000_000
    );
}

fn quote_with(accept_time: u64, issue_code: &str) -> Quote {
    Quote {
        packet_time: 7,
        accept_time,
        issue_code: issue_code.to_string(),
        bids: Vec::new(),
        asks: Vec::new(),
    }
}

#[test]
fn sort_is_stable_on_equal_accept_times() {
    let mut quotes = vec![
        quote_with(30, "a"),
        quote_with(10, "b"),
        quote_with(30, "c"),
        quote_with(10, "d"),
        quote_with(20, "e"),
        quote_with(10, "f"),
    ];
    sort_by_accept_time(&mut quotes);
    let order: Vec<(u64, &str)> = quotes
        .iter()
        .map(|q| (q.accept_time, q.issue_code.as_str()))
        .collect();
    assert_eq!(
        order,
        vec![
            (10, "b"),
            (10, "d"),
            (10, "f"),
            (20, "e"),
            (30, "a"),
            (30, "c"),
        ]
    );
}

#[test]
fn sort_handles_empty_and_single() {
    let mut none: Vec<Quote> = Vec::new();
    sort_by_accept_time(&mut none);
    assert!(none.is_empty());
    let mut one = vec![quote_with(5, "x")];
    sort_by_accept_time(&mut one);
    assert_eq!(one.len(), 1);
    assert_eq!(one[0].issue_code, "x");
}
