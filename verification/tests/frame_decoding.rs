//! Tests of frame validation and of end-to-end decoding of whole
//! captured frames.

use parse_quote::quote_packet::decode_frame;
use parse_quote::quote_packet::decode_frame_at;
use parse_quote::quote_packet::QuotePacket;

const CAPTURE_MICROS: u64 = 1_700_000_000_000_000;

/// A 214-byte message body: issue code, five identical bid levels,
/// five identical ask levels, accept time, terminal byte.
fn build_body(
    issue: &[u8],
    bid_price: &[u8],
    bid_qty: &[u8],
    ask_price: &[u8],
    ask_qty: &[u8],
    accept: &[u8],
) -> Vec<u8> {
    let mut body = vec![b'0'; 214];
    body[4..16].copy_from_slice(issue);
    for level in 0..5 {
        let b = 28 + 12 * level;
        body[b..b + 5].copy_from_slice(bid_price);
        body[b + 5..b + 12].copy_from_slice(bid_qty);
        let a = 95 + 12 * level;
        body[a..a + 5].copy_from_slice(ask_price);
        body[a + 5..a + 12].copy_from_slice(ask_qty);
    }
    body[205..213].copy_from_slice(accept);
    body[213] = 0xFF;
    body
}

fn frame_of(body: &[u8]) -> Vec<u8> {
    let mut frame = b"B6034".to_vec();
    frame.extend_from_slice(body);
    frame
}

fn sample_body() -> Vec<u8> {
    build_body(
        b"KR1234567890",
        b"00100",
        b"0000010",
        b"00200",
        b"0000020",
        b"09000000",
    )
}

fn today_midnight_secs() -> i64 {
    chrono::Utc::now()
        .date_naive()
        .and_hms_opt(0, 0, 0)
        .unwrap()
        .and_utc()
        .timestamp()
}

#[test]
fn short_buffers_yield_nothing() {
    let empty: Vec<u8> = Vec::new();
    assert!(decode_frame(&empty, CAPTURE_MICROS).is_none());
    let almost = vec![0xFFu8; 213];
    assert!(decode_frame(&almost, CAPTURE_MICROS).is_none());
}

#[test]
fn body_without_marker_room_yields_nothing() {
    // 214 to 218 bytes: the body fits but the marker cannot.
    for len in 214..219 {
        let mut buf = vec![b'0'; len];
        let n = buf.len();
        buf[n - 1] = 0xFF;
        assert!(decode_frame(&buf, CAPTURE_MICROS).is_none());
    }
}

#[test]
fn bad_marker_or_terminal_byte_yields_nothing() {
    let good = frame_of(&sample_body());
    assert!(decode_frame(&good, CAPTURE_MICROS).is_some());

    let mut bad_marker = good.clone();
    bad_marker[0] = b'C';
    assert!(decode_frame(&bad_marker, CAPTURE_MICROS).is_none());

    let mut bad_terminal = good.clone();
    let n = bad_terminal.len();
    bad_terminal[n - 1] = 0x00;
    assert!(decode_frame(&bad_terminal, CAPTURE_MICROS).is_none());
}

#[test]
fn leading_capture_headers_are_skipped() {
    // The message stands at the end of the frame; bytes before the
    // marker (link-level headers in a real capture) do not matter.
    let mut framed = vec![0xAAu8; 42];
    framed.extend_from_slice(&frame_of(&sample_body()));
    let quote = decode_frame(&framed, CAPTURE_MICROS).expect("valid frame");
    assert_eq!(quote.issue_code, "KR1234567890");
}

#[test]
fn end_to_end_sample_frame() {
    let frame = frame_of(&sample_body());
    let midnight = today_midnight_secs();
    let quote = decode_frame_at(&frame, CAPTURE_MICROS, midnight).expect("valid frame");

    assert_eq!(quote.packet_time, CAPTURE_MICROS);
    assert_eq!(quote.issue_code, "KR1234567890");
    assert_eq!(quote.bids.len(), 5);
    assert_eq!(quote.asks.len(), 5);
    for &(price, qty) in &quote.bids {
        assert_eq!((price, qty), (100, 10));
        assert_eq!((price as f64 / 100.0, qty as f64), (1.00, 10.0));
    }
    for &(price, qty) in &quote.asks {
        assert_eq!((price, qty), (200, 20));
        assert_eq!((price as f64 / 100.0, qty as f64), (2.00, 20.0));
    }
    assert_eq!(
        quote.accept_time,
        midnight as u64 * 1_000_000 + 9 * 3600 * 1_000_000
    );
}

#[test]
fn decoding_is_deterministic() {
    let frame = frame_of(&sample_body());
    let midnight = today_midnight_secs();
    let first = decode_frame_at(&frame, CAPTURE_MICROS, midnight);
    let second = decode_frame_at(&frame, CAPTURE_MICROS, midnight);
    assert_eq!(first, second);
}

#[test]
fn decode_frame_uses_todays_date() {
    let frame = frame_of(&sample_body());
    let before = today_midnight_secs();
    let quote = decode_frame(&frame, CAPTURE_MICROS).expect("valid frame");
    let after = today_midnight_secs();
    let nine = 9 * 3600 * 1_000_000u64;
    let expected_before = before as u64 * 1_000_000 + nine;
    let expected_after = after as u64 * 1_000_000 + nine;
    assert!(quote.accept_time == expected_before || quote.accept_time == expected_after);
}

#[test]
fn malformed_fields_degrade_without_dropping_the_record() {
    let body = build_body(
        b"\xff\xfe\xfd4567890AB",
        b"0x100",
        b"  1000 ",
        b"00300",
        b"0000030",
        b"09300000",
    );
    let frame = frame_of(&body);
    let midnight = today_midnight_secs();
    let quote = decode_frame_at(&frame, CAPTURE_MICROS, midnight).expect("still a valid frame");
    // Invalid text degrades to the empty identifier.
    assert_eq!(quote.issue_code, "");
    // Malformed numeric fields degrade to zero.
    for &(price, qty) in &quote.bids {
        assert_eq!((price, qty), (0, 0));
    }
    // Well-formed fields of the same record still decode.
    for &(price, qty) in &quote.asks {
        assert_eq!((price, qty), (300, 30));
    }
}

#[test]
fn issue_code_text_need_not_be_ascii() {
    // "é" is two bytes of valid text inside the twelve-byte field.
    let body = build_body(
        b"ABCDE\xc3\xa9FGHIJ",
        b"00100",
        b"0000010",
        b"00200",
        b"0000020",
        b"09000000",
    );
    let frame = frame_of(&body);
    let quote = decode_frame_at(&frame, CAPTURE_MICROS, today_midnight_secs()).expect("valid");
    assert_eq!(quote.issue_code, "ABCDE\u{e9}FGHIJ");
}

#[test]
fn parse_exposes_the_wire_fields() {
    let frame = frame_of(&sample_body());
    let packet = QuotePacket::parse(&frame).expect("valid frame");
    assert_eq!(packet.data_type, b"B6".to_vec());
    assert_eq!(packet.information_type, b"03".to_vec());
    assert_eq!(packet.market_type, b'4');
    assert_eq!(packet.issue_code, b"KR1234567890".to_vec());
    assert_eq!(packet.quote_accept_time, b"09000000".to_vec());
    assert_eq!(packet.end_of_message, 0xFF);
    assert_eq!(packet.bids.len(), 5);
    assert_eq!(packet.bids[0].0 .0, b"00100".to_vec());
    assert_eq!(packet.bids[0].1 .0, b"0000010".to_vec());
    assert_eq!(packet.asks[4].0 .0, b"00200".to_vec());
    assert_eq!(packet.asks[4].1 .0, b"0000020".to_vec());
}

#[test]
fn truncated_message_yields_nothing() {
    // Cutting the last byte off a valid frame breaks the terminal
    // marker check.
    let frame = frame_of(&sample_body());
    let truncated = &frame[..frame.len() - 1];
    assert!(decode_frame(truncated, CAPTURE_MICROS).is_none());
}
