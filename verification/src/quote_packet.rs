//! The quote packet: locating the message inside a captured frame,
//! validating its framing, reading its fixed byte layout into a typed
//! view, and assembling the final quote record.
//!
//! A quote message is a fixed 214-byte body standing at the very end
//! of the captured frame, immediately preceded by the five marker
//! bytes `"B6034"`; the body's last byte, which is also the frame's
//! last byte, is the terminal marker `0xFF`.  Anything else is not a
//! quote message and yields no record.

use crate::accept_time::accept_time_micros;
use crate::accept_time::spec_accept_micros;
use crate::accept_time::today_midnight_unix_secs;
use crate::accept_time::valid_midnight;
use crate::fields::lenient_value;
use crate::fields::parse_digits;
use crate::quote::Quote;
use crate::quote::QuoteModel;
use crate::text::text_field;
use crate::text::text_or_empty;
use vstd::prelude::*;

verus! {

/// Width of the fixed message body.
pub const BODY_LEN: usize = 214;

/// Width of the marker preceding the body.
pub const MARKER_LEN: usize = 5;

/// A five-byte price field, ASCII digits, with two implied decimal
/// places.
#[derive(Debug, Clone)]
pub struct Price(pub Vec<u8>);

impl Price {
    /// The field holds exactly its five wire bytes.
    pub open spec fn wf(&self) -> bool {
        self.0@.len() == 5
    }

    /// The price in hundredths: the digits' value, or `0` when the
    /// field is malformed.
    pub fn hundredths(&self) -> (r: u64)
        requires
            self.wf(),
        ensures
            r == lenient_value(self.0@),
    {
        parse_digits(self.0.as_slice())
    }
}

/// A seven-byte quantity field, ASCII digits, unscaled.
#[derive(Debug, Clone)]
pub struct Quantity(pub Vec<u8>);

impl Quantity {
    /// The field holds exactly its seven wire bytes.
    pub open spec fn wf(&self) -> bool {
        self.0@.len() == 7
    }

    /// The quantity: the digits' value, or `0` when the field is
    /// malformed.
    pub fn units(&self) -> (r: u64)
        requires
            self.wf(),
        ensures
            r == lenient_value(self.0@),
    {
        parse_digits(self.0.as_slice())
    }
}

/// A typed, read-only view over one validated quote message: every
/// field of the wire layout under its own name, in wire order.
#[derive(Debug, Clone)]
pub struct QuotePacket {
    pub data_type: Vec<u8>,
    pub information_type: Vec<u8>,
    pub market_type: u8,
    pub issue_code: Vec<u8>,
    pub sequence_number: Vec<u8>,
    pub market_status: Vec<u8>,
    pub total_bid_quote_volume: Vec<u8>,
    pub bids: Vec<(Price, Quantity)>,
    pub total_ask_quote_volume: Vec<u8>,
    pub asks: Vec<(Price, Quantity)>,
    pub best_bid_quote_counts: Vec<u8>,
    pub best_ask_quote_counts: Vec<u8>,
    pub quote_accept_time: Vec<u8>,
    pub end_of_message: u8,
}

/// The five marker bytes `"B6034"` stand at position `p`.
pub open spec fn marker_at(s: Seq<u8>, p: int) -> bool {
    &&& s[p] == 66
    &&& s[p + 1] == 54
    &&& s[p + 2] == 48
    &&& s[p + 3] == 51
    &&& s[p + 4] == 52
}

/// The buffer carries a quote message: it has room for marker and
/// body, the five bytes before the body are the marker, and the final
/// byte is the terminal `0xFF`.
pub open spec fn valid_frame(s: Seq<u8>) -> bool {
    &&& s.len() >= 219
    &&& marker_at(s, s.len() - 219)
    &&& s[s.len() - 1] == 255
}

/// Index of the first body byte.
pub open spec fn body_start(s: Seq<u8>) -> int {
    s.len() - 214
}

/// The bytes of the body field at offset `off` of width `len`.
pub open spec fn field_bytes(s: Seq<u8>, off: int, len: int) -> Seq<u8> {
    s.subrange(body_start(s) + off, body_start(s) + off + len)
}

impl QuotePacket {
    /// Every field holds exactly its wire width.
    pub open spec fn wf(&self) -> bool {
        &&& self.data_type@.len() == 2
        &&& self.information_type@.len() == 2
        &&& self.issue_code@.len() == 12
        &&& self.sequence_number@.len() == 3
        &&& self.market_status@.len() == 2
        &&& self.total_bid_quote_volume@.len() == 7
        &&& self.bids@.len() == 5
        &&& forall|i: int| 0 <= i < 5 ==> (#[trigger] self.bids@[i]).0.wf() && self.bids@[i].1.wf()
        &&& self.total_ask_quote_volume@.len() == 7
        &&& self.asks@.len() == 5
        &&& forall|i: int| 0 <= i < 5 ==> (#[trigger] self.asks@[i]).0.wf() && self.asks@[i].1.wf()
        &&& self.best_bid_quote_counts@.len() == 25
        &&& self.best_ask_quote_counts@.len() == 25
        &&& self.quote_accept_time@.len() == 8
    }

    /// The view reads back exactly the validated span of `s`: the
    /// marker bytes as the category fields, and each body field at its
    /// wire offset.
    pub open spec fn matches(&self, s: Seq<u8>) -> bool {
        &&& self.data_type@ == s.subrange(s.len() - 219, s.len() - 217)
        &&& self.information_type@ == s.subrange(s.len() - 217, s.len() - 215)
        &&& self.market_type == s[s.len() - 215]
        &&& self.issue_code@ == field_bytes(s, 4, 12)
        &&& self.sequence_number@ == field_bytes(s, 16, 3)
        &&& self.market_status@ == field_bytes(s, 19, 2)
        &&& self.total_bid_quote_volume@ == field_bytes(s, 21, 7)
        &&& forall|i: int| 0 <= i < 5 ==> (#[trigger] self.bids@[i]).0.0@ == field_bytes(
            s,
            28 + 12 * i,
            5,
        ) && self.bids@[i].1.0@ == field_bytes(s, 33 + 12 * i, 7)
        &&& self.total_ask_quote_volume@ == field_bytes(s, 88, 7)
        &&& forall|i: int| 0 <= i < 5 ==> (#[trigger] self.asks@[i]).0.0@ == field_bytes(
            s,
            95 + 12 * i,
            5,
        ) && self.asks@[i].1.0@ == field_bytes(s, 100 + 12 * i, 7)
        &&& self.best_bid_quote_counts@ == field_bytes(s, 155, 25)
        &&& self.best_ask_quote_counts@ == field_bytes(s, 180, 25)
        &&& self.quote_accept_time@ == field_bytes(s, 205, 8)
        &&& self.end_of_message == s[s.len() - 1]
    }

    /// Locate and validate the quote message inside a captured frame.
    /// Returns the typed view over the validated span, or nothing when
    /// the frame is too short or its framing bytes are wrong.
    pub fn parse(data: &[u8]) -> (r: Option<QuotePacket>)
        ensures
            r is Some <==> valid_frame(data@),
            r is Some ==> r->0.wf() && r->0.matches(data@),
    {
        if data.len() < BODY_LEN {
            return None;
        }
        let start = data.len() - BODY_LEN;
        if start < MARKER_LEN {
            return None;
        }
        let m = start - MARKER_LEN;
        if data[m] != 66 || data[m + 1] != 54 || data[m + 2] != 48 || data[m + 3] != 51 || data[m
            + 4] != 52 {
            return None;
        }
        if data[data.len() - 1] != 255 {
            return None;
        }
        let bids = read_levels(data, start + 28);
        let asks = read_levels(data, start + 95);
        Some(
            QuotePacket {
                data_type: copy_bytes(data, m, 2),
                information_type: copy_bytes(data, m + 2, 2),
                market_type: data[m + 4],
                issue_code: copy_bytes(data, start + 4, 12),
                sequence_number: copy_bytes(data, start + 16, 3),
                market_status: copy_bytes(data, start + 19, 2),
                total_bid_quote_volume: copy_bytes(data, start + 21, 7),
                bids,
                total_ask_quote_volume: copy_bytes(data, start + 88, 7),
                asks,
                best_bid_quote_counts: copy_bytes(data, start + 155, 25),
                best_ask_quote_counts: copy_bytes(data, start + 180, 25),
                quote_accept_time: copy_bytes(data, start + 205, 8),
                end_of_message: data[data.len() - 1],
            },
        )
    }

    /// Assemble the quote record for this view against an explicitly
    /// given midnight: capture instant as handed in, lenient decode of
    /// every level, text-or-empty issue code, and the accept instant
    /// read against `midnight_secs`.
    pub fn to_quote_at(&self, packet_time_micros: u64, midnight_secs: i64) -> (r: Quote)
        requires
            self.wf(),
            valid_midnight(midnight_secs),
        ensures
            r@.packet_time == packet_time_micros,
            r@.accept_time == spec_accept_micros(midnight_secs, self.quote_accept_time@),
            r@.issue_code == text_or_empty(self.issue_code@),
            r@.bids == level_values(self.bids@),
            r@.asks == level_values(self.asks@),
    {
        let issue_code = text_field(self.issue_code.as_slice());
        let bids = levels_to_values(&self.bids);
        let asks = levels_to_values(&self.asks);
        let accept_time = accept_time_micros(midnight_secs, self.quote_accept_time.as_slice());
        Quote { packet_time: packet_time_micros, accept_time, issue_code, bids, asks }
    }

    /// Assemble the quote record, reading the accept time against
    /// today's midnight as the clock gives it.
    pub fn to_quote(&self, packet_time_micros: u64) -> (r: Quote)
        requires
            self.wf(),
        ensures
            r@.packet_time == packet_time_micros,
            r@.issue_code == text_or_empty(self.issue_code@),
            r@.bids == level_values(self.bids@),
            r@.asks == level_values(self.asks@),
            exists|mid: i64|
                #[trigger] valid_midnight(mid) && r@.accept_time == spec_accept_micros(
                    mid,
                    self.quote_accept_time@,
                ),
    {
        let mid = clamped_today_midnight();
        let r = self.to_quote_at(packet_time_micros, mid);
        proof {
            assert(valid_midnight(mid) && r@.accept_time == spec_accept_micros(
                mid,
                self.quote_accept_time@,
            ));
        }
        r
    }

    /// The accept instant of this view, in microseconds since the
    /// epoch, read against today's midnight as the clock gives it.
    pub fn parse_accept_time(&self) -> (r: u64)
        requires
            self.quote_accept_time@.len() == 8,
        ensures
            exists|mid: i64|
                #[trigger] valid_midnight(mid) && r == spec_accept_micros(
                    mid,
                    self.quote_accept_time@,
                ),
    {
        let mid = clamped_today_midnight();
        let r = accept_time_micros(mid, self.quote_accept_time.as_slice());
        proof {
            assert(valid_midnight(mid) && r == spec_accept_micros(mid, self.quote_accept_time@));
        }
        r
    }
}

/// Today's midnight from the clock, clamped into the decoder's range:
/// a clock before the epoch is treated as the epoch itself.
fn clamped_today_midnight() -> (r: i64)
    ensures
        valid_midnight(r),
{
    let mid = today_midnight_unix_secs();
    if mid < 0 {
        0
    } else {
        mid
    }
}

/// The (price in hundredths, quantity) values of a ladder of levels,
/// each field read leniently, wire order kept.
pub open spec fn level_values(levels: Seq<(Price, Quantity)>) -> Seq<(u64, u64)> {
    Seq::new(
        levels.len(),
        |i: int| (lenient_value(levels[i].0.0@) as u64, lenient_value(levels[i].1.0@) as u64),
    )
}

/// Decode each level of a ladder.
fn levels_to_values(levels: &Vec<(Price, Quantity)>) -> (r: Vec<(u64, u64)>)
    requires
        forall|i: int|
            0 <= i < levels@.len() ==> (#[trigger] levels@[i]).0.wf() && levels@[i].1.wf(),
    ensures
        r@ == level_values(levels@),
{
    let mut r: Vec<(u64, u64)> = Vec::new();
    let mut i: usize = 0;
    while i < levels.len()
        invariant
            0 <= i <= levels@.len(),
            forall|m: int|
                0 <= m < levels@.len() ==> (#[trigger] levels@[m]).0.wf() && levels@[m].1.wf(),
            r@.len() == i,
            forall|m: int| 0 <= m < i ==> r@[m] == level_values(levels@)[m],
        decreases levels@.len() - i,
    {
        let price = levels[i].0.hundredths();
        let qty = levels[i].1.units();
        r.push((price, qty));
        i += 1;
    }
    proof {
        assert(r@ =~= level_values(levels@));
    }
    r
}

/// Copy `len` bytes of `data` starting at `start`.
fn copy_bytes(data: &[u8], start: usize, len: usize) -> (r: Vec<u8>)
    requires
        start + len <= data@.len(),
    ensures
        r@ == data@.subrange(start as int, start as int + len as int),
{
    let n = data.len();
    let mut r: Vec<u8> = Vec::new();
    let mut i: usize = 0;
    while i < len
        invariant
            start + len <= n == data@.len(),
            0 <= i <= len,
            r@.len() == i,
            forall|m: int| 0 <= m < i ==> r@[m] == data@[start + m],
        decreases len - i,
    {
        r.push(data[start + i]);
        i += 1;
    }
    proof {
        assert(r@ =~= data@.subrange(start as int, start as int + len as int));
    }
    r
}

/// Read five (price, quantity) levels laid out from `base`.
fn read_levels(data: &[u8], base: usize) -> (r: Vec<(Price, Quantity)>)
    requires
        base + 60 <= data@.len(),
    ensures
        r@.len() == 5,
        forall|i: int|
            0 <= i < 5 ==> (#[trigger] r@[i]).0.wf() && r@[i].1.wf() && r@[i].0.0@
                == data@.subrange(base + 12 * i, base + 12 * i + 5) && r@[i].1.0@ == data@.subrange(
                base + 12 * i + 5,
                base + 12 * i + 12,
            ),
{
    let n = data.len();
    let mut r: Vec<(Price, Quantity)> = Vec::new();
    let mut i: usize = 0;
    while i < 5
        invariant
            base + 60 <= n == data@.len(),
            0 <= i <= 5,
            r@.len() == i,
            forall|m: int|
                0 <= m < i ==> (#[trigger] r@[m]).0.wf() && r@[m].1.wf() && r@[m].0.0@
                    == data@.subrange(base + 12 * m, base + 12 * m + 5) && r@[m].1.0@
                    == data@.subrange(base + 12 * m + 5, base + 12 * m + 12),
        decreases 5 - i,
    {
        let price = Price(copy_bytes(data, base + 12 * i, 5));
        let qty = Quantity(copy_bytes(data, base + 12 * i + 5, 7));
        r.push((price, qty));
        i += 1;
    }
    r
}

/// The instrument identifier the frame carries, as text.
pub open spec fn spec_issue_chars(s: Seq<u8>) -> Seq<char> {
    text_or_empty(field_bytes(s, 4, 12))
}

/// The decoded bid ladder of the frame.
pub open spec fn spec_bids(s: Seq<u8>) -> Seq<(u64, u64)> {
    Seq::new(
        5,
        |i: int|
            (
                lenient_value(field_bytes(s, 28 + 12 * i, 5)) as u64,
                lenient_value(field_bytes(s, 33 + 12 * i, 7)) as u64,
            ),
    )
}

/// The decoded ask ladder of the frame.
pub open spec fn spec_asks(s: Seq<u8>) -> Seq<(u64, u64)> {
    Seq::new(
        5,
        |i: int|
            (
                lenient_value(field_bytes(s, 95 + 12 * i, 5)) as u64,
                lenient_value(field_bytes(s, 100 + 12 * i, 7)) as u64,
            ),
    )
}

/// The one record a valid frame decodes to, as a function of the
/// frame's bytes, the capture instant, and the midnight in force.
pub open spec fn spec_decode(s: Seq<u8>, packet_time_micros: u64, midnight_secs: i64) -> QuoteModel {
    QuoteModel {
        packet_time: packet_time_micros,
        accept_time: spec_accept_micros(midnight_secs, field_bytes(s, 205, 8)),
        issue_code: spec_issue_chars(s),
        bids: spec_bids(s),
        asks: spec_asks(s),
    }
}

/// Everything frame decoding promises: a record comes back exactly for
/// a valid frame, and that record is `spec_decode` of the inputs.
pub open spec fn decode_rel(
    s: Seq<u8>,
    packet_time_micros: u64,
    midnight_secs: i64,
    r: Option<Quote>,
) -> bool {
    &&& (r is Some <==> valid_frame(s))
    &&& (r is Some ==> (r->0)@ == spec_decode(s, packet_time_micros, midnight_secs))
}

/// Decode one captured frame against an explicitly given midnight.
/// The result is a function of the arguments alone.
pub fn decode_frame_at(data: &[u8], packet_time_micros: u64, midnight_secs: i64) -> (r: Option<
    Quote,
>)
    requires
        valid_midnight(midnight_secs),
    ensures
        decode_rel(data@, packet_time_micros, midnight_secs, r),
{
    match QuotePacket::parse(data) {
        None => None,
        Some(p) => {
            let q = p.to_quote_at(packet_time_micros, midnight_secs);
            proof {
                assert(level_values(p.bids@) =~= spec_bids(data@));
                assert(level_values(p.asks@) =~= spec_asks(data@));
                assert(q@ =~= spec_decode(data@, packet_time_micros, midnight_secs));
            }
            Some(q)
        },
    }
}

/// Decode one captured frame: the sole entry point of the core.  A
/// record comes back exactly when the frame carries a quote message;
/// its accept time is read against today's midnight from the clock.
pub fn decode_frame(data: &[u8], packet_time_micros: u64) -> (r: Option<Quote>)
    ensures
        r is Some <==> valid_frame(data@),
        r is Some ==> exists|mid: i64|
            #[trigger] valid_midnight(mid) && (r->0)@ == spec_decode(
                data@,
                packet_time_micros,
                mid,
            ),
{
    let mid = clamped_today_midnight();
    let r = decode_frame_at(data, packet_time_micros, mid);
    proof {
        if r is Some {
            assert(valid_midnight(mid) && (r->0)@ == spec_decode(data@, packet_time_micros, mid));
        }
    }
    r
}

/// A buffer shorter than the fixed body length never yields a record.
pub proof fn lemma_short_buffer_rejected(s: Seq<u8>)
    requires
        s.len() < 214,
    ensures
        !valid_frame(s),
{
}

/// A buffer long enough for the body still yields no record unless it
/// also has room for the marker, the five bytes before the body are
/// the marker, and the final byte is the terminal `0xFF`.
pub proof fn lemma_bad_framing_rejected(s: Seq<u8>)
    requires
        s.len() >= 214,
        s.len() < 219 || s[s.len() - 1] != 255 || !marker_at(s, s.len() - 219),
    ensures
        !valid_frame(s),
{
}

/// Decoding is deterministic: two decodes of identical input, against
/// one midnight, agree on whether a record comes back and on every
/// field of it.
pub proof fn lemma_decode_deterministic(
    s: Seq<u8>,
    packet_time_micros: u64,
    midnight_secs: i64,
    r1: Option<Quote>,
    r2: Option<Quote>,
)
    requires
        decode_rel(s, packet_time_micros, midnight_secs, r1),
        decode_rel(s, packet_time_micros, midnight_secs, r2),
    ensures
        (r1 is Some) == (r2 is Some),
        r1 is Some ==> (r1->0)@ == (r2->0)@,
{
}

} // verus!
