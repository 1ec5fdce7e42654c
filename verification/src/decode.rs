use vstd::prelude::*;

use crate::instrument::ascii_chars;
use crate::instrument::isin_of;
use crate::instrument::parse_instrument;
use crate::instrument::upper_alnum;
use crate::quote::Quote;
use crate::text::ascii_char_of;
use crate::text::push_ascii;
use crate::text::push_char;

verus! {

/// Offset of the first bid level; five 10-byte levels follow.
pub const BIDS_OFFSET: usize = 63;

/// Offset of the first ask level; five 10-byte levels follow.
pub const ASKS_OFFSET: usize = 113;

/// The shortest payload the decoder considers at all.
pub const MIN_PAYLOAD_LEN: usize = 143;

/// The shortest payload on which every field read, the acceptance time at
/// its fixed absolute offset included, stays in bounds.
pub const FULL_PAYLOAD_LEN: usize = 248;

/// The big-endian 32-bit integer spelled by the 4 bytes at `i`.
pub open spec fn be_u32_at(b: Seq<u8>, i: int) -> int
    recommends
        0 <= i,
        i + 4 <= b.len(),
{
    b[i] * 0x1000000 + b[i + 1] * 0x10000 + b[i + 2] * 0x100 + b[i + 3]
}

/// The big-endian 48-bit integer spelled by the 6 bytes at `i`.
pub open spec fn be_u48_at(b: Seq<u8>, i: int) -> int
    recommends
        0 <= i,
        i + 6 <= b.len(),
{
    b[i] * 0x10000000000 + b[i + 1] * 0x100000000 + b[i + 2] * 0x1000000 + b[i + 3] * 0x10000
        + b[i + 4] * 0x100 + b[i + 5]
}

/// The payload carries the quote-message marker: the ASCII tag `B6034`
/// at offset 34.
pub open spec fn marker_matches(p: Seq<u8>) -> bool {
    &&& p.len() >= 39
    &&& p[34] == 66
    &&& p[35] == 54
    &&& p[36] == 48
    &&& p[37] == 51
    &&& p[38] == 52
}

/// The 12 instrument-code bytes of a payload.
pub open spec fn issue_code_bytes(p: Seq<u8>) -> Seq<u8>
    recommends
        p.len() >= 51,
{
    p.subrange(39, 51)
}

/// The five bid levels of a payload, in wire layout order. Each level is
/// read as a 4-byte big-endian price followed by a 6-byte big-endian
/// quantity, and stored as (quantity, price).
pub open spec fn bid_levels_of(p: Seq<u8>) -> Seq<(u64, u64)>
    recommends
        p.len() >= 113,
{
    Seq::new(5, |i: int| (be_u48_at(p, 67 + 10 * i) as u64, be_u32_at(p, 63 + 10 * i) as u64))
}

/// The five ask levels of a payload, in the same shape as the bids.
pub open spec fn ask_levels_of(p: Seq<u8>) -> Seq<(u64, u64)>
    recommends
        p.len() >= 163,
{
    Seq::new(5, |i: int| (be_u48_at(p, 117 + 10 * i) as u64, be_u32_at(p, 113 + 10 * i) as u64))
}

/// The `HH:MM:SS.ff` text spelled by 8 raw timestamp bytes: four 2-digit
/// ASCII groups joined with `:`, `:` and `.`.
pub open spec fn time_text(t: Seq<u8>) -> Seq<char>
    recommends
        t.len() == 8,
{
    seq![
        ascii_char_of(t[0]),
        ascii_char_of(t[1]),
        ':',
        ascii_char_of(t[2]),
        ascii_char_of(t[3]),
        ':',
        ascii_char_of(t[4]),
        ascii_char_of(t[5]),
        '.',
        ascii_char_of(t[6]),
        ascii_char_of(t[7]),
    ]
}

/// The acceptance-time text of a payload: the 8 bytes at the fixed
/// absolute offset 240, read as `HH:MM:SS.ff`.
pub open spec fn accept_time_of(p: Seq<u8>) -> Seq<char>
    recommends
        p.len() >= 248,
{
    time_text(p.subrange(240, 248))
}

/// Exactly the payloads from which a Quote is produced: long enough for
/// every field read including the fixed-offset acceptance time, carrying
/// the marker, and with an instrument code the validator accepts.
pub open spec fn quote_decodes(p: Seq<u8>) -> bool {
    &&& p.len() >= 248
    &&& marker_matches(p)
    &&& isin_of(issue_code_bytes(p)) is Some
}

/// Read the big-endian 32-bit integer at `off`.
fn read_be_u32(data: &[u8], off: usize) -> (r: u32)
    requires
        off + 4 <= data@.len(),
    ensures
        r == be_u32_at(data@, off as int),
{
    (data[off] as u32) * 0x1000000 + (data[off + 1] as u32) * 0x10000 + (data[off + 2] as u32)
        * 0x100 + (data[off + 3] as u32)
}

/// Read the big-endian 48-bit integer at `off`.
fn read_be_u48(data: &[u8], off: usize) -> (r: u64)
    requires
        off + 6 <= data@.len(),
    ensures
        r == be_u48_at(data@, off as int),
{
    (data[off] as u64) * 0x10000000000 + (data[off + 1] as u64) * 0x100000000 + (data[off
        + 2] as u64) * 0x1000000 + (data[off + 3] as u64) * 0x10000 + (data[off + 4] as u64) * 0x100
        + (data[off + 5] as u64)
}

/// Read five (quantity, price) levels of 10 bytes each starting at `base`.
fn read_levels(data: &[u8], base: usize) -> (r: Vec<(u64, u64)>)
    requires
        base + 50 <= data@.len(),
    ensures
        r@ == Seq::new(
            5,
            |i: int| (be_u48_at(data@, base + 10 * i + 4) as u64, be_u32_at(data@, base + 10 * i) as u64),
        ),
{
    let n: usize = data.len();
    let mut levels: Vec<(u64, u64)> = Vec::new();
    let mut i: usize = 0;
    while i < 5
        invariant
            i <= 5,
            base + 50 <= n == data@.len(),
            levels@.len() == i,
            forall|k: int|
                0 <= k < i ==> #[trigger] levels@[k] == (
                    be_u48_at(data@, base + 10 * k + 4) as u64,
                    be_u32_at(data@, base + 10 * k) as u64,
                ),
        decreases 5 - i,
    {
        let price = read_be_u32(data, base + 10 * i);
        let quantity = read_be_u48(data, base + 10 * i + 4);
        levels.push((quantity, price as u64));
        i = i + 1;
    }
    proof {
        assert(levels@ =~= Seq::new(
            5,
            |i: int| (be_u48_at(data@, base + 10 * i + 4) as u64, be_u32_at(data@, base + 10 * i) as u64),
        ));
    }
    levels
}

/// Build the `HH:MM:SS.ff` acceptance-time text from the 8 bytes at the
/// fixed absolute offset 240.
fn read_accept_time(data: &[u8]) -> (r: String)
    requires
        data@.len() >= 248,
    ensures
        r@ == accept_time_of(data@),
{
    let mut t = String::new();
    push_ascii(&mut t, data[240]);
    push_ascii(&mut t, data[241]);
    push_char(&mut t, ':');
    push_ascii(&mut t, data[242]);
    push_ascii(&mut t, data[243]);
    push_char(&mut t, ':');
    push_ascii(&mut t, data[244]);
    push_ascii(&mut t, data[245]);
    push_char(&mut t, '.');
    push_ascii(&mut t, data[246]);
    push_ascii(&mut t, data[247]);
    proof {
        assert(t@ =~= accept_time_of(data@));
    }
    t
}

/// Quote decoder: decode one accepted UDP payload into a Quote, or report
/// with `None` that the payload is not a decodable quote message. Payloads
/// shorter than 143 bytes and payloads without the marker are always
/// rejected; a payload too short for the fixed-offset acceptance-time read
/// is rejected rather than overrun; a rejected instrument code fails the
/// whole decode. No partial Quote is ever produced.
pub fn parse_quote(data: &[u8], pkt_secs: u64) -> (r: Option<Quote>)
    ensures
        r is Some <==> quote_decodes(data@),
        data@.len() < 143 ==> r is None,
        !marker_matches(data@) ==> r is None,
        r matches Some(q) ==> {
            &&& q.wf()
            &&& q.pkt_secs == pkt_secs
            &&& Some(q.issue_code@) == isin_of(issue_code_bytes(data@))
            &&& upper_alnum(issue_code_bytes(data@)) ==> q.issue_code@ == ascii_chars(
                issue_code_bytes(data@),
            )
            &&& q.bids@ == bid_levels_of(data@)
            &&& q.asks@ == ask_levels_of(data@)
            &&& q.accept_time@ == accept_time_of(data@)
        },
{
    if data.len() < MIN_PAYLOAD_LEN {
        return None;
    }
    // the ASCII bytes of the marker tag `B6034`
    if !(data[34] == 66 && data[35] == 54 && data[36] == 48 && data[37] == 51 && data[38] == 52) {
        return None;
    }
    if data.len() < FULL_PAYLOAD_LEN {
        return None;
    }
    let issue_code = match parse_instrument(&data[39..51]) {
        Some(code) => code,
        None => {
            return None;
        },
    };
    let bids = read_levels(data, BIDS_OFFSET);
    let asks = read_levels(data, ASKS_OFFSET);
    let accept_time = read_accept_time(data);
    Some(Quote { pkt_secs, accept_time, issue_code, bids, asks })
}

/// The 4 bytes that spell `v` big-endian; meaningful for `v < 2^32`.
pub open spec fn be32_bytes(v: u64) -> Seq<u8>
    recommends
        v < 0x100000000,
{
    seq![
        ((v >> 24) & 0xff) as u8,
        ((v >> 16) & 0xff) as u8,
        ((v >> 8) & 0xff) as u8,
        (v & 0xff) as u8,
    ]
}

/// The 6 bytes that spell `v` big-endian; meaningful for `v < 2^48`.
pub open spec fn be48_bytes(v: u64) -> Seq<u8>
    recommends
        v < 0x1000000000000,
{
    seq![
        ((v >> 40) & 0xff) as u8,
        ((v >> 32) & 0xff) as u8,
        ((v >> 24) & 0xff) as u8,
        ((v >> 16) & 0xff) as u8,
        ((v >> 8) & 0xff) as u8,
        (v & 0xff) as u8,
    ]
}

/// Reading 4 bytes written big-endian gives the written value back.
proof fn lemma_be32_round(p: Seq<u8>, off: int, v: u64)
    requires
        0 <= off,
        off + 4 <= p.len(),
        v < 0x100000000,
        p.subrange(off, off + 4) == be32_bytes(v),
    ensures
        be_u32_at(p, off) == v,
{
    assert(p[off] == ((v >> 24) & 0xff) as u8);
    assert(p[off + 1] == ((v >> 16) & 0xff) as u8);
    assert(p[off + 2] == ((v >> 8) & 0xff) as u8);
    assert(p[off + 3] == (v & 0xff) as u8);
    assert((((v >> 24) & 0xff) as u8) * 0x1000000 + (((v >> 16) & 0xff) as u8) * 0x10000 + (((v
        >> 8) & 0xff) as u8) * 0x100 + ((v & 0xff) as u8) == v) by (bit_vector)
        requires
            v < 0x100000000,
    ;
}

/// Reading 6 bytes written big-endian gives the written value back.
proof fn lemma_be48_round(p: Seq<u8>, off: int, v: u64)
    requires
        0 <= off,
        off + 6 <= p.len(),
        v < 0x1000000000000,
        p.subrange(off, off + 6) == be48_bytes(v),
    ensures
        be_u48_at(p, off) == v,
{
    assert(p[off] == ((v >> 40) & 0xff) as u8);
    assert(p[off + 1] == ((v >> 32) & 0xff) as u8);
    assert(p[off + 2] == ((v >> 24) & 0xff) as u8);
    assert(p[off + 3] == ((v >> 16) & 0xff) as u8);
    assert(p[off + 4] == ((v >> 8) & 0xff) as u8);
    assert(p[off + 5] == (v & 0xff) as u8);
    assert((((v >> 40) & 0xff) as u8) * 0x10000000000 + (((v >> 32) & 0xff) as u8) * 0x100000000 + ((
    (v >> 24) & 0xff) as u8) * 0x1000000 + (((v >> 16) & 0xff) as u8) * 0x10000 + (((v >> 8)
        & 0xff) as u8) * 0x100 + ((v & 0xff) as u8) == v) by (bit_vector)
        requires
            v < 0x1000000000000,
    ;
}

/// The payload `p` carries exactly these field values, each written at its
/// specified offset in the wire layout: the marker at 34, the 12
/// instrument-code bytes at 39, each bid level as a big-endian 4-byte
/// price then a big-endian 6-byte quantity from 63 on, each ask level
/// likewise from 113 on, and the 8 timestamp bytes at 240.
pub open spec fn encodes_quote(
    p: Seq<u8>,
    ic: Seq<u8>,
    bids: Seq<(u64, u64)>,
    asks: Seq<(u64, u64)>,
    ts: Seq<u8>,
) -> bool {
    &&& p.len() >= 248
    &&& marker_matches(p)
    &&& ic.len() == 12
    &&& p.subrange(39, 51) == ic
    &&& bids.len() == 5
    &&& asks.len() == 5
    &&& ts.len() == 8
    &&& p.subrange(240, 248) == ts
    &&& forall|i: int|
        0 <= i < 5 ==> {
            &&& (#[trigger] bids[i]).0 < 0x1000000000000
            &&& bids[i].1 < 0x100000000
            &&& p.subrange(63 + 10 * i, 67 + 10 * i) == be32_bytes(bids[i].1)
            &&& p.subrange(67 + 10 * i, 73 + 10 * i) == be48_bytes(bids[i].0)
        }
    &&& forall|i: int|
        0 <= i < 5 ==> {
            &&& (#[trigger] asks[i]).0 < 0x1000000000000
            &&& asks[i].1 < 0x100000000
            &&& p.subrange(113 + 10 * i, 117 + 10 * i) == be32_bytes(asks[i].1)
            &&& p.subrange(117 + 10 * i, 123 + 10 * i) == be48_bytes(asks[i].0)
        }
}

/// Round trip: whatever field values are written into a well-formed
/// payload are exactly what the decoder reads back out of it — the same
/// instrument-code bytes, the same five bid and five ask levels, and the
/// acceptance-time text spelled by the same timestamp bytes; and the
/// decode succeeds exactly when the instrument code validates.
pub proof fn lemma_round_trip(
    p: Seq<u8>,
    ic: Seq<u8>,
    bids: Seq<(u64, u64)>,
    asks: Seq<(u64, u64)>,
    ts: Seq<u8>,
)
    requires
        encodes_quote(p, ic, bids, asks, ts),
    ensures
        quote_decodes(p) <==> isin_of(ic) is Some,
        issue_code_bytes(p) == ic,
        bid_levels_of(p) == bids,
        ask_levels_of(p) == asks,
        accept_time_of(p) == time_text(ts),
{
    assert(issue_code_bytes(p) =~= ic);
    assert forall|i: int| 0 <= i < 5 implies #[trigger] bid_levels_of(p)[i] == bids[i] by {
        lemma_be32_round(p, 63 + 10 * i, bids[i].1);
        lemma_be48_round(p, 67 + 10 * i, bids[i].0);
    }
    assert forall|i: int| 0 <= i < 5 implies #[trigger] ask_levels_of(p)[i] == asks[i] by {
        lemma_be32_round(p, 113 + 10 * i, asks[i].1);
        lemma_be48_round(p, 117 + 10 * i, asks[i].0);
    }
    assert(bid_levels_of(p) =~= bids);
    assert(ask_levels_of(p) =~= asks);
    assert(p.subrange(240, 248) == ts);
}

} // verus!
