use vstd::prelude::*;

use crate::decode::accept_time_of;
use crate::decode::ask_levels_of;
use crate::decode::bid_levels_of;
use crate::decode::issue_code_bytes;
use crate::decode::parse_quote;
use crate::decode::quote_decodes;
use crate::instrument::isin_of;
use crate::net::accepted_frame;
use crate::net::parse_udp;
use crate::net::udp_payload_bytes;
use crate::quote::Quote;

verus! {

/// One frame through the whole pipeline: transport filter, then quote
/// decoder. A frame whose destination port is not one of the two feed
/// ports never reaches the decoder, so it yields no Quote whatever its
/// bytes would have decoded to.
pub fn process_frame(frame: &[u8], pkt_secs: u64) -> (r: Option<Quote>)
    ensures
        r is Some <==> (accepted_frame(frame@) && quote_decodes(udp_payload_bytes(frame@))),
        !accepted_frame(frame@) ==> r is None,
        r matches Some(q) ==> {
            &&& q.wf()
            &&& q.pkt_secs == pkt_secs
            &&& Some(q.issue_code@) == isin_of(issue_code_bytes(udp_payload_bytes(frame@)))
            &&& q.bids@ == bid_levels_of(udp_payload_bytes(frame@))
            &&& q.asks@ == ask_levels_of(udp_payload_bytes(frame@))
            &&& q.accept_time@ == accept_time_of(udp_payload_bytes(frame@))
        },
{
    match parse_udp(frame) {
        Some(payload) => parse_quote(payload.as_slice(), pkt_secs),
        None => None,
    }
}

} // verus!
