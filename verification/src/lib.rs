mod decode;
mod instrument;
mod net;
mod order;
mod pipeline;
mod quote;
mod render;
mod text;

pub use decode::accept_time_of;
pub use decode::ask_levels_of;
pub use decode::be32_bytes;
pub use decode::be48_bytes;
pub use decode::be_u32_at;
pub use decode::be_u48_at;
pub use decode::bid_levels_of;
pub use decode::encodes_quote;
pub use decode::issue_code_bytes;
pub use decode::lemma_round_trip;
pub use decode::marker_matches;
pub use decode::parse_quote;
pub use decode::quote_decodes;
pub use decode::time_text;
pub use instrument::ascii_chars;
pub use instrument::isin_of;
pub use instrument::upper_alnum;
pub use net::accepted_frame;
pub use net::parse_udp;
pub use net::udp_dest_port;
pub use net::udp_payload_bytes;
pub use net::FEED_PORT_A;
pub use net::FEED_PORT_B;
pub use order::lemma_tied_pair_keeps_order;
pub use order::lex_le;
pub use order::qkey;
pub use order::sort_by_accept_time;
pub use order::sorted_by_time;
pub use order::str_lex_le;
pub use order::with_key;
pub use order::Collector;
pub use pipeline::process_frame;
pub use quote::Quote;
pub use render::format_quote;
pub use render::quote_line;
pub use text::ascii_char_of;
