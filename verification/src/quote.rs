use vstd::prelude::*;

verus! {

/// One decoded market-data record: capture time in whole seconds, the
/// exchange-reported acceptance time as text of shape `HH:MM:SS.ff`, a
/// validated 12-character instrument code, and five bid and five ask
/// (quantity, price) levels in wire layout order.
pub struct Quote {
    pub pkt_secs: u64,
    pub accept_time: String,
    pub issue_code: String,
    pub bids: Vec<(u64, u64)>,
    pub asks: Vec<(u64, u64)>,
}

impl Quote {
    /// A Quote is only ever constructed fully formed: five levels a side.
    pub open spec fn wf(self) -> bool {
        &&& self.bids@.len() == 5
        &&& self.asks@.len() == 5
    }
}

} // verus!
