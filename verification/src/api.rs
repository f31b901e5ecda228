//! The connection-facing surface of the core: the status a connection can
//! show and the default instrument set a fresh connection queries. The wire
//! transport itself is an external collaborator.
use vstd::prelude::*;

verus! {

/// Whether a broker connection is currently up.
#[derive(Debug, Clone, Copy, PartialEq, Eq, Structural)]
pub enum ConnectionStatus {
    Connected,
    Disconnected,
}

impl ConnectionStatus {
    pub open spec fn spec_description(self) -> Seq<char> {
        match self {
            ConnectionStatus::Connected => "online"@,
            ConnectionStatus::Disconnected => "offline"@,
        }
    }

    pub fn description(&self) -> (r: &'static str)
        ensures
            r@ == self.spec_description(),
    {
        match self {
            ConnectionStatus::Connected => "online",
            ConnectionStatus::Disconnected => "offline",
        }
    }
}

/// The instrument symbols every fresh connection subscribes to before any
/// portfolio has been seen.
pub fn base_tickers() -> (r: Vec<String>)
    ensures
        r.deep_view() =~= seq!["QQQ.US"@, "SPY.US"@],
{
    let mut out: Vec<String> = Vec::new();
    out.push("QQQ.US".to_owned());
    out.push("SPY.US".to_owned());
    proof {
        assert(out.deep_view() =~= seq!["QQQ.US"@, "SPY.US"@]);
    }
    out
}

} // verus!
