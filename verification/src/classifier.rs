use vstd::prelude::*;

use crate::endpoint::Endpoint;

verus! {

/// The local node's believed NAT mapping behaviour.
///
/// `Asymmetric` means the NAT's external mapping for a local port is reusable
/// across different remote destinations (endpoint-independent), so active
/// hole punching toward third parties is permitted.  `Symmetric` means the
/// mapping is endpoint-dependent: direct hole punching must not be retried
/// without server-assisted relay.
#[derive(Clone, Copy, PartialEq, Eq, Structural, Debug, Hash)]
pub enum NatType {
    Unknown,
    Asymmetric,
    Symmetric,
}

/// One `HostWhoami` report: the external endpoint the server observed for
/// this client, together with the server-side port that solicited it.
#[derive(Clone, Copy, PartialEq, Eq, Structural, Debug)]
pub struct WhoamiObservation {
    pub server_port: u16,
    pub observed: Endpoint,
}

/// The verdict after one more `HostWhoami` observation arrives.
///
/// Two observations solicited from two distinct server-side ports that report
/// the same externally observed endpoint classify the NAT as `Asymmetric`;
/// differing reports classify it as `Symmetric`.  A repeat from the same
/// server port decides nothing and leaves the verdict alone.
pub open spec fn classified(
    prev: Option<WhoamiObservation>,
    current: NatType,
    server_port: u16,
    observed: Endpoint,
) -> NatType {
    match prev {
        Option::None => current,
        Option::Some(p) => if p.server_port != server_port {
            if p.observed == observed {
                NatType::Asymmetric
            } else {
                NatType::Symmetric
            }
        } else {
            current
        },
    }
}

/// Maintains the local node's NAT classification from server-echoed
/// addresses.  Only the latest observation and the latest verdict are
/// retained, never history.
pub struct NatClassifier {
    verdict: NatType,
    last: Option<WhoamiObservation>,
}

impl NatClassifier {
    /// The current verdict, as contracts see it.
    pub closed spec fn verdict_spec(self) -> NatType {
        self.verdict
    }

    /// The most recent observation, as contracts see it.
    pub closed spec fn last_spec(self) -> Option<WhoamiObservation> {
        self.last
    }

    pub fn new() -> (c: NatClassifier)
        ensures
            c.verdict_spec() == NatType::Unknown,
            c.last_spec() is None,
    {
        NatClassifier { verdict: NatType::Unknown, last: None }
    }

    /// Consume one `HostWhoami` report.  Reclassification is idempotent: the
    /// new verdict is a function of the previous observation and this one.
    pub fn observe(&mut self, server_port: u16, observed: Endpoint)
        ensures
            final(self).last_spec() == Some(WhoamiObservation { server_port, observed }),
            final(self).verdict_spec() == classified(
                old(self).last_spec(),
                old(self).verdict_spec(),
                server_port,
                observed,
            ),
    {
        match self.last {
            Some(p) => {
                if p.server_port != server_port {
                    if p.observed == observed {
                        self.verdict = NatType::Asymmetric;
                    } else {
                        self.verdict = NatType::Symmetric;
                    }
                }
            },
            None => {},
        }
        self.last = Some(WhoamiObservation { server_port, observed });
    }

    /// The latest verdict; `Unknown` until two usable observations arrived.
    pub fn verdict(&self) -> (n: NatType)
        ensures
            n == self.verdict_spec(),
    {
        self.verdict
    }
}

} // verus!
