use vstd::prelude::*;

verus! {

/// A UDP endpoint as the mediator reasons about it: an IPv4 address and a
/// port, kept as plain integers so that contracts can speak of them directly.
#[derive(Clone, Copy, PartialEq, Eq, Structural, Debug, Hash)]
pub struct Endpoint {
    pub ip: u32,
    pub port: u16,
}

} // verus!
