use vstd::prelude::*;

verus! {

/// An IPv4 address held as its four octets, the value the update loop
/// compares and the record updater sends.
#[derive(Clone, Copy, PartialEq, Eq, Structural, Debug)]
pub struct Ipv4 {
    pub a: u8,
    pub b: u8,
    pub c: u8,
    pub d: u8,
}

/// The placeholder the loop starts from: the loopback address, which no
/// public resolution ever returns, so the first resolved address is always
/// seen as changed.
pub open spec fn spec_sentinel() -> Ipv4 {
    Ipv4 { a: 127, b: 0, c: 0, d: 1 }
}

impl Ipv4 {
    pub fn new(a: u8, b: u8, c: u8, d: u8) -> (r: Ipv4)
        ensures
            r == (Ipv4 { a, b, c, d }),
    {
        Ipv4 { a, b, c, d }
    }

    /// The loopback placeholder, 127.0.0.1.
    pub fn sentinel() -> (r: Ipv4)
        ensures
            r == spec_sentinel(),
    {
        Ipv4 { a: 127, b: 0, c: 0, d: 1 }
    }
}

} // verus!
