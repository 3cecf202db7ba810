use vstd::prelude::*;

use crate::rule::Protocol;

verus! {

/// One simulated traffic unit to classify against the rule sequence.
///
/// A packet carries one concrete transport, so `Protocol::All` is not a
/// valid packet protocol; that is the one well-formedness condition.
#[derive(Debug, PartialEq, Eq)]
pub struct Packet {
    pub protocol: Protocol,
    pub port: u32,
    pub source_ip: String,
    pub destination_ip: String,
}

impl Packet {
    /// A packet names a concrete transport, never the wildcard tag.
    pub open spec fn wf(self) -> bool {
        !(self.protocol is All)
    }
}

impl Clone for Packet {
    fn clone(&self) -> (res: Self)
        ensures
            res == *self,
    {
        Packet {
            protocol: self.protocol,
            port: self.port,
            source_ip: self.source_ip.clone(),
            destination_ip: self.destination_ip.clone(),
        }
    }
}

} // verus!
