use vstd::prelude::*;

verus! {

/// Transport protocol tag carried by rules and packets.
///
/// `All` is a tag a rule may carry; matching is by literal equality, so a
/// rule tagged `All` never matches a packet tagged `TCP` or `UDP`.
#[derive(Debug, Clone, Copy, PartialEq, Eq, Structural)]
pub enum Protocol {
    TCP,
    UDP,
    All,
}

/// What a rule asks for: let the packet through, or record it in the
/// audit trail.
#[derive(Debug, Clone, Copy, PartialEq, Eq, Structural)]
pub enum Action {
    Allow,
    Deny,
}

/// One access-control entry. Immutable once constructed; deletion removes
/// the whole entry from the store.
///
/// The source and destination addresses are opaque identifiers: the core
/// compares them by exact string equality and never parses them.
#[derive(Debug, PartialEq, Eq)]
pub struct Rule {
    pub action: Action,
    pub protocol: Protocol,
    pub starting_port_number: u32,
    pub ending_port_number: u32,
    pub source_ip: String,
    pub destination_ip: String,
}

impl Rule {
    /// Construction-time invariant: an ordered port range inside the
    /// 16-bit port space.
    pub open spec fn wf(self) -> bool {
        &&& self.starting_port_number <= self.ending_port_number
        &&& self.ending_port_number <= 65535
    }
}

impl Clone for Rule {
    fn clone(&self) -> (res: Self)
        ensures
            res == *self,
    {
        Rule {
            action: self.action,
            protocol: self.protocol,
            starting_port_number: self.starting_port_number,
            ending_port_number: self.ending_port_number,
            source_ip: self.source_ip.clone(),
            destination_ip: self.destination_ip.clone(),
        }
    }
}

} // verus!
