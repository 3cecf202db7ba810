use vstd::prelude::*;

use crate::firewall::Firewall;
use crate::rule::{Action, Protocol, Rule};

verus! {

/// Why a persisted record was refused: it violates a field constraint
/// (unknown action or protocol tag, or an unordered or oversized port
/// range). Validation happens here, at the boundary, so the store never
/// holds an ill-formed rule.
#[derive(Debug, Clone, Copy, PartialEq, Eq, Structural)]
pub enum PersistError {
    MalformedPersistedRecord,
}

/// One rule as it stands in persisted state: tag strings for the two
/// enumerations ("Allow"/"Deny" and "TCP"/"UDP"/"All") and plain fields
/// for the rest. An external collaborator moves these records to and
/// from the file format; the core only writes and validates them.
#[derive(Debug, PartialEq, Eq)]
pub struct PersistedRule {
    pub action: String,
    pub protocol: String,
    pub starting_port_number: u32,
    pub ending_port_number: u32,
    pub source_ip: String,
    pub destination_ip: String,
}

impl Clone for PersistedRule {
    fn clone(&self) -> (res: Self)
        ensures
            res == *self,
    {
        PersistedRule {
            action: self.action.clone(),
            protocol: self.protocol.clone(),
            starting_port_number: self.starting_port_number,
            ending_port_number: self.ending_port_number,
            source_ip: self.source_ip.clone(),
            destination_ip: self.destination_ip.clone(),
        }
    }
}

/// The tag string under which an action is persisted.
pub open spec fn spec_action_tag(a: Action) -> Seq<char> {
    match a {
        Action::Allow => "Allow"@,
        Action::Deny => "Deny"@,
    }
}

/// The tag string under which a protocol is persisted.
pub open spec fn spec_protocol_tag(p: Protocol) -> Seq<char> {
    match p {
        Protocol::TCP => "TCP"@,
        Protocol::UDP => "UDP"@,
        Protocol::All => "All"@,
    }
}

/// `rec` is the persisted form of `r`: tags stand for the enumerations
/// and every other field is carried over unchanged.
pub open spec fn spec_encodes(rec: PersistedRule, r: Rule) -> bool {
    &&& rec.action@ == spec_action_tag(r.action)
    &&& rec.protocol@ == spec_protocol_tag(r.protocol)
    &&& rec.starting_port_number == r.starting_port_number
    &&& rec.ending_port_number == r.ending_port_number
    &&& rec.source_ip == r.source_ip
    &&& rec.destination_ip == r.destination_ip
}

/// A record meets every field constraint: known tags, an ordered port
/// range inside the 16-bit port space.
pub open spec fn spec_record_valid(rec: PersistedRule) -> bool {
    &&& (rec.action@ == "Allow"@ || rec.action@ == "Deny"@)
    &&& (rec.protocol@ == "TCP"@ || rec.protocol@ == "UDP"@ || rec.protocol@ == "All"@)
    &&& rec.starting_port_number <= rec.ending_port_number
    &&& rec.ending_port_number <= 65535
}

/// The action a valid record denotes.
pub open spec fn spec_action_of(rec: PersistedRule) -> Action {
    if rec.action@ == "Allow"@ {
        Action::Allow
    } else {
        Action::Deny
    }
}

/// The protocol a valid record denotes.
pub open spec fn spec_protocol_of(rec: PersistedRule) -> Protocol {
    if rec.protocol@ == "TCP"@ {
        Protocol::TCP
    } else if rec.protocol@ == "UDP"@ {
        Protocol::UDP
    } else {
        Protocol::All
    }
}

/// `r` is the rule a valid record reads back as.
pub open spec fn spec_decodes(rec: PersistedRule, r: Rule) -> bool {
    &&& r.action == spec_action_of(rec)
    &&& r.protocol == spec_protocol_of(rec)
    &&& r.starting_port_number == rec.starting_port_number
    &&& r.ending_port_number == rec.ending_port_number
    &&& r.source_ip == rec.source_ip
    &&& r.destination_ip == rec.destination_ip
}

/// Round trip for one entry: the record written for a well-formed rule
/// is valid, and reading it back yields exactly that rule.
pub proof fn lemma_record_round_trip(rec: PersistedRule, r: Rule)
    requires
        r.wf(),
        spec_encodes(rec, r),
    ensures
        spec_record_valid(rec),
        forall|r2: Rule| spec_decodes(rec, r2) ==> r2 == r,
{
    lemma_tags_distinct();
    match r.action {
        Action::Allow => {
            assert(spec_action_of(rec) == Action::Allow);
        },
        Action::Deny => {
            assert(spec_action_of(rec) == Action::Deny);
        },
    }
    match r.protocol {
        Protocol::TCP => {
            assert(spec_protocol_of(rec) == Protocol::TCP);
        },
        Protocol::UDP => {
            assert(spec_protocol_of(rec) == Protocol::UDP);
        },
        Protocol::All => {
            assert(spec_protocol_of(rec) == Protocol::All);
        },
    }
}

/// The five tag strings denote five distinct values: no record can be
/// read back under two different tags.
proof fn lemma_tags_distinct()
    ensures
        "Allow"@ != "Deny"@,
        "TCP"@ != "UDP"@,
        "TCP"@ != "All"@,
        "UDP"@ != "All"@,
{
    reveal_strlit("Allow");
    reveal_strlit("Deny");
    reveal_strlit("TCP");
    reveal_strlit("UDP");
    reveal_strlit("All");
    assert("Allow"@.len() == 5);
    assert("Deny"@.len() == 4);
    assert("TCP"@[0] == 'T');
    assert("UDP"@[0] == 'U');
    assert("All"@[0] == 'A');
}

/// Writes one rule in its persisted form.
pub fn rule_to_record(r: &Rule) -> (rec: PersistedRule)
    ensures
        spec_encodes(rec, *r),
{
    let action: &str = match r.action {
        Action::Allow => "Allow",
        Action::Deny => "Deny",
    };
    let protocol: &str = match r.protocol {
        Protocol::TCP => "TCP",
        Protocol::UDP => "UDP",
        Protocol::All => "All",
    };
    PersistedRule {
        action: action.to_owned(),
        protocol: protocol.to_owned(),
        starting_port_number: r.starting_port_number,
        ending_port_number: r.ending_port_number,
        source_ip: r.source_ip.clone(),
        destination_ip: r.destination_ip.clone(),
    }
}

/// Reads one persisted record back as a rule; a record that violates a
/// field constraint is refused as malformed, exactly when
/// `spec_record_valid` fails of it.
pub fn rule_from_record(rec: &PersistedRule) -> (res: Result<Rule, PersistError>)
    ensures
        res is Ok <==> spec_record_valid(*rec),
        res is Ok ==> spec_decodes(*rec, res->Ok_0) && res->Ok_0.wf(),
        res is Err ==> res == Err::<Rule, PersistError>(PersistError::MalformedPersistedRecord),
{
    let allow: String = "Allow".to_owned();
    let deny: String = "Deny".to_owned();
    let tcp: String = "TCP".to_owned();
    let udp: String = "UDP".to_owned();
    let all: String = "All".to_owned();
    let action: Action = if rec.action == allow {
        Action::Allow
    } else if rec.action == deny {
        Action::Deny
    } else {
        return Err(PersistError::MalformedPersistedRecord);
    };
    let protocol: Protocol = if rec.protocol == tcp {
        Protocol::TCP
    } else if rec.protocol == udp {
        Protocol::UDP
    } else if rec.protocol == all {
        Protocol::All
    } else {
        return Err(PersistError::MalformedPersistedRecord);
    };
    if rec.starting_port_number > rec.ending_port_number {
        return Err(PersistError::MalformedPersistedRecord);
    }
    if rec.ending_port_number > 65535 {
        return Err(PersistError::MalformedPersistedRecord);
    }
    Ok(
        Rule {
            action,
            protocol,
            starting_port_number: rec.starting_port_number,
            ending_port_number: rec.ending_port_number,
            source_ip: rec.source_ip.clone(),
            destination_ip: rec.destination_ip.clone(),
        },
    )
}

/// Writes the whole store in persisted form, preserving order.
pub fn save_rules(firewall: &Firewall) -> (recs: Vec<PersistedRule>)
    ensures
        recs@.len() == firewall.rules@.len(),
        forall|i: int|
            0 <= i < recs@.len() ==> spec_encodes(#[trigger] recs@[i], firewall.rules@[i]),
{
    let mut recs: Vec<PersistedRule> = Vec::new();
    let mut i: usize = 0;
    while i < firewall.rules.len()
        invariant
            i <= firewall.rules@.len(),
            recs@.len() == i,
            forall|j: int|
                0 <= j < i ==> spec_encodes(#[trigger] recs@[j], firewall.rules@[j]),
        decreases firewall.rules@.len() - i,
    {
        recs.push(rule_to_record(&firewall.rules[i]));
        i += 1;
    }
    recs
}

/// Reads a whole persisted store back, preserving order. Succeeds
/// exactly when every record is valid; one malformed record refuses the
/// whole load, and the store read back is well formed.
pub fn load_rules(recs: &Vec<PersistedRule>) -> (res: Result<Vec<Rule>, PersistError>)
    ensures
        res is Ok <==> (forall|i: int|
            0 <= i < recs@.len() ==> spec_record_valid(#[trigger] recs@[i])),
        res is Ok ==> {
            let rules = res->Ok_0@;
            &&& rules.len() == recs@.len()
            &&& forall|i: int|
                0 <= i < recs@.len() ==> spec_decodes(recs@[i], #[trigger] rules[i])
                    && rules[i].wf()
        },
        res is Err ==> res == Err::<Vec<Rule>, PersistError>(
            PersistError::MalformedPersistedRecord,
        ),
{
    let mut rules: Vec<Rule> = Vec::new();
    let mut i: usize = 0;
    while i < recs.len()
        invariant
            i <= recs@.len(),
            rules@.len() == i,
            forall|j: int| 0 <= j < i ==> spec_record_valid(#[trigger] recs@[j]),
            forall|j: int|
                0 <= j < i ==> spec_decodes(recs@[j], #[trigger] rules@[j]) && rules@[j].wf(),
        decreases recs@.len() - i,
    {
        match rule_from_record(&recs[i]) {
            Ok(r) => {
                rules.push(r);
            },
            Err(e) => {
                return Err(e);
            },
        }
        i += 1;
    }
    Ok(rules)
}

/// Records written for well-formed rules are all valid, so loading what
/// was saved always succeeds: it never reports a malformed record.
pub proof fn lemma_saved_records_valid(recs: Seq<PersistedRule>, rules: Seq<Rule>)
    requires
        rules.len() == recs.len(),
        forall|i: int| 0 <= i < rules.len() ==> (#[trigger] rules[i]).wf(),
        forall|i: int| 0 <= i < recs.len() ==> spec_encodes(#[trigger] recs[i], rules[i]),
    ensures
        forall|i: int| 0 <= i < recs.len() ==> spec_record_valid(#[trigger] recs[i]),
{
    assert forall|i: int| 0 <= i < recs.len() implies spec_record_valid(recs[i]) by {
        lemma_record_round_trip(recs[i], rules[i]);
    }
}

/// Round trip for a whole store: records written for well-formed rules
/// read back, in order, as exactly the rules they were written for.
pub proof fn lemma_store_round_trip(
    recs: Seq<PersistedRule>,
    rules: Seq<Rule>,
    loaded: Seq<Rule>,
)
    requires
        rules.len() == recs.len(),
        forall|i: int| 0 <= i < rules.len() ==> (#[trigger] rules[i]).wf(),
        forall|i: int| 0 <= i < recs.len() ==> spec_encodes(#[trigger] recs[i], rules[i]),
        loaded.len() == recs.len(),
        forall|i: int| 0 <= i < recs.len() ==> spec_decodes(recs[i], #[trigger] loaded[i]),
    ensures
        loaded == rules,
{
    assert forall|i: int| 0 <= i < rules.len() implies loaded[i] == rules[i] by {
        lemma_record_round_trip(recs[i], rules[i]);
    }
    assert(loaded =~= rules);
}

} // verus!
