use firewall::firewall::Firewall;
use firewall::persist::{
    load_rules, rule_from_record, rule_to_record, save_rules, PersistError, PersistedRule,
};
use firewall::rule::{Action, Protocol, Rule};

fn rule(
    action: Action,
    protocol: Protocol,
    start: u32,
    end: u32,
    src: &str,
    dst: &str,
) -> Rule {
    Rule {
        action,
        protocol,
        starting_port_number: start,
        ending_port_number: end,
        source_ip: src.to_string(),
        destination_ip: dst.to_string(),
    }
}

fn record(
    action: &str,
    protocol: &str,
    start: u32,
    end: u32,
    src: &str,
    dst: &str,
) -> PersistedRule {
    PersistedRule {
        action: action.to_string(),
        protocol: protocol.to_string(),
        starting_port_number: start,
        ending_port_number: end,
        source_ip: src.to_string(),
        destination_ip: dst.to_string(),
    }
}

#[test]
fn one_rule_round_trips_through_its_record() {
    let r = rule(Action::Allow, Protocol::TCP, 80, 90, "1.1.1.1", "2.2.2.2");
    let rec = rule_to_record(&r);
    assert_eq!(rec, record("Allow", "TCP", 80, 90, "1.1.1.1", "2.2.2.2"));
    assert_eq!(rule_from_record(&rec), Ok(r));
}

#[test]
fn every_tag_pair_round_trips() {
    for action in [Action::Allow, Action::Deny] {
        for protocol in [Protocol::TCP, Protocol::UDP, Protocol::All] {
            let r = rule(action, protocol, 0, 65535, "src", "dst");
            assert_eq!(rule_from_record(&rule_to_record(&r)), Ok(r));
        }
    }
}

#[test]
fn store_round_trips_in_order() {
    let mut fw = Firewall::new();
    let r0 = rule(Action::Deny, Protocol::TCP, 1, 65535, "1.1.1.1", "2.2.2.2");
    let r1 = rule(Action::Allow, Protocol::UDP, 53, 53, "8.8.8.8", "9.9.9.9");
    let r2 = rule(Action::Allow, Protocol::All, 0, 0, "", "");
    fw.add_rule(r0.clone());
    fw.add_rule(r1.clone());
    fw.add_rule(r2.clone());
    let recs = save_rules(&fw);
    assert_eq!(recs.len(), 3);
    let loaded = load_rules(&recs).unwrap();
    assert_eq!(loaded, vec![r0, r1, r2]);
}

#[test]
fn empty_store_round_trips() {
    let fw = Firewall::new();
    let recs = save_rules(&fw);
    assert!(recs.is_empty());
    assert_eq!(load_rules(&recs), Ok(vec![]));
}

#[test]
fn unknown_action_tag_is_malformed() {
    let rec = record("Permit", "TCP", 1, 2, "a", "b");
    assert_eq!(rule_from_record(&rec), Err(PersistError::MalformedPersistedRecord));
    // Tags are case-sensitive.
    let rec = record("allow", "TCP", 1, 2, "a", "b");
    assert_eq!(rule_from_record(&rec), Err(PersistError::MalformedPersistedRecord));
}

#[test]
fn unknown_protocol_tag_is_malformed() {
    let rec = record("Allow", "ICMP", 1, 2, "a", "b");
    assert_eq!(rule_from_record(&rec), Err(PersistError::MalformedPersistedRecord));
    let rec = record("Allow", "tcp", 1, 2, "a", "b");
    assert_eq!(rule_from_record(&rec), Err(PersistError::MalformedPersistedRecord));
}

#[test]
fn unordered_port_range_is_malformed() {
    let rec = record("Deny", "UDP", 90, 80, "a", "b");
    assert_eq!(rule_from_record(&rec), Err(PersistError::MalformedPersistedRecord));
}

#[test]
fn oversized_port_is_malformed() {
    let rec = record("Allow", "TCP", 0, 65536, "a", "b");
    assert_eq!(rule_from_record(&rec), Err(PersistError::MalformedPersistedRecord));
}

#[test]
fn one_malformed_record_refuses_the_whole_load() {
    let recs = vec![
        record("Allow", "TCP", 1, 2, "a", "b"),
        record("Allow", "NONE", 1, 2, "a", "b"),
        record("Deny", "UDP", 3, 4, "c", "d"),
    ];
    assert_eq!(load_rules(&recs), Err(PersistError::MalformedPersistedRecord));
}
