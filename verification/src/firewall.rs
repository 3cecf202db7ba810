use vstd::prelude::*;

use crate::packet::Packet;
use crate::rule::{Action, Protocol, Rule};

verus! {

/// Why a store mutation was refused. Only index-based deletion can fail;
/// every predicate-based deletion is total.
#[derive(Debug, Clone, Copy, PartialEq, Eq, Structural)]
pub enum StoreError {
    IndexOutOfRange,
}

/// One audit-trail entry: a DENY rule observed while scanning for an
/// ALLOW match. DENY rules are purely observational in this design; an
/// event records which rule was seen and which packet was under
/// evaluation, and nothing more.
#[derive(Debug, PartialEq, Eq)]
pub struct DenyEvent {
    pub index: usize,
    pub rule: Rule,
    pub packet: Packet,
}

/// The ordered rule store. Insertion order is evaluation order, and
/// indices shown to callers are positions in this order.
#[derive(Debug)]
pub struct Firewall {
    pub rules: Vec<Rule>,
}

/// A packet fully matches a rule: literal protocol equality (the tag
/// `All` on a rule does not act as a wildcard), inclusive port range,
/// and exact string equality on both addresses.
pub open spec fn spec_matches(p: Packet, r: Rule) -> bool {
    &&& p.protocol == r.protocol
    &&& r.starting_port_number <= p.port
    &&& p.port <= r.ending_port_number
    &&& p.source_ip@ == r.source_ip@
    &&& p.destination_ip@ == r.destination_ip@
}

/// An ALLOW rule that fully matches the packet: the only thing that can
/// let a packet through.
pub open spec fn spec_allow_match(p: Packet, r: Rule) -> bool {
    &&& r.action is Allow
    &&& spec_matches(p, r)
}

/// A packet is allowed when some ALLOW rule fully matches it; with no
/// such rule it is denied by default.
pub open spec fn spec_verdict(rules: Seq<Rule>, p: Packet) -> bool {
    exists|i: int| 0 <= i < rules.len() && spec_allow_match(p, rules[i])
}

/// Index of the first fully matching ALLOW rule at or after position
/// `i`, or `rules.len()` if there is none.
pub open spec fn spec_scan_from(rules: Seq<Rule>, p: Packet, i: int) -> int
    decreases rules.len() - i,
{
    if i < 0 || i >= rules.len() {
        rules.len() as int
    } else if spec_allow_match(p, rules[i]) {
        i
    } else {
        spec_scan_from(rules, p, i + 1)
    }
}

/// How far the evaluation scan runs: up to (excluding) the first fully
/// matching ALLOW rule, or over the whole store if none matches.
pub open spec fn spec_scan_len(rules: Seq<Rule>, p: Packet) -> int {
    spec_scan_from(rules, p, 0)
}

/// The audit trail left by scanning the first `n` rules: one event per
/// DENY rule, in store order, each carrying its index, the rule, and
/// the packet under evaluation.
pub open spec fn spec_trail(rules: Seq<Rule>, p: Packet, n: int) -> Seq<DenyEvent>
    decreases n,
{
    if n <= 0 {
        Seq::empty()
    } else {
        let pre = spec_trail(rules, p, n - 1);
        if rules[n - 1].action is Deny {
            pre.push(DenyEvent { index: (n - 1) as usize, rule: rules[n - 1], packet: p })
        } else {
            pre
        }
    }
}

/// Deletion criterion: the rule carries exactly this protocol tag
/// (`All` selects only rules literally tagged `All`).
pub open spec fn by_protocol(p: Protocol) -> spec_fn(Rule) -> bool {
    |r: Rule| r.protocol == p
}

/// Deletion criterion: the rule's source address equals this string
/// exactly.
pub open spec fn by_source_ip(ip: Seq<char>) -> spec_fn(Rule) -> bool {
    |r: Rule| r.source_ip@ == ip
}

/// Deletion criterion: the rule's destination address equals this
/// string exactly.
pub open spec fn by_destination_ip(ip: Seq<char>) -> spec_fn(Rule) -> bool {
    |r: Rule| r.destination_ip@ == ip
}

/// Deletion criterion: the rule's port range equals this pair exactly
/// (overlapping ranges are not selected).
pub open spec fn by_port_range(start: u32, end: u32) -> spec_fn(Rule) -> bool {
    |r: Rule| r.starting_port_number == start && r.ending_port_number == end
}

/// The rules that survive deleting by `pred`: those that fail the
/// criterion, kept in store order.
pub open spec fn spec_kept(rules: Seq<Rule>, pred: spec_fn(Rule) -> bool) -> Seq<Rule>
    decreases rules.len(),
{
    if rules.len() == 0 {
        Seq::empty()
    } else {
        let pre = spec_kept(rules.drop_last(), pred);
        if pred(rules.last()) {
            pre
        } else {
            pre.push(rules.last())
        }
    }
}

/// The rules that deleting by `pred` removes: those that meet the
/// criterion, in store order.
pub open spec fn spec_removed(rules: Seq<Rule>, pred: spec_fn(Rule) -> bool) -> Seq<Rule>
    decreases rules.len(),
{
    if rules.len() == 0 {
        Seq::empty()
    } else {
        let pre = spec_removed(rules.drop_last(), pred);
        if pred(rules.last()) {
            pre.push(rules.last())
        } else {
            pre
        }
    }
}

proof fn lemma_split_step(rules: Seq<Rule>, pred: spec_fn(Rule) -> bool, i: int)
    requires
        0 <= i < rules.len(),
    ensures
        spec_kept(rules.take(i + 1), pred) == (if pred(rules[i]) {
            spec_kept(rules.take(i), pred)
        } else {
            spec_kept(rules.take(i), pred).push(rules[i])
        }),
        spec_removed(rules.take(i + 1), pred) == (if pred(rules[i]) {
            spec_removed(rules.take(i), pred).push(rules[i])
        } else {
            spec_removed(rules.take(i), pred)
        }),
{
    assert(rules.take(i + 1).drop_last() =~= rules.take(i));
    assert(rules.take(i + 1).last() == rules[i]);
}

/// Splitting a store by a deletion criterion is exhaustive and exact:
/// the kept rules all fail the criterion, the removed rules all meet
/// it, and together they account for the whole store.
pub proof fn lemma_split_props(rules: Seq<Rule>, pred: spec_fn(Rule) -> bool)
    ensures
        forall|i: int|
            0 <= i < spec_kept(rules, pred).len() ==> !pred(
                #[trigger] spec_kept(rules, pred)[i],
            ),
        forall|i: int|
            0 <= i < spec_removed(rules, pred).len() ==> pred(
                #[trigger] spec_removed(rules, pred)[i],
            ),
        spec_kept(rules, pred).len() + spec_removed(rules, pred).len() == rules.len(),
    decreases rules.len(),
{
    if rules.len() > 0 {
        lemma_split_props(rules.drop_last(), pred);
    }
}

/// No-op safety: deleting by a criterion that no rule in the store
/// meets removes nothing and leaves the store exactly as it was.
pub proof fn lemma_delete_noop(rules: Seq<Rule>, pred: spec_fn(Rule) -> bool)
    requires
        forall|i: int| 0 <= i < rules.len() ==> !pred(#[trigger] rules[i]),
    ensures
        spec_kept(rules, pred) == rules,
        spec_removed(rules, pred) == Seq::<Rule>::empty(),
    decreases rules.len(),
{
    if rules.len() > 0 {
        lemma_delete_noop(rules.drop_last(), pred);
        assert(spec_kept(rules, pred) =~= rules);
    }
}

/// Deletion idempotence: after deleting by a criterion once, deleting
/// by the same criterion again removes nothing and changes nothing.
pub proof fn lemma_delete_idempotent(rules: Seq<Rule>, pred: spec_fn(Rule) -> bool)
    ensures
        spec_kept(spec_kept(rules, pred), pred) == spec_kept(rules, pred),
        spec_removed(spec_kept(rules, pred), pred) == Seq::<Rule>::empty(),
{
    lemma_split_props(rules, pred);
    lemma_delete_noop(spec_kept(rules, pred), pred);
}

proof fn lemma_scan_from_skip(rules: Seq<Rule>, p: Packet, i: int, k: int)
    requires
        0 <= i <= k <= rules.len(),
        forall|j: int| i <= j < k ==> !spec_allow_match(p, rules[j]),
    ensures
        spec_scan_from(rules, p, i) == spec_scan_from(rules, p, k),
    decreases k - i,
{
    if i < k {
        lemma_scan_from_skip(rules, p, i + 1, k);
    }
}

proof fn lemma_scan_from_props(rules: Seq<Rule>, p: Packet, i: int)
    requires
        0 <= i <= rules.len(),
    ensures
        i <= spec_scan_from(rules, p, i) <= rules.len(),
        spec_scan_from(rules, p, i) < rules.len() ==> spec_allow_match(
            p,
            rules[spec_scan_from(rules, p, i)],
        ),
        forall|j: int|
            i <= j < spec_scan_from(rules, p, i) ==> !spec_allow_match(p, rules[j]),
    decreases rules.len() - i,
{
    if i < rules.len() && !spec_allow_match(p, rules[i]) {
        lemma_scan_from_props(rules, p, i + 1);
    }
}

/// Where the scan stops. The scan length never exceeds the store; it
/// falls short of it exactly when the packet is allowed; the rule at
/// the stopping point (when inside the store) is the first fully
/// matching ALLOW rule, and no earlier rule fully matches as ALLOW.
pub proof fn lemma_scan_len_props(rules: Seq<Rule>, p: Packet)
    ensures
        0 <= spec_scan_len(rules, p) <= rules.len(),
        spec_verdict(rules, p) <==> spec_scan_len(rules, p) < rules.len(),
        spec_scan_len(rules, p) < rules.len() ==> spec_allow_match(
            p,
            rules[spec_scan_len(rules, p)],
        ),
        forall|j: int|
            0 <= j < spec_scan_len(rules, p) ==> !spec_allow_match(p, rules[j]),
{
    lemma_scan_from_props(rules, p, 0);
    let e = spec_scan_len(rules, p);
    if e == rules.len() {
        assert(forall|j: int| 0 <= j < rules.len() ==> !spec_allow_match(p, rules[j]));
    }
}

/// Default deny: against an empty rule store, every packet is refused.
pub proof fn lemma_default_deny(p: Packet)
    ensures
        !spec_verdict(Seq::<Rule>::empty(), p),
{
}

/// A DENY rule never blocks: inserting a DENY rule at any position
/// leaves the verdict for every packet unchanged, because only ALLOW
/// rules are matched against the packet.
pub proof fn lemma_deny_never_blocks(rules: Seq<Rule>, p: Packet, k: int, d: Rule)
    requires
        0 <= k <= rules.len(),
        d.action is Deny,
    ensures
        spec_verdict(rules.insert(k, d), p) == spec_verdict(rules, p),
{
    let s2 = rules.insert(k, d);
    rules.insert_ensures(k, d);
    if spec_verdict(rules, p) {
        let i = choose|i: int| 0 <= i < rules.len() && spec_allow_match(p, rules[i]);
        if i < k {
            assert(s2[i] == rules[i]);
        } else {
            assert(s2[i + 1] == rules[i]);
        }
        assert(spec_verdict(s2, p));
    }
    if spec_verdict(s2, p) {
        let j = choose|j: int| 0 <= j < s2.len() && spec_allow_match(p, s2[j]);
        assert(s2[k] == d);
        if j < k {
            assert(rules[j] == s2[j]);
            assert(spec_allow_match(p, rules[j]));
        } else {
            assert(j > k);
            assert(rules[j - 1] == s2[j]);
            assert(spec_allow_match(p, rules[j - 1]));
        }
        assert(spec_verdict(rules, p));
    }
}

impl Firewall {
    /// Every rule held by the store satisfies the rule invariant.
    pub open spec fn wf(self) -> bool {
        forall|i: int| 0 <= i < self.rules@.len() ==> (#[trigger] self.rules@[i]).wf()
    }

    /// Creates an empty store: no rule, so every packet is denied by
    /// default.
    pub fn new() -> (fw: Self)
        ensures
            fw.rules@ == Seq::<Rule>::empty(),
            fw.wf(),
    {
        Firewall { rules: Vec::new() }
    }

    /// Appends one well-formed rule at the end of the store. Always
    /// succeeds; duplicates are permitted and independently addressable.
    pub fn add_rule(&mut self, rule: Rule)
        requires
            rule.wf(),
        ensures
            final(self).rules@ == old(self).rules@.push(rule),
            old(self).wf() ==> final(self).wf(),
    {
        self.rules.push(rule);
    }

    /// Read-only snapshot of the rules, in store order; position in the
    /// result is the 0-based index that the deletion operations use.
    pub fn list_rules(&self) -> (out: Vec<Rule>)
        ensures
            out@ == self.rules@,
    {
        let mut out: Vec<Rule> = Vec::new();
        let mut i: usize = 0;
        while i < self.rules.len()
            invariant
                i <= self.rules@.len(),
                out@ == self.rules@.take(i as int),
            decreases self.rules@.len() - i,
        {
            out.push(self.rules[i].clone());
            proof {
                assert(self.rules@.take(i + 1) =~= self.rules@.take(i as int).push(
                    self.rules@[i as int],
                ));
            }
            i += 1;
        }
        proof {
            assert(self.rules@.take(self.rules@.len() as int) =~= self.rules@);
        }
        out
    }

    /// Evaluates one packet against the store, in store order.
    ///
    /// The verdict is `true` exactly when some ALLOW rule fully matches
    /// the packet; the scan stops at the first such rule. DENY rules are
    /// never matched against the packet: each one scanned contributes an
    /// audit-trail event and nothing else, so with no matching ALLOW
    /// rule the verdict is `false` by default.
    pub fn filter(&self, packet: Packet) -> (res: (bool, Vec<DenyEvent>))
        requires
            packet.wf(),
        ensures
            res.0 == spec_verdict(self.rules@, packet),
            res.1@ == spec_trail(self.rules@, packet, spec_scan_len(self.rules@, packet)),
    {
        let rules = &self.rules;
        let mut events: Vec<DenyEvent> = Vec::new();
        let mut i: usize = 0;
        while i < rules.len()
            invariant
                i <= rules@.len(),
                rules@ == self.rules@,
                forall|j: int| 0 <= j < i ==> !spec_allow_match(packet, rules@[j]),
                events@ == spec_trail(rules@, packet, i as int),
            decreases rules@.len() - i,
        {
            let rule = &rules[i];
            match rule.action {
                Action::Allow => {
                    if packet.protocol == rule.protocol && packet.port
                        >= rule.starting_port_number && packet.port <= rule.ending_port_number
                        && packet.source_ip == rule.source_ip && packet.destination_ip
                        == rule.destination_ip {
                        proof {
                            assert(spec_allow_match(packet, rules@[i as int]));
                            lemma_scan_from_skip(rules@, packet, 0, i as int);
                            assert(spec_scan_len(rules@, packet) == i as int);
                        }
                        return (true, events);
                    }
                },
                Action::Deny => {
                    events.push(
                        DenyEvent { index: i, rule: rule.clone(), packet: packet.clone() },
                    );
                },
            }
            i += 1;
        }
        proof {
            lemma_scan_from_skip(rules@, packet, 0, rules@.len() as int);
            assert(spec_scan_len(rules@, packet) == rules@.len() as int);
            assert(!spec_verdict(rules@, packet));
        }
        (false, events)
    }

    /// Removes the rule at position `index`, shifting every later rule
    /// down by one, and returns the removed rule. An index at or past
    /// the end is refused with `IndexOutOfRange` and the store is left
    /// unchanged.
    pub fn delete_rule_by_index(index: usize, firewall: &mut Firewall) -> (res: Result<
        Rule,
        StoreError,
    >)
        ensures
            index < old(firewall).rules@.len() ==> {
                &&& res == Ok::<Rule, StoreError>(old(firewall).rules@[index as int])
                &&& final(firewall).rules@ == old(firewall).rules@.remove(index as int)
            },
            index >= old(firewall).rules@.len() ==> {
                &&& res == Err::<Rule, StoreError>(StoreError::IndexOutOfRange)
                &&& final(firewall).rules@ == old(firewall).rules@
            },
    {
        if index < firewall.rules.len() {
            let removed = firewall.rules.remove(index);
            Ok(removed)
        } else {
            Err(StoreError::IndexOutOfRange)
        }
    }

    /// Removes every rule tagged with exactly this protocol (`All`
    /// removes only rules literally tagged `All`), and returns the
    /// removed rules in store order. Removing none is a no-op, not an
    /// error: the result is simply empty.
    pub fn delete_rule_by_protocol(protocol: Protocol, firewall: &mut Firewall) -> (deleted:
        Vec<Rule>)
        ensures
            final(firewall).rules@ == spec_kept(old(firewall).rules@, by_protocol(protocol)),
            deleted@ == spec_removed(old(firewall).rules@, by_protocol(protocol)),
    {
        let ghost pred = by_protocol(protocol);
        let mut kept: Vec<Rule> = Vec::new();
        let mut deleted: Vec<Rule> = Vec::new();
        let mut i: usize = 0;
        while i < firewall.rules.len()
            invariant
                i <= firewall.rules@.len(),
                firewall.rules@ == old(firewall).rules@,
                pred == by_protocol(protocol),
                kept@ == spec_kept(firewall.rules@.take(i as int), pred),
                deleted@ == spec_removed(firewall.rules@.take(i as int), pred),
            decreases firewall.rules@.len() - i,
        {
            let r = firewall.rules[i].clone();
            proof {
                lemma_split_step(firewall.rules@, pred, i as int);
            }
            if r.protocol == protocol {
                deleted.push(r);
            } else {
                kept.push(r);
            }
            i += 1;
        }
        proof {
            assert(firewall.rules@.take(firewall.rules@.len() as int) =~= firewall.rules@);
        }
        firewall.rules = kept;
        deleted
    }

    /// Removes every rule whose source address equals `source_ip`
    /// exactly (no address parsing, plain string equality), and returns
    /// the removed rules in store order. Removing none is a no-op.
    pub fn delete_rule_by_source_ip(source_ip: &str, firewall: &mut Firewall) -> (deleted:
        Vec<Rule>)
        ensures
            final(firewall).rules@ == spec_kept(old(firewall).rules@, by_source_ip(source_ip@)),
            deleted@ == spec_removed(old(firewall).rules@, by_source_ip(source_ip@)),
    {
        let ghost pred = by_source_ip(source_ip@);
        let target: String = source_ip.to_owned();
        let mut kept: Vec<Rule> = Vec::new();
        let mut deleted: Vec<Rule> = Vec::new();
        let mut i: usize = 0;
        while i < firewall.rules.len()
            invariant
                i <= firewall.rules@.len(),
                firewall.rules@ == old(firewall).rules@,
                pred == by_source_ip(source_ip@),
                target@ == source_ip@,
                kept@ == spec_kept(firewall.rules@.take(i as int), pred),
                deleted@ == spec_removed(firewall.rules@.take(i as int), pred),
            decreases firewall.rules@.len() - i,
        {
            let r = firewall.rules[i].clone();
            proof {
                lemma_split_step(firewall.rules@, pred, i as int);
            }
            if r.source_ip == target {
                deleted.push(r);
            } else {
                kept.push(r);
            }
            i += 1;
        }
        proof {
            assert(firewall.rules@.take(firewall.rules@.len() as int) =~= firewall.rules@);
        }
        firewall.rules = kept;
        deleted
    }

    /// Removes every rule whose destination address equals
    /// `destination_ip` exactly, and returns the removed rules in store
    /// order. Removing none is a no-op.
    pub fn delete_rule_by_destination_ip(destination_ip: &str, firewall: &mut Firewall) -> (deleted:
        Vec<Rule>)
        ensures
            final(firewall).rules@ == spec_kept(
                old(firewall).rules@,
                by_destination_ip(destination_ip@),
            ),
            deleted@ == spec_removed(old(firewall).rules@, by_destination_ip(destination_ip@)),
    {
        let ghost pred = by_destination_ip(destination_ip@);
        let target: String = destination_ip.to_owned();
        let mut kept: Vec<Rule> = Vec::new();
        let mut deleted: Vec<Rule> = Vec::new();
        let mut i: usize = 0;
        while i < firewall.rules.len()
            invariant
                i <= firewall.rules@.len(),
                firewall.rules@ == old(firewall).rules@,
                pred == by_destination_ip(destination_ip@),
                target@ == destination_ip@,
                kept@ == spec_kept(firewall.rules@.take(i as int), pred),
                deleted@ == spec_removed(firewall.rules@.take(i as int), pred),
            decreases firewall.rules@.len() - i,
        {
            let r = firewall.rules[i].clone();
            proof {
                lemma_split_step(firewall.rules@, pred, i as int);
            }
            if r.destination_ip == target {
                deleted.push(r);
            } else {
                kept.push(r);
            }
            i += 1;
        }
        proof {
            assert(firewall.rules@.take(firewall.rules@.len() as int) =~= firewall.rules@);
        }
        firewall.rules = kept;
        deleted
    }

    /// Removes every rule whose port range equals the pair exactly —
    /// rules merely overlapping the range stay — and returns the
    /// removed rules in store order. Removing none is a no-op.
    pub fn delete_rule_by_port_range(
        starting_port_number: u32,
        ending_port_number: u32,
        firewall: &mut Firewall,
    ) -> (deleted: Vec<Rule>)
        ensures
            final(firewall).rules@ == spec_kept(
                old(firewall).rules@,
                by_port_range(starting_port_number, ending_port_number),
            ),
            deleted@ == spec_removed(
                old(firewall).rules@,
                by_port_range(starting_port_number, ending_port_number),
            ),
    {
        let ghost pred = by_port_range(starting_port_number, ending_port_number);
        let mut kept: Vec<Rule> = Vec::new();
        let mut deleted: Vec<Rule> = Vec::new();
        let mut i: usize = 0;
        while i < firewall.rules.len()
            invariant
                i <= firewall.rules@.len(),
                firewall.rules@ == old(firewall).rules@,
                pred == by_port_range(starting_port_number, ending_port_number),
                kept@ == spec_kept(firewall.rules@.take(i as int), pred),
                deleted@ == spec_removed(firewall.rules@.take(i as int), pred),
            decreases firewall.rules@.len() - i,
        {
            let r = firewall.rules[i].clone();
            proof {
                lemma_split_step(firewall.rules@, pred, i as int);
            }
            if r.starting_port_number == starting_port_number && r.ending_port_number
                == ending_port_number {
                deleted.push(r);
            } else {
                kept.push(r);
            }
            i += 1;
        }
        proof {
            assert(firewall.rules@.take(firewall.rules@.len() as int) =~= firewall.rules@);
        }
        firewall.rules = kept;
        deleted
    }
}

} // verus!
