//! The mathematical model of a discovery scan.
//!
//! A scan is determined by the sequence of logs the chain log source hands
//! back, in the order the engine processes them. The model states, per
//! address: how many logs it emitted, which signature its first log
//! carried, in which order addresses were first seen, and whether any
//! address's first log carried a signature of no known kind. The engine's
//! contracts are stated over these functions.

use vstd::prelude::*;

use crate::factory::DiscoverableFactory;
use crate::factory::EventSignature;
use crate::factory::Factory;
use crate::factory::Address;
use crate::factory::kind_of_signature;
use crate::factory::record_of_kind;

verus! {

/// One log entry as the chain log source hands it back: the emitting
/// address and the ordered topic hashes, the first of which is the matched
/// event signature. The undecoded payload plays no part in discovery and
/// is not carried.
#[derive(Clone, Debug)]
pub struct LogEntry {
    pub address: Address,
    pub topics: Vec<EventSignature>,
}

/// How many of the logs were emitted by `address`.
pub open spec fn occurrences(logs: Seq<LogEntry>, address: Address) -> nat
    decreases logs.len(),
{
    if logs.len() == 0 {
        0
    } else {
        occurrences(logs.drop_last(), address) + if logs.last().address == address {
            1nat
        } else {
            0nat
        }
    }
}

/// Whether any of the logs was emitted by `address`.
pub open spec fn appears(logs: Seq<LogEntry>, address: Address) -> bool {
    occurrences(logs, address) > 0
}

/// The signature (first topic) of the first log emitted by `address`;
/// meaningful only when the address appears in the logs.
pub open spec fn first_signature(logs: Seq<LogEntry>, address: Address) -> EventSignature
    decreases logs.len(),
{
    if logs.len() == 0 {
        EventSignature { hi: 0, lo: 0 }
    } else if appears(logs.drop_last(), address) {
        first_signature(logs.drop_last(), address)
    } else if logs.last().address == address {
        logs.last().topics@[0]
    } else {
        EventSignature { hi: 0, lo: 0 }
    }
}

/// The emitting addresses in order of first appearance, each once.
pub open spec fn seen_addresses(logs: Seq<LogEntry>) -> Seq<Address>
    decreases logs.len(),
{
    if logs.len() == 0 {
        Seq::empty()
    } else {
        let pre = seen_addresses(logs.drop_last());
        if appears(logs.drop_last(), logs.last().address) {
            pre
        } else {
            pre.push(logs.last().address)
        }
    }
}

/// The first unrecognized creating signature the scan runs into, if any:
/// the scan aborts at the first log whose address is new and whose first
/// topic belongs to no known kind. Later logs are not reached.
pub open spec fn scan_error(logs: Seq<LogEntry>) -> Option<EventSignature>
    decreases logs.len(),
{
    if logs.len() == 0 {
        None
    } else {
        let pre = logs.drop_last();
        if scan_error(pre) is Some {
            scan_error(pre)
        } else if !appears(pre, logs.last().address) && kind_of_signature(
            logs.last().topics@[0],
        ) is None {
            Some(logs.last().topics@[0])
        } else {
            None
        }
    }
}

/// Every address's first log carries the signature of a known kind.
pub open spec fn all_signatures_recognized(logs: Seq<LogEntry>) -> bool {
    forall|a: Address|
        #[trigger] appears(logs, a) ==> kind_of_signature(first_signature(logs, a)) is Some
}

/// The record the scan holds for `address`: tagged with the kind whose
/// signature the address's first log carried. Meaningful only when the
/// address appears and its first signature is recognized.
pub open spec fn discovered_record(logs: Seq<LogEntry>, address: Address) -> Factory {
    match kind_of_signature(first_signature(logs, address)) {
        Some(kind) => record_of_kind(kind, address),
        None => record_of_kind(DiscoverableFactory::UniswapV2Factory, address),
    }
}

/// Whether `address` reaches the activity threshold: its creating log does
/// not count, only the later ones do.
pub open spec fn qualifies(logs: Seq<LogEntry>, threshold: u64, address: Address) -> bool {
    appears(logs, address) && occurrences(logs, address) - 1 >= threshold
}

/// The records of the qualifying addresses among `addresses`, in order.
pub open spec fn discovered_from(
    addresses: Seq<Address>,
    logs: Seq<LogEntry>,
    threshold: u64,
) -> Seq<Factory>
    decreases addresses.len(),
{
    if addresses.len() == 0 {
        Seq::empty()
    } else {
        let pre = discovered_from(addresses.drop_last(), logs, threshold);
        if qualifies(logs, threshold, addresses.last()) {
            pre.push(discovered_record(logs, addresses.last()))
        } else {
            pre
        }
    }
}

/// What a completed scan over `logs` returns: the records of the addresses
/// that reached the threshold, in order of first appearance.
pub open spec fn discovered(logs: Seq<LogEntry>, threshold: u64) -> Seq<Factory> {
    discovered_from(seen_addresses(logs), logs, threshold)
}

/// Pushing an element and dropping it again is the identity.
pub proof fn lemma_push_back<A>(s: Seq<A>, x: A)
    ensures
        s.push(x).drop_last() == s,
        s.push(x).last() == x,
{
    assert(s.push(x).drop_last() =~= s);
}

/// One more element of a prefix: `take(i + 1)` is `take(i)` plus `s[i]`.
pub proof fn lemma_take_step<A>(s: Seq<A>, i: int)
    requires
        0 <= i < s.len(),
    ensures
        s.take(i + 1) == s.take(i).push(s[i]),
        s.take(i + 1).drop_last() == s.take(i),
        s.take(i + 1).last() == s[i],
{
    assert(s.take(i + 1) =~= s.take(i).push(s[i]));
    lemma_push_back(s.take(i), s[i]);
}

/// An address cannot appear more often than there are logs.
pub proof fn lemma_occurrences_le_len(logs: Seq<LogEntry>, address: Address)
    ensures
        occurrences(logs, address) <= logs.len(),
    decreases logs.len(),
{
    if logs.len() > 0 {
        lemma_occurrences_le_len(logs.drop_last(), address);
    }
}

/// An address appears exactly when some log carries it.
pub proof fn lemma_appears_index(logs: Seq<LogEntry>, address: Address)
    ensures
        appears(logs, address) <==> exists|k: int|
            0 <= k < logs.len() && logs[k].address == address,
    decreases logs.len(),
{
    if logs.len() > 0 {
        lemma_appears_index(logs.drop_last(), address);
        if logs.last().address == address {
            assert(logs[logs.len() - 1].address == address);
        }
        if appears(logs.drop_last(), address) {
            let k = choose|k: int|
                0 <= k < logs.drop_last().len() && logs.drop_last()[k].address == address;
            assert(logs[k].address == address);
        }
        if exists|k: int| 0 <= k < logs.len() && logs[k].address == address {
            let k = choose|k: int| 0 <= k < logs.len() && logs[k].address == address;
            if k < logs.len() - 1 {
                assert(logs.drop_last()[k].address == address);
            }
        }
    }
}

/// The seen addresses are exactly the addresses that appear.
pub proof fn lemma_seen_contains(logs: Seq<LogEntry>, address: Address)
    ensures
        seen_addresses(logs).contains(address) <==> appears(logs, address),
    decreases logs.len(),
{
    if logs.len() > 0 {
        let pre = logs.drop_last();
        lemma_seen_contains(pre, address);
        if !appears(pre, logs.last().address) {
            let pushed = seen_addresses(pre).push(logs.last().address);
            assert(pushed[pushed.len() - 1] == logs.last().address);
            if seen_addresses(pre).contains(address) {
                let k = choose|k: int|
                    0 <= k < seen_addresses(pre).len() && seen_addresses(pre)[k] == address;
                assert(pushed[k] == address);
            }
            if pushed.contains(address) {
                let k = choose|k: int| 0 <= k < pushed.len() && pushed[k] == address;
                if k < pushed.len() - 1 {
                    assert(seen_addresses(pre)[k] == address);
                }
            }
        }
    }
}

/// The first signature of an appearing address is carried by its first
/// log: some log has this address and this first topic, and no earlier log
/// has the address.
pub proof fn lemma_first_signature_witness(logs: Seq<LogEntry>, address: Address)
    requires
        appears(logs, address),
    ensures
        exists|j: int|
            #![auto]
            0 <= j < logs.len() && logs[j].address == address && logs[j].topics@[0]
                == first_signature(logs, address) && (forall|k: int|
                0 <= k < j ==> logs[k].address != address),
    decreases logs.len(),
{
    let pre = logs.drop_last();
    if appears(pre, address) {
        lemma_first_signature_witness(pre, address);
        let j = choose|j: int|
            #![auto]
            0 <= j < pre.len() && pre[j].address == address && pre[j].topics@[0]
                == first_signature(pre, address) && (forall|k: int|
                0 <= k < j ==> pre[k].address != address);
        assert(logs[j] == pre[j]);
        assert(forall|k: int| 0 <= k < j ==> logs[k] == pre[k]);
    } else {
        let j = logs.len() - 1;
        assert(logs.last().address == address);
        lemma_appears_index(pre, address);
        assert(forall|k: int| 0 <= k < j ==> logs[k] == pre[k]);
    }
}

/// A scan runs through without error exactly when every appearing
/// address's first signature is recognized.
pub proof fn lemma_scan_error_none(logs: Seq<LogEntry>)
    ensures
        scan_error(logs) is None <==> all_signatures_recognized(logs),
    decreases logs.len(),
{
    if logs.len() > 0 {
        let pre = logs.drop_last();
        let l = logs.last();
        lemma_scan_error_none(pre);
        if scan_error(logs) is None {
            assert forall|a: Address| #[trigger] appears(logs, a) implies kind_of_signature(
                first_signature(logs, a),
            ) is Some by {
                if appears(pre, a) {
                    assert(first_signature(logs, a) == first_signature(pre, a));
                } else {
                    assert(l.address == a);
                    assert(first_signature(logs, a) == l.topics@[0]);
                }
            }
        } else {
            if scan_error(pre) is Some {
                let a = choose|a: Address|
                    #![auto]
                    appears(pre, a) && kind_of_signature(first_signature(pre, a)) is None;
                assert(appears(logs, a));
                assert(first_signature(logs, a) == first_signature(pre, a));
            } else {
                assert(!appears(pre, l.address) && kind_of_signature(l.topics@[0]) is None);
                assert(appears(logs, l.address));
                assert(first_signature(logs, l.address) == l.topics@[0]);
            }
        }
    }
}

/// Once a prefix of the logs has run into an error, the whole sequence
/// reports that same first error.
pub proof fn lemma_scan_error_extend(logs: Seq<LogEntry>, j: int)
    requires
        0 <= j <= logs.len(),
        scan_error(logs.take(j)) is Some,
    ensures
        scan_error(logs) == scan_error(logs.take(j)),
    decreases logs.len() - j,
{
    if j == logs.len() {
        assert(logs.take(j) =~= logs);
    } else {
        lemma_take_step(logs, j);
        assert(scan_error(logs.take(j + 1)) == scan_error(logs.take(j)));
        lemma_scan_error_extend(logs, j + 1);
    }
}

/// Pushing an element onto a sequence adds exactly that member.
pub proof fn lemma_push_contains<A>(s: Seq<A>, x: A, y: A)
    ensures
        s.push(x).contains(y) <==> s.contains(y) || y == x,
{
    assert(s.push(x)[s.len() as int] == x);
    if s.contains(y) {
        let k = choose|k: int| 0 <= k < s.len() && s[k] == y;
        assert(s.push(x)[k] == y);
    }
    if s.push(x).contains(y) && y != x {
        let k = choose|k: int| 0 <= k < s.push(x).len() && s.push(x)[k] == y;
        assert(s[k] == y);
    }
}

/// Removing log `i` removes one occurrence of its address and no other.
pub proof fn lemma_occurrences_remove(logs: Seq<LogEntry>, i: int, address: Address)
    requires
        0 <= i < logs.len(),
    ensures
        occurrences(logs, address) == occurrences(logs.remove(i), address) + if logs[i].address
            == address {
            1nat
        } else {
            0nat
        },
    decreases logs.len(),
{
    if i == logs.len() - 1 {
        assert(logs.remove(i) =~= logs.drop_last());
    } else {
        assert(logs.remove(i).drop_last() =~= logs.drop_last().remove(i));
        assert(logs.remove(i).last() == logs.last());
        lemma_occurrences_remove(logs.drop_last(), i, address);
    }
}

/// Sequences holding the same logs in some order give every address the
/// same occurrence count.
pub proof fn lemma_occurrences_permutation(
    logs1: Seq<LogEntry>,
    logs2: Seq<LogEntry>,
    address: Address,
)
    requires
        logs1.to_multiset() == logs2.to_multiset(),
    ensures
        occurrences(logs1, address) == occurrences(logs2, address),
    decreases logs1.len(),
{
    broadcast use vstd::seq_lib::group_to_multiset_ensures;

    if logs1.len() == 0 {
        assert(logs2.to_multiset().len() == 0);
    } else {
        let i = logs1.len() - 1;
        let l = logs1.last();
        assert(logs1[i] == l);
        assert(logs1.contains(l));
        assert(logs1.to_multiset().count(l) > 0);
        assert(logs2.to_multiset().count(l) > 0);
        assert(logs2.contains(l));
        let j = choose|j: int| 0 <= j < logs2.len() && logs2[j] == l;
        assert(logs1.remove(i).to_multiset() == logs1.to_multiset().remove(l));
        assert(logs2.remove(j).to_multiset() == logs2.to_multiset().remove(logs2[j]));
        lemma_occurrences_permutation(logs1.remove(i), logs2.remove(j), address);
        lemma_occurrences_remove(logs1, i, address);
        lemma_occurrences_remove(logs2, j, address);
    }
}

/// All logs of any one address carry the same first topic. Without this,
/// which of an address's logs comes first decides its record's kind, and
/// the outcome may depend on the order the logs are fed in.
pub open spec fn uniform_signatures(logs: Seq<LogEntry>) -> bool {
    forall|i: int, j: int|
        #![trigger logs[i], logs[j]]
        0 <= i < logs.len() && 0 <= j < logs.len() && logs[i].address == logs[j].address
            ==> logs[i].topics@[0] == logs[j].topics@[0]
}

/// Under uniform signatures, an appearing address's first signature does
/// not depend on the order of the logs.
pub proof fn lemma_first_signature_permutation(
    logs1: Seq<LogEntry>,
    logs2: Seq<LogEntry>,
    address: Address,
)
    requires
        logs1.to_multiset() == logs2.to_multiset(),
        uniform_signatures(logs1),
        appears(logs1, address),
    ensures
        first_signature(logs1, address) == first_signature(logs2, address),
{
    broadcast use vstd::seq_lib::group_to_multiset_ensures;

    lemma_occurrences_permutation(logs1, logs2, address);
    lemma_first_signature_witness(logs1, address);
    lemma_first_signature_witness(logs2, address);
    let j1 = choose|j: int|
        #![auto]
        0 <= j < logs1.len() && logs1[j].address == address && logs1[j].topics@[0]
            == first_signature(logs1, address) && (forall|k: int|
            0 <= k < j ==> logs1[k].address != address);
    let j2 = choose|j: int|
        #![auto]
        0 <= j < logs2.len() && logs2[j].address == address && logs2[j].topics@[0]
            == first_signature(logs2, address) && (forall|k: int|
            0 <= k < j ==> logs2[k].address != address);
    assert(logs2.contains(logs2[j2]));
    assert(logs2.to_multiset().count(logs2[j2]) > 0);
    assert(logs1.to_multiset().count(logs2[j2]) > 0);
    assert(logs1.contains(logs2[j2]));
    let i1 = choose|i: int| 0 <= i < logs1.len() && logs1[i] == logs2[j2];
    assert(logs1[i1].topics@[0] == logs1[j1].topics@[0]);
}

/// The discovered record of an address carries that address.
pub proof fn lemma_discovered_record_address(logs: Seq<LogEntry>, address: Address)
    ensures
        discovered_record(logs, address).spec_address() == address,
{
}

/// A record is among the discovered ones exactly when it is the record of
/// a seen, qualifying address.
pub proof fn lemma_discovered_from_contains(
    addresses: Seq<Address>,
    logs: Seq<LogEntry>,
    threshold: u64,
    f: Factory,
)
    ensures
        discovered_from(addresses, logs, threshold).contains(f) <==> exists|a: Address|
            #![auto]
            addresses.contains(a) && qualifies(logs, threshold, a) && f == discovered_record(
                logs,
                a,
            ),
    decreases addresses.len(),
{
    if addresses.len() > 0 {
        let pre = addresses.drop_last();
        let a_last = addresses.last();
        lemma_discovered_from_contains(pre, logs, threshold, f);
        assert(forall|k: int| 0 <= k < pre.len() ==> addresses[k] == pre[k]);
        assert(addresses[addresses.len() - 1] == a_last);
        assert(addresses.contains(a_last));
        assert(forall|a: Address| pre.contains(a) ==> addresses.contains(a)) by {
            assert forall|a: Address| pre.contains(a) implies addresses.contains(a) by {
                let k = choose|k: int| 0 <= k < pre.len() && pre[k] == a;
                assert(addresses[k] == a);
            }
        }
        if qualifies(logs, threshold, a_last) {
            lemma_push_contains(
                discovered_from(pre, logs, threshold),
                discovered_record(logs, a_last),
                f,
            );
        }
        if exists|a: Address|
            #![auto]
            addresses.contains(a) && qualifies(logs, threshold, a) && f == discovered_record(
                logs,
                a,
            ) {
            let a = choose|a: Address|
                #![auto]
                addresses.contains(a) && qualifies(logs, threshold, a) && f == discovered_record(
                    logs,
                    a,
                );
            let k = choose|k: int| 0 <= k < addresses.len() && addresses[k] == a;
            if k < addresses.len() - 1 {
                assert(pre[k] == a);
                assert(pre.contains(a));
            }
        }
    }
}

/// Feeding the same full set of logs in any order yields the same final
/// filtered set of records, and an error on the same inputs: the
/// increment-or-insert aggregation is commutative. Which of an address's
/// logs comes first decides its record's kind, so the logs must carry one
/// first topic per address for the record set to be order-free.
pub proof fn lemma_discovery_order_independent(
    logs1: Seq<LogEntry>,
    logs2: Seq<LogEntry>,
    threshold: u64,
)
    requires
        logs1.to_multiset() == logs2.to_multiset(),
        uniform_signatures(logs1),
    ensures
        discovered(logs1, threshold).to_set() == discovered(logs2, threshold).to_set(),
        scan_error(logs1) is None <==> scan_error(logs2) is None,
{
    broadcast use vstd::set::group_set_axioms;

    assert forall|a: Address| true implies #[trigger] appears(logs1, a) == appears(logs2, a) by {
        lemma_occurrences_permutation(logs1, logs2, a);
    }
    assert forall|a: Address| appears(logs1, a) implies #[trigger] first_signature(logs1, a)
        == first_signature(logs2, a) by {
        lemma_first_signature_permutation(logs1, logs2, a);
    }
    lemma_scan_error_none(logs1);
    lemma_scan_error_none(logs2);
    assert(all_signatures_recognized(logs1) == all_signatures_recognized(logs2)) by {
        if all_signatures_recognized(logs1) {
            assert forall|a: Address| #[trigger] appears(logs2, a) implies kind_of_signature(
                first_signature(logs2, a),
            ) is Some by {
                assert(appears(logs1, a));
            }
        }
        if all_signatures_recognized(logs2) {
            assert forall|a: Address| #[trigger] appears(logs1, a) implies kind_of_signature(
                first_signature(logs1, a),
            ) is Some by {
                assert(appears(logs2, a));
            }
        }
    }
    assert forall|f: Factory| true implies #[trigger] discovered(logs1, threshold).contains(f)
        == discovered(logs2, threshold).contains(f) by {
        lemma_discovered_from_contains(seen_addresses(logs1), logs1, threshold, f);
        lemma_discovered_from_contains(seen_addresses(logs2), logs2, threshold, f);
        assert forall|a: Address| true implies #[trigger] qualifies(logs1, threshold, a)
            == qualifies(logs2, threshold, a) by {
            lemma_occurrences_permutation(logs1, logs2, a);
        }
        if discovered(logs1, threshold).contains(f) {
            let a = choose|a: Address|
                #![auto]
                seen_addresses(logs1).contains(a) && qualifies(logs1, threshold, a) && f
                    == discovered_record(logs1, a);
            lemma_seen_contains(logs1, a);
            lemma_seen_contains(logs2, a);
            assert(discovered_record(logs1, a) == discovered_record(logs2, a));
        }
        if discovered(logs2, threshold).contains(f) {
            let a = choose|a: Address|
                #![auto]
                seen_addresses(logs2).contains(a) && qualifies(logs2, threshold, a) && f
                    == discovered_record(logs2, a);
            lemma_seen_contains(logs1, a);
            lemma_seen_contains(logs2, a);
            assert(discovered_record(logs1, a) == discovered_record(logs2, a));
        }
    }
    assert(discovered(logs1, threshold).to_set() =~= discovered(logs2, threshold).to_set());
}

/// Every discovered record's kind corresponds exactly to the signature of
/// the log that created its entry: some log carries the record's address
/// and, as its first topic, the signature of the record's kind, and no
/// earlier log carries that address.
pub proof fn lemma_record_kind_matches_creating_log(logs: Seq<LogEntry>, threshold: u64, i: int)
    requires
        scan_error(logs) is None,
        0 <= i < discovered(logs, threshold).len(),
    ensures
        exists|j: int|
            #![auto]
            0 <= j < logs.len() && logs[j].address == discovered(logs, threshold)[i].spec_address()
                && kind_of_signature(logs[j].topics@[0]) == Some(
                discovered(logs, threshold)[i].kind(),
            ) && (forall|k: int| 0 <= k < j ==> logs[k].address != logs[j].address),
{
    let f = discovered(logs, threshold)[i];
    assert(discovered(logs, threshold).contains(f));
    lemma_discovered_from_contains(seen_addresses(logs), logs, threshold, f);
    let a = choose|a: Address|
        #![auto]
        seen_addresses(logs).contains(a) && qualifies(logs, threshold, a) && f == discovered_record(
            logs,
            a,
        );
    lemma_scan_error_none(logs);
    assert(kind_of_signature(first_signature(logs, a)) is Some);
    lemma_first_signature_witness(logs, a);
    let j = choose|j: int|
        #![auto]
        0 <= j < logs.len() && logs[j].address == a && logs[j].topics@[0] == first_signature(
            logs,
            a,
        ) && (forall|k: int| 0 <= k < j ==> logs[k].address != a);
    assert(f.spec_address() == a) by {
        lemma_discovered_record_address(logs, a);
    }
    assert(kind_of_signature(logs[j].topics@[0]) == Some(f.kind()));
}

/// Threshold boundary: an address whose activity count reaches the
/// threshold exactly is included, and one whose count falls below it is
/// not. The creating log does not count.
pub proof fn lemma_threshold_boundary(logs: Seq<LogEntry>, threshold: u64, address: Address)
    requires
        appears(logs, address),
    ensures
        occurrences(logs, address) - 1 >= threshold ==> discovered(logs, threshold).contains(
            discovered_record(logs, address),
        ),
        occurrences(logs, address) - 1 < threshold ==> !discovered(logs, threshold).contains(
            discovered_record(logs, address),
        ),
{
    lemma_seen_contains(logs, address);
    lemma_discovered_from_contains(
        seen_addresses(logs),
        logs,
        threshold,
        discovered_record(logs, address),
    );
    if occurrences(logs, address) - 1 < threshold && discovered(logs, threshold).contains(
        discovered_record(logs, address),
    ) {
        let a = choose|a: Address|
            #![auto]
            seen_addresses(logs).contains(a) && qualifies(logs, threshold, a) && discovered_record(
                logs,
                address,
            ) == discovered_record(logs, a);
        lemma_discovered_record_address(logs, a);
        lemma_discovered_record_address(logs, address);
        assert(a == address);
    }
}

} // verus!
