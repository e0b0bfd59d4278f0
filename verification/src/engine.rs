//! The discovery engine.
//!
//! The engine processes the logs the caller's window queries returned, in
//! order: the first log of a new address creates an aggregate entry with
//! activity count zero, every later log of that address increments the
//! count, so the creating event itself never counts toward the threshold.
//! After the scan, the entries whose count reaches the threshold
//! (inclusive) become the result.

use vstd::prelude::*;

use crate::factory::Address;
use crate::factory::DiscoverableFactory;
use crate::factory::DiscoveryError;
use crate::factory::EventSignature;
use crate::factory::Factory;
use crate::factory::kind_of_signature;
use crate::factory::record_of_kind;
use crate::factory::signature_of_kind;
use crate::model::LogEntry;
use crate::model::appears;
use crate::model::discovered;
use crate::model::discovered_from;
use crate::model::discovered_record;
use crate::model::first_signature;
use crate::model::lemma_occurrences_le_len;
use crate::model::lemma_push_back;
use crate::model::lemma_scan_error_extend;
use crate::model::lemma_seen_contains;
use crate::model::lemma_take_step;
use crate::model::occurrences;
use crate::model::qualifies;
use crate::model::scan_error;
use crate::model::seen_addresses;

verus! {

/// One scan-local aggregate: the record built from an address's creating
/// log, and how many further logs the address has emitted since.
#[derive(Clone, Copy, PartialEq, Eq, Structural, Debug)]
pub struct AggregateEntry {
    pub address: Address,
    pub factory: Factory,
    pub count: u64,
}

/// Whether some entry holds `address`.
pub open spec fn has_address(entries: Seq<AggregateEntry>, address: Address) -> bool {
    exists|j: int| 0 <= j < entries.len() && (#[trigger] entries[j]).address == address
}

/// The records of the entries whose count reaches the threshold, in entry
/// order.
pub open spec fn filtered_records(entries: Seq<AggregateEntry>, threshold: u64) -> Seq<Factory>
    decreases entries.len(),
{
    if entries.len() == 0 {
        Seq::empty()
    } else {
        let pre = filtered_records(entries.drop_last(), threshold);
        if entries.last().count >= threshold {
            pre.push(entries.last().factory)
        } else {
            pre
        }
    }
}

/// The scan-local map from emitting address to aggregate entry, held as a
/// vector of entries with pairwise distinct addresses, in order of first
/// appearance.
pub struct IdentifiedFactories {
    pub entries: Vec<AggregateEntry>,
}

impl IdentifiedFactories {
    /// The addresses of the entries, in insertion order.
    pub open spec fn addresses(&self) -> Seq<Address> {
        self.entries@.map_values(|e: AggregateEntry| e.address)
    }

    /// Each address is held by at most one entry.
    pub open spec fn wf(&self) -> bool {
        forall|i: int, j: int|
            #![trigger self.entries@[i], self.entries@[j]]
            0 <= i < self.entries@.len() && 0 <= j < self.entries@.len() && i != j
                ==> self.entries@[i].address != self.entries@[j].address
    }

    /// The aggregate state an errorless scan of `logs` reaches: one entry
    /// per appearing address in order of first appearance, each holding
    /// that address's record and its activity count.
    pub open spec fn consistent_with(&self, logs: Seq<LogEntry>) -> bool {
        &&& self.addresses() == seen_addresses(logs)
        &&& forall|i: int|
            0 <= i < self.entries@.len() ==> appears(
                logs,
                (#[trigger] self.entries@[i]).address,
            )
        &&& forall|i: int|
            0 <= i < self.entries@.len() ==> (#[trigger] self.entries@[i]).count == occurrences(
                logs,
                self.entries@[i].address,
            ) - 1
        &&& forall|i: int|
            0 <= i < self.entries@.len() ==> (#[trigger] self.entries@[i]).factory
                == discovered_record(logs, self.entries@[i].address)
    }

    /// An empty aggregate state: what a scan of no logs reaches.
    pub fn new() -> (r: Self)
        ensures
            r.entries@.len() == 0,
            r.wf(),
            r.consistent_with(Seq::<LogEntry>::empty()),
    {
        let r = IdentifiedFactories { entries: Vec::new() };
        proof {
            assert(r.addresses() =~= seen_addresses(Seq::<LogEntry>::empty()));
        }
        r
    }

    /// The index of the entry holding `address`, if there is one.
    fn find_entry(&self, address: Address) -> (r: Option<usize>)
        ensures
            match r {
                Some(j) => j < self.entries@.len() && self.entries@[j as int].address == address,
                None => !has_address(self.entries@, address),
            },
    {
        let mut j: usize = 0;
        while j < self.entries.len()
            invariant
                j <= self.entries@.len(),
                forall|i: int| 0 <= i < j ==> (#[trigger] self.entries@[i]).address != address,
            decreases self.entries@.len() - j,
        {
            if self.entries[j].address == address {
                return Some(j);
            }
            j += 1;
        }
        None
    }

    /// Record one log: a log of a known address increments that entry's
    /// count; the first log of a new address inserts an entry with count
    /// zero, tagged with the kind whose signature the log's first topic
    /// carries, or fails if that signature belongs to no known kind.
    pub fn process_log(&mut self, log: &LogEntry) -> (r: Result<(), DiscoveryError>)
        requires
            old(self).wf(),
            log.topics@.len() >= 1,
            forall|i: int|
                0 <= i < old(self).entries@.len() ==> (#[trigger] old(self).entries@[i]).count
                    < u64::MAX,
        ensures
            final(self).wf(),
            has_address(old(self).entries@, log.address) ==> r is Ok && exists|j: int|
                #![auto]
                0 <= j < old(self).entries@.len() && old(self).entries@[j].address == log.address
                    && final(self).entries@ == old(self).entries@.update(
                    j,
                    (AggregateEntry {
                        address: old(self).entries@[j].address,
                        factory: old(self).entries@[j].factory,
                        count: (old(self).entries@[j].count + 1) as u64,
                    }),
                ),
            !has_address(old(self).entries@, log.address) ==> match kind_of_signature(
                log.topics@[0],
            ) {
                Some(kind) => r is Ok && final(self).entries@ == old(self).entries@.push(
                    (AggregateEntry {
                        address: log.address,
                        factory: record_of_kind(kind, log.address),
                        count: 0,
                    }),
                ),
                None => r == Err::<(), DiscoveryError>(
                    DiscoveryError::UnrecognizedSignature(log.topics@[0]),
                ) && final(self).entries@ == old(self).entries@,
            },
    {
        match self.find_entry(log.address) {
            Some(j) => {
                let e = self.entries[j];
                self.entries.set(
                    j,
                    AggregateEntry { address: e.address, factory: e.factory, count: e.count + 1 },
                );
                proof {
                    assert(has_address(old(self).entries@, log.address));
                    assert forall|p: int, q: int|
                        0 <= p < self.entries@.len() && 0 <= q < self.entries@.len() && p
                            != q implies (#[trigger] self.entries@[p]).address
                        != (#[trigger] self.entries@[q]).address by {
                        assert(old(self).entries@[p].address != old(self).entries@[q].address);
                    }
                }
                Ok(())
            },
            None => {
                match Factory::new_empty_factory_from_event_signature(log.topics[0]) {
                    Ok(factory) => {
                        let factory = factory.with_address(log.address);
                        self.entries.push(
                            AggregateEntry { address: log.address, factory, count: 0 },
                        );
                        proof {
                            let n = old(self).entries@.len() as int;
                            assert(self.entries@ == old(self).entries@.push(self.entries@[n]));
                            assert forall|p: int, q: int|
                                0 <= p < self.entries@.len() && 0 <= q < self.entries@.len() && p
                                    != q implies (#[trigger] self.entries@[p]).address
                                != (#[trigger] self.entries@[q]).address by {
                                if p < n && q < n {
                                    assert(old(self).entries@[p].address
                                        != old(self).entries@[q].address);
                                } else if p == n {
                                    assert(old(self).entries@[q].address != log.address);
                                } else {
                                    assert(old(self).entries@[p].address != log.address);
                                }
                            }
                        }
                        Ok(())
                    },
                    Err(e) => Err(e),
                }
            },
        }
    }

    /// Record a whole batch of logs, in order, starting from an empty
    /// state. An address with exactly N logs among them (N >= 1) ends
    /// with activity count N - 1: its creating log is excluded, only its
    /// later logs count. The scan aborts at the first log whose address
    /// is new and whose first topic belongs to no known kind.
    pub fn aggregate_logs(&mut self, logs: &Vec<LogEntry>) -> (r: Result<(), DiscoveryError>)
        requires
            old(self).entries@.len() == 0,
            forall|i: int| 0 <= i < logs@.len() ==> (#[trigger] logs@[i]).topics@.len() >= 1,
        ensures
            final(self).wf(),
            match r {
                Ok(()) => final(self).consistent_with(logs@) && scan_error(logs@) is None,
                Err(e) => scan_error(logs@) matches Some(s) && e
                    == DiscoveryError::UnrecognizedSignature(s),
            },
    {
        let mut i: usize = 0;
        proof {
            assert(logs@.take(0) =~= Seq::<LogEntry>::empty());
            assert(self.addresses() =~= seen_addresses(Seq::<LogEntry>::empty()));
        }
        while i < logs.len()
            invariant
                i <= logs@.len(),
                forall|k: int| 0 <= k < logs@.len() ==> (#[trigger] logs@[k]).topics@.len() >= 1,
                self.wf(),
                self.consistent_with(logs@.take(i as int)),
                scan_error(logs@.take(i as int)) is None,
            decreases logs@.len() - i,
        {
            let ghost prefix = logs@.take(i as int);
            let ghost l = logs@[i as int];
            let ghost old_entries = self.entries@;
            proof {
                lemma_take_step(logs@, i as int);
                lemma_push_back(prefix, l);
                assert forall|k: int|
                    0 <= k < old_entries.len() implies (#[trigger] old_entries[k]).count
                    < u64::MAX by {
                    lemma_occurrences_le_len(prefix, old_entries[k].address);
                }
                lemma_seen_contains(prefix, l.address);
                if has_address(old_entries, l.address) {
                    let j = choose|j: int|
                        0 <= j < old_entries.len() && (#[trigger] old_entries[j]).address
                            == l.address;
                    assert(self.addresses()[j] == l.address);
                    assert(seen_addresses(prefix).contains(l.address));
                    assert(appears(prefix, l.address));
                }
                if seen_addresses(prefix).contains(l.address) {
                    let j = choose|j: int|
                        0 <= j < seen_addresses(prefix).len() && seen_addresses(prefix)[j]
                            == l.address;
                    assert(self.addresses()[j] == l.address);
                    assert(old_entries[j].address == l.address);
                    assert(has_address(old_entries, l.address));
                }
            }
            let res = self.process_log(&logs[i]);
            proof {
                let prefix2 = logs@.take(i as int + 1);
                assert forall|b: Address| true implies #[trigger] occurrences(prefix2, b)
                    == occurrences(prefix, b) + (if l.address == b {
                    1nat
                } else {
                    0nat
                }) by {}
                assert forall|b: Address| appears(prefix, b) implies #[trigger] first_signature(
                    prefix2,
                    b,
                ) == first_signature(prefix, b) by {}
                if has_address(old_entries, l.address) {
                    assert(appears(prefix, l.address));
                    assert(seen_addresses(prefix2) == seen_addresses(prefix));
                    assert(scan_error(prefix2) is None);
                    let j = choose|j: int|
                        #![auto]
                        0 <= j < old_entries.len() && old_entries[j].address == l.address
                            && self.entries@ == old_entries.update(
                            j,
                            (AggregateEntry {
                                address: old_entries[j].address,
                                factory: old_entries[j].factory,
                                count: (old_entries[j].count + 1) as u64,
                            }),
                        );
                    assert(self.addresses() =~= seen_addresses(prefix2));
                    assert forall|k: int| 0 <= k < self.entries@.len() implies appears(
                        prefix2,
                        (#[trigger] self.entries@[k]).address,
                    ) && self.entries@[k].count == occurrences(
                        prefix2,
                        self.entries@[k].address,
                    ) - 1 && self.entries@[k].factory == discovered_record(
                        prefix2,
                        self.entries@[k].address,
                    ) by {
                        if k != j {
                            assert(self.entries@[k] == old_entries[k]);
                            assert(old_entries[k].address != old_entries[j].address);
                        }
                    }
                } else {
                    match kind_of_signature(l.topics@[0]) {
                        Some(kind) => {
                            assert(!appears(prefix, l.address));
                            assert(seen_addresses(prefix2) == seen_addresses(prefix).push(
                                l.address,
                            ));
                            assert(scan_error(prefix2) is None);
                            assert(occurrences(prefix, l.address) == 0);
                            assert(first_signature(prefix2, l.address) == l.topics@[0]);
                            assert(self.addresses() =~= seen_addresses(prefix2));
                            let n = old_entries.len() as int;
                            assert forall|k: int| 0 <= k < self.entries@.len() implies appears(
                                prefix2,
                                (#[trigger] self.entries@[k]).address,
                            ) && self.entries@[k].count == occurrences(
                                prefix2,
                                self.entries@[k].address,
                            ) - 1 && self.entries@[k].factory == discovered_record(
                                prefix2,
                                self.entries@[k].address,
                            ) by {
                                if k < n {
                                    assert(self.entries@[k] == old_entries[k]);
                                    assert(old_entries[k].address != l.address);
                                } else {
                                    assert(self.entries@[k].address == l.address);
                                }
                            }
                        },
                        None => {
                            assert(!appears(prefix, l.address));
                            assert(scan_error(prefix2) == Some(l.topics@[0]));
                        },
                    }
                }
            }
            match res {
                Ok(()) => {},
                Err(e) => {
                    proof {
                        lemma_scan_error_extend(logs@, i as int + 1);
                    }
                    return Err(e);
                },
            }
            i += 1;
        }
        proof {
            assert(logs@.take(logs@.len() as int) =~= logs@);
        }
        Ok(())
    }

    /// The activity count recorded for `address`, if an entry holds it.
    pub fn activity_count(&self, address: Address) -> (r: Option<u64>)
        ensures
            match r {
                Some(count) => exists|j: int|
                    #![auto]
                    0 <= j < self.entries@.len() && self.entries@[j].address == address
                        && self.entries@[j].count == count,
                None => !has_address(self.entries@, address),
            },
    {
        match self.find_entry(address) {
            Some(j) => Some(self.entries[j].count),
            None => None,
        }
    }

    /// The records of the entries whose activity count reaches the
    /// threshold (inclusive), in entry order.
    pub fn filter_by_threshold(&self, number_of_amms_threshold: u64) -> (filtered_factories: Vec<
        Factory,
    >)
        ensures
            filtered_factories@ == filtered_records(self.entries@, number_of_amms_threshold),
    {
        let mut filtered_factories: Vec<Factory> = Vec::new();
        let mut i: usize = 0;
        while i < self.entries.len()
            invariant
                i <= self.entries@.len(),
                filtered_factories@ == filtered_records(
                    self.entries@.take(i as int),
                    number_of_amms_threshold,
                ),
            decreases self.entries@.len() - i,
        {
            proof {
                lemma_take_step(self.entries@, i as int);
            }
            if self.entries[i].count >= number_of_amms_threshold {
                filtered_factories.push(self.entries[i].factory);
            }
            i += 1;
        }
        proof {
            assert(self.entries@.take(self.entries@.len() as int) =~= self.entries@);
        }
        filtered_factories
    }
}

/// The threshold filter over a consistent aggregate state yields exactly
/// the discovered records of the scan, in order of first appearance.
pub proof fn lemma_filtered_matches_scan(
    entries: Seq<AggregateEntry>,
    logs: Seq<LogEntry>,
    threshold: u64,
)
    requires
        forall|i: int| 0 <= i < entries.len() ==> appears(logs, (#[trigger] entries[i]).address),
        forall|i: int|
            0 <= i < entries.len() ==> (#[trigger] entries[i]).count == occurrences(
                logs,
                entries[i].address,
            ) - 1,
        forall|i: int|
            0 <= i < entries.len() ==> (#[trigger] entries[i]).factory == discovered_record(
                logs,
                entries[i].address,
            ),
    ensures
        filtered_records(entries, threshold) == discovered_from(
            entries.map_values(|e: AggregateEntry| e.address),
            logs,
            threshold,
        ),
    decreases entries.len(),
{
    let addrs = entries.map_values(|e: AggregateEntry| e.address);
    if entries.len() == 0 {
        assert(addrs.len() == 0);
    } else {
        let pre = entries.drop_last();
        assert(pre.map_values(|e: AggregateEntry| e.address) =~= addrs.drop_last());
        lemma_filtered_matches_scan(pre, logs, threshold);
        let e = entries.last();
        assert(entries[entries.len() - 1] == e);
        assert(addrs.last() == e.address);
        assert(e.count >= threshold <==> qualifies(logs, threshold, e.address));
    }
}

/// Resolve each requested kind to its discovery event signature. The
/// signatures together form the one combined topic filter a scan queries
/// with: one query per window retrieves the events of all requested kinds.
pub fn event_signatures(factories: &Vec<DiscoverableFactory>) -> (signatures: Vec<EventSignature>)
    ensures
        signatures@.len() == factories@.len(),
        forall|i: int|
            0 <= i < factories@.len() ==> signatures@[i] == signature_of_kind(
                #[trigger] factories@[i],
            ),
{
    let mut signatures: Vec<EventSignature> = Vec::new();
    let mut i: usize = 0;
    while i < factories.len()
        invariant
            i <= factories@.len(),
            signatures@.len() == i,
            forall|k: int|
                0 <= k < i ==> signatures@[k] == signature_of_kind(#[trigger] factories@[k]),
        decreases factories@.len() - i,
    {
        signatures.push(factories[i].discovery_event_signature());
        i += 1;
    }
    signatures
}

/// Scan the given logs for factories. The logs are the ones the caller's
/// window queries returned, concatenated in query order. Every returned
/// record belongs to an address whose activity count (its creating log
/// excluded) reaches the threshold, inclusive; an empty kinds set returns
/// an empty result at once and asks for nothing.
pub fn discover_factories(
    factories: &Vec<DiscoverableFactory>,
    number_of_amms_threshold: u64,
    logs: &Vec<LogEntry>,
) -> (r: Result<Vec<Factory>, DiscoveryError>)
    requires
        forall|i: int| 0 <= i < logs@.len() ==> (#[trigger] logs@[i]).topics@.len() >= 1,
    ensures
        factories@.len() == 0 ==> (r matches Ok(v) && v@.len() == 0),
        factories@.len() > 0 ==> match r {
            Ok(v) => scan_error(logs@) is None && v@ == discovered(
                logs@,
                number_of_amms_threshold,
            ),
            Err(e) => scan_error(logs@) matches Some(s) && e == DiscoveryError::UnrecognizedSignature(
                s,
            ),
        },
{
    if factories.len() == 0 {
        return Ok(Vec::new());
    }
    let mut identified_factories = IdentifiedFactories::new();
    match identified_factories.aggregate_logs(logs) {
        Ok(()) => {},
        Err(e) => {
            return Err(e);
        },
    }
    proof {
        lemma_filtered_matches_scan(
            identified_factories.entries@,
            logs@,
            number_of_amms_threshold,
        );
        assert(identified_factories.addresses() == seen_addresses(logs@));
    }
    Ok(identified_factories.filter_by_threshold(number_of_amms_threshold))
}

} // verus!
