use factory_discovery::engine::IdentifiedFactories;
use factory_discovery::engine::discover_factories;
use factory_discovery::engine::event_signatures;
use factory_discovery::factory::Address;
use factory_discovery::factory::DiscoverableFactory;
use factory_discovery::factory::DiscoveryError;
use factory_discovery::factory::EventSignature;
use factory_discovery::factory::Factory;
use factory_discovery::factory::PAIR_CREATED_EVENT_SIGNATURE_HI;
use factory_discovery::factory::PAIR_CREATED_EVENT_SIGNATURE_LO;
use factory_discovery::factory::POOL_CREATED_EVENT_SIGNATURE_HI;
use factory_discovery::factory::POOL_CREATED_EVENT_SIGNATURE_LO;
use factory_discovery::model::LogEntry;

fn pair_created() -> EventSignature {
    EventSignature { hi: PAIR_CREATED_EVENT_SIGNATURE_HI, lo: PAIR_CREATED_EVENT_SIGNATURE_LO }
}

fn pool_created() -> EventSignature {
    EventSignature { hi: POOL_CREATED_EVENT_SIGNATURE_HI, lo: POOL_CREATED_EVENT_SIGNATURE_LO }
}

fn unknown_signature() -> EventSignature {
    EventSignature { hi: 0xdead, lo: 0xbeef }
}

fn addr(n: u128) -> Address {
    Address { hi: 0, lo: n }
}

fn log(address: Address, signature: EventSignature) -> LogEntry {
    LogEntry { address, topics: vec![signature] }
}

#[test]
fn registry_maps_each_kind_to_its_signature() {
    assert_eq!(
        DiscoverableFactory::UniswapV2Factory.discovery_event_signature(),
        pair_created()
    );
    assert_eq!(
        DiscoverableFactory::UniswapV3Factory.discovery_event_signature(),
        pool_created()
    );
    assert_ne!(pair_created(), pool_created());
}

#[test]
fn event_signatures_resolves_all_requested_kinds() {
    let kinds = vec![
        DiscoverableFactory::UniswapV2Factory,
        DiscoverableFactory::UniswapV3Factory,
    ];
    let signatures = event_signatures(&kinds);
    assert_eq!(signatures, vec![pair_created(), pool_created()]);
    assert_eq!(event_signatures(&vec![]), vec![]);
}

#[test]
fn builder_inverts_the_registry() {
    let v2 = Factory::new_empty_factory_from_event_signature(pair_created()).unwrap();
    match v2 {
        Factory::UniswapV2Factory(inner) => assert_eq!(inner.address, addr(0)),
        Factory::UniswapV3Factory(_) => panic!("wrong kind for the pair-created signature"),
    }
    let v3 = Factory::new_empty_factory_from_event_signature(pool_created()).unwrap();
    match v3 {
        Factory::UniswapV2Factory(_) => panic!("wrong kind for the pool-created signature"),
        Factory::UniswapV3Factory(inner) => assert_eq!(inner.address, addr(0)),
    }
}

#[test]
fn builder_rejects_an_unknown_signature() {
    let r = Factory::new_empty_factory_from_event_signature(unknown_signature());
    assert_eq!(
        r,
        Err(DiscoveryError::UnrecognizedSignature(unknown_signature()))
    );
}

#[test]
fn scenario_three_logs_threshold_two() {
    // Height 250,000 in windows of 100,000: the same address emits the
    // pair-created signature three times across the first two windows; its
    // count is 2, the creating log excluded, so threshold 2 includes it.
    let kinds = vec![
        DiscoverableFactory::UniswapV2Factory,
        DiscoverableFactory::UniswapV3Factory,
    ];
    let logs = vec![
        log(addr(0xAA), pair_created()),
        log(addr(0xAA), pair_created()),
        log(addr(0xAA), pair_created()),
    ];
    let records = discover_factories(&kinds, 2, &logs).unwrap();
    assert_eq!(records.len(), 1);
    match records[0] {
        Factory::UniswapV2Factory(inner) => assert_eq!(inner.address, addr(0xAA)),
        Factory::UniswapV3Factory(_) => panic!("wrong kind discovered"),
    }
}

#[test]
fn empty_kinds_set_returns_empty_result() {
    let logs = vec![log(addr(1), pair_created()), log(addr(1), pair_created())];
    let records = discover_factories(&vec![], 0, &logs).unwrap();
    assert_eq!(records, vec![]);
}

#[test]
fn creation_event_does_not_count() {
    let kinds = vec![DiscoverableFactory::UniswapV2Factory];
    let a = addr(0x11);
    let logs = vec![
        log(a, pair_created()),
        log(a, pair_created()),
        log(a, pair_created()),
        log(a, pair_created()),
        log(a, pair_created()),
    ];
    // Five logs: the first creates the entry, the other four count.
    let mut state = IdentifiedFactories::new();
    for l in &logs {
        state.process_log(l).unwrap();
    }
    assert_eq!(state.activity_count(a), Some(4));
    assert_eq!(discover_factories(&kinds, 4, &logs).unwrap().len(), 1);
    assert_eq!(discover_factories(&kinds, 5, &logs).unwrap().len(), 0);
}

#[test]
fn activity_count_of_an_unseen_address_is_absent() {
    let mut state = IdentifiedFactories::new();
    state.process_log(&log(addr(1), pair_created())).unwrap();
    assert_eq!(state.activity_count(addr(2)), None);
}

#[test]
fn threshold_is_inclusive_at_the_boundary() {
    let kinds = vec![DiscoverableFactory::UniswapV2Factory];
    let reaches = addr(0xA1);
    let below = addr(0xB2);
    let mut logs = vec![];
    for _ in 0..4 {
        logs.push(log(reaches, pair_created()));  // count 3
    }
    for _ in 0..3 {
        logs.push(log(below, pair_created()));  // count 2
    }
    let records = discover_factories(&kinds, 3, &logs).unwrap();
    assert_eq!(records.len(), 1);
    match records[0] {
        Factory::UniswapV2Factory(inner) => assert_eq!(inner.address, reaches),
        Factory::UniswapV3Factory(_) => panic!("wrong kind discovered"),
    }
}

#[test]
fn unknown_creating_signature_aborts_the_scan() {
    let kinds = vec![DiscoverableFactory::UniswapV2Factory];
    let logs = vec![log(addr(1), pair_created()), log(addr(2), unknown_signature())];
    let r = discover_factories(&kinds, 0, &logs);
    assert_eq!(
        r,
        Err(DiscoveryError::UnrecognizedSignature(unknown_signature()))
    );
}

#[test]
fn later_unknown_signature_still_counts() {
    // Only a new address's creating log must be recognized; a later log of
    // a known address increments its count whatever its topic says.
    let kinds = vec![DiscoverableFactory::UniswapV2Factory];
    let a = addr(0x33);
    let logs = vec![log(a, pair_created()), log(a, unknown_signature())];
    let records = discover_factories(&kinds, 1, &logs).unwrap();
    assert_eq!(records.len(), 1);
    match records[0] {
        Factory::UniswapV2Factory(inner) => assert_eq!(inner.address, a),
        Factory::UniswapV3Factory(_) => panic!("wrong kind discovered"),
    }
}

#[test]
fn both_kinds_discovered_together() {
    let kinds = vec![
        DiscoverableFactory::UniswapV2Factory,
        DiscoverableFactory::UniswapV3Factory,
    ];
    let v2_addr = addr(0x44);
    let v3_addr = addr(0x55);
    let logs = vec![
        log(v2_addr, pair_created()),
        log(v3_addr, pool_created()),
        log(v2_addr, pair_created()),
        log(v3_addr, pool_created()),
    ];
    let records = discover_factories(&kinds, 1, &logs).unwrap();
    assert_eq!(records.len(), 2);
    match records[0] {
        Factory::UniswapV2Factory(inner) => assert_eq!(inner.address, v2_addr),
        Factory::UniswapV3Factory(_) => panic!("first record has the wrong kind"),
    }
    match records[1] {
        Factory::UniswapV2Factory(_) => panic!("second record has the wrong kind"),
        Factory::UniswapV3Factory(inner) => assert_eq!(inner.address, v3_addr),
    }
}

#[test]
fn window_order_does_not_change_the_result_set() {
    // The same logs fed in two window orders: the filtered sets agree.
    let kinds = vec![
        DiscoverableFactory::UniswapV2Factory,
        DiscoverableFactory::UniswapV3Factory,
    ];
    let window_one = vec![
        log(addr(0x66), pair_created()),
        log(addr(0x77), pool_created()),
        log(addr(0x66), pair_created()),
    ];
    let window_two = vec![
        log(addr(0x77), pool_created()),
        log(addr(0x66), pair_created()),
        log(addr(0x77), pool_created()),
    ];
    let mut one_then_two = window_one.clone();
    one_then_two.extend(window_two.clone());
    let mut two_then_one = window_two;
    two_then_one.extend(window_one);
    let forward = discover_factories(&kinds, 2, &one_then_two).unwrap();
    let backward = discover_factories(&kinds, 2, &two_then_one).unwrap();
    assert_eq!(forward.len(), backward.len());
    for record in &forward {
        assert!(backward.contains(record));
    }
}
