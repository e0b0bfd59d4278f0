//! Factory kinds, event signatures, and factory records.
//!
//! The registry maps each factory kind to the 32-byte topic hash of the
//! event that kind of factory emits whenever it creates a pool or pair; the
//! record builder maps a topic hash back to a kind-tagged, otherwise empty
//! factory record. Addresses and signatures are held as plain integers so
//! that every comparison the engine makes is visible to the verifier.

use vstd::prelude::*;

verus! {

/// A 160-bit chain address: the 4 most significant bytes in `hi`, the 16
/// least significant bytes in `lo`.
#[derive(Clone, Copy, PartialEq, Eq, Structural, Debug)]
pub struct Address {
    pub hi: u32,
    pub lo: u128,
}

/// A 32-byte event topic hash: the 16 most significant bytes in `hi`, the
/// 16 least significant bytes in `lo`.
#[derive(Clone, Copy, PartialEq, Eq, Structural, Debug)]
pub struct EventSignature {
    pub hi: u128,
    pub lo: u128,
}

/// The closed set of factory archetypes the scan can discover.
#[derive(Clone, Copy, PartialEq, Eq, Structural, Debug)]
pub enum DiscoverableFactory {
    UniswapV2Factory,
    UniswapV3Factory,
}

/// keccak256 of `PairCreated(address,address,address,uint256)`, upper half.
pub const PAIR_CREATED_EVENT_SIGNATURE_HI: u128 = 0x0d3648bd0f6ba80134a33ba9275ac585;

/// keccak256 of `PairCreated(address,address,address,uint256)`, lower half.
pub const PAIR_CREATED_EVENT_SIGNATURE_LO: u128 = 0xd9d315f0ad8355cddefde31afa28d0e9;

/// keccak256 of `PoolCreated(address,address,uint24,int24,address)`, upper half.
pub const POOL_CREATED_EVENT_SIGNATURE_HI: u128 = 0x783cca1c0412dd0d695e784568c96da2;

/// keccak256 of `PoolCreated(address,address,uint24,int24,address)`, lower half.
pub const POOL_CREATED_EVENT_SIGNATURE_LO: u128 = 0xe9c22ff989357a2e8b1d9b2b4e6b7118;

/// The signature of the `PairCreated` event a constant-product factory emits.
pub open spec fn pair_created_signature() -> EventSignature {
    EventSignature { hi: PAIR_CREATED_EVENT_SIGNATURE_HI, lo: PAIR_CREATED_EVENT_SIGNATURE_LO }
}

/// The signature of the `PoolCreated` event a concentrated-liquidity factory emits.
pub open spec fn pool_created_signature() -> EventSignature {
    EventSignature { hi: POOL_CREATED_EVENT_SIGNATURE_HI, lo: POOL_CREATED_EVENT_SIGNATURE_LO }
}

/// The registry: each kind's discovery event signature.
pub open spec fn signature_of_kind(kind: DiscoverableFactory) -> EventSignature {
    match kind {
        DiscoverableFactory::UniswapV2Factory => pair_created_signature(),
        DiscoverableFactory::UniswapV3Factory => pool_created_signature(),
    }
}

/// The registry's inverse: the kind a signature belongs to, if any.
pub open spec fn kind_of_signature(signature: EventSignature) -> Option<DiscoverableFactory> {
    if signature == pair_created_signature() {
        Some(DiscoverableFactory::UniswapV2Factory)
    } else if signature == pool_created_signature() {
        Some(DiscoverableFactory::UniswapV3Factory)
    } else {
        None
    }
}

/// Looking a kind's signature up again yields that kind: the two lookup
/// directions of the registry are inverses over the whole closed set.
pub proof fn lemma_registry_inverse(kind: DiscoverableFactory)
    ensures
        kind_of_signature(signature_of_kind(kind)) == Some(kind),
{
}

impl DiscoverableFactory {
    /// The 32-byte topic hash identifying this kind's pool-creation event.
    pub fn discovery_event_signature(&self) -> (signature: EventSignature)
        ensures
            signature == signature_of_kind(*self),
    {
        match self {
            DiscoverableFactory::UniswapV2Factory => EventSignature {
                hi: PAIR_CREATED_EVENT_SIGNATURE_HI,
                lo: PAIR_CREATED_EVENT_SIGNATURE_LO,
            },
            DiscoverableFactory::UniswapV3Factory => EventSignature {
                hi: POOL_CREATED_EVENT_SIGNATURE_HI,
                lo: POOL_CREATED_EVENT_SIGNATURE_LO,
            },
        }
    }
}

/// An empty constant-product factory record: only the address is known at
/// discovery time.
#[derive(Clone, Copy, PartialEq, Eq, Structural, Debug)]
pub struct UniswapV2Factory {
    pub address: Address,
}

/// An empty concentrated-liquidity factory record: only the address is
/// known at discovery time.
#[derive(Clone, Copy, PartialEq, Eq, Structural, Debug)]
pub struct UniswapV3Factory {
    pub address: Address,
}

/// A kind-tagged factory record.
#[derive(Clone, Copy, PartialEq, Eq, Structural, Debug)]
pub enum Factory {
    UniswapV2Factory(UniswapV2Factory),
    UniswapV3Factory(UniswapV3Factory),
}

/// The errors a discovery scan itself can raise. Transport failures belong
/// to the caller that owns the network client.
#[derive(Clone, Copy, PartialEq, Eq, Structural, Debug)]
pub enum DiscoveryError {
    /// A log's first topic matched no known factory kind: the log source
    /// returned a log outside the requested topic filter.
    UnrecognizedSignature(EventSignature),
}

/// The all-zero address a record carries before the engine fills it in.
pub open spec fn zero_address() -> Address {
    Address { hi: 0, lo: 0 }
}

/// The record a given kind's factory gets, once its address is known.
pub open spec fn record_of_kind(kind: DiscoverableFactory, address: Address) -> Factory {
    match kind {
        DiscoverableFactory::UniswapV2Factory => Factory::UniswapV2Factory(
            UniswapV2Factory { address },
        ),
        DiscoverableFactory::UniswapV3Factory => Factory::UniswapV3Factory(
            UniswapV3Factory { address },
        ),
    }
}

impl Factory {
    /// The kind tag this record carries.
    pub open spec fn kind(self) -> DiscoverableFactory {
        match self {
            Factory::UniswapV2Factory(_) => DiscoverableFactory::UniswapV2Factory,
            Factory::UniswapV3Factory(_) => DiscoverableFactory::UniswapV3Factory,
        }
    }

    /// The discovered chain address this record carries.
    pub open spec fn spec_address(self) -> Address {
        match self {
            Factory::UniswapV2Factory(f) => f.address,
            Factory::UniswapV3Factory(f) => f.address,
        }
    }

    /// Build an empty record for the kind that emits `signature`; the
    /// inverse of the registry, failing on a signature of no known kind.
    pub fn new_empty_factory_from_event_signature(signature: EventSignature) -> (r: Result<
        Factory,
        DiscoveryError,
    >)
        ensures
            match kind_of_signature(signature) {
                Some(kind) => r == Ok::<Factory, DiscoveryError>(
                    record_of_kind(kind, zero_address()),
                ),
                None => r == Err::<Factory, DiscoveryError>(
                    DiscoveryError::UnrecognizedSignature(signature),
                ),
            },
    {
        if signature.hi == PAIR_CREATED_EVENT_SIGNATURE_HI && signature.lo
            == PAIR_CREATED_EVENT_SIGNATURE_LO {
            Ok(Factory::UniswapV2Factory(UniswapV2Factory { address: Address { hi: 0, lo: 0 } }))
        } else if signature.hi == POOL_CREATED_EVENT_SIGNATURE_HI && signature.lo
            == POOL_CREATED_EVENT_SIGNATURE_LO {
            Ok(Factory::UniswapV3Factory(UniswapV3Factory { address: Address { hi: 0, lo: 0 } }))
        } else {
            Err(DiscoveryError::UnrecognizedSignature(signature))
        }
    }

    /// The record with this record's kind and the given address.
    pub fn with_address(self, address: Address) -> (r: Factory)
        ensures
            r == record_of_kind(self.kind(), address),
    {
        match self {
            Factory::UniswapV2Factory(_) => Factory::UniswapV2Factory(
                UniswapV2Factory { address },
            ),
            Factory::UniswapV3Factory(_) => Factory::UniswapV3Factory(
                UniswapV3Factory { address },
            ),
        }
    }
}

} // verus!
