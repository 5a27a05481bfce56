//! Fluent construction of a host instance.
//!
//! A test names only the fields it cares about; everything else starts
//! zero or empty. `build` finalizes into an [`ExternalInstance`] whose
//! `calls` and `log` records are always empty; `from_instance` goes the
//! other way, seeding a builder from an existing instance so that a test
//! can override a few fields and keep the rest.

use vstd::prelude::*;

use crate::bytemap::ByteMap;
use crate::external::{Endpoint, ExternalInstance, calls_view, logs_view};
use crate::model::{CallView, HostView, LogView, empty_host, host_wf};
use crate::types::{Address, H256, U256, clone_bytes};

verus! {

/// Accumulates the desired configuration of a host and produces a ready
/// [`ExternalInstance`].
pub struct ExternalBuilder {
    pub(crate) storage: ByteMap<Vec<u8>>,
    pub(crate) balances: ByteMap<U256>,
    pub(crate) endpoints: ByteMap<Endpoint>,
    pub(crate) sender: Address,
    pub(crate) address: Address,
    pub(crate) origin: Address,
    pub(crate) coinbase: Address,
    pub(crate) value: U256,
    pub(crate) difficulty: U256,
    pub(crate) gas_limit: U256,
    pub(crate) blocknumber: u64,
    pub(crate) timestamp: u64,
}

impl View for ExternalBuilder {
    type V = HostView;

    /// The host state this builder would build: its configuration, with
    /// both audit records empty.
    open(crate) spec fn view(&self) -> HostView {
        HostView {
            storage: self.storage.to_map(),
            balances: self.balances.to_map(),
            endpoints: self.endpoints.to_map(),
            calls: Seq::empty(),
            log: Seq::empty(),
            sender: self.sender@,
            address: self.address@,
            origin: self.origin@,
            coinbase: self.coinbase@,
            value: self.value@,
            difficulty: self.difficulty@,
            gas_limit: self.gas_limit@,
            blocknumber: self.blocknumber,
            timestamp: self.timestamp,
        }
    }
}

impl ExternalBuilder {
    /// The internal stores hold no key twice.
    pub open(crate) spec fn maps_wf(&self) -> bool {
        self.storage.wf() && self.balances.wf() && self.endpoints.wf()
    }

    /// Well-formedness: internal store invariants, and every configured
    /// buffer has its documented fixed size.
    pub open spec fn wf(&self) -> bool {
        self.maps_wf() && host_wf(self@)
    }

    /// Begins a build: all fields zero, all maps empty.
    pub fn new() -> (r: ExternalBuilder)
        ensures
            r.wf(),
            r@ == empty_host(),
    {
        let r = ExternalBuilder {
            storage: ByteMap::new(),
            balances: ByteMap::new(),
            endpoints: ByteMap::new(),
            sender: Address::zero(),
            address: Address::zero(),
            origin: Address::zero(),
            coinbase: Address::zero(),
            value: U256::zero(),
            difficulty: U256::zero(),
            gas_limit: U256::zero(),
            blocknumber: 0,
            timestamp: 0,
        };
        proof {
            assert(r@ =~= empty_host());
        }
        r
    }

    /// Registers the endpoint that `call`s to `address` reach. A later
    /// registration for the same address wins.
    pub fn endpoint(self, address: Address, endpoint: Endpoint) -> (r: Self)
        requires
            self.wf(),
            address.wf(),
            endpoint.wf(),
        ensures
            r.wf(),
            r@ == (HostView { endpoints: self@.endpoints.insert(address@, endpoint@), ..self@ }),
    {
        let mut b = self;
        b.endpoints.insert(clone_bytes(address.as_bytes()), endpoint);
        proof {
            assert(b@ =~= (HostView {
                endpoints: self@.endpoints.insert(address@, endpoint@),
                ..self@
            }));
        }
        b
    }

    /// Sets the storage value under `key`. A later write for the same key
    /// wins.
    pub fn storage(self, key: H256, value: Vec<u8>) -> (r: Self)
        requires
            self.wf(),
            key.wf(),
            value@.len() == 32,
        ensures
            r.wf(),
            r@ == (HostView { storage: self@.storage.insert(key@, value@), ..self@ }),
    {
        let mut b = self;
        b.storage.insert(clone_bytes(key.as_bytes()), value);
        proof {
            assert(b@ =~= (HostView { storage: self@.storage.insert(key@, value@), ..self@ }));
        }
        b
    }

    /// Sets the balance of `key`. A later setting for the same address
    /// wins.
    pub fn balance_of(self, key: Address, value: U256) -> (r: Self)
        requires
            self.wf(),
            key.wf(),
            value.wf(),
        ensures
            r.wf(),
            r@ == (HostView { balances: self@.balances.insert(key@, value@), ..self@ }),
    {
        let mut b = self;
        b.balances.insert(clone_bytes(key.as_bytes()), value);
        proof {
            assert(b@ =~= (HostView { balances: self@.balances.insert(key@, value@), ..self@ }));
        }
        b
    }

    /// Sets the sender address.
    pub fn sender(self, sender: Address) -> (r: Self)
        requires
            self.wf(),
            sender.wf(),
        ensures
            r.wf(),
            r@ == (HostView { sender: sender@, ..self@ }),
    {
        let mut b = self;
        b.sender = sender;
        proof {
            assert(b@ =~= (HostView { sender: sender@, ..self@ }));
        }
        b
    }

    /// Sets the block beneficiary address.
    pub fn coinbase(self, coinbase: Address) -> (r: Self)
        requires
            self.wf(),
            coinbase.wf(),
        ensures
            r.wf(),
            r@ == (HostView { coinbase: coinbase@, ..self@ }),
    {
        let mut b = self;
        b.coinbase = coinbase;
        proof {
            assert(b@ =~= (HostView { coinbase: coinbase@, ..self@ }));
        }
        b
    }

    /// Sets the block timestamp.
    pub fn timestamp(self, timestamp: u64) -> (r: Self)
        requires
            self.wf(),
        ensures
            r.wf(),
            r@ == (HostView { timestamp: timestamp, ..self@ }),
    {
        let mut b = self;
        b.timestamp = timestamp;
        proof {
            assert(b@ =~= (HostView { timestamp: timestamp, ..self@ }));
        }
        b
    }

    /// Sets the block number.
    pub fn blocknumber(self, blocknumber: u64) -> (r: Self)
        requires
            self.wf(),
        ensures
            r.wf(),
            r@ == (HostView { blocknumber: blocknumber, ..self@ }),
    {
        let mut b = self;
        b.blocknumber = blocknumber;
        proof {
            assert(b@ =~= (HostView { blocknumber: blocknumber, ..self@ }));
        }
        b
    }

    /// Sets the block difficulty.
    pub fn difficulty(self, difficulty: U256) -> (r: Self)
        requires
            self.wf(),
            difficulty.wf(),
        ensures
            r.wf(),
            r@ == (HostView { difficulty: difficulty@, ..self@ }),
    {
        let mut b = self;
        b.difficulty = difficulty;
        proof {
            assert(b@ =~= (HostView { difficulty: difficulty@, ..self@ }));
        }
        b
    }

    /// Sets the block gas limit.
    pub fn gas_limit(self, gas_limit: U256) -> (r: Self)
        requires
            self.wf(),
            gas_limit.wf(),
        ensures
            r.wf(),
            r@ == (HostView { gas_limit: gas_limit@, ..self@ }),
    {
        let mut b = self;
        b.gas_limit = gas_limit;
        proof {
            assert(b@ =~= (HostView { gas_limit: gas_limit@, ..self@ }));
        }
        b
    }

    /// Sets the transaction origin address.
    pub fn origin(self, origin: Address) -> (r: Self)
        requires
            self.wf(),
            origin.wf(),
        ensures
            r.wf(),
            r@ == (HostView { origin: origin@, ..self@ }),
    {
        let mut b = self;
        b.origin = origin;
        proof {
            assert(b@ =~= (HostView { origin: origin@, ..self@ }));
        }
        b
    }

    /// Sets the value transferred with the outermost call.
    pub fn value(self, value: U256) -> (r: Self)
        requires
            self.wf(),
            value.wf(),
        ensures
            r.wf(),
            r@ == (HostView { value: value@, ..self@ }),
    {
        let mut b = self;
        b.value = value;
        proof {
            assert(b@ =~= (HostView { value: value@, ..self@ }));
        }
        b
    }

    /// Sets the executing contract's address.
    pub fn address(self, address: Address) -> (r: Self)
        requires
            self.wf(),
            address.wf(),
        ensures
            r.wf(),
            r@ == (HostView { address: address@, ..self@ }),
    {
        let mut b = self;
        b.address = address;
        proof {
            assert(b@ =~= (HostView { address: address@, ..self@ }));
        }
        b
    }

    /// Finalizes into a host instance. Whatever was configured, the fresh
    /// instance's `calls` and `log` records start empty.
    pub fn build(self) -> (r: ExternalInstance)
        requires
            self.wf(),
        ensures
            r.wf(),
            r@ == self@,
            r@.calls == Seq::<CallView>::empty(),
            r@.log == Seq::<LogView>::empty(),
    {
        let ExternalBuilder {
            storage,
            balances,
            endpoints,
            sender,
            address,
            origin,
            coinbase,
            value,
            difficulty,
            gas_limit,
            blocknumber,
            timestamp,
        } = self;
        let r = ExternalInstance {
            storage,
            balances,
            endpoints,
            calls: Vec::new(),
            log: Vec::new(),
            sender,
            address,
            origin,
            coinbase,
            value,
            difficulty,
            gas_limit,
            blocknumber,
            timestamp,
        };
        proof {
            assert(calls_view(r.calls@) =~= Seq::<CallView>::empty());
            assert(logs_view(r.log@) =~= Seq::<LogView>::empty());
            assert(r@ =~= self@);
        }
        r
    }

    /// Reconstructs a builder whose configuration mirrors `instance`, for
    /// override-and-rebuild workflows; the instance's accumulated records
    /// are not part of a configuration and are left behind.
    pub fn from_instance(instance: ExternalInstance) -> (r: ExternalBuilder)
        ensures
            instance.wf() ==> r.wf(),
            r@ == (HostView {
                calls: Seq::<CallView>::empty(),
                log: Seq::<LogView>::empty(),
                ..instance@
            }),
    {
        let ExternalInstance {
            storage,
            balances,
            endpoints,
            calls: _,
            log: _,
            sender,
            address,
            origin,
            coinbase,
            value,
            difficulty,
            gas_limit,
            blocknumber,
            timestamp,
        } = instance;
        let r = ExternalBuilder {
            storage,
            balances,
            endpoints,
            sender,
            address,
            origin,
            coinbase,
            value,
            difficulty,
            gas_limit,
            blocknumber,
            timestamp,
        };
        proof {
            assert(r@ =~= (HostView {
                calls: Seq::<CallView>::empty(),
                log: Seq::<LogView>::empty(),
                ..instance@
            }));
        }
        r
    }
}

} // verus!
