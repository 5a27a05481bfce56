//! The host capability interface and its in-memory implementation.
//!
//! [`External`] lists every operation contract code may invoke against its
//! environment. Each operation defaults to an explicit "not configured"
//! failure, so a stand-in that leaves a capability out makes any use of it
//! observable instead of silently plausible. [`ExternalInstance`] is the
//! full implementation: deterministic storage, balances, registered
//! endpoints, and append-only audit records of calls and events.

use vstd::prelude::*;

use crate::bytemap::{ByteMap, lemma_entries_map_congruent, unique_keys};
use crate::model::{
    CallView, EndpointView, HostView, LogView, ResponseView, balance_spec, call_spec, call_wf,
    elog_spec, endpoint_wf, host_wf, log_wf, push_call_spec, response_output, run_calls_spec,
    storage_read_spec, storage_write_spec,
};
use crate::model::lemma_run_calls_snoc;
use crate::types::{Address, H256, U256, clone_bytes, zero_word_vec};

verus! {

/// How many levels of nested endpoint-to-endpoint calls the host runs. A
/// call that is already this deep finds its callee but fails instead of
/// recursing further, keeping every configuration terminating.
pub const MAX_CALL_DEPTH: u64 = 64;

/// The failure a host operation reports: a capability that is not
/// configured, or a call that a missing or failing endpoint rejected.
#[derive(Debug)]
pub struct Error;

/// A record of one outbound call attempt: target, value, gas allowance and
/// raw input. Appended to the host's audit trail whether or not the call
/// succeeded.
#[derive(Debug)]
pub struct Call {
    pub gas: u64,
    pub address: Address,
    pub value: U256,
    pub input: Vec<u8>,
}

impl View for Call {
    type V = CallView;

    open spec fn view(&self) -> CallView {
        CallView { gas: self.gas, address: self.address@, value: self.value@, input: self.input@ }
    }
}

impl Call {
    /// Fixed-size fields have their documented sizes.
    pub open spec fn wf(&self) -> bool {
        call_wf(self@)
    }
}

impl Clone for Call {
    fn clone(&self) -> (r: Self)
        ensures
            r@ == self@,
    {
        Call {
            gas: self.gas,
            address: self.address.clone(),
            value: self.value.clone(),
            input: clone_bytes(&self.input),
        }
    }
}

/// A record of one emitted event: its topic hashes and data payload.
#[derive(Debug)]
pub struct LogEntry {
    pub topics: Vec<H256>,
    pub data: Vec<u8>,
}

impl View for LogEntry {
    type V = LogView;

    open spec fn view(&self) -> LogView {
        LogView { topics: topics_view(self.topics@), data: self.data@ }
    }
}

impl Clone for LogEntry {
    fn clone(&self) -> (r: Self)
        ensures
            r@ == self@,
    {
        let r = LogEntry { topics: clone_hashes(&self.topics), data: clone_bytes(&self.data) };
        proof {
            assert(topics_view(r.topics@) =~= topics_view(self.topics@));
        }
        r
    }
}

/// What an endpoint answers once its scripted calls have run.
#[derive(Debug)]
pub enum Response {
    /// Report failure.
    Fail,
    /// Succeed with these output bytes.
    Output(Vec<u8>),
    /// Succeed with the 32-byte encoding of the value this endpoint was
    /// called with; lets a test observe that a nested call sees its own
    /// call's value, not an outer one's.
    CallValue,
    /// Succeed with the call's own input bytes as output.
    EchoInput,
    /// Hand on the result of the endpoint's last scripted call; fail when
    /// it scripts none.
    Forward,
}

impl View for Response {
    type V = ResponseView;

    open spec fn view(&self) -> ResponseView {
        match self {
            Response::Fail => ResponseView::Fail,
            Response::Output(b) => ResponseView::Output(b@),
            Response::CallValue => ResponseView::CallValue,
            Response::EchoInput => ResponseView::EchoInput,
            Response::Forward => ResponseView::Forward,
        }
    }
}

impl Clone for Response {
    fn clone(&self) -> (r: Self)
        ensures
            r@ == self@,
    {
        match self {
            Response::Fail => Response::Fail,
            Response::Output(b) => Response::Output(clone_bytes(b)),
            Response::CallValue => Response::CallValue,
            Response::EchoInput => Response::EchoInput,
            Response::Forward => Response::Forward,
        }
    }
}

/// A mock sub-contract registered at an address: the unary relation from
/// `(value, input)` to a result, written down as the calls its body issues
/// followed by its response.
#[derive(Debug)]
pub struct Endpoint {
    pub(crate) calls: Vec<Call>,
    pub(crate) response: Response,
}

impl View for Endpoint {
    type V = EndpointView;

    open(crate) spec fn view(&self) -> EndpointView {
        EndpointView { calls: calls_view(self.calls@), response: self.response@ }
    }
}

impl Endpoint {
    /// Every scripted call has well-formed fixed-size fields.
    pub open spec fn wf(&self) -> bool {
        endpoint_wf(self@)
    }

    /// An endpoint that issues the given calls in order and then answers
    /// with the given response.
    pub fn new(calls: Vec<Call>, response: Response) -> (r: Endpoint)
        requires
            forall|i: int| 0 <= i < calls@.len() ==> (#[trigger] calls@[i]).wf(),
        ensures
            r.wf(),
            r@ == (EndpointView { calls: calls_view(calls@), response: response@ }),
    {
        let r = Endpoint { calls, response };
        proof {
            assert(forall|i: int|
                0 <= i < r@.calls.len() ==> call_wf(#[trigger] r@.calls[i]));
        }
        r
    }

    /// An endpoint that always succeeds with empty output.
    pub fn ok() -> (r: Endpoint)
        ensures
            r.wf(),
            r@ == (EndpointView {
                calls: Seq::<CallView>::empty(),
                response: ResponseView::Output(Seq::<u8>::empty()),
            }),
    {
        let r = Endpoint { calls: Vec::new(), response: Response::Output(Vec::new()) };
        proof {
            assert(calls_view(r.calls@) =~= Seq::<CallView>::empty());
        }
        r
    }

    /// An endpoint that always fails.
    pub fn err() -> (r: Endpoint)
        ensures
            r.wf(),
            r@ == (EndpointView { calls: Seq::<CallView>::empty(), response: ResponseView::Fail }),
    {
        let r = Endpoint { calls: Vec::new(), response: Response::Fail };
        proof {
            assert(calls_view(r.calls@) =~= Seq::<CallView>::empty());
        }
        r
    }
}

impl Clone for Endpoint {
    fn clone(&self) -> (r: Self)
        ensures
            r@ == self@,
    {
        let r = Endpoint { calls: clone_calls(&self.calls), response: self.response.clone() };
        proof {
            assert(calls_view(r.calls@) =~= calls_view(self.calls@));
        }
        r
    }
}

/// The views of a sequence of call records.
pub open spec fn calls_view(s: Seq<Call>) -> Seq<CallView> {
    s.map_values(|c: Call| c@)
}

/// The views of a sequence of log entries.
pub open spec fn logs_view(s: Seq<LogEntry>) -> Seq<LogView> {
    s.map_values(|l: LogEntry| l@)
}

/// The views of a sequence of topic hashes.
pub open spec fn topics_view(s: Seq<H256>) -> Seq<Seq<u8>> {
    s.map_values(|t: H256| t@)
}

/// The result of a call, as the model writes it: the output bytes on
/// success, nothing on failure.
pub open spec fn result_option(r: Result<Vec<u8>, Error>) -> Option<Seq<u8>> {
    match r {
        Ok(v) => Some(v@),
        Err(_) => None,
    }
}

/// Copies a sequence of call records, view for view.
pub fn clone_calls(v: &Vec<Call>) -> (r: Vec<Call>)
    ensures
        r@.len() == v@.len(),
        forall|i: int| 0 <= i < v@.len() ==> (#[trigger] r@[i])@ == v@[i]@,
{
    let mut r: Vec<Call> = Vec::new();
    let mut i: usize = 0;
    while i < v.len()
        invariant
            i <= v@.len(),
            r@.len() == i,
            forall|j: int| 0 <= j < i ==> (#[trigger] r@[j])@ == v@[j]@,
        decreases v@.len() - i,
    {
        r.push(v[i].clone());
        i = i + 1;
    }
    r
}

/// Copies a sequence of hashes, view for view.
pub fn clone_hashes(v: &Vec<H256>) -> (r: Vec<H256>)
    ensures
        r@.len() == v@.len(),
        forall|i: int| 0 <= i < v@.len() ==> (#[trigger] r@[i])@ == v@[i]@,
{
    let mut r: Vec<H256> = Vec::new();
    let mut i: usize = 0;
    while i < v.len()
        invariant
            i <= v@.len(),
            r@.len() == i,
            forall|j: int| 0 <= j < i ==> (#[trigger] r@[j])@ == v@[j]@,
        decreases v@.len() - i,
    {
        r.push(v[i].clone());
        i = i + 1;
    }
    r
}

/// The capability surface a contract's environment must satisfy.
///
/// Every operation defaults to the explicit "not configured" failure, so a
/// stand-in only has to supply the capabilities its test exercises; an
/// attempt to use any other one fails loudly rather than answering with a
/// plausible-looking zero value. [`ExternalInstance`] implements the whole
/// surface; single-capability stand-ins can be built directly in a test.
///
/// The trait states no postconditions: code that wants the verified
/// behaviour of the in-memory host calls [`ExternalInstance`]'s own
/// methods, whose contracts are exact.
pub trait External {
    /// The condition under which this stand-in's operations may be called.
    spec fn inv(&self) -> bool;

    /// Balance of an account.
    fn balance(&self, _address: &Address) -> Result<U256, Error>
        requires
            self.inv(),
    {
        Err(Error)
    }

    /// One 32-byte storage value.
    fn storage_read(&self, _key: &H256) -> Result<Vec<u8>, Error>
        requires
            self.inv(),
    {
        Err(Error)
    }

    /// Unconditional storage upsert.
    fn storage_write(&mut self, _key: &H256, _value: &Vec<u8>) -> (r: Result<(), Error>)
        requires
            old(self).inv(),
        ensures
            final(self).inv(),
    {
        Err(Error)
    }

    /// Removes the executing contract, refunding to the given address.
    fn suicide(&self, _refund: &Address) -> Result<(), Error>
        requires
            self.inv(),
    {
        Err(Error)
    }

    /// Deploys a contract with the given endowment and code.
    fn create(&self, _endowment: &U256, _code: &Vec<u8>) -> Result<Address, Error>
        requires
            self.inv(),
    {
        Err(Error)
    }

    /// Calls the contract at an address, transferring value.
    fn call(
        &mut self,
        _gas: u64,
        _address: &Address,
        _value: &U256,
        _input: &Vec<u8>,
    ) -> (r: Result<Vec<u8>, Error>)
        requires
            old(self).inv(),
        ensures
            final(self).inv(),
    {
        Err(Error)
    }

    /// Runs another contract's code in the caller's context.
    fn call_code(&mut self, _gas: u64, _address: &Address, _input: &Vec<u8>) -> (r: Result<
        Vec<u8>,
        Error,
    >)
        requires
            old(self).inv(),
        ensures
            final(self).inv(),
    {
        Err(Error)
    }

    /// Calls the contract at an address without any state effects.
    fn static_call(&mut self, _gas: u64, _address: &Address, _input: &Vec<u8>) -> (r: Result<
        Vec<u8>,
        Error,
    >)
        requires
            old(self).inv(),
        ensures
            final(self).inv(),
    {
        Err(Error)
    }

    /// Emits an event.
    fn elog(&mut self, _topics: &Vec<H256>, _data: &Vec<u8>) -> (r: Result<(), Error>)
        requires
            old(self).inv(),
        ensures
            final(self).inv(),
    {
        Err(Error)
    }

    /// Writes a debugging message.
    fn debug_log(&self, _msg: String) -> Result<(), Error>
        requires
            self.inv(),
    {
        Err(Error)
    }

    /// Hash of the block with the given number.
    fn blockhash(&self, _number: u64) -> Result<H256, Error>
        requires
            self.inv(),
    {
        Err(Error)
    }

    /// The current block's beneficiary address.
    fn coinbase(&self) -> Result<Address, Error>
        requires
            self.inv(),
    {
        Err(Error)
    }

    /// The current block's timestamp.
    fn timestamp(&self) -> Result<u64, Error>
        requires
            self.inv(),
    {
        Err(Error)
    }

    /// The current block's number.
    fn blocknumber(&self) -> Result<u64, Error>
        requires
            self.inv(),
    {
        Err(Error)
    }

    /// The current block's difficulty.
    fn difficulty(&self) -> Result<U256, Error>
        requires
            self.inv(),
    {
        Err(Error)
    }

    /// The current block's gas limit.
    fn gas_limit(&self) -> Result<U256, Error>
        requires
            self.inv(),
    {
        Err(Error)
    }

    /// The address the current call came from.
    fn sender(&self) -> Result<Address, Error>
        requires
            self.inv(),
    {
        Err(Error)
    }

    /// The externally owned account the whole transaction came from.
    fn origin(&self) -> Result<Address, Error>
        requires
            self.inv(),
    {
        Err(Error)
    }

    /// The value transferred with the current call.
    fn value(&self) -> Result<U256, Error>
        requires
            self.inv(),
    {
        Err(Error)
    }

    /// The executing contract's own address.
    fn address(&self) -> Result<Address, Error>
        requires
            self.inv(),
    {
        Err(Error)
    }
}

/// The full in-memory host: a deterministic, introspectable stand-in for
/// the real environment.
///
/// Its state is the [`HostView`] its view yields; every method's contract
/// is stated over that model. `calls` and `log` only ever grow within one
/// instance's lifetime, and a freshly built instance starts with both
/// empty.
pub struct ExternalInstance {
    pub(crate) storage: ByteMap<Vec<u8>>,
    pub(crate) balances: ByteMap<U256>,
    pub(crate) endpoints: ByteMap<Endpoint>,
    pub(crate) calls: Vec<Call>,
    pub(crate) log: Vec<LogEntry>,
    pub(crate) sender: Address,
    pub(crate) address: Address,
    pub(crate) origin: Address,
    pub(crate) coinbase: Address,
    pub(crate) value: U256,
    pub(crate) difficulty: U256,
    pub(crate) gas_limit: U256,
    pub(crate) blocknumber: u64,
    pub(crate) timestamp: u64,
}

impl View for ExternalInstance {
    type V = HostView;

    open(crate) spec fn view(&self) -> HostView {
        HostView {
            storage: self.storage.to_map(),
            balances: self.balances.to_map(),
            endpoints: self.endpoints.to_map(),
            calls: calls_view(self.calls@),
            log: logs_view(self.log@),
            sender: self.sender@,
            address: self.address@,
            origin: self.origin@,
            coinbase: self.coinbase@,
            value: self.value@,
            difficulty: self.difficulty@,
            gas_limit: self.gas_limit@,
            blocknumber: self.blocknumber,
            timestamp: self.timestamp,
        }
    }
}

impl ExternalInstance {
    /// The internal stores hold no key twice.
    pub open(crate) spec fn maps_wf(&self) -> bool {
        self.storage.wf() && self.balances.wf() && self.endpoints.wf()
    }

    /// Well-formedness: internal store invariants, and every buffer of the
    /// state has its documented fixed size.
    pub open spec fn wf(&self) -> bool {
        self.maps_wf() && host_wf(self@)
    }

    /// Every outbound call recorded so far, in order, successful or not.
    pub fn calls(&self) -> (r: Vec<Call>)
        ensures
            calls_view(r@) == self@.calls,
            r@.len() == self@.calls.len(),
    {
        let r = clone_calls(&self.calls);
        proof {
            assert(calls_view(r@) =~= calls_view(self.calls@));
        }
        r
    }

    /// Every event emitted so far, in order.
    pub fn logs(&self) -> (r: Vec<LogEntry>)
        ensures
            logs_view(r@) == self@.log,
            r@.len() == self@.log.len(),
    {
        let mut r: Vec<LogEntry> = Vec::new();
        let mut i: usize = 0;
        while i < self.log.len()
            invariant
                i <= self.log@.len(),
                r@.len() == i,
                forall|j: int| 0 <= j < i ==> (#[trigger] r@[j])@ == self.log@[j]@,
            decreases self.log@.len() - i,
        {
            r.push(self.log[i].clone());
            i = i + 1;
        }
        proof {
            assert(logs_view(r@) =~= logs_view(self.log@));
        }
        r
    }

    /// Reads the 32-byte value stored under `key`; a key never written
    /// reads as the all-zero value. Always succeeds.
    pub fn storage_read(&self, key: &H256) -> (r: Vec<u8>)
        requires
            self.wf(),
            key.wf(),
        ensures
            r@ == storage_read_spec(self@, key@),
            r@.len() == 32,
    {
        match self.storage.get(key.as_bytes()) {
            Some(v) => clone_bytes(v),
            None => zero_word_vec(),
        }
    }

    /// Binds `key` to `value` in storage, replacing any earlier value.
    /// Always succeeds.
    pub fn storage_write(&mut self, key: &H256, value: &Vec<u8>)
        requires
            old(self).wf(),
            key.wf(),
            value@.len() == 32,
        ensures
            final(self).wf(),
            final(self)@ == storage_write_spec(old(self)@, key@, value@),
    {
        self.storage.insert(clone_bytes(key.as_bytes()), clone_bytes(value));
        proof {
            assert(self@ =~= storage_write_spec(old(self)@, key@, value@));
            assert forall|k: Seq<u8>| self@.storage.contains_key(k) implies k.len() == 32 && (
            #[trigger] self@.storage[k]).len() == 32 by {
                if k != key@ {
                    assert(old(self)@.storage.contains_key(k));
                    assert(self@.storage[k] == old(self)@.storage[k]);
                }
            }
        }
    }

    /// The configured balance of `address`; an address never configured
    /// reads as zero. Always succeeds.
    pub fn balance(&self, address: &Address) -> (r: U256)
        requires
            self.wf(),
            address.wf(),
        ensures
            r.wf(),
            r@ == balance_spec(self@, address@),
    {
        match self.balances.get(address.as_bytes()) {
            Some(v) => {
                proof {
                    assert(self@.balances.contains_key(address@));
                    assert(self@.balances[address@].len() == 32);
                }
                v.clone()
            },
            None => U256::zero(),
        }
    }

    /// Appends one event to the log. Always succeeds; the log only grows.
    pub fn elog(&mut self, topics: &Vec<H256>, data: &Vec<u8>)
        requires
            old(self).wf(),
            forall|i: int| 0 <= i < topics@.len() ==> (#[trigger] topics@[i]).wf(),
        ensures
            final(self).wf(),
            final(self)@ == elog_spec(
                old(self)@,
                LogView { topics: topics_view(topics@), data: data@ },
            ),
    {
        let ghost entry = LogView { topics: topics_view(topics@), data: data@ };
        let e = LogEntry { topics: clone_hashes(topics), data: clone_bytes(data) };
        proof {
            assert(e@.topics =~= entry.topics);
        }
        self.log.push(e);
        proof {
            assert(logs_view(self.log@) =~= logs_view(old(self).log@).push(entry));
            assert(self@ =~= elog_spec(old(self)@, entry));
            assert(log_wf(entry));
            assert forall|i: int| 0 <= i < self@.log.len() implies log_wf(
                #[trigger] self@.log[i],
            ) by {
                if i < old(self)@.log.len() {
                    assert(self@.log[i] == old(self)@.log[i]);
                } else {
                    assert(self@.log[i] == entry);
                }
            }
        }
    }

    /// Calls the mock sub-contract registered at `address`, transferring
    /// `value` and passing `input`, with `gas` recorded but not metered.
    ///
    /// The attempt is recorded first, unconditionally, so that a rejected
    /// call is still observable afterwards; then the endpoint, if one is
    /// registered, runs its scripted calls against this same host and its
    /// response decides the result. A call to an address with no endpoint
    /// fails.
    pub fn call(
        &mut self,
        gas: u64,
        address: &Address,
        value: &U256,
        input: &Vec<u8>,
    ) -> (r: Result<Vec<u8>, Error>)
        requires
            old(self).wf(),
            address.wf(),
            value.wf(),
        ensures
            final(self).wf(),
            final(self)@ == call_spec(
                old(self)@,
                CallView { gas, address: address@, value: value@, input: input@ },
                MAX_CALL_DEPTH as nat,
            ).0,
            result_option(r) == call_spec(
                old(self)@,
                CallView { gas, address: address@, value: value@, input: input@ },
                MAX_CALL_DEPTH as nat,
            ).1,
    {
        self.call_depth(MAX_CALL_DEPTH, gas, address, value, input)
    }

    /// Runs one call with `depth` nested levels still allowed; the
    /// executable mirror of [`call_spec`].
    fn call_depth(
        &mut self,
        depth: u64,
        gas: u64,
        address: &Address,
        value: &U256,
        input: &Vec<u8>,
    ) -> (r: Result<Vec<u8>, Error>)
        requires
            old(self).wf(),
            address.wf(),
            value.wf(),
        ensures
            final(self).wf(),
            final(self)@ == call_spec(
                old(self)@,
                CallView { gas, address: address@, value: value@, input: input@ },
                depth as nat,
            ).0,
            result_option(r) == call_spec(
                old(self)@,
                CallView { gas, address: address@, value: value@, input: input@ },
                depth as nat,
            ).1,
        decreases depth,
    {
        let ghost h0 = self@;
        let ghost cv = CallView { gas, address: address@, value: value@, input: input@ };
        let record = Call {
            gas,
            address: address.clone(),
            value: value.clone(),
            input: clone_bytes(input),
        };
        self.calls.push(record);
        proof {
            assert(calls_view(self.calls@) =~= h0.calls.push(cv));
            assert(self@ =~= push_call_spec(h0, cv));
            assert forall|i: int| 0 <= i < self@.calls.len() implies call_wf(
                #[trigger] self@.calls[i],
            ) by {
                if i < h0.calls.len() {
                    assert(self@.calls[i] == h0.calls[i]);
                } else {
                    assert(self@.calls[i] == cv);
                }
            }
            assert(host_wf(self@));
        }
        let ghost h1 = self@;
        let looked_up = self.endpoints.get(address.as_bytes());
        if looked_up.is_none() {
            proof {
                assert(!h0.endpoints.contains_key(cv.address));
            }
            return Err(Error);
        }
        let (ep_calls, ep_response) = match looked_up {
            Some(ep) => (clone_calls(&ep.calls), ep.response.clone()),
            None => (Vec::new(), Response::Fail),
        };
        let ghost e = h0.endpoints[cv.address];
        proof {
            assert(calls_view(ep_calls@) =~= e.calls);
            assert(endpoint_wf(e));
        }
        if depth == 0 {
            return Err(Error);
        }
        let ghost dnext = (depth - 1) as nat;
        let ghost resp = ep_response@;
        let n = ep_calls.len();
        let mut i: usize = 0;
        let mut last: Result<Vec<u8>, Error> = Err(Error);
        while i < n
            invariant
                self.wf(),
                n == ep_calls@.len(),
                i <= n,
                1 <= depth,
                dnext == (depth - 1) as nat,
                calls_view(ep_calls@) == e.calls,
                endpoint_wf(e),
                self@ == run_calls_spec(h1, e.calls.take(i as int), dnext).0,
                result_option(last) == run_calls_spec(h1, e.calls.take(i as int), dnext).1,
            decreases n - i,
        {
            let ghost pre = self@;
            let c = &ep_calls[i];
            proof {
                assert(c@ == e.calls[i as int]);
                assert(call_wf(e.calls[i as int]));
            }
            last = self.call_depth(depth - 1, c.gas, &c.address, &c.value, &c.input);
            proof {
                lemma_run_calls_snoc(h1, e.calls.take(i as int), e.calls[i as int], dnext);
                assert(e.calls.take((i + 1) as int) =~= e.calls.take(i as int).push(
                    e.calls[i as int],
                ));
            }
            i = i + 1;
        }
        proof {
            assert(e.calls.take(n as int) =~= e.calls);
        }
        let out = match ep_response {
            Response::Fail => Err(Error),
            Response::Output(b) => Ok(b),
            Response::CallValue => Ok(clone_bytes(value.as_bytes())),
            Response::EchoInput => Ok(clone_bytes(input)),
            Response::Forward => last,
        };
        proof {
            assert(result_option(out) == response_output(
                e.response,
                cv.value,
                cv.input,
                run_calls_spec(h1, e.calls, dnext).1,
            ));
        }
        out
    }

    /// Not configured on the in-memory host: always the explicit failure.
    pub fn suicide(&self, _refund: &Address) -> (r: Result<(), Error>)
        ensures
            r is Err,
    {
        Err(Error)
    }

    /// Not configured on the in-memory host: always the explicit failure.
    pub fn create(&self, _endowment: &U256, _code: &Vec<u8>) -> (r: Result<Address, Error>)
        ensures
            r is Err,
    {
        Err(Error)
    }

    /// Not configured on the in-memory host: always the explicit failure.
    pub fn call_code(&self, _gas: u64, _address: &Address, _input: &Vec<u8>) -> (r: Result<
        Vec<u8>,
        Error,
    >)
        ensures
            r is Err,
    {
        Err(Error)
    }

    /// Not configured on the in-memory host: always the explicit failure.
    pub fn static_call(&self, _gas: u64, _address: &Address, _input: &Vec<u8>) -> (r: Result<
        Vec<u8>,
        Error,
    >)
        ensures
            r is Err,
    {
        Err(Error)
    }

    /// Not configured on the in-memory host: always the explicit failure.
    pub fn blockhash(&self, _number: u64) -> (r: Result<H256, Error>)
        ensures
            r is Err,
    {
        Err(Error)
    }

    /// Not configured on the in-memory host: always the explicit failure.
    pub fn debug_log(&self, _msg: String) -> (r: Result<(), Error>)
        ensures
            r is Err,
    {
        Err(Error)
    }

    /// The configured sender address.
    pub fn sender(&self) -> (r: Address)
        requires
            self.wf(),
        ensures
            r.wf(),
            r@ == self@.sender,
    {
        self.sender.clone()
    }

    /// The executing contract's configured address.
    pub fn address(&self) -> (r: Address)
        requires
            self.wf(),
        ensures
            r.wf(),
            r@ == self@.address,
    {
        self.address.clone()
    }

    /// The configured transaction origin.
    pub fn origin(&self) -> (r: Address)
        requires
            self.wf(),
        ensures
            r.wf(),
            r@ == self@.origin,
    {
        self.origin.clone()
    }

    /// The configured block beneficiary.
    pub fn coinbase(&self) -> (r: Address)
        requires
            self.wf(),
        ensures
            r.wf(),
            r@ == self@.coinbase,
    {
        self.coinbase.clone()
    }

    /// The configured value of the outermost call.
    pub fn value(&self) -> (r: U256)
        requires
            self.wf(),
        ensures
            r.wf(),
            r@ == self@.value,
    {
        self.value.clone()
    }

    /// The configured block difficulty.
    pub fn difficulty(&self) -> (r: U256)
        requires
            self.wf(),
        ensures
            r.wf(),
            r@ == self@.difficulty,
    {
        self.difficulty.clone()
    }

    /// The configured block gas limit.
    pub fn gas_limit(&self) -> (r: U256)
        requires
            self.wf(),
        ensures
            r.wf(),
            r@ == self@.gas_limit,
    {
        self.gas_limit.clone()
    }

    /// The configured block number.
    pub fn blocknumber(&self) -> (r: u64)
        ensures
            r == self@.blocknumber,
    {
        self.blocknumber
    }

    /// The configured block timestamp.
    pub fn timestamp(&self) -> (r: u64)
        ensures
            r == self@.timestamp,
    {
        self.timestamp
    }

    /// Takes over `other`'s configuration while keeping this host's
    /// accumulated `calls` and `log` records: the merge `ext_update`
    /// performs.
    pub(crate) fn replace_keeping_records(&mut self, other: ExternalInstance)
        requires
            old(self).wf(),
            other.wf(),
        ensures
            final(self).wf(),
            final(self)@ == (HostView {
                calls: old(self)@.calls,
                log: old(self)@.log,
                ..other@
            }),
    {
        let ExternalInstance {
            storage,
            balances,
            endpoints,
            calls: _,
            log: _,
            sender,
            address,
            origin,
            coinbase,
            value,
            difficulty,
            gas_limit,
            blocknumber,
            timestamp,
        } = other;
        self.storage = storage;
        self.balances = balances;
        self.endpoints = endpoints;
        self.sender = sender;
        self.address = address;
        self.origin = origin;
        self.coinbase = coinbase;
        self.value = value;
        self.difficulty = difficulty;
        self.gas_limit = gas_limit;
        self.blocknumber = blocknumber;
        self.timestamp = timestamp;
        proof {
            assert(self@ =~= (HostView {
                calls: old(self)@.calls,
                log: old(self)@.log,
                ..other@
            }));
            assert(host_wf(self@)) by {
                assert(self@.storage == other@.storage);
                assert(self@.balances == other@.balances);
                assert(self@.endpoints == other@.endpoints);
                assert(self@.calls == old(self)@.calls);
                assert(self@.log == old(self)@.log);
            }
        }
    }
}

/// Copies a storage store, entry for entry.
fn clone_storage_map(m: &ByteMap<Vec<u8>>) -> (r: ByteMap<Vec<u8>>)
    ensures
        r.to_map() == m.to_map(),
        m.wf() ==> r.wf(),
{
    let mut entries: Vec<(Vec<u8>, Vec<u8>)> = Vec::new();
    let mut i: usize = 0;
    while i < m.entries.len()
        invariant
            i <= m.entries@.len(),
            entries@.len() == i,
            forall|j: int|
                0 <= j < i ==> (#[trigger] entries@[j]).0@ == m.entries@[j].0@ && entries@[j].1@
                    == m.entries@[j].1@,
        decreases m.entries@.len() - i,
    {
        let e = &m.entries[i];
        entries.push((clone_bytes(&e.0), clone_bytes(&e.1)));
        i = i + 1;
    }
    proof {
        lemma_entries_map_congruent(entries@, m.entries@);
        if m.wf() {
            assert(unique_keys(entries@));
        }
    }
    ByteMap { entries }
}

/// Copies a balance store, entry for entry.
fn clone_balance_map(m: &ByteMap<U256>) -> (r: ByteMap<U256>)
    ensures
        r.to_map() == m.to_map(),
        m.wf() ==> r.wf(),
{
    let mut entries: Vec<(Vec<u8>, U256)> = Vec::new();
    let mut i: usize = 0;
    while i < m.entries.len()
        invariant
            i <= m.entries@.len(),
            entries@.len() == i,
            forall|j: int|
                0 <= j < i ==> (#[trigger] entries@[j]).0@ == m.entries@[j].0@ && entries@[j].1@
                    == m.entries@[j].1@,
        decreases m.entries@.len() - i,
    {
        let e = &m.entries[i];
        entries.push((clone_bytes(&e.0), e.1.clone()));
        i = i + 1;
    }
    proof {
        lemma_entries_map_congruent(entries@, m.entries@);
        if m.wf() {
            assert(unique_keys(entries@));
        }
    }
    ByteMap { entries }
}

/// Copies an endpoint store, entry for entry.
fn clone_endpoint_map(m: &ByteMap<Endpoint>) -> (r: ByteMap<Endpoint>)
    ensures
        r.to_map() == m.to_map(),
        m.wf() ==> r.wf(),
{
    let mut entries: Vec<(Vec<u8>, Endpoint)> = Vec::new();
    let mut i: usize = 0;
    while i < m.entries.len()
        invariant
            i <= m.entries@.len(),
            entries@.len() == i,
            forall|j: int|
                0 <= j < i ==> (#[trigger] entries@[j]).0@ == m.entries@[j].0@ && entries@[j].1@
                    == m.entries@[j].1@,
        decreases m.entries@.len() - i,
    {
        let e = &m.entries[i];
        entries.push((clone_bytes(&e.0), e.1.clone()));
        i = i + 1;
    }
    proof {
        lemma_entries_map_congruent(entries@, m.entries@);
        if m.wf() {
            assert(unique_keys(entries@));
        }
    }
    ByteMap { entries }
}

impl Clone for ExternalInstance {
    /// A deep copy whose state is the same host state.
    fn clone(&self) -> (r: Self)
        ensures
            r@ == self@,
            self.wf() ==> r.wf(),
    {
        let r = ExternalInstance {
            storage: clone_storage_map(&self.storage),
            balances: clone_balance_map(&self.balances),
            endpoints: clone_endpoint_map(&self.endpoints),
            calls: clone_calls(&self.calls),
            log: self.logs(),
            sender: self.sender.clone(),
            address: self.address.clone(),
            origin: self.origin.clone(),
            coinbase: self.coinbase.clone(),
            value: self.value.clone(),
            difficulty: self.difficulty.clone(),
            gas_limit: self.gas_limit.clone(),
            blocknumber: self.blocknumber,
            timestamp: self.timestamp,
        };
        proof {
            assert(calls_view(r.calls@) =~= calls_view(self.calls@));
            assert(r@ =~= self@);
        }
        r
    }
}

impl Default for ExternalInstance {
    /// The host nobody has configured: reads of storage and balances
    /// answer zero, every call fails, all context fields are zero.
    fn default() -> (r: Self)
        ensures
            r.wf(),
            r@ == crate::model::empty_host(),
    {
        let r = ExternalInstance {
            storage: ByteMap::new(),
            balances: ByteMap::new(),
            endpoints: ByteMap::new(),
            calls: Vec::new(),
            log: Vec::new(),
            sender: Address::zero(),
            address: Address::zero(),
            origin: Address::zero(),
            coinbase: Address::zero(),
            value: U256::zero(),
            difficulty: U256::zero(),
            gas_limit: U256::zero(),
            blocknumber: 0,
            timestamp: 0,
        };
        proof {
            assert(calls_view(r.calls@) =~= Seq::<CallView>::empty());
            assert(logs_view(r.log@) =~= Seq::<LogView>::empty());
            assert(r@ =~= crate::model::empty_host());
        }
        r
    }
}

impl External for ExternalInstance {
    /// The in-memory host's operations ask for its well-formedness.
    open spec fn inv(&self) -> bool {
        self.wf()
    }

    fn balance(&self, address: &Address) -> Result<U256, Error> {
        if address.as_bytes().len() != 20 {
            return Err(Error);
        }
        Ok(ExternalInstance::balance(self, address))
    }

    fn storage_read(&self, key: &H256) -> Result<Vec<u8>, Error> {
        if key.as_bytes().len() != 32 {
            return Err(Error);
        }
        Ok(ExternalInstance::storage_read(self, key))
    }

    fn storage_write(&mut self, key: &H256, value: &Vec<u8>) -> (r: Result<(), Error>) {
        if key.as_bytes().len() != 32 || value.len() != 32 {
            return Err(Error);
        }
        ExternalInstance::storage_write(self, key, value);
        Ok(())
    }

    fn call(
        &mut self,
        gas: u64,
        address: &Address,
        value: &U256,
        input: &Vec<u8>,
    ) -> (r: Result<Vec<u8>, Error>) {
        if address.as_bytes().len() != 20 || value.as_bytes().len() != 32 {
            return Err(Error);
        }
        ExternalInstance::call(self, gas, address, value, input)
    }

    fn elog(&mut self, topics: &Vec<H256>, data: &Vec<u8>) -> (r: Result<(), Error>) {
        let mut i: usize = 0;
        let n = topics.len();
        while i < n
            invariant
                self.wf(),
                i <= n,
                n == topics@.len(),
                forall|j: int| 0 <= j < i ==> (#[trigger] topics@[j]).wf(),
            decreases n - i,
        {
            if topics[i].as_bytes().len() != 32 {
                return Err(Error);
            }
            i = i + 1;
        }
        ExternalInstance::elog(self, topics, data);
        Ok(())
    }

    fn coinbase(&self) -> Result<Address, Error> {
        Ok(ExternalInstance::coinbase(self))
    }

    fn timestamp(&self) -> Result<u64, Error> {
        Ok(ExternalInstance::timestamp(self))
    }

    fn blocknumber(&self) -> Result<u64, Error> {
        Ok(ExternalInstance::blocknumber(self))
    }

    fn difficulty(&self) -> Result<U256, Error> {
        Ok(ExternalInstance::difficulty(self))
    }

    fn gas_limit(&self) -> Result<U256, Error> {
        Ok(ExternalInstance::gas_limit(self))
    }

    fn sender(&self) -> Result<Address, Error> {
        Ok(ExternalInstance::sender(self))
    }

    fn origin(&self) -> Result<Address, Error> {
        Ok(ExternalInstance::origin(self))
    }

    fn value(&self) -> Result<U256, Error> {
        Ok(ExternalInstance::value(self))
    }

    fn address(&self) -> Result<Address, Error> {
        Ok(ExternalInstance::address(self))
    }
}

} // verus!
