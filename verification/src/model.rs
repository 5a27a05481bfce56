//! The mathematical model of a host.
//!
//! A host's state is a [`HostView`]: maps for storage, balances and
//! registered endpoints, the two append-only audit sequences (`calls` and
//! `log`), and the scalar context fields. Every contract of the crate is
//! stated over this model. The semantics of an outbound call — record the
//! attempt, look the callee up, run its scripted calls, produce its
//! response — is the recursive function [`call_spec`].

use vstd::prelude::*;

use crate::types::{zero_address, zero_word};

verus! {

/// One recorded (or scripted) outbound call: gas allowance, callee
/// address, value transferred, raw input bytes.
#[verifier::ext_equal]
pub ghost struct CallView {
    pub gas: u64,
    pub address: Seq<u8>,
    pub value: Seq<u8>,
    pub input: Seq<u8>,
}

/// One recorded event: topic hashes and an opaque data payload.
#[verifier::ext_equal]
pub ghost struct LogView {
    pub topics: Seq<Seq<u8>>,
    pub data: Seq<u8>,
}

/// What a registered endpoint answers once its scripted calls have run.
pub ghost enum ResponseView {
    /// The call fails.
    Fail,
    /// The call succeeds with these output bytes.
    Output(Seq<u8>),
    /// The call succeeds with the 32-byte encoding of the value it was
    /// itself called with.
    CallValue,
    /// The call succeeds with its own input bytes as output.
    EchoInput,
    /// The call hands on the result of the last scripted call, or fails
    /// when there is none.
    Forward,
}

/// A registered endpoint: the calls its body issues in order, then its
/// response.
#[verifier::ext_equal]
pub ghost struct EndpointView {
    pub calls: Seq<CallView>,
    pub response: ResponseView,
}

/// The complete state of a host.
#[verifier::ext_equal]
pub ghost struct HostView {
    /// Storage: 32-byte key to 32-byte value; an absent key reads as zero.
    pub storage: Map<Seq<u8>, Seq<u8>>,
    /// Account balances, 32-byte big-endian; an absent address reads as zero.
    pub balances: Map<Seq<u8>, Seq<u8>>,
    /// The mock sub-contracts reachable by `call`, by address.
    pub endpoints: Map<Seq<u8>, EndpointView>,
    /// Every outbound call attempted, in order, successful or not.
    pub calls: Seq<CallView>,
    /// Every event emitted, in order.
    pub log: Seq<LogView>,
    pub sender: Seq<u8>,
    pub address: Seq<u8>,
    pub origin: Seq<u8>,
    pub coinbase: Seq<u8>,
    pub value: Seq<u8>,
    pub difficulty: Seq<u8>,
    pub gas_limit: Seq<u8>,
    pub blocknumber: u64,
    pub timestamp: u64,
}

/// Well-formedness of a recorded call: fixed-size address and value.
pub open spec fn call_wf(c: CallView) -> bool {
    c.address.len() == 20 && c.value.len() == 32
}

/// Well-formedness of a log entry: every topic is a 32-byte hash.
pub open spec fn log_wf(l: LogView) -> bool {
    forall|i: int| 0 <= i < l.topics.len() ==> (#[trigger] l.topics[i]).len() == 32
}

/// Well-formedness of an endpoint: every scripted call is well-formed.
pub open spec fn endpoint_wf(e: EndpointView) -> bool {
    forall|i: int| 0 <= i < e.calls.len() ==> call_wf(#[trigger] e.calls[i])
}

/// Well-formedness of a host state: every buffer has its documented fixed
/// size.
pub open spec fn host_wf(h: HostView) -> bool {
    &&& h.sender.len() == 20
    &&& h.address.len() == 20
    &&& h.origin.len() == 20
    &&& h.coinbase.len() == 20
    &&& h.value.len() == 32
    &&& h.difficulty.len() == 32
    &&& h.gas_limit.len() == 32
    &&& forall|k: Seq<u8>|
        #[trigger] h.storage.contains_key(k) ==> k.len() == 32 && h.storage[k].len() == 32
    &&& forall|k: Seq<u8>|
        #[trigger] h.balances.contains_key(k) ==> k.len() == 20 && h.balances[k].len() == 32
    &&& forall|k: Seq<u8>|
        #[trigger] h.endpoints.contains_key(k) ==> k.len() == 20 && endpoint_wf(h.endpoints[k])
    &&& forall|i: int| 0 <= i < h.calls.len() ==> call_wf(#[trigger] h.calls[i])
    &&& forall|i: int| 0 <= i < h.log.len() ==> log_wf(#[trigger] h.log[i])
}

/// The state of a host nobody has configured: empty maps and records, all
/// scalar context fields zero.
pub open spec fn empty_host() -> HostView {
    HostView {
        storage: Map::empty(),
        balances: Map::empty(),
        endpoints: Map::empty(),
        calls: Seq::empty(),
        log: Seq::empty(),
        sender: zero_address(),
        address: zero_address(),
        origin: zero_address(),
        coinbase: zero_address(),
        value: zero_word(),
        difficulty: zero_word(),
        gas_limit: zero_word(),
        blocknumber: 0,
        timestamp: 0,
    }
}

/// What reading storage at `key` yields: the stored value, or the 32-byte
/// zero value for a key never written.
pub open spec fn storage_read_spec(h: HostView, key: Seq<u8>) -> Seq<u8> {
    if h.storage.contains_key(key) {
        h.storage[key]
    } else {
        zero_word()
    }
}

/// The host after an unconditional storage upsert.
pub open spec fn storage_write_spec(h: HostView, key: Seq<u8>, value: Seq<u8>) -> HostView {
    HostView { storage: h.storage.insert(key, value), ..h }
}

/// What reading the balance of `address` yields: the configured balance,
/// or zero for an address never configured.
pub open spec fn balance_spec(h: HostView, address: Seq<u8>) -> Seq<u8> {
    if h.balances.contains_key(address) {
        h.balances[address]
    } else {
        zero_word()
    }
}

/// The host after one event has been emitted.
pub open spec fn elog_spec(h: HostView, entry: LogView) -> HostView {
    HostView { log: h.log.push(entry), ..h }
}

/// The host after one outbound call has been recorded.
pub open spec fn push_call_spec(h: HostView, c: CallView) -> HostView {
    HostView { calls: h.calls.push(c), ..h }
}

/// The output an endpoint's response stands for, given the value and
/// input the endpoint was called with and the result of its last scripted
/// call.
pub open spec fn response_output(
    r: ResponseView,
    call_value: Seq<u8>,
    call_input: Seq<u8>,
    last: Option<Seq<u8>>,
) -> Option<Seq<u8>> {
    match r {
        ResponseView::Fail => None,
        ResponseView::Output(b) => Some(b),
        ResponseView::CallValue => Some(call_value),
        ResponseView::EchoInput => Some(call_input),
        ResponseView::Forward => last,
    }
}

/// The semantics of one outbound call against host `h`, with `depth`
/// nested levels still allowed: the host afterwards, and the call's result
/// (`None` is failure).
///
/// The call record is appended first, unconditionally, so that a failed
/// call is still observable. A callee with no registered endpoint fails; so
/// does one found when the nesting allowance is used up. Otherwise the
/// endpoint's scripted calls run in order against the growing state, and
/// its response decides the result.
pub open spec fn call_spec(h: HostView, c: CallView, depth: nat) -> (HostView, Option<Seq<u8>>)
    decreases depth, 0int,
{
    let recorded = push_call_spec(h, c);
    if !h.endpoints.contains_key(c.address) {
        (recorded, None)
    } else if depth == 0 {
        (recorded, None)
    } else {
        let e = h.endpoints[c.address];
        let (after, last) = run_calls_spec(recorded, e.calls, (depth - 1) as nat);
        (after, response_output(e.response, c.value, c.input, last))
    }
}

/// Runs a sequence of scripted calls in order: the host afterwards, and
/// the result of the last call (`None` when the sequence is empty).
pub open spec fn run_calls_spec(h: HostView, cs: Seq<CallView>, depth: nat) -> (
    HostView,
    Option<Seq<u8>>,
)
    decreases depth, cs.len() + 1,
{
    if cs.len() == 0 {
        (h, None)
    } else {
        let (h1, r1) = call_spec(h, cs[0], depth);
        if cs.len() == 1 {
            (h1, r1)
        } else {
            run_calls_spec(h1, cs.drop_first(), depth)
        }
    }
}

/// Law: a key never written reads as the 32-byte zero value.
pub proof fn lemma_unwritten_key_reads_zero(h: HostView, key: Seq<u8>)
    requires
        !h.storage.contains_key(key),
    ensures
        storage_read_spec(h, key) == zero_word(),
{
}

/// Law: writing a value under a key and reading that key back yields
/// exactly the written value, whatever the host held before.
pub proof fn lemma_storage_round_trip(h: HostView, key: Seq<u8>, value: Seq<u8>)
    ensures
        storage_read_spec(storage_write_spec(h, key, value), key) == value,
{
}

/// Law: an address never configured reads as balance zero.
pub proof fn lemma_unconfigured_balance_is_zero(h: HostView, address: Seq<u8>)
    requires
        !h.balances.contains_key(address),
    ensures
        balance_spec(h, address) == zero_word(),
{
}

/// Law: a call to an address with no registered endpoint appends exactly
/// one record — the call itself — changes nothing else, and fails.
pub proof fn lemma_call_unregistered(h: HostView, c: CallView, depth: nat)
    requires
        !h.endpoints.contains_key(c.address),
    ensures
        call_spec(h, c, depth).0 == push_call_spec(h, c),
        call_spec(h, c, depth).0.calls == h.calls.push(c),
        call_spec(h, c, depth).1 is None,
{
}

/// Law: a call to a registered endpoint that scripts no calls of its own
/// appends exactly one record — the call itself, with its address, value
/// and input — changes nothing else, and yields the endpoint's declared
/// response for the call's value and input.
pub proof fn lemma_call_registered_leaf(h: HostView, c: CallView, depth: nat)
    requires
        h.endpoints.contains_key(c.address),
        h.endpoints[c.address].calls.len() == 0,
        depth >= 1,
    ensures
        call_spec(h, c, depth).0 == push_call_spec(h, c),
        call_spec(h, c, depth).0.calls == h.calls.push(c),
        call_spec(h, c, depth).1 == response_output(
            h.endpoints[c.address].response,
            c.value,
            c.input,
            None::<Seq<u8>>,
        ),
{
    reveal_with_fuel(run_calls_spec, 2);
}

/// Law: when the endpoint at `c1.address` scripts exactly one call `c2`,
/// and `c2.address` holds an endpoint that scripts none, calling `c1`
/// appends exactly two records in invocation order — the outer call
/// first, then the nested one — and the two responses compose.
pub proof fn lemma_nested_call_records(h: HostView, c1: CallView, c2: CallView, depth: nat)
    requires
        h.endpoints.contains_key(c1.address),
        h.endpoints[c1.address].calls == seq![c2],
        h.endpoints.contains_key(c2.address),
        h.endpoints[c2.address].calls.len() == 0,
        depth >= 2,
    ensures
        call_spec(h, c1, depth).0 == push_call_spec(push_call_spec(h, c1), c2),
        call_spec(h, c1, depth).0.calls == h.calls.push(c1).push(c2),
        call_spec(h, c1, depth).1 == response_output(
            h.endpoints[c1.address].response,
            c1.value,
            c1.input,
            response_output(
                h.endpoints[c2.address].response,
                c2.value,
                c2.input,
                None::<Seq<u8>>,
            ),
        ),
{
    reveal_with_fuel(call_spec, 3);
    reveal_with_fuel(run_calls_spec, 3);
    let recorded = push_call_spec(h, c1);
    assert(seq![c2].len() == 1);
    assert(seq![c2][0] == c2);
    assert(recorded.endpoints == h.endpoints);
    lemma_call_registered_leaf(recorded, c2, (depth - 1) as nat);
}

/// Law: a call, however deeply its endpoints nest, only appends to the
/// call record. Storage, balances, endpoints, the event log and every
/// context field stay as they were, the records already present stay word
/// for word, and the call itself is the first record appended.
pub proof fn lemma_call_only_appends(h: HostView, c: CallView, depth: nat)
    ensures
        ({
            let (h2, _) = call_spec(h, c, depth);
            &&& h2 == (HostView { calls: h2.calls, ..h })
            &&& h.calls.len() < h2.calls.len()
            &&& h2.calls.take(h.calls.len() as int) == h.calls
            &&& h2.calls[h.calls.len() as int] == c
        }),
    decreases depth, 0int,
{
    let recorded = push_call_spec(h, c);
    assert(recorded.calls.take(h.calls.len() as int) =~= h.calls);
    if h.endpoints.contains_key(c.address) && depth > 0 {
        let e = h.endpoints[c.address];
        lemma_run_calls_only_appends(recorded, e.calls, (depth - 1) as nat);
        let (h2, _) = run_calls_spec(recorded, e.calls, (depth - 1) as nat);
        assert(h2.calls.take(recorded.calls.len() as int) == recorded.calls);
        assert(h2.calls[h.calls.len() as int] == h2.calls.take(recorded.calls.len() as int)[h.calls.len() as int]);
        assert(h2.calls.take(h.calls.len() as int) =~= h.calls);
        assert(h2.calls[h.calls.len() as int] == c);
        assert(h2 == (HostView { calls: h2.calls, ..h })) by {
            assert(recorded == (HostView { calls: recorded.calls, ..h }));
        }
    }
}

/// Law: running a sequence of scripted calls only appends to the call
/// record; everything else stays.
pub proof fn lemma_run_calls_only_appends(h: HostView, cs: Seq<CallView>, depth: nat)
    ensures
        ({
            let (h2, _) = run_calls_spec(h, cs, depth);
            &&& h2 == (HostView { calls: h2.calls, ..h })
            &&& h.calls.len() <= h2.calls.len()
            &&& h2.calls.take(h.calls.len() as int) == h.calls
        }),
    decreases depth, cs.len() + 1,
{
    if cs.len() == 0 {
        let (h2, _) = run_calls_spec(h, cs, depth);
        assert(h2.calls.take(h.calls.len() as int) =~= h.calls);
        assert(h2 == (HostView { calls: h2.calls, ..h }));
    } else {
        lemma_call_only_appends(h, cs[0], depth);
        let (h1, _) = call_spec(h, cs[0], depth);
        if cs.len() > 1 {
            lemma_run_calls_only_appends(h1, cs.drop_first(), depth);
            let (h2, _) = run_calls_spec(h1, cs.drop_first(), depth);
            assert(h2.calls.take(h.calls.len() as int) =~= h1.calls.take(
                h.calls.len() as int,
            ));
            assert(h2 == (HostView { calls: h2.calls, ..h })) by {
                assert(h1 == (HostView { calls: h1.calls, ..h }));
            }
        }
    }
}

/// The host after emitting a whole sequence of events, one after the
/// other.
pub open spec fn elog_all_spec(h: HostView, entries: Seq<LogView>) -> HostView
    decreases entries.len(),
{
    if entries.len() == 0 {
        h
    } else {
        elog_all_spec(elog_spec(h, entries[0]), entries.drop_first())
    }
}

/// Law: event logging is strictly additive. After emitting any sequence
/// of events the log is the old log with exactly those entries appended,
/// in emission order and unchanged — so a host that emits `n` events from
/// an empty log has log length `n` — and no other part of the host moves.
pub proof fn lemma_log_additive(h: HostView, entries: Seq<LogView>)
    ensures
        elog_all_spec(h, entries) == (HostView { log: h.log + entries, ..h }),
    decreases entries.len(),
{
    if entries.len() == 0 {
        assert(h.log + entries =~= h.log);
        assert(elog_all_spec(h, entries) =~= (HostView { log: h.log + entries, ..h }));
    } else {
        let h1 = elog_spec(h, entries[0]);
        lemma_log_additive(h1, entries.drop_first());
        assert(h1.log + entries.drop_first() =~= h.log + entries);
        assert(elog_all_spec(h, entries) =~= (HostView { log: h.log + entries, ..h }));
    }
}

/// Running the scripted calls `cs.push(c)` is running `cs`, then `c` from
/// the state `cs` left behind; the last result is `c`'s.
pub proof fn lemma_run_calls_snoc(h: HostView, cs: Seq<CallView>, c: CallView, depth: nat)
    ensures
        run_calls_spec(h, cs.push(c), depth) == call_spec(run_calls_spec(h, cs, depth).0, c, depth),
    decreases cs.len(),
{
    reveal_with_fuel(run_calls_spec, 3);
    if cs.len() == 0 {
        assert(cs.push(c)[0] == c);
        assert(cs.push(c).len() == 1);
    } else {
        assert(cs.push(c)[0] == cs[0]);
        assert(cs.push(c).drop_first() =~= cs.drop_first().push(c));
        let (h1, r1) = call_spec(h, cs[0], depth);
        lemma_run_calls_snoc(h1, cs.drop_first(), c, depth);
    }
}

} // verus!
