//! The extern dispatch layer: the host calling convention over byte
//! buffers.
//!
//! Sandboxed contract code calls its host through fixed-signature entry
//! points that move every value as a flat buffer of a documented fixed
//! size — 20 bytes for an address, 32 for a hash or big-endian integer —
//! and report failure as a nonzero status where the convention has no
//! richer channel. The functions here decode such buffers into typed
//! values, invoke the host instance, and encode results back into
//! caller-supplied output buffers. Passing a buffer of the wrong size is a
//! contract violation; here it is a checked precondition.
//!
//! The host acted on is an explicit parameter rather than process-wide
//! state, so every test sees exactly the instance it installed.

use vstd::prelude::*;

use crate::external::{ExternalInstance, MAX_CALL_DEPTH};
use crate::model::{
    CallView, LogView, balance_spec, call_spec, elog_spec, storage_read_spec, storage_write_spec,
};
use crate::types::{Address, H256, U256, clone_bytes, copy_into};

verus! {

/// `dest` with the bytes of `src` laid over its start: the effect of
/// copying a call's output into a caller-supplied result buffer that may
/// be longer or shorter than the output.
pub open spec fn overwrite_prefix(dest: Seq<u8>, src: Seq<u8>) -> Seq<u8> {
    Seq::new(dest.len(), |i: int| if i < src.len() { src[i] } else { dest[i] })
}

/// The topic list a flat buffer of `n` 32-byte hashes stands for.
pub open spec fn split_topics(buf: Seq<u8>, n: int) -> Seq<Seq<u8>> {
    Seq::new(n as nat, |i: int| buf.subrange(32 * i, 32 * i + 32))
}

/// Copies `src` over the start of `dest`, leaving the rest of `dest` as
/// it was.
fn write_prefix(dest: &mut Vec<u8>, src: &Vec<u8>)
    ensures
        final(dest)@ == overwrite_prefix(old(dest)@, src@),
{
    let n = if src.len() < dest.len() {
        src.len()
    } else {
        dest.len()
    };
    let mut i: usize = 0;
    while i < n
        invariant
            i <= n,
            n <= src@.len(),
            n <= dest@.len(),
            n == if src@.len() < dest@.len() { src@.len() } else { dest@.len() },
            dest@.len() == old(dest)@.len(),
            forall|j: int| 0 <= j < i ==> dest@[j] == src@[j],
            forall|j: int| i <= j < dest@.len() ==> dest@[j] == old(dest)@[j],
        decreases n - i,
    {
        dest.set(i, src[i]);
        i = i + 1;
    }
    proof {
        assert(dest@ =~= overwrite_prefix(old(dest)@, src@));
    }
}

/// Reads the 32-byte storage value under the 32-byte key in `key` into
/// `dest`.
pub fn storage_read(ext: &ExternalInstance, key: &Vec<u8>, dest: &mut Vec<u8>)
    requires
        ext.wf(),
        key@.len() == 32,
        old(dest)@.len() == 32,
    ensures
        final(dest)@ == storage_read_spec(ext@, key@),
{
    let k = H256::from_bytes(clone_bytes(key));
    let v = ext.storage_read(&k);
    copy_into(&v, dest);
}

/// Writes the 32 bytes at `src` into storage under the 32-byte key in
/// `key`.
pub fn storage_write(ext: &mut ExternalInstance, key: &Vec<u8>, src: &Vec<u8>)
    requires
        old(ext).wf(),
        key@.len() == 32,
        src@.len() == 32,
    ensures
        final(ext).wf(),
        final(ext)@ == storage_write_spec(old(ext)@, key@, src@),
{
    let k = H256::from_bytes(clone_bytes(key));
    ext.storage_write(&k, src);
}

/// Contract creation is not configured on the in-memory host: reports
/// failure and leaves the address buffer untouched.
pub fn create(
    ext: &ExternalInstance,
    endowment: &Vec<u8>,
    code: &Vec<u8>,
    address_out: &mut Vec<u8>,
) -> (status: i32)
    requires
        endowment@.len() == 32,
        old(address_out)@.len() == 20,
    ensures
        status == 1,
        final(address_out)@ == old(address_out)@,
{
    let e = U256::from_big_endian(endowment);
    match ext.create(&e, code) {
        Ok(_) => 0,
        Err(_) => 1,
    }
}

/// Calls the contract at the 20-byte address in `address`, transferring
/// the 32-byte big-endian value in `val` and passing `input`.
///
/// On success the call's output is copied over the start of `result` and
/// the status is 0; on failure `result` is untouched and the status is 1.
/// Either way the attempt is recorded in the host's call log.
pub fn ccall(
    ext: &mut ExternalInstance,
    gas: u64,
    address: &Vec<u8>,
    val: &Vec<u8>,
    input: &Vec<u8>,
    result: &mut Vec<u8>,
) -> (status: i32)
    requires
        old(ext).wf(),
        address@.len() == 20,
        val@.len() == 32,
    ensures
        final(ext).wf(),
        final(ext)@ == call_spec(
            old(ext)@,
            CallView { gas, address: address@, value: val@, input: input@ },
            MAX_CALL_DEPTH as nat,
        ).0,
        match call_spec(
            old(ext)@,
            CallView { gas, address: address@, value: val@, input: input@ },
            MAX_CALL_DEPTH as nat,
        ).1 {
            Some(out) => status == 0 && final(result)@ == overwrite_prefix(old(result)@, out),
            None => status == 1 && final(result)@ == old(result)@,
        },
{
    let a = Address::from_bytes(clone_bytes(address));
    let v = U256::from_big_endian(val);
    match ext.call(gas, &a, &v, input) {
        Ok(out) => {
            write_prefix(result, &out);
            0
        },
        Err(_) => 1,
    }
}

/// Delegate call: not configured on the in-memory host. Reports failure
/// and leaves the result buffer untouched; nothing is recorded.
pub fn dcall(
    ext: &ExternalInstance,
    gas: u64,
    address: &Vec<u8>,
    input: &Vec<u8>,
    result: &mut Vec<u8>,
) -> (status: i32)
    requires
        address@.len() == 20,
    ensures
        status == 1,
        final(result)@ == old(result)@,
{
    let a = Address::from_bytes(clone_bytes(address));
    match ext.call_code(gas, &a, input) {
        Ok(_) => 0,
        Err(_) => 1,
    }
}

/// Static call: not configured on the in-memory host. Reports failure and
/// leaves the result buffer untouched; nothing is recorded.
pub fn scall(
    ext: &ExternalInstance,
    gas: u64,
    address: &Vec<u8>,
    input: &Vec<u8>,
    result: &mut Vec<u8>,
) -> (status: i32)
    requires
        address@.len() == 20,
    ensures
        status == 1,
        final(result)@ == old(result)@,
{
    let a = Address::from_bytes(clone_bytes(address));
    match ext.static_call(gas, &a, input) {
        Ok(_) => 0,
        Err(_) => 1,
    }
}

/// Self-destruction is not configured on the in-memory host: reports
/// failure.
pub fn suicide(ext: &ExternalInstance, refund: &Vec<u8>) -> (status: i32)
    requires
        refund@.len() == 20,
    ensures
        status == 1,
{
    let a = Address::from_bytes(clone_bytes(refund));
    match ext.suicide(&a) {
        Ok(_) => 0,
        Err(_) => 1,
    }
}

/// Block hashes are not configured on the in-memory host: reports failure
/// and leaves the hash buffer untouched.
pub fn blockhash(ext: &ExternalInstance, number: i64, dest: &mut Vec<u8>) -> (status: i32)
    requires
        old(dest)@.len() == 32,
    ensures
        status == 1,
        final(dest)@ == old(dest)@,
{
    match ext.blockhash(number as u64) {
        Ok(_) => 0,
        Err(_) => 1,
    }
}

/// Writes the configured block beneficiary address into the 20-byte
/// buffer at `dest`.
pub fn coinbase(ext: &ExternalInstance, dest: &mut Vec<u8>)
    requires
        ext.wf(),
        old(dest)@.len() == 20,
    ensures
        final(dest)@ == ext@.coinbase,
{
    let a = ext.coinbase();
    copy_into(a.as_bytes(), dest);
}

/// The configured block timestamp.
pub fn timestamp(ext: &ExternalInstance) -> (r: i64)
    ensures
        r == ext@.timestamp as i64,
{
    ext.timestamp() as i64
}

/// The configured block number.
pub fn blocknumber(ext: &ExternalInstance) -> (r: i64)
    ensures
        r == ext@.blocknumber as i64,
{
    ext.blocknumber() as i64
}

/// Writes the configured block difficulty, 32 bytes big-endian, into
/// `dest`.
pub fn difficulty(ext: &ExternalInstance, dest: &mut Vec<u8>)
    requires
        ext.wf(),
        old(dest)@.len() == 32,
    ensures
        final(dest)@ == ext@.difficulty,
{
    let d = ext.difficulty();
    d.to_big_endian(dest);
}

/// Writes the configured block gas limit, 32 bytes big-endian, into
/// `dest`.
pub fn gaslimit(ext: &ExternalInstance, dest: &mut Vec<u8>)
    requires
        ext.wf(),
        old(dest)@.len() == 32,
    ensures
        final(dest)@ == ext@.gas_limit,
{
    let g = ext.gas_limit();
    g.to_big_endian(dest);
}

/// Writes the configured sender address into the 20-byte buffer at
/// `dest`.
pub fn sender(ext: &ExternalInstance, dest: &mut Vec<u8>)
    requires
        ext.wf(),
        old(dest)@.len() == 20,
    ensures
        final(dest)@ == ext@.sender,
{
    let a = ext.sender();
    copy_into(a.as_bytes(), dest);
}

/// Writes the executing contract's configured address into the 20-byte
/// buffer at `dest`.
pub fn address(ext: &ExternalInstance, dest: &mut Vec<u8>)
    requires
        ext.wf(),
        old(dest)@.len() == 20,
    ensures
        final(dest)@ == ext@.address,
{
    let a = ext.address();
    copy_into(a.as_bytes(), dest);
}

/// Writes the configured call value, 32 bytes big-endian, into `dest`.
pub fn value(ext: &ExternalInstance, dest: &mut Vec<u8>)
    requires
        ext.wf(),
        old(dest)@.len() == 32,
    ensures
        final(dest)@ == ext@.value,
{
    let v = ext.value();
    v.to_big_endian(dest);
}

/// Writes the configured transaction origin address into the 20-byte
/// buffer at `dest`.
pub fn origin(ext: &ExternalInstance, dest: &mut Vec<u8>)
    requires
        ext.wf(),
        old(dest)@.len() == 20,
    ensures
        final(dest)@ == ext@.origin,
{
    let a = ext.origin();
    copy_into(a.as_bytes(), dest);
}

/// Writes the balance of the 20-byte address in `address`, 32 bytes
/// big-endian, into `dest`; an address never configured reads as zero.
pub fn balance(ext: &ExternalInstance, address: &Vec<u8>, dest: &mut Vec<u8>)
    requires
        ext.wf(),
        address@.len() == 20,
        old(dest)@.len() == 32,
    ensures
        final(dest)@ == balance_spec(ext@, address@),
{
    let a = Address::from_bytes(clone_bytes(address));
    let b = ext.balance(&a);
    b.to_big_endian(dest);
}

/// Debug output is not configured on the in-memory host: reports failure.
pub fn debug(ext: &ExternalInstance, msg: String) -> (status: i32)
    ensures
        status == 1,
{
    match ext.debug_log(msg) {
        Ok(_) => 0,
        Err(_) => 1,
    }
}

/// Emits one event whose topics arrive as a flat buffer of `topic_count`
/// 32-byte hashes and whose payload is `data`. Always succeeds; the log
/// only grows.
pub fn elog(ext: &mut ExternalInstance, topic_buf: &Vec<u8>, topic_count: u32, data: &Vec<u8>)
    requires
        old(ext).wf(),
        topic_buf@.len() == 32 * (topic_count as int),
    ensures
        final(ext).wf(),
        final(ext)@ == elog_spec(
            old(ext)@,
            LogView { topics: split_topics(topic_buf@, topic_count as int), data: data@ },
        ),
{
    let total = topic_buf.len();
    let mut topics: Vec<H256> = Vec::new();
    let mut i: usize = 0;
    let n = topic_count as usize;
    while i < n
        invariant
            i <= n,
            total == topic_buf@.len(),
            topic_buf@.len() == 32 * n,
            topics@.len() == i,
            forall|j: int|
                0 <= j < i ==> (#[trigger] topics@[j])@ == topic_buf@.subrange(
                    32 * j,
                    32 * j + 32,
                ),
        decreases n - i,
    {
        let mut t: Vec<u8> = Vec::new();
        let mut k: usize = 0;
        while k < 32
            invariant
                k <= 32,
                i < n,
                total == topic_buf@.len(),
                topic_buf@.len() == 32 * n,
                t@ =~= topic_buf@.subrange(32 * (i as int), 32 * (i as int) + (k as int)),
            decreases 32 - k,
        {
            t.push(topic_buf[32 * i + k]);
            k = k + 1;
        }
        topics.push(H256::from_bytes(t));
        i = i + 1;
    }
    proof {
        assert(crate::external::topics_view(topics@) =~= split_topics(
            topic_buf@,
            topic_count as int,
        ));
        assert(forall|j: int| 0 <= j < topics@.len() ==> (#[trigger] topics@[j]).wf());
    }
    ext.elog(&topics, data);
    proof {
        assert((LogView {
            topics: crate::external::topics_view(topics@),
            data: data@,
        }) =~= (LogView { topics: split_topics(topic_buf@, topic_count as int), data: data@ }));
    }
}

} // verus!
