//! An in-memory stand-in for the host environment of WebAssembly smart
//! contracts, for use in tests.
//!
//! Contract code ordinarily reaches its blockchain environment through a
//! fixed set of host functions: read and write persistent storage, inspect
//! the transaction and block context, transfer value, emit events, and
//! call other contracts. This crate replaces that host with a
//! configurable, deterministic, fully observable stand-in: a test builds
//! an [`ExternalBuilder`], turns it into an [`ExternalInstance`], drives
//! contract logic against it — directly, or through the byte-buffer entry
//! points in [`externs`] that mirror the host calling convention — and
//! afterwards inspects the recorded calls, event log and storage.

use vstd::prelude::*;

mod builder;
mod bytemap;
mod external;
pub mod externs;
pub mod model;
mod types;

pub use builder::ExternalBuilder;
pub use external::{
    Call, Endpoint, Error, External, ExternalInstance, LogEntry, Response, MAX_CALL_DEPTH,
    calls_view, logs_view, result_option, topics_view,
};
pub use types::{
    Address, H256, U256, hex_decode, is_hex_digit, is_hex_str, u64_be_byte, u64_to_word,
    zero_address, zero_word,
};

use crate::model::{CallView, HostView, LogView};

verus! {

/// Replaces the host held in `ext` by one freshly built from `builder`.
///
/// Whatever the previous host had accumulated, the new one starts with
/// empty `calls` and `log` records.
pub fn ext_reset(ext: &mut ExternalInstance, builder: ExternalBuilder)
    requires
        builder.wf(),
    ensures
        final(ext).wf(),
        final(ext)@ == builder@,
        final(ext)@.calls == Seq::<CallView>::empty(),
        final(ext)@.log == Seq::<LogView>::empty(),
{
    *ext = builder.build();
}

/// Applies `builder`'s configuration to the host held in `ext` while
/// keeping the host's accumulated `calls` and `log` records unchanged: a
/// merge, not a replacement.
pub fn ext_update(ext: &mut ExternalInstance, builder: ExternalBuilder)
    requires
        old(ext).wf(),
        builder.wf(),
    ensures
        final(ext).wf(),
        final(ext)@ == (HostView { calls: old(ext)@.calls, log: old(ext)@.log, ..builder@ }),
{
    let built = builder.build();
    ext.replace_keeping_records(built);
}

/// A snapshot of the current host instance, for inspecting its recorded
/// calls, log and configuration.
pub fn ext_get(ext: &ExternalInstance) -> (r: ExternalInstance)
    requires
        ext.wf(),
    ensures
        r.wf(),
        r@ == ext@,
{
    ext.clone()
}

} // verus!
