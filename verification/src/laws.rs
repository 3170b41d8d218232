//! Laws of the registry, proved of the transition functions in `model`.
//! Each executable operation is proved to implement its transition
//! function exactly, so these laws carry over to every call.

use vstd::prelude::*;
use crate::address::{spec_zero_address, Address};
use crate::didfmt::valid_did;
use crate::model::{
    nonce_has_room, spec_add_delegate, spec_bump_nonce, spec_change_owner, spec_did_lookup,
    spec_get_attribute, spec_register_did, spec_set_attribute, CallContext, StateView,
};
use crate::Error;

verus! {

/// An unregistered DID always resolves to the zero-address sentinel.
/// Lookup is a function of the state alone, so repeating it — any number
/// of times — returns the same sentinel and changes nothing.
pub proof fn lemma_lookup_unregistered(s: StateView, did: Seq<char>)
    requires
        !s.dids.contains_key(did),
    ensures
        spec_did_lookup(s, did) == spec_zero_address(),
{
}

/// A DID has at most one controller — the controller map binds one address
/// per key — and registering a DID held by someone else always fails with
/// `RegisteredByOther`, leaving no successor state: the binding stands.
pub proof fn lemma_register_taken(ctx: CallContext, s: StateView, did: Seq<char>)
    requires
        valid_did(did),
        s.dids.contains_key(did),
        s.dids[did] != ctx.sender,
    ensures
        spec_register_did(ctx, s, did) == Err::<StateView, Error>(Error::RegisteredByOther),
{
}

/// Registration never rebinds any DID: every binding present before a
/// successful registration survives it unchanged.
pub proof fn lemma_register_preserves_bindings(
    ctx: CallContext,
    s: StateView,
    did: Seq<char>,
    other: Seq<char>,
)
    requires
        spec_register_did(ctx, s, did) is Ok,
        s.dids.contains_key(other),
    ensures
        spec_register_did(ctx, s, did)->Ok_0.dids[other] == s.dids[other],
{
}

/// Only an ownership transfer ever rebinds a DID: replacing attributes and
/// granting delegates leave the whole controller map as it was.  With
/// `lemma_register_preserves_bindings`, a DID's controller changes only
/// when the current controller hands it over.
pub proof fn lemma_only_transfer_rebinds(
    ctx: CallContext,
    s: StateView,
    l: Seq<Seq<char>>,
    delegate_address: Address,
    did: Seq<char>,
    expire_in: i64,
)
    ensures
        spec_set_attribute(ctx, s, l, did) is Ok ==> spec_set_attribute(ctx, s, l, did)->Ok_0.dids
            == s.dids,
        spec_add_delegate(ctx, s, delegate_address, did, expire_in) is Ok ==> spec_add_delegate(
            ctx,
            s,
            delegate_address,
            did,
            expire_in,
        )->Ok_0.dids == s.dids,
{
}

/// Full-replace law: after a successful `set_attribute` with list `l`,
/// reading the attributes of that DID yields exactly `l` — same elements,
/// same order, nothing left over from any earlier list.
pub proof fn lemma_set_then_get(
    ctx: CallContext,
    s: StateView,
    l: Seq<Seq<char>>,
    did: Seq<char>,
)
    requires
        spec_set_attribute(ctx, s, l, did) is Ok,
    ensures
        spec_get_attribute(spec_set_attribute(ctx, s, l, did)->Ok_0, did) == Ok::<
            Seq<Seq<char>>,
            Error,
        >(l),
{
}

/// Delegate boundary: once the controller grants a delegate, the delegate
/// may replace attributes at every time value up to and including the
/// grant's absolute expiry, and at every later time value the call fails
/// with `DelegateExpired`.  The stored expiry is the granting call's time
/// value plus `expire_in`.
pub proof fn lemma_delegate_boundary(
    grant_ctx: CallContext,
    s: StateView,
    delegate_address: Address,
    did: Seq<char>,
    expire_in: i64,
    write_ctx: CallContext,
    l: Seq<Seq<char>>,
)
    requires
        spec_add_delegate(grant_ctx, s, delegate_address, did, expire_in) is Ok,
        i64::MIN <= grant_ctx.block_time + expire_in <= i64::MAX,
        write_ctx.sender == delegate_address,
        delegate_address != s.dids[did],
    ensures
        ({
            let s2 = spec_add_delegate(grant_ctx, s, delegate_address, did, expire_in)->Ok_0;
            let expiry = grant_ctx.block_time + expire_in;
            &&& s2.delegates[did][delegate_address] == expiry
            &&& write_ctx.block_time <= expiry ==> spec_set_attribute(write_ctx, s2, l, did) is Ok
            &&& write_ctx.block_time > expiry ==> spec_set_attribute(write_ctx, s2, l, did)
                == Err::<StateView, Error>(Error::DelegateExpired)
        }),
{
}

/// A malformed DID is rejected with `FormatError` whatever the state and
/// the caller, leaving no successor state: the state the host keeps is the
/// state before the call, byte for byte.
pub proof fn lemma_register_malformed(ctx: CallContext, s: StateView, did: Seq<char>)
    requires
        !valid_did(did),
    ensures
        spec_register_did(ctx, s, did) == Err::<StateView, Error>(Error::FormatError),
{
}

/// A delegate — valid and unexpired or not — is never allowed to transfer
/// ownership: `change_owner` by anyone but the controller fails with
/// `NotAuthorized`.
pub proof fn lemma_delegate_cannot_transfer(
    ctx: CallContext,
    s: StateView,
    new_owner: Address,
    did: Seq<char>,
)
    requires
        s.dids.contains_key(did),
        ctx.sender != s.dids[did],
    ensures
        spec_change_owner(ctx, s, new_owner, did) == Err::<StateView, Error>(Error::NotAuthorized),
{
}

/// The audit counter never decreases: every successful mutating call
/// leaves every account's counter at least where it was.
pub proof fn lemma_nonce_monotonic(m: Map<Address, u128>, a: Address, b: Address)
    requires
        m.contains_key(b),
        nonce_has_room(m, a),
    ensures
        spec_bump_nonce(m, a).contains_key(b),
        spec_bump_nonce(m, a)[b] >= m[b],
{
}

} // verus!
