//! The mathematical model of the registry: a ghost view of the state and
//! one total transition function per operation.  The executable operations
//! are proved to return exactly what these functions say.

use vstd::prelude::*;
use crate::address::{spec_zero_address, Address};
use crate::didfmt::{did_of, valid_did};
use crate::Error;

verus! {

/// What a call sees of its host: the calling account and the host's
/// monotonic time value.
#[derive(Clone, Copy)]
pub struct CallContext {
    pub sender: Address,
    pub block_time: i64,
}

/// The mathematical content of a registry state.
#[verifier::ext_equal]
pub struct StateView {
    /// The account that deployed the registry.
    pub owner: Address,
    /// The DID derived for the deploying account.
    pub owner_did: Seq<char>,
    /// Audit counter per account, bumped by every mutating call.
    pub nonce: Map<Address, u128>,
    /// Controller bound to each registered DID.
    pub dids: Map<Seq<char>, Address>,
    /// Attribute list bound to a DID.
    pub attributes: Map<Seq<char>, Seq<Seq<char>>>,
    /// Delegate grants per DID: each grantee with its absolute expiry.
    pub delegates: Map<Seq<char>, Map<Address, i64>>,
}

/// The caller's audit counter after a mutating call: created at one, else
/// raised by one.
pub open spec fn spec_bump_nonce(m: Map<Address, u128>, a: Address) -> Map<Address, u128> {
    if m.contains_key(a) {
        m.insert(a, (m[a] + 1) as u128)
    } else {
        m.insert(a, 1)
    }
}

/// Whether the caller's audit counter can be raised without wrapping.
pub open spec fn nonce_has_room(m: Map<Address, u128>, a: Address) -> bool {
    m.contains_key(a) ==> m[a] < u128::MAX
}

/// The state seeded at deployment: the deployer owns its derived DID and
/// carries the attribute `Issuer`; its audit counter starts at one.
pub open spec fn spec_initialize(sender: Address) -> StateView {
    StateView {
        owner: sender,
        owner_did: did_of(sender),
        nonce: Map::empty().insert(sender, 1),
        dids: Map::empty().insert(did_of(sender), sender),
        attributes: Map::empty().insert(did_of(sender), seq!["Issuer"@]),
        delegates: Map::empty(),
    }
}

/// Registration: a well-formed, unregistered DID is bound to the caller;
/// a registered one is reported as the caller's own or another's.
pub open spec fn spec_register_did(ctx: CallContext, s: StateView, did: Seq<char>) -> Result<
    StateView,
    Error,
> {
    if !valid_did(did) {
        Err(Error::FormatError)
    } else if s.dids.contains_key(did) {
        if s.dids[did] == ctx.sender {
            Err(Error::AlreadyRegistered)
        } else {
            Err(Error::RegisteredByOther)
        }
    } else {
        Ok(
            StateView {
                dids: s.dids.insert(did, ctx.sender),
                nonce: spec_bump_nonce(s.nonce, ctx.sender),
                ..s
            },
        )
    }
}

/// Attribute replacement: permitted to the controller, and to a delegate
/// whose grant has not expired at the call's time value; the stored list
/// is replaced in full.
pub open spec fn spec_set_attribute(
    ctx: CallContext,
    s: StateView,
    new_attributes: Seq<Seq<char>>,
    did: Seq<char>,
) -> Result<StateView, Error> {
    if !s.dids.contains_key(did) {
        Err(Error::DidNotFound)
    } else if s.dids[did] == ctx.sender || (s.delegates.contains_key(did)
        && s.delegates[did].contains_key(ctx.sender) && ctx.block_time
        <= s.delegates[did][ctx.sender]) {
        Ok(
            StateView {
                attributes: s.attributes.insert(did, new_attributes),
                nonce: spec_bump_nonce(s.nonce, ctx.sender),
                ..s
            },
        )
    } else if s.delegates.contains_key(did) && s.delegates[did].contains_key(ctx.sender) {
        Err(Error::DelegateExpired)
    } else {
        Err(Error::NotAuthorized)
    }
}

/// Ownership transfer: only the current controller may rebind a DID; a
/// delegate never may.
pub open spec fn spec_change_owner(
    ctx: CallContext,
    s: StateView,
    new_owner: Address,
    did: Seq<char>,
) -> Result<StateView, Error> {
    if !s.dids.contains_key(did) {
        Err(Error::DidNotFound)
    } else if s.dids[did] != ctx.sender {
        Err(Error::NotAuthorized)
    } else {
        Ok(
            StateView {
                dids: s.dids.insert(did, new_owner),
                nonce: spec_bump_nonce(s.nonce, ctx.sender),
                ..s
            },
        )
    }
}

/// The delegate grants on `did`, possibly none yet.
pub open spec fn spec_grants_of(s: StateView, did: Seq<char>) -> Map<Address, i64> {
    if s.delegates.contains_key(did) {
        s.delegates[did]
    } else {
        Map::empty()
    }
}

/// Delegation: only the controller may grant; the grant's absolute expiry
/// is the call's time value plus `expire_in`, overwriting any earlier
/// grant to the same account.
pub open spec fn spec_add_delegate(
    ctx: CallContext,
    s: StateView,
    delegate_address: Address,
    did: Seq<char>,
    expire_in: i64,
) -> Result<StateView, Error> {
    if !s.dids.contains_key(did) {
        Err(Error::DidNotFound)
    } else if s.dids[did] != ctx.sender {
        Err(Error::NotAuthorized)
    } else {
        Ok(
            StateView {
                delegates: s.delegates.insert(
                    did,
                    spec_grants_of(s, did).insert(
                        delegate_address,
                        (ctx.block_time + expire_in) as i64,
                    ),
                ),
                nonce: spec_bump_nonce(s.nonce, ctx.sender),
                ..s
            },
        )
    }
}

/// Controller lookup: the zero-address sentinel stands for "unregistered".
pub open spec fn spec_did_lookup(s: StateView, did: Seq<char>) -> Address {
    if s.dids.contains_key(did) {
        s.dids[did]
    } else {
        spec_zero_address()
    }
}

/// Attribute lookup: a registered DID without a stored list yields a
/// single empty string, kept for wire compatibility.
pub open spec fn spec_get_attribute(s: StateView, did: Seq<char>) -> Result<Seq<Seq<char>>, Error> {
    if !s.dids.contains_key(did) {
        Err(Error::DidNotFound)
    } else if s.attributes.contains_key(did) {
        Ok(s.attributes[did])
    } else {
        Ok(seq![Seq::<char>::empty()])
    }
}

} // verus!
