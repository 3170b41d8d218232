//! The registry state and its operations.  Every operation is a pure
//! function from a state, a call context and arguments to a new state or
//! an error, and is proved to return exactly what the corresponding
//! transition function of `model` says.  A failing call returns only the
//! error: no partially mutated state can escape.

use vstd::prelude::*;
use crate::address::{addr_eq, zero_address, Address};
use crate::didfmt::{check_did_format, derive_did};
use crate::model::{
    nonce_has_room, spec_add_delegate, spec_bump_nonce, spec_change_owner, spec_did_lookup,
    spec_get_attribute, spec_initialize, spec_register_did, spec_set_attribute, CallContext,
    StateView,
};
use crate::ordmap::OrdMap;
use crate::Error;

verus! {

/// The whole registry: the deployment owner, its DID, and the four
/// key-ordered maps that every operation works on.
pub struct ContractState {
    pub owner: Address,
    pub owner_did: String,
    pub nonce: OrdMap<Address, u128>,
    pub dids: OrdMap<String, Address>,
    pub attributes: OrdMap<String, Vec<String>>,
    pub delegates: OrdMap<String, OrdMap<Address, i64>>,
}

impl View for ContractState {
    type V = StateView;

    open spec fn view(&self) -> StateView {
        StateView {
            owner: self.owner,
            owner_did: self.owner_did@,
            nonce: self.nonce@,
            dids: self.dids@,
            attributes: self.attributes@.map_values(|v: Vec<String>| v.deep_view()),
            delegates: self.delegates@.map_values(|m: OrdMap<Address, i64>| m@),
        }
    }
}

impl ContractState {
    /// Every map keeps its keys in order, the grant maps included.
    pub open spec fn wf(self) -> bool {
        &&& self.nonce.wf()
        &&& self.dids.wf()
        &&& self.attributes.wf()
        &&& self.delegates.wf()
        &&& forall|d: Seq<char>|
            #[trigger] self.delegates@.contains_key(d) ==> self.delegates@[d].wf()
    }
}

/// Raises the caller's audit counter, creating it at one.
fn bump_nonce(m: &mut OrdMap<Address, u128>, a: &Address)
    requires
        old(m).wf(),
        nonce_has_room(old(m)@, *a),
    ensures
        final (m).wf(),
        final (m)@ == spec_bump_nonce(old(m)@, *a),
{
    let current: Option<u128> = match m.get(a) {
        Some(v) => Some(*v),
        None => None,
    };
    match current {
        Some(n) => m.insert(*a, n + 1),
        None => m.insert(*a, 1),
    }
}

/// Seeds the registry at deployment: the deployer becomes the owner of its
/// derived DID, carrying the single attribute `Issuer`, with its audit
/// counter at one.
pub fn initialize(ctx: CallContext) -> (s: ContractState)
    ensures
        s@ == spec_initialize(ctx.sender),
        s.wf(),
{
    let did = derive_did(&ctx.sender);
    let mut nonce: OrdMap<Address, u128> = OrdMap::new();
    nonce.insert(ctx.sender, 1);
    let mut dids: OrdMap<String, Address> = OrdMap::new();
    dids.insert(did.clone(), ctx.sender);
    let mut issuer_list: Vec<String> = Vec::new();
    issuer_list.push(String::from_str("Issuer"));
    let ghost issuer_view = issuer_list.deep_view();
    let mut attributes: OrdMap<String, Vec<String>> = OrdMap::new();
    attributes.insert(did.clone(), issuer_list);
    let delegates: OrdMap<String, OrdMap<Address, i64>> = OrdMap::new();
    let s = ContractState { owner: ctx.sender, owner_did: did, nonce, dids, attributes, delegates };
    proof {
        reveal_strlit("Issuer");
        assert(issuer_view =~= seq!["Issuer"@]);
        assert(s@.attributes =~= spec_initialize(ctx.sender).attributes);
        assert(s@.delegates =~= spec_initialize(ctx.sender).delegates);
        assert(s@ =~= spec_initialize(ctx.sender));
    }
    s
}

/// Binds a well-formed, unregistered DID to the caller; reports a
/// malformed DID, the caller's own prior registration, or another
/// account's, each with its own error.
pub fn register_did(context: CallContext, state: ContractState, did: String) -> (r: Result<
    ContractState,
    Error,
>)
    requires
        state.wf(),
        spec_register_did(context, state@, did@) is Ok ==> nonce_has_room(
            state@.nonce,
            context.sender,
        ),
    ensures
        (match (r, spec_register_did(context, state@, did@)) {
            (Ok(s2), Ok(v)) => s2@ == v && s2.wf(),
            (Err(e), Err(e2)) => e == e2,
            _ => false,
        }),
{
    let mut st = state;
    if !check_did_format(&did) {
        return Err(Error::FormatError);
    }
    let existing: Option<Address> = match st.dids.get(&did) {
        Some(c) => Some(*c),
        None => None,
    };
    match existing {
        Some(controller) => {
            if addr_eq(&controller, &context.sender) {
                Err(Error::AlreadyRegistered)
            } else {
                Err(Error::RegisteredByOther)
            }
        },
        None => {
            bump_nonce(&mut st.nonce, &context.sender);
            st.dids.insert(did, context.sender);
            proof {
                assert(st@ =~= spec_register_did(context, state@, did@)->Ok_0);
            }
            Ok(st)
        },
    }
}

/// Replaces a DID's attribute list in full.  The controller may always
/// write; a delegate may while its grant has not expired.
pub fn set_attribute(
    context: CallContext,
    state: ContractState,
    new_attributes: Vec<String>,
    did: String,
) -> (r: Result<ContractState, Error>)
    requires
        state.wf(),
        spec_set_attribute(context, state@, new_attributes.deep_view(), did@)
            is Ok ==> nonce_has_room(state@.nonce, context.sender),
    ensures
        (match (r, spec_set_attribute(context, state@, new_attributes.deep_view(), did@)) {
            (Ok(s2), Ok(v)) => s2@ == v && s2.wf(),
            (Err(e), Err(e2)) => e == e2,
            _ => false,
        }),
{
    let ghost na = new_attributes.deep_view();
    let mut st = state;
    let controller: Address = match st.dids.get(&did) {
        Some(c) => *c,
        None => {
            return Err(Error::DidNotFound);
        },
    };
    if !addr_eq(&controller, &context.sender) {
        let expiry: Option<i64> = match st.delegates.get(&did) {
            Some(grants) => {
                proof {
                    assert(st.delegates@.contains_key(did@));
                }
                match grants.get(&context.sender) {
                    Some(e) => Some(*e),
                    None => None,
                }
            },
            None => None,
        };
        match expiry {
            Some(e) => {
                if e < context.block_time {
                    return Err(Error::DelegateExpired);
                }
            },
            None => {
                return Err(Error::NotAuthorized);
            },
        }
    }
    st.attributes.insert(did, new_attributes);
    bump_nonce(&mut st.nonce, &context.sender);
    proof {
        let target = spec_set_attribute(context, state@, na, did@);
        assert(st@.attributes =~= target->Ok_0.attributes);
        assert(st@ =~= target->Ok_0);
    }
    Ok(st)
}

/// Rebinds a DID to a new controller; only the current controller may,
/// a delegate never.
pub fn change_owner(
    context: CallContext,
    state: ContractState,
    new_owner: Address,
    did: String,
) -> (r: Result<ContractState, Error>)
    requires
        state.wf(),
        spec_change_owner(context, state@, new_owner, did@) is Ok ==> nonce_has_room(
            state@.nonce,
            context.sender,
        ),
    ensures
        (match (r, spec_change_owner(context, state@, new_owner, did@)) {
            (Ok(s2), Ok(v)) => s2@ == v && s2.wf(),
            (Err(e), Err(e2)) => e == e2,
            _ => false,
        }),
{
    let mut st = state;
    let controller: Address = match st.dids.get(&did) {
        Some(c) => *c,
        None => {
            return Err(Error::DidNotFound);
        },
    };
    if !addr_eq(&controller, &context.sender) {
        return Err(Error::NotAuthorized);
    }
    st.dids.insert(did, new_owner);
    bump_nonce(&mut st.nonce, &context.sender);
    proof {
        assert(st@ =~= spec_change_owner(context, state@, new_owner, did@)->Ok_0);
    }
    Ok(st)
}

/// Grants or refreshes a delegate on a DID: the grant's absolute expiry
/// becomes the call's time value plus `expire_in`.  Only the controller
/// may grant.
pub fn add_delegate(
    context: CallContext,
    state: ContractState,
    delegate_address: Address,
    did: String,
    expire_in: i64,
) -> (r: Result<ContractState, Error>)
    requires
        state.wf(),
        spec_add_delegate(context, state@, delegate_address, did@, expire_in) is Ok ==> {
            &&& nonce_has_room(state@.nonce, context.sender)
            &&& i64::MIN <= context.block_time + expire_in <= i64::MAX
        },
    ensures
        (match (r, spec_add_delegate(context, state@, delegate_address, did@, expire_in)) {
            (Ok(s2), Ok(v)) => s2@ == v && s2.wf(),
            (Err(e), Err(e2)) => e == e2,
            _ => false,
        }),
{
    let mut st = state;
    let controller: Address = match st.dids.get(&did) {
        Some(c) => *c,
        None => {
            return Err(Error::DidNotFound);
        },
    };
    if !addr_eq(&controller, &context.sender) {
        return Err(Error::NotAuthorized);
    }
    let mut grants: OrdMap<Address, i64> = match st.delegates.remove(&did) {
        Some(g) => {
            proof {
                assert(state.delegates@.contains_key(did@));
            }
            g
        },
        None => OrdMap::new(),
    };
    let expiry: i64 = context.block_time + expire_in;
    grants.insert(delegate_address, expiry);
    let ghost grants_view = grants@;
    st.delegates.insert(did, grants);
    bump_nonce(&mut st.nonce, &context.sender);
    proof {
        let target = spec_add_delegate(context, state@, delegate_address, did@, expire_in);
        assert(st@.delegates =~= target->Ok_0.delegates);
        assert(st@ =~= target->Ok_0);
    }
    Ok(st)
}

/// The controller of a DID, or the zero-address sentinel when the DID is
/// not registered.  A query: it never touches the state.
pub fn did_lookup(state: &ContractState, did: &String) -> (r: Address)
    requires
        state.wf(),
    ensures
        r == spec_did_lookup(state@, did@),
{
    match state.dids.get(did) {
        Some(c) => *c,
        None => zero_address(),
    }
}

/// The attribute list of a registered DID; a registered DID without a
/// stored list yields a single empty string, kept for wire compatibility.
/// A query: it never touches the state.
pub fn get_attribute(state: &ContractState, did: &String) -> (r: Result<Vec<String>, Error>)
    requires
        state.wf(),
    ensures
        (match (r, spec_get_attribute(state@, did@)) {
            (Ok(l), Ok(v)) => l.deep_view() == v,
            (Err(e), Err(e2)) => e == e2,
            _ => false,
        }),
{
    if !state.dids.contains_key(did) {
        return Err(Error::DidNotFound);
    }
    match state.attributes.get(did) {
        Some(stored) => {
            let out = stored.clone();
            proof {
                assert forall|i: int| 0 <= i < out@.len() implies out@[i]@ == stored@[i]@ by {
                    assert(vstd::pervasive::cloned::<String>(stored@[i], out@[i]));
                }
                assert(out.deep_view() =~= stored.deep_view());
            }
            Ok(out)
        },
        None => {
            let mut fallback: Vec<String> = Vec::new();
            fallback.push(String::new());
            proof {
                assert(fallback.deep_view() =~= seq![Seq::<char>::empty()]);
            }
            Ok(fallback)
        },
    }
}

/// The stored audit counter of an account, when one exists.  A query: it
/// never touches the state.
pub fn nonce_of(state: &ContractState, account: &Address) -> (r: Option<u128>)
    requires
        state.wf(),
    ensures
        (match r {
            Some(n) => state@.nonce.contains_key(*account) && n == state@.nonce[*account],
            None => !state@.nonce.contains_key(*account),
        }),
{
    match state.nonce.get(account) {
        Some(n) => Some(*n),
        None => None,
    }
}

} // verus!
