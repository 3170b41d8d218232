use did_registry::address::Address;
use did_registry::model::CallContext;
use did_registry::registry::{
    add_delegate, change_owner, did_lookup, get_attribute, initialize, nonce_of, register_did,
    set_attribute, ContractState,
};
use did_registry::Error;

fn addr(t: u8, last: u8) -> Address {
    let mut identifier = [0u8; 20];
    identifier[19] = last;
    Address { address_type: t, identifier }
}

fn ctx(sender: Address, block_time: i64) -> CallContext {
    CallContext { sender, block_time }
}

fn fresh(owner: Address) -> ContractState {
    initialize(ctx(owner, 0))
}

fn strings(items: &[&str]) -> Vec<String> {
    items.iter().map(|s| s.to_string()).collect()
}

#[test]
fn initialize_end_to_end() {
    let deployer = Address { address_type: 1, identifier: [0xab; 20] };
    let state = initialize(ctx(deployer, 0));
    let expected_did = format!("did:metablox:0x01{}", "ab".repeat(20));
    assert_eq!(state.owner_did, expected_did);
    assert_eq!(state.owner, deployer);
    assert_eq!(did_lookup(&state, &expected_did), deployer);
    assert_eq!(get_attribute(&state, &expected_did), Ok(strings(&["Issuer"])));
    assert_eq!(nonce_of(&state, &deployer), Some(1));
}

#[test]
fn lookup_unregistered_is_zero_sentinel_and_idempotent() {
    let state = fresh(addr(0, 1));
    let missing = "did:metablox:0xdead".to_string();
    let first = did_lookup(&state, &missing);
    let second = did_lookup(&state, &missing);
    assert_eq!(first.address_type, 0);
    assert_eq!(first.identifier, [0u8; 20]);
    assert_eq!(first, second);
    assert_eq!(get_attribute(&state, &missing), Err(Error::DidNotFound));
}

#[test]
fn register_binds_caller() {
    let alice = addr(0, 1);
    let state = fresh(addr(0, 9));
    let did = "did:metablox:alice".to_string();
    let state = register_did(ctx(alice, 5), state, did.clone()).unwrap();
    assert_eq!(did_lookup(&state, &did), alice);
    assert_eq!(nonce_of(&state, &alice), Some(1));
}

#[test]
fn register_conflicts_are_distinguished() {
    let alice = addr(0, 1);
    let bob = addr(0, 2);
    let did = "did:metablox:alice".to_string();
    let again = register_did(ctx(alice, 6), rebuild(alice, &did), did.clone());
    assert_eq!(again.err(), Some(Error::AlreadyRegistered));
    let taken = register_did(ctx(bob, 7), rebuild(alice, &did), did.clone());
    assert_eq!(taken.err(), Some(Error::RegisteredByOther));
    // the binding stands on an identically built state
    let state = rebuild(alice, &did);
    assert_eq!(did_lookup(&state, &did), alice);
}

// A failing call consumes no state: the host keeps the state it had.  This
// rebuilds that state from the same history so the tests can check it.
fn rebuild(controller: Address, did: &str) -> ContractState {
    let state = fresh(addr(0, 9));
    register_did(ctx(controller, 5), state, did.to_string()).unwrap()
}

#[test]
fn register_rejects_malformed_dids() {
    let alice = addr(0, 1);
    let owner = addr(0, 9);
    for bad in [
        "did:wrongmethod:xyz",
        "did:metablox",
        "did:metablox:a:b",
        "notdid:metablox:x",
        "",
        "did",
    ] {
        let state = fresh(owner);
        let r = register_did(ctx(alice, 5), state, bad.to_string());
        assert_eq!(r.err(), Some(Error::FormatError), "{bad}");
        // the full prior state is untouched: an identically built state
        // still answers every query as before the call
        let state = fresh(owner);
        let owner_did = state.owner_did.clone();
        assert_eq!(did_lookup(&state, &owner_did), owner);
        assert_eq!(get_attribute(&state, &owner_did), Ok(strings(&["Issuer"])));
        assert_eq!(nonce_of(&state, &owner), Some(1));
        assert_eq!(nonce_of(&state, &alice), None);
    }
}

#[test]
fn register_accepts_empty_method_specific_id() {
    let alice = addr(0, 1);
    let state = fresh(addr(0, 9));
    let did = "did:metablox:".to_string();
    let state = register_did(ctx(alice, 5), state, did.clone()).unwrap();
    assert_eq!(did_lookup(&state, &did), alice);
}

#[test]
fn set_attribute_full_replace_round_trip() {
    let alice = addr(0, 1);
    let state = rebuild(alice, "did:metablox:alice");
    let did = "did:metablox:alice".to_string();
    let state = set_attribute(ctx(alice, 6), state, strings(&["x", "y"]), did.clone()).unwrap();
    assert_eq!(get_attribute(&state, &did), Ok(strings(&["x", "y"])));
    let state = set_attribute(ctx(alice, 7), state, strings(&["z"]), did.clone()).unwrap();
    // no residue from the earlier list
    assert_eq!(get_attribute(&state, &did), Ok(strings(&["z"])));
    let state = set_attribute(ctx(alice, 8), state, strings(&[]), did.clone()).unwrap();
    // a stored empty list is returned as such, not as the fallback
    assert_eq!(get_attribute(&state, &did), Ok(strings(&[])));
}

#[test]
fn get_attribute_fallback_is_single_empty_string() {
    let alice = addr(0, 1);
    let state = rebuild(alice, "did:metablox:alice");
    let did = "did:metablox:alice".to_string();
    assert_eq!(get_attribute(&state, &did), Ok(strings(&[""])));
}

#[test]
fn delegate_boundary_exact() {
    let alice = addr(0, 1);
    let bob = addr(0, 2);
    let did = "did:metablox:alice".to_string();
    let t: i64 = 1000;
    let state = rebuild(alice, &did);
    // grant at time T with expire_in = 100: absolute expiry T + 100
    let state = add_delegate(ctx(alice, t), state, bob, did.clone(), 100).unwrap();
    // at exactly T + 100 the delegate still writes
    let state = set_attribute(ctx(bob, t + 100), state, strings(&["ok"]), did.clone()).unwrap();
    assert_eq!(get_attribute(&state, &did), Ok(strings(&["ok"])));
    assert_eq!(nonce_of(&state, &bob), Some(1));
    // at T + 101 the grant has expired
    let r = set_attribute(ctx(bob, t + 101), state, strings(&["late"]), did.clone());
    assert_eq!(r.err(), Some(Error::DelegateExpired));
}

#[test]
fn delegate_grant_can_start_expired() {
    let alice = addr(0, 1);
    let bob = addr(0, 2);
    let did = "did:metablox:alice".to_string();
    let state = rebuild(alice, &did);
    let state = add_delegate(ctx(alice, 1000), state, bob, did.clone(), -1).unwrap();
    let r = set_attribute(ctx(bob, 1000), state, strings(&["x"]), did.clone());
    assert_eq!(r.err(), Some(Error::DelegateExpired));
}

#[test]
fn delegate_grant_is_overwritten() {
    let alice = addr(0, 1);
    let bob = addr(0, 2);
    let did = "did:metablox:alice".to_string();
    let state = rebuild(alice, &did);
    let state = add_delegate(ctx(alice, 1000), state, bob, did.clone(), -1).unwrap();
    // refreshing the grant replaces the stale expiry
    let state = add_delegate(ctx(alice, 1000), state, bob, did.clone(), 50).unwrap();
    let state = set_attribute(ctx(bob, 1050), state, strings(&["x"]), did.clone()).unwrap();
    assert_eq!(get_attribute(&state, &did), Ok(strings(&["x"])));
}

#[test]
fn set_attribute_requires_authorization() {
    let alice = addr(0, 1);
    let mallory = addr(0, 3);
    let did = "did:metablox:alice".to_string();
    let state = rebuild(alice, &did);
    let r = set_attribute(ctx(mallory, 6), state, strings(&["x"]), did.clone());
    assert_eq!(r.err(), Some(Error::NotAuthorized));
    let state = rebuild(alice, &did);
    let missing = "did:metablox:nobody".to_string();
    let r = set_attribute(ctx(alice, 6), state, strings(&["x"]), missing);
    assert_eq!(r.err(), Some(Error::DidNotFound));
}

#[test]
fn change_owner_transfers_control() {
    let alice = addr(0, 1);
    let bob = addr(0, 2);
    let did = "did:metablox:alice".to_string();
    let state = rebuild(alice, &did);
    let state = change_owner(ctx(alice, 6), state, bob, did.clone()).unwrap();
    assert_eq!(did_lookup(&state, &did), bob);
    // the old controller lost its authority
    let r = set_attribute(ctx(alice, 7), state, strings(&["x"]), did.clone());
    assert_eq!(r.err(), Some(Error::NotAuthorized));
}

#[test]
fn live_delegate_cannot_change_owner() {
    let alice = addr(0, 1);
    let bob = addr(0, 2);
    let carol = addr(0, 4);
    let did = "did:metablox:alice".to_string();
    let state = rebuild(alice, &did);
    let state = add_delegate(ctx(alice, 1000), state, bob, did.clone(), 100).unwrap();
    // bob's grant is valid and unexpired at time 1000, yet transfer is refused
    let r = change_owner(ctx(bob, 1000), state, carol, did.clone());
    assert_eq!(r.err(), Some(Error::NotAuthorized));
    let state = rebuild(alice, &did);
    let r = change_owner(ctx(bob, 1000), state, carol, "did:metablox:nobody".to_string());
    assert_eq!(r.err(), Some(Error::DidNotFound));
}

#[test]
fn add_delegate_requires_controller() {
    let alice = addr(0, 1);
    let bob = addr(0, 2);
    let did = "did:metablox:alice".to_string();
    let state = rebuild(alice, &did);
    let r = add_delegate(ctx(bob, 1000), state, bob, did.clone(), 100);
    assert_eq!(r.err(), Some(Error::NotAuthorized));
    let state = rebuild(alice, &did);
    let r = add_delegate(ctx(alice, 1000), state, bob, "did:metablox:nobody".to_string(), 100);
    assert_eq!(r.err(), Some(Error::DidNotFound));
}

#[test]
fn nonce_counts_every_mutating_call() {
    let alice = addr(0, 1);
    let state = fresh(addr(0, 9));
    let state = register_did(ctx(alice, 5), state, "did:metablox:a".to_string()).unwrap();
    assert_eq!(nonce_of(&state, &alice), Some(1));
    let state = register_did(ctx(alice, 6), state, "did:metablox:b".to_string()).unwrap();
    assert_eq!(nonce_of(&state, &alice), Some(2));
    let state =
        set_attribute(ctx(alice, 7), state, strings(&["x"]), "did:metablox:a".to_string()).unwrap();
    assert_eq!(nonce_of(&state, &alice), Some(3));
    let state = add_delegate(ctx(alice, 8), state, addr(0, 2), "did:metablox:a".to_string(), 10)
        .unwrap();
    assert_eq!(nonce_of(&state, &alice), Some(4));
    let state =
        change_owner(ctx(alice, 9), state, addr(0, 2), "did:metablox:a".to_string()).unwrap();
    assert_eq!(nonce_of(&state, &alice), Some(5));
}

#[test]
fn addresses_order_and_compare_as_raw_bytes() {
    // two accounts differing only in the type tag are distinct keys
    let a = Address { address_type: 0, identifier: [7u8; 20] };
    let b = Address { address_type: 2, identifier: [7u8; 20] };
    let state = fresh(addr(0, 9));
    let state = register_did(ctx(a, 1), state, "did:metablox:a".to_string()).unwrap();
    let state = register_did(ctx(b, 2), state, "did:metablox:b".to_string()).unwrap();
    assert_eq!(did_lookup(&state, &"did:metablox:a".to_string()), a);
    assert_eq!(did_lookup(&state, &"did:metablox:b".to_string()), b);
    assert_eq!(nonce_of(&state, &a), Some(1));
    assert_eq!(nonce_of(&state, &b), Some(1));
}

#[test]
fn derived_did_uses_lowercase_hex_of_wire_bytes() {
    let mut identifier = [0u8; 20];
    for (i, byte) in identifier.iter_mut().enumerate() {
        *byte = (i as u8) * 13;
    }
    let deployer = Address { address_type: 3, identifier };
    let state = initialize(ctx(deployer, 0));
    let mut expected = String::from("did:metablox:0x03");
    for byte in identifier.iter() {
        expected.push_str(&format!("{byte:02x}"));
    }
    // fails if the encoder handed its input back unchanged
    assert_eq!(state.owner_did, expected);
}

#[test]
fn persisted_entries_walk_in_ascending_key_order() {
    let alice = addr(0, 1);
    let state = fresh(addr(0, 9));
    let owner_did = state.owner_did.clone();
    // registered in descending order on purpose
    let state = register_did(ctx(alice, 1), state, "did:metablox:zzz".to_string()).unwrap();
    let state = register_did(ctx(alice, 2), state, "did:metablox:aaa".to_string()).unwrap();
    let n = state.dids.len();
    assert_eq!(n, 3);
    let mut keys: Vec<String> = Vec::new();
    for i in 0..n {
        let (k, _) = state.dids.entry_at(i);
        keys.push(k.clone());
    }
    let mut sorted = keys.clone();
    sorted.sort();
    // ascending key order, not insertion order
    assert_eq!(keys, sorted);
    assert_eq!(keys[0], owner_did);
    assert_eq!(keys[1], "did:metablox:aaa");
    assert_eq!(keys[2], "did:metablox:zzz");
}
