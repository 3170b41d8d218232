//! The DID wire form: `did:metablox:<method-specific-id>`.  Validation of
//! externally supplied DIDs, and derivation of the canonical DID of an
//! account from its wire bytes.

use vstd::prelude::*;
use crate::address::Address;

verus! {

/// The hexadecimal digit of a nibble, lowercase.
pub open spec fn hex_digit(n: u8) -> char
    recommends
        n < 16,
{
    if n < 10 {
        (('0' as u8) + n) as char
    } else {
        (('a' as u8) + (n - 10)) as char
    }
}

/// The lowercase hexadecimal encoding of a byte sequence: two digits per
/// byte, high nibble first.
pub open spec fn hex_of(b: Seq<u8>) -> Seq<char> {
    Seq::new(
        b.len() * 2,
        |i: int|
            if i % 2 == 0 {
                hex_digit(b[i / 2] / 16)
            } else {
                hex_digit(b[i / 2] % 16)
            },
    )
}

/// Relies on hex::encode: it yields the lowercase hexadecimal form of the
/// bytes, two digits per byte, high nibble first.
#[verifier::external_body]
fn hex_encode(bytes: &Vec<u8>) -> (r: String)
    ensures
        r@ == hex_of(bytes@),
{
    hex::encode(bytes.as_slice())
}

/// The scheme and method every registry DID starts with.
pub open spec fn did_prefix() -> Seq<char> {
    seq!['d', 'i', 'd', ':', 'm', 'e', 't', 'a', 'b', 'l', 'o', 'x', ':']
}

/// A well-formed DID: splitting it on `:` yields exactly the three parts
/// `did`, `metablox` and a method-specific remainder — equivalently, it
/// carries the registry prefix and no further separator.
pub open spec fn valid_did(s: Seq<char>) -> bool {
    &&& s.len() >= 13
    &&& s.subrange(0, 13) == did_prefix()
    &&& forall|i: int| 13 <= i < s.len() ==> s[i] != ':'
}

/// The canonical DID of an account: the prefix, `0x`, and the lowercase
/// hexadecimal form of the account's wire bytes.
pub open spec fn did_of(a: Address) -> Seq<char> {
    did_prefix() + seq!['0', 'x'] + hex_of(a.wire_bytes())
}

/// A hexadecimal digit is a digit or a lowercase letter — never a
/// separator.
proof fn lemma_hex_digit_not_colon(n: u8)
    requires
        n < 16,
    ensures
        hex_digit(n) != ':',
{
}

/// The DID derived for any account is itself well-formed: its tail is
/// hexadecimal and so holds no further separator.
pub proof fn lemma_derived_did_valid(a: Address)
    ensures
        valid_did(did_of(a)),
{
    let d = did_of(a);
    assert(d.subrange(0, 13) =~= did_prefix());
    assert forall|i: int| 13 <= i < d.len() implies d[i] != ':' by {
        if i >= 15 {
            let h = hex_of(a.wire_bytes());
            let j = i - 15;
            assert(d[i] == h[j]);
            if j % 2 == 0 {
                lemma_hex_digit_not_colon(a.wire_bytes()[j / 2] / 16);
            } else {
                lemma_hex_digit_not_colon(a.wire_bytes()[j / 2] % 16);
            }
        }
    }
}

/// Builds the canonical DID of an account.
pub fn derive_did(a: &Address) -> (r: String)
    ensures
        r@ == did_of(*a),
{
    let mut bytes: Vec<u8> = Vec::new();
    bytes.push(a.address_type);
    let mut i: usize = 0;
    while i < 20
        invariant
            i <= 20,
            bytes@ == seq![a.address_type] + a.identifier@.subrange(0, i as int),
        decreases 20 - i,
    {
        bytes.push(a.identifier[i]);
        proof {
            assert(seq![a.address_type] + a.identifier@.subrange(0, i as int) + seq![
                a.identifier@[i as int],
            ] =~= seq![a.address_type] + a.identifier@.subrange(0, i + 1));
        }
        i += 1;
    }
    proof {
        assert(a.identifier@.subrange(0, 20) =~= a.identifier@);
        assert(bytes@ =~= a.wire_bytes());
    }
    let tail = hex_encode(&bytes);
    let mut did = String::from_str("did:metablox:0x");
    proof {
        reveal_strlit("did:metablox:0x");
        assert("did:metablox:0x"@ =~= did_prefix() + seq!['0', 'x']);
    }
    did.append(tail.as_str());
    proof {
        assert(did@ =~= did_of(*a));
    }
    did
}

/// Whether a DID string is well-formed, as `valid_did` states.
pub fn check_did_format(did: &String) -> (r: bool)
    ensures
        r == valid_did(did@),
{
    let prefix = "did:metablox:";
    proof {
        reveal_strlit("did:metablox:");
        assert(prefix@ =~= did_prefix());
    }
    let n = did.as_str().unicode_len();
    if n < 13 {
        return false;
    }
    let mut i: usize = 0;
    while i < 13
        invariant
            i <= 13,
            13 <= n == did@.len(),
            prefix@ == did_prefix(),
            forall|j: int| 0 <= j < i ==> did@[j] == did_prefix()[j],
        decreases 13 - i,
    {
        if did.as_str().get_char(i) != prefix.get_char(i) {
            proof {
                assert(did@.subrange(0, 13)[i as int] == did@[i as int]);
            }
            return false;
        }
        i += 1;
    }
    proof {
        assert(did@.subrange(0, 13) =~= did_prefix());
    }
    let mut i: usize = 13;
    while i < n
        invariant
            13 <= i <= n,
            n == did@.len(),
            did@.subrange(0, 13) == did_prefix(),
            forall|j: int| 13 <= j < i ==> did@[j] != ':',
        decreases n - i,
    {
        if did.as_str().get_char(i) == ':' {
            return false;
        }
        i += 1;
    }
    true
}

} // verus!
