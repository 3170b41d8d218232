//! The account model: a one-byte type tag and a fixed twenty-byte
//! identifier, compared and ordered as raw bytes.

use vstd::prelude::*;
use crate::order::{lex_lt, lemma_lex_irrefl, KeyCmp, OrdKey};

verus! {

/// An account identifier: a type tag followed by twenty identifier bytes.
#[derive(Clone, Copy, Debug, PartialEq, Eq)]
pub struct Address {
    pub address_type: u8,
    pub identifier: [u8; 20],
}

impl View for Address {
    type V = Address;

    open spec fn view(&self) -> Address {
        *self
    }
}

impl Address {
    /// The wire form: the type tag followed by the identifier bytes,
    /// twenty-one bytes in all.
    pub open spec fn wire_bytes(self) -> Seq<u8> {
        seq![self.address_type] + self.identifier@
    }
}

/// The canonical ordering key of an address: its wire bytes, as integers.
pub open spec fn addr_key(a: Address) -> Seq<int> {
    Seq::new(21, |i: int| if i == 0 { a.address_type as int } else { a.identifier@[i - 1] as int })
}

/// The sentinel returned when a DID has no controller: a plain account
/// (type tag zero) whose identifier bytes are all zero.
pub open spec fn spec_zero_address() -> Address {
    Address {
        address_type: 0,
        identifier: vstd::array::spec_array_fill_for_copy_type::<u8, 20>(0u8),
    }
}

/// Builds the zero-address sentinel.
pub fn zero_address() -> (a: Address)
    ensures
        a == spec_zero_address(),
{
    Address { address_type: 0, identifier: [0u8; 20] }
}

/// Equality of addresses, byte for byte.
pub fn addr_eq(a: &Address, b: &Address) -> (r: bool)
    ensures
        r == (a == b),
{
    match Address::key_cmp(a, b) {
        KeyCmp::Eq => true,
        _ => false,
    }
}

impl OrdKey for Address {
    open spec fn okey(v: Address) -> Seq<int> {
        addr_key(v)
    }

    proof fn lemma_okey_injective(x: Address, y: Address) {
        if addr_key(x) == addr_key(y) {
            assert(x.address_type == y.address_type) by {
                assert(addr_key(x)[0] == addr_key(y)[0]);
            }
            assert forall|i: int| 0 <= i < 20 implies x.identifier@[i] == y.identifier@[i] by {
                assert(addr_key(x)[i + 1] == addr_key(y)[i + 1]);
            }
            assert(x.identifier@ =~= y.identifier@);
            assert(x.identifier =~= y.identifier) by {
                broadcast use vstd::array::group_array_axioms;

            }
        }
    }

    fn key_cmp(a: &Address, b: &Address) -> (r: KeyCmp) {
        if a.address_type < b.address_type {
            proof {
                lemma_lex_head(*a, *b);
            }
            KeyCmp::Lt
        } else if b.address_type < a.address_type {
            proof {
                lemma_lex_head(*b, *a);
            }
            KeyCmp::Gt
        } else {
            let mut i: usize = 0;
            loop
                invariant
                    i <= 20,
                    a.address_type == b.address_type,
                    forall|j: int| 0 <= j < i ==> a.identifier@[j] == b.identifier@[j],
                decreases 20 - i,
            {
                if i == 20 {
                    proof {
                        broadcast use vstd::array::group_array_axioms;

                        assert(a.identifier =~= b.identifier);
                        assert(*a == *b);
                        lemma_lex_irrefl(addr_key(*a));
                    }
                    return KeyCmp::Eq;
                }
                let ca = a.identifier[i];
                let cb = b.identifier[i];
                if ca < cb {
                    proof {
                        lemma_addr_cmp_at(*a, *b, i as int);
                        lemma_lex_irrefl(addr_key(*a));
                        if *a == *b {
                            assert(a.identifier@[i as int] == b.identifier@[i as int]);
                        }
                    }
                    return KeyCmp::Lt;
                } else if cb < ca {
                    proof {
                        lemma_addr_cmp_at(*b, *a, i as int);
                        lemma_lex_irrefl(addr_key(*a));
                        if *a == *b {
                            assert(a.identifier@[i as int] == b.identifier@[i as int]);
                        }
                    }
                    return KeyCmp::Gt;
                }
                i += 1;
            }
        }
    }
}

/// A smaller type tag puts the whole address first in the order.
proof fn lemma_lex_head(a: Address, b: Address)
    requires
        a.address_type < b.address_type,
    ensures
        lex_lt(addr_key(a), addr_key(b)),
        !lex_lt(addr_key(b), addr_key(a)),
        a != b,
{
    assert(addr_key(a)[0] == a.address_type as int);
    assert(addr_key(b)[0] == b.address_type as int);
}

/// With equal type tags and equal identifier bytes before position `i`, a
/// smaller byte at `i` puts the whole address first in the order, and only
/// that address first.
proof fn lemma_addr_cmp_at(a: Address, b: Address, i: int)
    requires
        0 <= i < 20,
        a.address_type == b.address_type,
        forall|j: int| 0 <= j < i ==> a.identifier@[j] == b.identifier@[j],
        a.identifier@[i] < b.identifier@[i],
    ensures
        lex_lt(addr_key(a), addr_key(b)),
        !lex_lt(addr_key(b), addr_key(a)),
{
    let ka = addr_key(a);
    let kb = addr_key(b);
    assert(forall|j: int| 0 <= j < i + 1 ==> ka[j] == kb[j]);
    crate::order::lemma_lex_skip(ka, kb, i + 1);
    crate::order::lemma_lex_skip(kb, ka, i + 1);
    assert(ka.skip(i + 1)[0] == a.identifier@[i] as int);
    assert(kb.skip(i + 1)[0] == b.identifier@[i] as int);
}

} // verus!
