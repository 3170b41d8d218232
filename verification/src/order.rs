//! Strict lexicographic order on integer sequences, and the key trait the
//! ordered maps sort by.  Every map key is reduced to a canonical `Seq<int>`
//! so that one set of ordering lemmas serves all key types.

use vstd::prelude::*;

verus! {

/// Strict lexicographic order: `a` comes before `b` when, at the first
/// position where they differ, `a` holds the smaller element, or when `a`
/// is a proper prefix of `b`.
pub open spec fn lex_lt(a: Seq<int>, b: Seq<int>) -> bool
    decreases a.len(),
{
    if b.len() == 0 {
        false
    } else if a.len() == 0 {
        true
    } else if a[0] < b[0] {
        true
    } else if a[0] == b[0] {
        lex_lt(a.skip(1), b.skip(1))
    } else {
        false
    }
}

/// No sequence comes before itself.
pub proof fn lemma_lex_irrefl(a: Seq<int>)
    ensures
        !lex_lt(a, a),
    decreases a.len(),
{
    if a.len() > 0 {
        lemma_lex_irrefl(a.skip(1));
    }
}

/// The order is transitive.
pub proof fn lemma_lex_trans(a: Seq<int>, b: Seq<int>, c: Seq<int>)
    requires
        lex_lt(a, b),
        lex_lt(b, c),
    ensures
        lex_lt(a, c),
    decreases a.len(),
{
    if a.len() > 0 && b.len() > 0 && a[0] == b[0] && b[0] == c[0] {
        lemma_lex_trans(a.skip(1), b.skip(1), c.skip(1));
    }
}

/// Dropping a common prefix does not change how two sequences compare.
pub proof fn lemma_lex_skip(a: Seq<int>, b: Seq<int>, i: int)
    requires
        0 <= i <= a.len(),
        i <= b.len(),
        forall|j: int| 0 <= j < i ==> a[j] == b[j],
    ensures
        lex_lt(a, b) == lex_lt(a.skip(i), b.skip(i)),
    decreases i,
{
    if i == 0 {
        assert(a.skip(0) =~= a);
        assert(b.skip(0) =~= b);
    } else {
        lemma_lex_skip(a.skip(1), b.skip(1), i - 1);
        assert(a.skip(1).skip(i - 1) =~= a.skip(i));
        assert(b.skip(1).skip(i - 1) =~= b.skip(i));
    }
}

/// The three possible outcomes of comparing two map keys.
pub enum KeyCmp {
    Lt,
    Eq,
    Gt,
}

/// A type usable as an ordered map key: it reduces to a canonical integer
/// sequence that determines both its order and its identity.
pub trait OrdKey: View + Sized {
    /// The canonical integer sequence the key is ordered by.
    spec fn okey(v: Self::V) -> Seq<int>;

    /// The canonical sequence determines the key: equal sequences mean
    /// equal key views.
    proof fn lemma_okey_injective(x: Self::V, y: Self::V)
        ensures
            Self::okey(x) == Self::okey(y) ==> x == y,
    ;

    /// Three-way comparison agreeing with `lex_lt` on the canonical
    /// sequences.
    fn key_cmp(a: &Self, b: &Self) -> (r: KeyCmp)
        ensures
            (r is Lt) == lex_lt(Self::okey(a@), Self::okey(b@)),
            (r is Eq) == (a@ == b@),
            (r is Gt) == lex_lt(Self::okey(b@), Self::okey(a@)),
    ;
}

/// The canonical ordering key of a string: its characters' code points.
pub open spec fn str_key(s: Seq<char>) -> Seq<int> {
    Seq::new(s.len(), |i: int| s[i] as int)
}

impl OrdKey for String {
    open spec fn okey(v: Seq<char>) -> Seq<int> {
        str_key(v)
    }

    proof fn lemma_okey_injective(x: Seq<char>, y: Seq<char>) {
        if str_key(x) == str_key(y) {
            assert(str_key(x).len() == str_key(y).len());
            assert(x.len() == y.len());
            assert forall|i: int| 0 <= i < x.len() implies x[i] == y[i] by {
                assert(str_key(x)[i] == str_key(y)[i]);
            }
            assert(x =~= y);
        }
    }

    fn key_cmp(a: &String, b: &String) -> (r: KeyCmp) {
        let alen = a.as_str().unicode_len();
        let blen = b.as_str().unicode_len();
        let mut i: usize = 0;
        loop
            invariant
                i <= alen,
                i <= blen,
                alen == a@.len(),
                blen == b@.len(),
                forall|j: int| 0 <= j < i ==> a@[j] == b@[j],
            decreases alen - i,
        {
            proof {
                assert(forall|j: int| 0 <= j < i ==> str_key(a@)[j] == str_key(b@)[j]);
            }
            if i == alen || i == blen {
                proof {
                    lemma_lex_skip(str_key(a@), str_key(b@), i as int);
                    lemma_lex_skip(str_key(b@), str_key(a@), i as int);
                    if alen == blen {
                        assert(a@ =~= b@);
                        lemma_lex_irrefl(str_key(a@));
                    }
                }
                if alen == blen {
                    return KeyCmp::Eq;
                } else if i == alen {
                    return KeyCmp::Lt;
                } else {
                    return KeyCmp::Gt;
                }
            }
            let ca = a.as_str().get_char(i);
            let cb = b.as_str().get_char(i);
            if (ca as u32) < (cb as u32) {
                proof {
                    lemma_lex_skip(str_key(a@), str_key(b@), i as int);
                    lemma_lex_skip(str_key(b@), str_key(a@), i as int);
                    assert(str_key(a@).skip(i as int)[0] == ca as int);
                    assert(str_key(b@).skip(i as int)[0] == cb as int);
                    if a@ == b@ {
                        assert(a@[i as int] == b@[i as int]);
                    }
                }
                return KeyCmp::Lt;
            } else if (cb as u32) < (ca as u32) {
                proof {
                    lemma_lex_skip(str_key(a@), str_key(b@), i as int);
                    lemma_lex_skip(str_key(b@), str_key(a@), i as int);
                    assert(str_key(a@).skip(i as int)[0] == ca as int);
                    assert(str_key(b@).skip(i as int)[0] == cb as int);
                    if a@ == b@ {
                        assert(a@[i as int] == b@[i as int]);
                    }
                }
                return KeyCmp::Gt;
            }
            proof {
                assert(ca == cb);
            }
            i += 1;
        }
    }
}

} // verus!
