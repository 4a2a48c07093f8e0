//! The total orders used to present report entries deterministically, and the
//! small multiset lemmas the sorted-output proofs rest on.

use vstd::prelude::*;

verus! {

use vstd::relations::total_ordering;
use vstd::seq_lib::lemma_multiset_commutative;
use crate::strings::{
    str_le, lemma_str_le_refl, lemma_str_le_antisymmetric, lemma_str_le_transitive,
    lemma_str_le_connected,
};

/// Order on signal views: by name, then by category — both lexicographic.
pub open spec fn sig_le(a: (Seq<char>, Seq<char>), b: (Seq<char>, Seq<char>)) -> bool {
    if a.0 != b.0 {
        str_le(a.0, b.0)
    } else {
        str_le(a.1, b.1)
    }
}

pub open spec fn sig_order() -> spec_fn((Seq<char>, Seq<char>), (Seq<char>, Seq<char>)) -> bool {
    |a: (Seq<char>, Seq<char>), b: (Seq<char>, Seq<char>)| sig_le(a, b)
}

/// Order on language views: permille descending, then name ascending, then
/// category ascending — the deterministic presentation order of the report.
pub open spec fn lang_le(
    a: (Seq<char>, Seq<char>, u64),
    b: (Seq<char>, Seq<char>, u64),
) -> bool {
    if a.2 != b.2 {
        a.2 > b.2
    } else if a.0 != b.0 {
        str_le(a.0, b.0)
    } else {
        str_le(a.1, b.1)
    }
}

pub open spec fn lang_order() -> spec_fn(
    (Seq<char>, Seq<char>, u64),
    (Seq<char>, Seq<char>, u64),
) -> bool {
    |a: (Seq<char>, Seq<char>, u64), b: (Seq<char>, Seq<char>, u64)| lang_le(a, b)
}

pub proof fn lemma_sig_order_total()
    ensures
        total_ordering(sig_order()),
{
    let leq = sig_order();
    assert forall|x: (Seq<char>, Seq<char>)| #[trigger] leq(x, x) by {
        lemma_str_le_refl(x.1);
    }
    assert forall|x: (Seq<char>, Seq<char>), y: (Seq<char>, Seq<char>)|
        #[trigger] leq(x, y) && #[trigger] leq(y, x) implies x == y by {
        if x.0 != y.0 {
            lemma_str_le_antisymmetric(x.0, y.0);
        } else {
            lemma_str_le_antisymmetric(x.1, y.1);
        }
    }
    assert forall|x: (Seq<char>, Seq<char>), y: (Seq<char>, Seq<char>), z: (Seq<char>, Seq<char>)|
        #[trigger] leq(x, y) && #[trigger] leq(y, z) implies leq(x, z) by {
        if x.0 != y.0 && y.0 != z.0 {
            lemma_str_le_transitive(x.0, y.0, z.0);
            if x.0 == z.0 {
                lemma_str_le_antisymmetric(x.0, y.0);
            }
        } else if x.0 == y.0 && y.0 == z.0 {
            lemma_str_le_transitive(x.1, y.1, z.1);
        }
    }
    assert forall|x: (Seq<char>, Seq<char>), y: (Seq<char>, Seq<char>)|
        #[trigger] leq(x, y) || #[trigger] leq(y, x) by {
        if x.0 != y.0 {
            lemma_str_le_connected(x.0, y.0);
        } else {
            lemma_str_le_connected(x.1, y.1);
        }
    }
}

pub proof fn lemma_lang_order_total()
    ensures
        total_ordering(lang_order()),
{
    let leq = lang_order();
    assert forall|x: (Seq<char>, Seq<char>, u64)| #[trigger] leq(x, x) by {
        lemma_str_le_refl(x.1);
    }
    assert forall|x: (Seq<char>, Seq<char>, u64), y: (Seq<char>, Seq<char>, u64)|
        #[trigger] leq(x, y) && #[trigger] leq(y, x) implies x == y by {
        if x.2 == y.2 {
            if x.0 != y.0 {
                lemma_str_le_antisymmetric(x.0, y.0);
            } else {
                lemma_str_le_antisymmetric(x.1, y.1);
            }
        }
    }
    assert forall|x: (Seq<char>, Seq<char>, u64), y: (Seq<char>, Seq<char>, u64),
        z: (Seq<char>, Seq<char>, u64)|
        #[trigger] leq(x, y) && #[trigger] leq(y, z) implies leq(x, z) by {
        if x.2 == y.2 && y.2 == z.2 {
            if x.0 != y.0 && y.0 != z.0 {
                lemma_str_le_transitive(x.0, y.0, z.0);
                if x.0 == z.0 {
                    lemma_str_le_antisymmetric(x.0, y.0);
                }
            } else if x.0 == y.0 && y.0 == z.0 {
                lemma_str_le_transitive(x.1, y.1, z.1);
            }
        }
    }
    assert forall|x: (Seq<char>, Seq<char>, u64), y: (Seq<char>, Seq<char>, u64)|
        #[trigger] leq(x, y) || #[trigger] leq(y, x) by {
        if x.2 == y.2 {
            if x.0 != y.0 {
                lemma_str_le_connected(x.0, y.0);
            } else {
                lemma_str_le_connected(x.1, y.1);
            }
        }
    }
}


/// Membership in a pushed sequence: the new element, or one already there.
pub proof fn lemma_push_contains<A>(s: Seq<A>, v: A, x: A)
    ensures
        s.push(v).contains(x) == (s.contains(x) || v == x),
{
    if s.push(v).contains(x) {
        let i = choose|i: int| 0 <= i < s.push(v).len() && s.push(v)[i] == x;
        if i < s.len() {
            assert(s[i] == x);
        }
    }
    if s.contains(x) {
        let i = choose|i: int| 0 <= i < s.len() && s[i] == x;
        assert(s.push(v)[i] == x);
    }
    if v == x {
        assert(s.push(v)[s.len() as int] == x);
    }
}

/// Inserting an element anywhere in a sequence inserts it into the
/// sequence's multiset.
pub proof fn lemma_insert_to_multiset<A>(s: Seq<A>, i: int, x: A)
    requires
        0 <= i <= s.len(),
    ensures
        s.insert(i, x).to_multiset() =~= s.to_multiset().insert(x),
{
    broadcast use vstd::multiset::group_multiset_axioms;
    broadcast use vstd::seq_lib::group_to_multiset_ensures;

    let left = s.take(i);
    let right = s.skip(i);
    assert(s =~= left + right);
    assert(s.insert(i, x) =~= left.push(x) + right);
    lemma_multiset_commutative(left, right);
    lemma_multiset_commutative(left.push(x), right);
    assert(left.push(x).to_multiset() =~= left.to_multiset().insert(x));
    assert((left.to_multiset().insert(x)).add(right.to_multiset()) =~= (left.to_multiset().add(
        right.to_multiset(),
    )).insert(x));
}

} // verus!
