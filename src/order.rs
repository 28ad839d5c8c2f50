use vstd::prelude::*;
use crate::text::{seq_lt, lemma_seq_lt_irreflexive, lemma_seq_lt_total, lemma_seq_lt_transitive};

verus! {

/// Every element comes strictly before every later one.
pub open spec fn sorted_by<A>(s: Seq<A>, lt: spec_fn(A, A) -> bool) -> bool {
    forall|i: int, j: int| 0 <= i < j < s.len() ==> #[trigger] lt(s[i], s[j])
}

pub proof fn lemma_sorted_insert<A>(s: Seq<A>, lt: spec_fn(A, A) -> bool, p: int, x: A)
    requires
        sorted_by(s, lt),
        0 <= p <= s.len(),
        forall|j: int| 0 <= j < p ==> #[trigger] lt(s[j], x),
        forall|j: int| p <= j < s.len() ==> #[trigger] lt(x, s[j]),
    ensures
        sorted_by(s.insert(p, x), lt),
{
    let t = s.insert(p, x);
    assert forall|i: int, j: int| 0 <= i < j < t.len() implies #[trigger] lt(t[i], t[j]) by {
        if i < p && j < p {
            assert(lt(s[i], s[j]));
        } else if i < p && j == p {
        } else if i < p {
            assert(lt(s[i], s[j - 1]));
        } else if i == p {
            assert(lt(x, s[j - 1]));
        } else {
            assert(lt(s[i - 1], s[j - 1]));
        }
    }
}

pub proof fn lemma_sorted_remove<A>(s: Seq<A>, lt: spec_fn(A, A) -> bool, k: int)
    requires
        sorted_by(s, lt),
        0 <= k < s.len(),
    ensures
        sorted_by(s.remove(k), lt),
{
    let t = s.remove(k);
    assert forall|i: int, j: int| 0 <= i < j < t.len() implies #[trigger] lt(t[i], t[j]) by {
        let a = if i < k { i } else { i + 1 };
        let b = if j < k { j } else { j + 1 };
        assert(t[i] == s[a] && t[j] == s[b]);
        assert(lt(s[a], s[b]));
    }
}

/// Lexicographic order on (owner, collection id, item name) keys.
pub open spec fn key_lt(a: (Seq<char>, Seq<char>, Seq<char>), b: (Seq<char>, Seq<char>, Seq<char>)) -> bool {
    seq_lt(a.0, b.0) || (a.0 == b.0 && (seq_lt(a.1, b.1) || (a.1 == b.1 && seq_lt(a.2, b.2))))
}

pub proof fn lemma_key_lt_irreflexive(a: (Seq<char>, Seq<char>, Seq<char>))
    ensures
        !key_lt(a, a),
{
    lemma_seq_lt_irreflexive(a.0);
    lemma_seq_lt_irreflexive(a.1);
    lemma_seq_lt_irreflexive(a.2);
}

pub proof fn lemma_key_lt_total(a: (Seq<char>, Seq<char>, Seq<char>), b: (Seq<char>, Seq<char>, Seq<char>))
    ensures
        a != b ==> key_lt(a, b) || key_lt(b, a),
{
    lemma_seq_lt_total(a.0, b.0);
    lemma_seq_lt_total(a.1, b.1);
    lemma_seq_lt_total(a.2, b.2);
}

pub proof fn lemma_key_lt_transitive(
    a: (Seq<char>, Seq<char>, Seq<char>),
    b: (Seq<char>, Seq<char>, Seq<char>),
    c: (Seq<char>, Seq<char>, Seq<char>),
)
    requires
        key_lt(a, b),
        key_lt(b, c),
    ensures
        key_lt(a, c),
{
    if seq_lt(a.0, b.0) && seq_lt(b.0, c.0) {
        lemma_seq_lt_transitive(a.0, b.0, c.0);
    }
    if a.0 == b.0 && b.0 == c.0 && seq_lt(a.1, b.1) && seq_lt(b.1, c.1) {
        lemma_seq_lt_transitive(a.1, b.1, c.1);
    }
    if a.0 == b.0 && b.0 == c.0 && a.1 == b.1 && b.1 == c.1 {
        if seq_lt(a.2, b.2) && seq_lt(b.2, c.2) {
            lemma_seq_lt_transitive(a.2, b.2, c.2);
        }
    }
}

} // verus!
