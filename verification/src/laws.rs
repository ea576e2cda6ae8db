//! Engine-wide laws, proved once and for all inputs: what idle mode
//! ignores, that no-ops never move the mode, that canonicalization does not
//! care about press order, and that canonical key sets are well formed.

use vstd::prelude::*;

use crate::engine::{
    canon, evaluate, first_two_distinct, key_rank, next_mode, sort_two, Event, Key, MODE,
};

verus! {

/// In idle mode every canonical key set other than the Control-Space chord
/// produces no event.
pub proof fn lemma_idle_ignores_other_keys(ks: Seq<Key>)
    requires
        ks != seq![Key::Control, Key::Space],
    ensures
        evaluate(MODE::IDLE, ks) == Event::Nothing,
{
}

/// A chord that produces no event leaves the mode unchanged, in every mode:
/// submitting a no-op is idempotent on the engine's state.
pub proof fn lemma_noop_preserves_mode(m: MODE, ks: Seq<Key>)
    requires
        evaluate(m, ks) == Event::Nothing,
    ensures
        next_mode(m, ks) == m,
{
}

/// Two keys with the same canonical position are the same key.
proof fn lemma_key_rank_injective(a: Key, b: Key)
    requires
        key_rank(a) == key_rank(b),
    ensures
        a == b,
{
}

/// Canonicalization is order independent: both press orders of a two-key
/// chord yield the identical canonical key set.
pub proof fn lemma_canonicalization_order_independent(a: Key, b: Key)
    ensures
        canon(seq![a, b]) == canon(seq![b, a]),
{
    let s1 = seq![a, b];
    let s2 = seq![b, a];
    assert(s1.len() == 2 && s1[0] == a && s1[1] == b);
    assert(s2.len() == 2 && s2[0] == b && s2[1] == a);
    assert(s1.drop_first() =~= seq![b]);
    assert(s2.drop_first() =~= seq![a]);
    assert(seq![a].drop_first() =~= Seq::<Key>::empty());
    assert(seq![b].drop_first() =~= Seq::<Key>::empty());
    assert(!Seq::<Key>::empty().contains(a));
    assert(!Seq::<Key>::empty().contains(b));
    assert(Seq::<Key>::empty().push(a) =~= seq![a]);
    assert(Seq::<Key>::empty().push(b) =~= seq![b]);
    if a == b {
        assert(seq![a].contains(b)) by {
            assert(seq![a][0] == b);
        }
        assert(first_two_distinct(s1, Seq::empty()) == first_two_distinct(seq![b], seq![a]));
        assert(first_two_distinct(seq![b], seq![a]) == first_two_distinct(
            Seq::<Key>::empty(),
            seq![a],
        ));
        assert(first_two_distinct(Seq::<Key>::empty(), seq![a]) == seq![a]);
        assert(s1 =~= s2);
    } else {
        assert(!seq![a].contains(b)) by {
            if seq![a].contains(b) {
                let j = choose|j: int| 0 <= j < seq![a].len() && seq![a][j] == b;
                assert(seq![a][0] == a);
            }
        }
        assert(!seq![b].contains(a)) by {
            if seq![b].contains(a) {
                let j = choose|j: int| 0 <= j < seq![b].len() && seq![b][j] == a;
                assert(seq![b][0] == b);
            }
        }
        assert(seq![a].push(b) =~= s1);
        assert(seq![b].push(a) =~= s2);
        assert(first_two_distinct(s1, Seq::empty()) == first_two_distinct(seq![b], seq![a]));
        assert(first_two_distinct(seq![b], seq![a]) == first_two_distinct(
            Seq::<Key>::empty(),
            seq![a].push(b),
        ));
        assert(first_two_distinct(Seq::<Key>::empty(), seq![a].push(b)) == s1);
        assert(first_two_distinct(s2, Seq::empty()) == first_two_distinct(seq![a], seq![b]));
        assert(first_two_distinct(seq![a], seq![b]) == first_two_distinct(
            Seq::<Key>::empty(),
            seq![b].push(a),
        ));
        assert(first_two_distinct(Seq::<Key>::empty(), seq![b].push(a)) == s2);
        assert(key_rank(a) != key_rank(b)) by {
            if key_rank(a) == key_rank(b) {
                lemma_key_rank_injective(a, b);
            }
        }
        if key_rank(a) < key_rank(b) {
            assert(sort_two(s1) == s1);
            assert(sort_two(s2) =~= s1);
        } else {
            assert(sort_two(s1) =~= s2);
            assert(sort_two(s2) == s2);
        }
    }
}

/// The first two distinct keys of a chord: never more than two, and never
/// a duplicate, provided the keys already collected are themselves few and
/// distinct.
proof fn lemma_first_two_distinct_well_formed(s: Seq<Key>, acc: Seq<Key>)
    requires
        acc.len() <= 2,
        forall|i: int, j: int| 0 <= i < j < acc.len() ==> acc[i] != acc[j],
    ensures
        first_two_distinct(s, acc).len() <= 2,
        forall|i: int, j: int|
            0 <= i < j < first_two_distinct(s, acc).len() ==> first_two_distinct(s, acc)[i]
                != first_two_distinct(s, acc)[j],
    decreases s.len(),
{
    if s.len() == 0 || acc.len() >= 2 {
    } else if acc.contains(s[0]) {
        lemma_first_two_distinct_well_formed(s.drop_first(), acc);
    } else {
        let pushed = acc.push(s[0]);
        assert forall|i: int, j: int| 0 <= i < j < pushed.len() implies pushed[i] != pushed[j] by {
            if j < acc.len() {
                assert(pushed[i] == acc[i] && pushed[j] == acc[j]);
            } else {
                assert(pushed[j] == s[0]);
                assert(pushed[i] == acc[i]);
                assert(!acc.contains(s[0]));
            }
        }
        lemma_first_two_distinct_well_formed(s.drop_first(), pushed);
    }
}

/// Every canonical key set is well formed: at most two keys, strictly
/// sorted by canonical position (hence free of duplicates).
pub proof fn lemma_canonical_key_set_well_formed(s: Seq<Key>)
    ensures
        canon(s).len() <= 2,
        canon(s).len() == 2 ==> key_rank(canon(s)[0]) < key_rank(canon(s)[1]),
        forall|i: int, j: int| 0 <= i < j < canon(s).len() ==> canon(s)[i] != canon(s)[j],
{
    lemma_first_two_distinct_well_formed(s, Seq::empty());
    let f = first_two_distinct(s, Seq::empty());
    if f.len() == 2 {
        assert(key_rank(f[0]) != key_rank(f[1])) by {
            if key_rank(f[0]) == key_rank(f[1]) {
                lemma_key_rank_injective(f[0], f[1]);
            }
        }
    }
}

} // verus!
