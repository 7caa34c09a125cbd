//! The order of names, by which the files of an archive are arranged.

use crate::text::{chars_of, texts};
use vstd::prelude::*;
use vstd::relations::{sorted_by, total_ordering};
use vstd::seq_lib::{lemma_sorted_unique, to_multiset_build, to_multiset_insert};

verus! {

/// Whether `a` stands before `b`, or is `b`, in the order of the dictionary:
/// the first character in which they differ decides, and a beginning of a
/// name stands before the name.
pub open spec fn comes_first(a: Seq<char>, b: Seq<char>) -> bool
    decreases a.len(),
{
    if a.len() == 0 {
        true
    } else if b.len() == 0 {
        false
    } else if a[0] != b[0] {
        a[0] < b[0]
    } else {
        comes_first(a.drop_first(), b.drop_first())
    }
}

/// The order of the dictionary as a relation.
pub open spec fn by_name() -> spec_fn(Seq<char>, Seq<char>) -> bool {
    |a: Seq<char>, b: Seq<char>| comes_first(a, b)
}

/// Every name stands at its own place.
pub proof fn lemma_order_reflexive(a: Seq<char>)
    ensures
        comes_first(a, a),
    decreases a.len(),
{
    if a.len() > 0 {
        lemma_order_reflexive(a.drop_first());
    }
}

/// Two names of which each comes first are the same name.
pub proof fn lemma_order_antisymmetric(a: Seq<char>, b: Seq<char>)
    requires
        comes_first(a, b),
        comes_first(b, a),
    ensures
        a == b,
    decreases a.len(),
{
    if a.len() == 0 {
        assert(a =~= b);
    } else {
        lemma_order_antisymmetric(a.drop_first(), b.drop_first());
        assert(a =~= seq![a[0]] + a.drop_first());
        assert(b =~= seq![b[0]] + b.drop_first());
    }
}

/// What comes before a name comes before all that the name comes before.
pub proof fn lemma_order_transitive(a: Seq<char>, b: Seq<char>, c: Seq<char>)
    requires
        comes_first(a, b),
        comes_first(b, c),
    ensures
        comes_first(a, c),
    decreases a.len(),
{
    if a.len() > 0 && a[0] == b[0] && b[0] == c[0] {
        lemma_order_transitive(a.drop_first(), b.drop_first(), c.drop_first());
    }
}

/// Of two names one comes first.
pub proof fn lemma_order_total(a: Seq<char>, b: Seq<char>)
    ensures
        comes_first(a, b) || comes_first(b, a),
    decreases a.len(),
{
    if a.len() > 0 && b.len() > 0 && a[0] == b[0] {
        lemma_order_total(a.drop_first(), b.drop_first());
    }
}

/// The order of the dictionary is a total order.
pub proof fn lemma_order_is_total_ordering()
    ensures
        total_ordering(by_name()),
{
    let r = by_name();
    assert forall|a: Seq<char>| #[trigger] r(a, a) by {
        lemma_order_reflexive(a);
    }
    assert forall|a: Seq<char>, b: Seq<char>| #[trigger] r(a, b) && #[trigger] r(b, a) implies a
        == b by {
        lemma_order_antisymmetric(a, b);
    }
    assert forall|a: Seq<char>, b: Seq<char>, c: Seq<char>| #[trigger]
        r(a, b) && #[trigger] r(b, c) implies r(a, c) by {
        lemma_order_transitive(a, b, c);
    }
    assert forall|a: Seq<char>, b: Seq<char>| #[trigger] r(a, b) || #[trigger] r(b, a) by {
        lemma_order_total(a, b);
    }
}

/// Whether `a` comes first of the two.
pub fn precedes(a: &[char], b: &[char]) -> (r: bool)
    ensures
        r == comes_first(a@, b@),
{
    let mut i: usize = 0;
    assert(a@.skip(0) =~= a@);
    assert(b@.skip(0) =~= b@);
    while i < a.len()
        invariant
            i <= a.len(),
            i <= b.len(),
            comes_first(a@, b@) == comes_first(a@.skip(i as int), b@.skip(i as int)),
        decreases a.len() - i,
    {
        if i == b.len() {
            return false;
        }
        assert(a@.skip(i as int)[0] == a@[i as int]);
        assert(b@.skip(i as int)[0] == b@[i as int]);
        if a[i] != b[i] {
            return a[i] < b[i];
        }
        assert(a@.skip(i as int).drop_first() =~= a@.skip(i + 1));
        assert(b@.skip(i as int).drop_first() =~= b@.skip(i + 1));
        i = i + 1;
    }
    true
}

/// The names in the order of the dictionary. Names that occur more than
/// once occur as often as before.
pub fn sort_names(names: &Vec<String>) -> (sorted: Vec<String>)
    ensures
        sorted_by(texts(sorted@), by_name()),
        texts(sorted@).to_multiset() == texts(names@).to_multiset(),
        texts(sorted@) == texts(names@).sort_by(by_name()),
{
    let ghost all = texts(names@);
    let mut sorted: Vec<String> = Vec::new();
    let mut i: usize = 0;
    proof {
        assert(texts(sorted@) =~= all.take(0));
    }
    while i < names.len()
        invariant
            i <= names.len(),
            all == texts(names@),
            sorted_by(texts(sorted@), by_name()),
            texts(sorted@).to_multiset() == all.take(i as int).to_multiset(),
        decreases names.len() - i,
    {
        let key = chars_of(names[i].as_str());
        let ghost before = texts(sorted@);
        let mut at: usize = 0;
        let mut seeking = true;
        assert(before.len() == sorted@.len());
        while seeking && at < sorted.len()
            invariant
                at <= sorted.len(),
                before == texts(sorted@),
                before.len() == sorted@.len(),
                forall|j: int| 0 <= j < at ==> comes_first(#[trigger] before[j], key@),
                !seeking ==> at < sorted.len() && !comes_first(before[at as int], key@),
            decreases sorted.len() - at, (if seeking { 1int } else { 0int }),
        {
            let other = chars_of(sorted[at].as_str());
            assert(before[at as int] == sorted@[at as int]@);
            if precedes(other.as_slice(), key.as_slice()) {
                at = at + 1;
            } else {
                seeking = false;
            }
        }
        proof {
            let after = before.insert(at as int, key@);
            assert forall|x: int, y: int| 0 <= x < y < after.len() implies #[trigger] by_name()(
                after[x],
                after[y],
            ) by {
                if y < at {
                    assert(after[x] == before[x] && after[y] == before[y]);
                    assert(by_name()(before[x], before[y]));
                } else if y == at {
                    assert(after[x] == before[x]);
                } else if x == at {
                    assert(after[y] == before[y - 1]);
                    assert(!seeking);
                    lemma_order_total(before[at as int], key@);
                    if y - 1 > at {
                        assert(by_name()(before[at as int], before[y - 1]));
                        lemma_order_transitive(key@, before[at as int], before[y - 1]);
                    }
                } else if x < at {
                    assert(after[x] == before[x] && after[y] == before[y - 1]);
                    assert(by_name()(before[x], before[y - 1]));
                } else {
                    assert(after[x] == before[x - 1] && after[y] == before[y - 1]);
                    assert(by_name()(before[x - 1], before[y - 1]));
                }
            }
            to_multiset_insert(before, at as int, key@);
            to_multiset_build(all.take(i as int), key@);
            assert(all.take(i + 1) =~= all.take(i as int).push(key@));
        }
        sorted.insert(at, names[i].clone());
        assert(texts(sorted@) =~= before.insert(at as int, key@));
        i = i + 1;
    }
    proof {
        assert(all.take(i as int) =~= all);
        lemma_order_is_total_ordering();
        all.lemma_sort_by_ensures(by_name());
        lemma_sorted_unique(texts(sorted@), all.sort_by(by_name()), by_name());
    }
    sorted
}

} // verus!
