//! File names in order. A name is a sequence of bytes, and names are ordered by
//! their bytes, from the left.

use vstd::prelude::*;
use vstd::relations::{antisymmetric, reflexive, sorted_by, strongly_connected, total_ordering,
    transitive};

verus! {

/// Whether the name `a` does not come after the name `b`.
pub open spec fn name_le(a: Seq<u8>, b: Seq<u8>) -> bool
    decreases a.len(),
{
    if a.len() == 0 {
        true
    } else if b.len() == 0 {
        false
    } else if a[0] != b[0] {
        a[0] < b[0]
    } else {
        name_le(a.skip(1), b.skip(1))
    }
}

/// The order of names.
pub open spec fn name_order() -> spec_fn(Seq<u8>, Seq<u8>) -> bool {
    |a: Seq<u8>, b: Seq<u8>| name_le(a, b)
}

/// The names that some vectors of bytes are.
pub open spec fn names_view(names: Seq<Vec<u8>>) -> Seq<Seq<u8>> {
    names.map_values(|name: Vec<u8>| name@)
}

proof fn lemma_le_reflexive(a: Seq<u8>)
    ensures
        name_le(a, a),
    decreases a.len(),
{
    if a.len() > 0 {
        lemma_le_reflexive(a.skip(1));
    }
}

proof fn lemma_le_antisymmetric(a: Seq<u8>, b: Seq<u8>)
    requires
        name_le(a, b),
        name_le(b, a),
    ensures
        a == b,
    decreases a.len(),
{
    if a.len() > 0 && b.len() > 0 {
        lemma_le_antisymmetric(a.skip(1), b.skip(1));
        assert(a =~= seq![a[0]] + a.skip(1));
        assert(b =~= seq![b[0]] + b.skip(1));
    } else {
        assert(a =~= b);
    }
}

proof fn lemma_le_transitive(a: Seq<u8>, b: Seq<u8>, c: Seq<u8>)
    requires
        name_le(a, b),
        name_le(b, c),
    ensures
        name_le(a, c),
    decreases a.len(),
{
    if a.len() > 0 && b.len() > 0 && c.len() > 0 && a[0] == b[0] && b[0] == c[0] {
        lemma_le_transitive(a.skip(1), b.skip(1), c.skip(1));
    }
}

proof fn lemma_le_total(a: Seq<u8>, b: Seq<u8>)
    ensures
        name_le(a, b) || name_le(b, a),
    decreases a.len(),
{
    if a.len() > 0 && b.len() > 0 {
        lemma_le_total(a.skip(1), b.skip(1));
    }
}

/// Names are totally ordered.
pub proof fn law_name_order_is_total()
    ensures
        total_ordering(name_order()),
{
    let order = name_order();
    assert(reflexive(order)) by {
        assert forall|a: Seq<u8>| #[trigger] order(a, a) by {
            lemma_le_reflexive(a);
        }
    }
    assert(antisymmetric(order)) by {
        assert forall|a: Seq<u8>, b: Seq<u8>| #[trigger] order(a, b) && #[trigger] order(
            b,
            a,
        ) implies a == b by {
            lemma_le_antisymmetric(a, b);
        }
    }
    assert(transitive(order)) by {
        assert forall|a: Seq<u8>, b: Seq<u8>, c: Seq<u8>| #[trigger]
            order(a, b) && #[trigger] order(b, c) implies order(a, c) by {
            lemma_le_transitive(a, b, c);
        }
    }
    assert(strongly_connected(order)) by {
        assert forall|a: Seq<u8>, b: Seq<u8>| #[trigger] order(a, b) || #[trigger] order(b, a) by {
            lemma_le_total(a, b);
        }
    }
}

/// Whether the name `a` does not come after the name `b`.
pub fn name_at_most(a: &Vec<u8>, b: &Vec<u8>) -> (yes: bool)
    ensures
        yes == name_le(a@, b@),
{
    let mut i: usize = 0;
    assert(a@.skip(0) =~= a@);
    assert(b@.skip(0) =~= b@);
    while i < a.len() && i < b.len()
        invariant
            i <= a@.len(),
            i <= b@.len(),
            name_le(a@, b@) == name_le(a@.skip(i as int), b@.skip(i as int)),
        decreases a@.len() - i,
    {
        assert(a@.skip(i as int).skip(1) =~= a@.skip(i + 1));
        assert(b@.skip(i as int).skip(1) =~= b@.skip(i + 1));
        if a[i] != b[i] {
            return a[i] < b[i];
        }
        i = i + 1;
    }
    i == a.len()
}

/// The names in order.
pub fn sort_names(names: Vec<Vec<u8>>) -> (sorted: Vec<Vec<u8>>)
    ensures
        names_view(sorted@) == names_view(names@).sort_by(name_order()),
{
    let ghost all = names_view(names@);
    let mut sorted: Vec<Vec<u8>> = Vec::new();
    proof {
        law_name_order_is_total();
        assert(all.take(0) =~= names_view(sorted@));
    }
    for name in it: names
        invariant
            it.seq() == names@,
            all == names_view(names@),
            total_ordering(name_order()),
            sorted_by(names_view(sorted@), name_order()),
            names_view(sorted@).to_multiset() == all.take(it.index()).to_multiset(),
    {
        let ghost order = name_order();
        let ghost before = names_view(sorted@);
        let mut at: usize = 0;
        while at < sorted.len() && name_at_most(&sorted[at], &name)
            invariant
                at <= sorted@.len(),
                before == names_view(sorted@),
                order == name_order(),
                forall|k: int| 0 <= k < at ==> order(#[trigger] before[k], name@),
            decreases sorted@.len() - at,
        {
            assert(before[at as int] == sorted@[at as int]@);
            at = at + 1;
        }
        proof {
            if at < sorted@.len() {
                assert(before[at as int] == sorted@[at as int]@);
                assert(!order(before[at as int], name@));
                assert(order(name@, before[at as int]));
                assert forall|k: int| at <= k < before.len() implies order(
                    name@,
                    #[trigger] before[k],
                ) by {
                    if k > at {
                        assert(order(before[at as int], before[k]));
                    }
                }
            }
        }
        let ghost value = name@;
        sorted.insert(at, name);
        let ghost after = names_view(sorted@);
        assert(after =~= before.insert(at as int, value));
        proof {
            assert forall|i: int, j: int| 0 <= i < j < after.len() implies #[trigger] order(
                after[i],
                after[j],
            ) by {
                if j < at {
                    assert(order(before[i], before[j]));
                } else if j == at {
                    assert(order(before[i], value));
                } else if i < at {
                    assert(order(before[i], before[j - 1]));
                } else if i == at {
                    assert(order(value, before[j - 1]));
                } else {
                    assert(order(before[i - 1], before[j - 1]));
                }
            }
            vstd::seq_lib::to_multiset_insert(before, at as int, value);
            vstd::seq_lib::to_multiset_build(all.take(it.index()), value);
            assert(all.take(it.index() + 1) =~= all.take(it.index()).push(value));
        }
    }
    proof {
        assert(all.take(all.len() as int) =~= all);
        all.lemma_sort_by_ensures(name_order());
        vstd::seq_lib::lemma_sorted_unique(
            names_view(sorted@),
            all.sort_by(name_order()),
            name_order(),
        );
    }
    sorted
}

} // verus!
