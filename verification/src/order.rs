//! The order in which paths are listed: character by character, by code
//! point, a proper prefix before what it is a prefix of.

use crate::text::char_views;
use vstd::prelude::*;
use vstd::relations::{sorted_by, total_ordering};
use vstd::seq_lib::lemma_sorted_unique;

verus! {

/// Whether `a` comes no later than `b`.
pub open spec fn lex_le(a: Seq<char>, b: Seq<char>) -> bool
    decreases a.len(),
{
    if a.len() == 0 {
        true
    } else if b.len() == 0 {
        false
    } else if a[0] != b[0] {
        (a[0] as int) < (b[0] as int)
    } else {
        lex_le(a.skip(1), b.skip(1))
    }
}

/// The order as a relation.
pub open spec fn lex_order() -> spec_fn(Seq<char>, Seq<char>) -> bool {
    |a: Seq<char>, b: Seq<char>| lex_le(a, b)
}

/// Every text comes no later than itself.
pub proof fn lemma_lex_reflexive(a: Seq<char>)
    ensures
        lex_le(a, a),
    decreases a.len(),
{
    if a.len() > 0 {
        lemma_lex_reflexive(a.skip(1));
    }
}

/// Of two texts, one comes no later than the other.
pub proof fn lemma_lex_connected(a: Seq<char>, b: Seq<char>)
    ensures
        lex_le(a, b) || lex_le(b, a),
    decreases a.len(),
{
    if a.len() > 0 && b.len() > 0 {
        if a[0] == b[0] {
            lemma_lex_connected(a.skip(1), b.skip(1));
        }
    }
}

/// Two texts that come no later than each other are the same.
pub proof fn lemma_lex_antisymmetric(a: Seq<char>, b: Seq<char>)
    requires
        lex_le(a, b),
        lex_le(b, a),
    ensures
        a == b,
    decreases a.len(),
{
    if a.len() == 0 {
        assert(a =~= b);
    } else {
        lemma_lex_antisymmetric(a.skip(1), b.skip(1));
        assert(a =~= seq![a[0]] + a.skip(1));
        assert(b =~= seq![b[0]] + b.skip(1));
    }
}

/// What comes no later than a text comes no later than what follows it.
pub proof fn lemma_lex_transitive(a: Seq<char>, b: Seq<char>, c: Seq<char>)
    requires
        lex_le(a, b),
        lex_le(b, c),
    ensures
        lex_le(a, c),
    decreases a.len(),
{
    if a.len() > 0 && a[0] == b[0] && b[0] == c[0] {
        lemma_lex_transitive(a.skip(1), b.skip(1), c.skip(1));
    }
}

/// The order is total: any two texts compare, and only equal texts
/// compare both ways.
pub proof fn lemma_lex_total()
    ensures
        total_ordering(lex_order()),
{
    let r = lex_order();
    assert forall|a: Seq<char>| #[trigger] r(a, a) by {
        lemma_lex_reflexive(a);
    }
    assert forall|a: Seq<char>, b: Seq<char>| #[trigger] r(a, b) && #[trigger] r(b, a) implies a
        == b by {
        lemma_lex_antisymmetric(a, b);
    }
    assert forall|a: Seq<char>, b: Seq<char>, c: Seq<char>| #[trigger]
        r(a, b) && #[trigger] r(b, c) implies r(a, c) by {
        lemma_lex_transitive(a, b, c);
    }
    assert forall|a: Seq<char>, b: Seq<char>| #[trigger] r(a, b) || #[trigger] r(b, a) by {
        lemma_lex_connected(a, b);
    }
}

/// Whether the code point of `x` is below that of `y`.
fn code_point_less(x: char, y: char) -> (r: bool)
    ensures
        r == ((x as int) < (y as int)),
{
    (x as u32) < (y as u32)
}

/// Whether `a` comes no later than `b`.
pub(crate) fn precedes(a: &Vec<char>, b: &Vec<char>) -> (r: bool)
    ensures
        r == lex_le(a@, b@),
{
    let mut i: usize = 0;
    assert(a@.skip(0) =~= a@ && b@.skip(0) =~= b@);
    while i < a.len() && i < b.len()
        invariant
            i <= a.len(),
            i <= b.len(),
            lex_le(a@.skip(i as int), b@.skip(i as int)) == lex_le(a@, b@),
        decreases a.len() - i,
    {
        if a[i] != b[i] {
            return code_point_less(a[i], b[i]);
        }
        assert(a@.skip(i as int).skip(1) =~= a@.skip(i + 1));
        assert(b@.skip(i as int).skip(1) =~= b@.skip(i + 1));
        i += 1;
    }
    i == a.len()
}

/// The texts of `items` in order.
pub open spec fn sorted(items: Seq<Seq<char>>) -> Seq<Seq<char>> {
    items.sort_by(lex_order())
}

/// Puts `items` in order.
pub(crate) fn sort(items: Vec<Vec<char>>) -> (r: Vec<Vec<char>>)
    ensures
        char_views(r@) == sorted(char_views(items@)),
{
    broadcast use vstd::seq_lib::group_to_multiset_ensures;

    let ghost all = char_views(items@);
    let mut rest = items;
    let mut done: Vec<Vec<char>> = Vec::new();
    proof {
        lemma_lex_total();
        assert(char_views(done@) =~= Seq::<Seq<char>>::empty());
        assert(char_views(done@).to_multiset().add(char_views(rest@).to_multiset()) =~= all.to_multiset());
    }
    while rest.len() > 0
        invariant
            total_ordering(lex_order()),
            sorted_by(char_views(done@), lex_order()),
            char_views(done@).to_multiset().add(char_views(rest@).to_multiset())
                == all.to_multiset(),
        decreases rest.len(),
    {
        let ghost before = char_views(rest@);
        let item = rest.pop().unwrap();
        let mut at: usize = 0;
        while at < done.len() && precedes(&done[at], &item)
            invariant
                at <= done.len(),
                forall|k: int| 0 <= k < at ==> lex_le(#[trigger] char_views(done@)[k], item@),
            decreases done.len() - at,
        {
            at += 1;
        }
        proof {
            let old_done = char_views(done@);
            let new_done = old_done.insert(at as int, item@);
            assert(char_views(done@.insert(at as int, item)) =~= new_done);
            assert(before =~= char_views(rest@).push(item@));
            vstd::seq_lib::to_multiset_build(char_views(rest@), item@);
            vstd::seq_lib::to_multiset_insert(old_done, at as int, item@);
            assert(new_done.to_multiset().add(char_views(rest@).to_multiset()) =~= all.to_multiset());
            assert forall|i: int, j: int| 0 <= i < j < new_done.len() implies #[trigger] lex_order()(
                new_done[i],
                new_done[j],
            ) by {
                if j < at {
                    assert(lex_order()(old_done[i], old_done[j]));
                } else if j == at {
                    assert(lex_le(old_done[i], item@));
                } else if i == at {
                    lemma_lex_connected(old_done[at as int], item@);
                    if j - 1 > at {
                        assert(lex_order()(old_done[at as int], old_done[j - 1]));
                        lemma_lex_transitive(item@, old_done[at as int], old_done[j - 1]);
                    }
                } else if i < at {
                    assert(lex_order()(old_done[i], old_done[j - 1]));
                } else {
                    assert(lex_order()(old_done[i - 1], old_done[j - 1]));
                }
            }
        }
        done.insert(at, item);
    }
    proof {
        assert(char_views(rest@) =~= Seq::<Seq<char>>::empty());
        assert(char_views(done@).to_multiset() =~= all.to_multiset());
        all.lemma_sort_by_ensures(lex_order());
        lemma_sorted_unique(char_views(done@), sorted(all), lex_order());
    }
    done
}

} // verus!
