//! The random source, and what this crate takes on trust about shuffling.

use crate::grid::Direction;
use rand::rngs::StdRng;
use rand::seq::SliceRandom;
use vstd::multiset::Multiset;
use vstd::prelude::*;

verus! {

#[verifier::external_type_specification]
#[verifier::external_body]
pub struct ExStdRng(StdRng);

/// `SliceRandom::shuffle` on the directions: they come back in some order,
/// each as often as it went in. Which order is up to the generator.
#[verifier::external_body]
pub(crate) fn shuffle(directions: &mut Vec<Direction>, rng: &mut StdRng)
    ensures
        final(directions)@.to_multiset() == old(directions)@.to_multiset(),
{
    directions.shuffle(rng);
}

/// Two sequences of two with the same members hold them in the same or in
/// the opposite order.
proof fn lemma_pair_orders(before: Seq<Direction>, after: Seq<Direction>)
    requires
        before.len() == 2,
        before.to_multiset() == after.to_multiset(),
    ensures
        after == before || after == seq![before[1], before[0]],
{
    broadcast use vstd::seq_lib::group_to_multiset_ensures;
    broadcast use vstd::multiset::group_multiset_axioms;

    let a = before[0];
    let b = before[1];
    vstd::seq_lib::to_multiset_len(before);
    vstd::seq_lib::to_multiset_len(after);
    let c = after[0];
    let d = after[1];
    assert(before =~= Seq::<Direction>::empty().push(a).push(b));
    assert(after =~= Seq::<Direction>::empty().push(c).push(d));
    let m0 = before.to_multiset();
    let m1 = after.to_multiset();
    assert(m0 =~= Multiset::<Direction>::empty().insert(a).insert(b));
    assert(m1 =~= Multiset::<Direction>::empty().insert(c).insert(d));
    assert(m0.count(c) == m1.count(c));
    assert(m0.count(d) == m1.count(d));
    assert(m0.count(a) == m1.count(a));
    assert(m0.count(b) == m1.count(b));
    if c == a {
        assert(d == b);
        assert(after =~= before);
    } else {
        assert(c == b);
        assert(d == a);
        assert(after =~= seq![b, a]);
    }
}

/// `a` and `b` in an order that the generator picks.
pub fn shuffled_pair(a: Direction, b: Direction, rng: &mut StdRng) -> (pair: Vec<Direction>)
    ensures
        pair@ == seq![a, b] || pair@ == seq![b, a],
{
    let mut pair: Vec<Direction> = Vec::new();
    pair.push(a);
    pair.push(b);
    let ghost before = pair@;
    shuffle(&mut pair, rng);
    proof {
        assert(before =~= seq![a, b]);
        lemma_pair_orders(before, pair@);
    }
    pair
}

} // verus!
