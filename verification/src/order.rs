//! The order of texts: character by character, a shorter text before its continuations.
use crate::text::chars_of;
use vstd::prelude::*;

verus! {

/// Whether `a` comes strictly before `b`.
pub open spec fn text_less(a: Seq<char>, b: Seq<char>) -> bool
    decreases a.len(),
{
    if b.len() == 0 {
        false
    } else if a.len() == 0 {
        true
    } else if a[0] != b[0] {
        a[0] < b[0]
    } else {
        text_less(a.skip(1), b.skip(1))
    }
}

/// How one value stands to another.
#[derive(Clone, Copy, Debug, PartialEq, Eq, Structural)]
pub enum Rank {
    Before,
    Same,
    Behind,
}

/// Exactly one of the three holds of any two texts.
pub proof fn lemma_text_order_total(a: Seq<char>, b: Seq<char>)
    ensures
        text_less(a, b) || a == b || text_less(b, a),
        !(text_less(a, b) && text_less(b, a)),
        !text_less(a, a),
    decreases a.len(),
{
    if a.len() > 0 {
        lemma_text_order_total(a.skip(1), if b.len() > 0 { b.skip(1) } else { a.skip(1) });
        if b.len() > 0 && a[0] == b[0] && a.skip(1) == b.skip(1) {
            assert(a =~= seq![a[0]] + a.skip(1));
            assert(b =~= seq![b[0]] + b.skip(1));
        }
    } else if b.len() == 0 {
        assert(a =~= b);
    }
}

/// The order carries over.
pub proof fn lemma_text_order_transitive(a: Seq<char>, b: Seq<char>, c: Seq<char>)
    requires
        text_less(a, b),
        text_less(b, c),
    ensures
        text_less(a, c),
    decreases a.len(),
{
    if a.len() > 0 && a[0] == b[0] && b[0] == c[0] {
        lemma_text_order_transitive(a.skip(1), b.skip(1), c.skip(1));
    }
}

pub open spec fn text_rank(a: Seq<char>, b: Seq<char>) -> Rank {
    if text_less(a, b) {
        Rank::Before
    } else if a == b {
        Rank::Same
    } else {
        Rank::Behind
    }
}

pub fn rank_texts(a: &str, b: &str) -> (rank: Rank)
    ensures
        rank == text_rank(a@, b@),
{
    let left = chars_of(a);
    let right = chars_of(b);
    let mut i: usize = 0;
    proof {
        assert(left@.skip(0) =~= left@);
        assert(right@.skip(0) =~= right@);
        lemma_text_order_total(a@, b@);
    }
    while i < left.len() && i < right.len() && left[i] == right[i]
        invariant
            i <= left.len(),
            i <= right.len(),
            left@ == a@,
            right@ == b@,
            text_less(a@, b@) == text_less(left@.skip(i as int), right@.skip(i as int)),
            forall|j: int| 0 <= j < i ==> left@[j] == right@[j],
        decreases left.len() - i,
    {
        assert(left@.skip(i as int).skip(1) =~= left@.skip(i as int + 1));
        assert(right@.skip(i as int).skip(1) =~= right@.skip(i as int + 1));
        i += 1;
    }
    if i == left.len() && i == right.len() {
        assert(a@ =~= b@);
        return Rank::Same;
    }
    proof {
        if i < left.len() && i < right.len() {
            assert(a@[i as int] != b@[i as int]);
        }
    }
    if i == left.len() || (i < right.len() && left[i] < right[i]) {
        Rank::Before
    } else {
        Rank::Behind
    }
}

/// One text comes before another exactly where, behind what they begin with in common, it ends or has
/// the smaller character.
pub proof fn texts_are_ordered_by_their_first_difference(common: Seq<char>, a: Seq<char>, b: Seq<char>)
    ensures
        a.len() > 0 && b.len() > 0 && a[0] < b[0] ==> text_less(common + a, common + b) && text_rank(common + a, common + b)
            == Rank::Before && text_rank(common + b, common + a) == Rank::Behind,
        b.len() > 0 ==> text_less(common, common + b),
        !text_less(common + b, common),
        text_rank(common, common) == Rank::Same,
    decreases common.len(),
{
    lemma_text_order_total(common + a, common + b);
    lemma_text_order_total(common, common);
    if common.len() > 0 {
        let rest = common.skip(1);
        texts_are_ordered_by_their_first_difference(rest, a, b);
        assert((common + a).skip(1) =~= rest + a);
        assert((common + b).skip(1) =~= rest + b);
    } else {
        assert(common + a =~= a && common + b =~= b);
    }
}

} // verus!
