//! The next-piece generator: a "7-bag" randomizer.  A bag holding one piece
//! of each kind is shuffled and drained one draw at a time; when it runs
//! out, a freshly shuffled full bag replaces it.  Every aligned window of
//! seven draws therefore contains each kind exactly once — stronger
//! fairness than an independent random pick per draw, which is why this
//! generator exists.

use vstd::prelude::*;
use vstd::multiset::Multiset;
use vstd::seq_lib::group_to_multiset_ensures;

use crate::piece::Type;

use rand::seq::SliceRandom;

verus! {

/// One piece of each of the seven kinds: the content of a fresh bag.
pub open spec fn all_piece_types() -> Seq<Type> {
    seq![Type::I, Type::T, Type::O, Type::L, Type::J, Type::S, Type::Z]
}

/// What one draw does: a non-empty bag hands out its last piece; an empty
/// bag is first replaced by a full bag in some shuffled order, so the drawn
/// piece and the remaining bag together hold one piece of each kind.
pub open spec fn next_draw_rel(before: Seq<Type>, drawn: Type, after: Seq<Type>) -> bool {
    if before.len() > 0 {
        drawn == before.last() && after == before.drop_last()
    } else {
        after.push(drawn).to_multiset() == all_piece_types().to_multiset()
    }
}

/// A pool of at most seven distinct piece kinds, consumed one draw at a
/// time and refilled with a freshly shuffled full set when exhausted.
pub struct PieceTypeGenerator {
    bag: Vec<Type>,
}

/// Shuffles the bag into a uniformly random order.
///
/// Relies on `rand::seq::SliceRandom::shuffle`, which permutes the slice in
/// place: the result holds exactly the elements the slice held before, in
/// some order.
#[verifier::external_body]
fn shuffle_piece_types(bag: &mut Vec<Type>)
    ensures
        final(bag)@.len() == old(bag)@.len(),
        final(bag)@.to_multiset() == old(bag)@.to_multiset(),
{
    bag.shuffle(&mut rand::rng());
}

/// A full bag: one piece of each kind, in a uniformly random order.
fn create_next_random_bag() -> (bag: Vec<Type>)
    ensures
        bag@.len() == 7,
        bag@.to_multiset() == all_piece_types().to_multiset(),
{
    let mut bag: Vec<Type> = vec![
        Type::I,
        Type::T,
        Type::O,
        Type::L,
        Type::J,
        Type::S,
        Type::Z,
    ];
    proof {
        assert(bag@ =~= all_piece_types());
    }
    shuffle_piece_types(&mut bag);
    bag
}

impl PieceTypeGenerator {
    /// The bag holds at most seven kinds, each at most once.
    pub closed spec fn wf(&self) -> bool {
        &&& self.bag@.len() <= 7
        &&& self.bag@.no_duplicates()
    }

    /// The kinds left in the current bag, drawn back to front.
    pub closed spec fn bag_view(&self) -> Seq<Type> {
        self.bag@
    }

    /// A fresh generator with an empty bag: the first draw fills it.
    pub fn new() -> (r: Self)
        ensures
            r.wf(),
            r.bag_view().len() == 0,
    {
        PieceTypeGenerator { bag: Vec::with_capacity(7) }
    }

    /// Pop one kind from the bag; if the bag is empty, first replace it with
    /// all seven kinds in a uniformly randomized order, then pop.
    pub fn next_piece_type(&mut self) -> (t: Type)
        requires
            old(self).wf(),
        ensures
            final(self).wf(),
            next_draw_rel(old(self).bag_view(), t, final(self).bag_view()),
    {
        let ghost bag0 = self.bag@;
        match self.bag.pop() {
            Some(piece_type) => {
                proof {
                    assert(self.bag@ =~= bag0.drop_last());
                    lemma_drop_last_keeps_no_duplicates(bag0);
                }
                piece_type
            },
            None => {
                let mut bag = create_next_random_bag();
                let ghost full = bag@;
                let piece_type = match bag.pop() {
                    Some(piece_type) => piece_type,
                    None => vstd::pervasive::unreached(),
                };
                self.bag = bag;
                proof {
                    broadcast use group_to_multiset_ensures;

                    assert(self.bag@.push(piece_type) =~= full);
                    assert(self.bag@.push(piece_type).to_multiset() == all_piece_types().to_multiset());
                    lemma_all_piece_types_no_duplicates();
                    all_piece_types().lemma_multiset_has_no_duplicates();
                    self.bag@.push(piece_type).lemma_multiset_has_no_duplicates_conv();
                    lemma_drop_last_keeps_no_duplicates(self.bag@.push(piece_type));
                    assert(self.bag@.push(piece_type).drop_last() =~= self.bag@);
                }
                piece_type
            },
        }
    }
}

/// A sequence with no duplicates keeps that property when its last element
/// is dropped.
proof fn lemma_drop_last_keeps_no_duplicates(s: Seq<Type>)
    requires
        s.len() > 0,
        s.no_duplicates(),
    ensures
        s.drop_last().no_duplicates(),
{
}

/// The seven kinds are pairwise distinct, and every kind is among them.
pub proof fn lemma_all_piece_types_no_duplicates()
    ensures
        all_piece_types().no_duplicates(),
        forall|t: Type| all_piece_types().contains(t),
{
    assert forall|t: Type| all_piece_types().contains(t) by {
        let s = all_piece_types();
        match t {
            Type::I => assert(s[0] == t),
            Type::T => assert(s[1] == t),
            Type::O => assert(s[2] == t),
            Type::L => assert(s[3] == t),
            Type::J => assert(s[4] == t),
            Type::S => assert(s[5] == t),
            Type::Z => assert(s[6] == t),
        }
    }
}

/// The 7-bag fairness law: starting from an empty bag, seven consecutive
/// draws, each related to the bag state by `next_draw_rel`, hand out each of
/// the seven kinds exactly once, in some order.
pub proof fn lemma_seven_bag_fairness(bags: Seq<Seq<Type>>, draws: Seq<Type>)
    requires
        bags.len() == 8,
        draws.len() == 7,
        bags[0].len() == 0,
        forall|k: int| 0 <= k < 7 ==> next_draw_rel(#[trigger] bags[k], draws[k], bags[k + 1]),
    ensures
        draws.to_multiset() == all_piece_types().to_multiset(),
        draws.no_duplicates(),
        forall|t: Type| draws.contains(t),
{
    broadcast use group_to_multiset_ensures;

    lemma_bag_chain(bags, draws, 7);
    assert(bags[7].len() == 0);
    assert(bags[7].to_multiset() =~= Multiset::<Type>::empty());
    assert(draws.take(7) =~= draws);
    assert(draws.to_multiset() =~= all_piece_types().to_multiset());
    lemma_all_piece_types_no_duplicates();
    all_piece_types().lemma_multiset_has_no_duplicates();
    draws.lemma_multiset_has_no_duplicates_conv();
    assert forall|t: Type| draws.contains(t) by {
        assert(all_piece_types().contains(t));
        assert(all_piece_types().to_multiset().count(t) > 0);
        assert(draws.to_multiset().count(t) > 0);
    }
}

/// After `k` draws from an initially empty bag, the bag and the draws so far
/// together hold one piece of each kind, and the bag holds `7 - k` pieces.
proof fn lemma_bag_chain(bags: Seq<Seq<Type>>, draws: Seq<Type>, k: int)
    requires
        bags.len() == 8,
        draws.len() == 7,
        bags[0].len() == 0,
        1 <= k <= 7,
        forall|m: int| 0 <= m < 7 ==> next_draw_rel(#[trigger] bags[m], draws[m], bags[m + 1]),
    ensures
        bags[k].to_multiset().add(draws.take(k).to_multiset()) == all_piece_types().to_multiset(),
        bags[k].len() == 7 - k,
    decreases k,
{
    broadcast use group_to_multiset_ensures;

    if k == 1 {
        assert(next_draw_rel(bags[0], draws[0], bags[1]));
        assert(bags[1].push(draws[0]).to_multiset() == all_piece_types().to_multiset());
        assert(draws.take(1) =~= seq![draws[0]]);
        assert(seq![draws[0]].to_multiset() =~= Multiset::<Type>::empty().insert(draws[0]));
        assert(bags[1].push(draws[0]).to_multiset() == bags[1].to_multiset().insert(draws[0]));
        assert(bags[1].to_multiset().add(draws.take(1).to_multiset()) =~= bags[1].push(
            draws[0],
        ).to_multiset());
        assert(all_piece_types().to_multiset().len() == 7);
        assert(bags[1].push(draws[0]).to_multiset().len() == bags[1].len() + 1);
    } else {
        lemma_bag_chain(bags, draws, k - 1);
        assert(next_draw_rel(bags[k - 1], draws[k - 1], bags[k]));
        assert(bags[k - 1].len() > 0);
        assert(draws[k - 1] == bags[k - 1].last() && bags[k] == bags[k - 1].drop_last());
        assert(bags[k - 1].drop_last().push(bags[k - 1].last()) =~= bags[k - 1]);
        assert(bags[k].push(draws[k - 1]).to_multiset() == bags[k].to_multiset().insert(
            draws[k - 1],
        ));
        assert(bags[k].push(draws[k - 1]) =~= bags[k - 1]);
        assert(bags[k - 1].to_multiset() == bags[k].to_multiset().insert(draws[k - 1]));
        assert(draws.take(k) =~= draws.take(k - 1).push(draws[k - 1]));
        assert(draws.take(k - 1).push(draws[k - 1]).to_multiset() == draws.take(
            k - 1,
        ).to_multiset().insert(draws[k - 1]));
        assert(draws.take(k).to_multiset() == draws.take(k - 1).to_multiset().insert(
            draws[k - 1],
        ));
        assert(bags[k].to_multiset().add(draws.take(k).to_multiset()) =~= bags[k - 1].to_multiset().add(
            draws.take(k - 1).to_multiset(),
        ));
    }
}

} // verus!
