//! A position as a root and the moves played from it.
//!
//! Keeping the moves apart from the root shows when a new position lies further down
//! the line of an earlier one, so that a search tree built for the earlier position can
//! be carried over.

use vstd::prelude::*;
use vstd::slice::slice_subrange;
use vstd::std_specs::cmp::PartialEqSpec;

use crate::outcome::clones_are_equal;
use crate::outcome::outcomes_2;
use crate::outcome::single_2;

verus! {

/// A root position and the moves played from it, in order.
///
/// `P` is the type of positions and `M` the type of moves.
pub struct SearchPosition<P, M> {
    pub root_position: P,
    pub moves: Vec<M>,
}

/// Whether playing `moves` one after the other from `start` can lead to `end`, where `step`
/// says what a move can make of a position.
pub open spec fn played<P, M>(
    step: spec_fn(P, M, P) -> bool,
    start: P,
    moves: Seq<M>,
    end: P,
) -> bool
    decreases moves.len(),
{
    if moves.len() == 0 {
        end == start
    } else {
        exists|mid: P|
            played(step, start, moves.drop_last(), mid) && #[trigger] step(mid, moves.last(), end)
    }
}

/// The moves that lead from `earlier` to `later`, if `later` has the same root and
/// starts with the same moves.
pub open spec fn difference<P: PartialEq, M: PartialEq>(
    earlier: SearchPosition<P, M>,
    later: SearchPosition<P, M>,
) -> Option<Seq<M>> {
    if earlier.root_position.eq_spec(&later.root_position) && earlier.moves@.len()
        <= later.moves@.len() && forall|i: int|
        0 <= i < earlier.moves@.len() ==> #[trigger] earlier.moves@[i].eq_spec(&later.moves@[i]) {
        Some(later.moves@.skip(earlier.moves@.len() as int))
    } else {
        None
    }
}

impl<P: Clone, M> SearchPosition<P, M> {
    /// Whether `end` is a position that playing the moves from a clone of the root can lead
    /// to, where `step` says what a move can make of a position.
    pub open spec fn reaches(self, step: spec_fn(P, M, P) -> bool, end: P) -> bool {
        exists|start: P|
            cloned(self.root_position, start) && #[trigger] played(step, start, self.moves@, end)
    }

    /// Whether `copy` is a copy of this one: a clone of the root, and the same moves.
    pub open spec fn copied(self, copy: Self) -> bool {
        &&& cloned(self.root_position, copy.root_position)
        &&& copy.moves@ == self.moves@
    }
}

impl<P: Clone, M: Copy> SearchPosition<P, M> {
    /// The position that the moves lead to.
    pub fn position<F: Fn(P, M) -> P>(&self, do_move: &F) -> (end: P)
        requires
            forall|p: P, m: M| call_requires(*do_move, (p, m)),
        ensures
            self.reaches(outcomes_2(*do_move), end),
    {
        let mut position = self.root_position.clone();
        let ghost start = position;
        let mut i: usize = 0;
        assert(self.moves@.take(0) =~= Seq::empty());
        while i < self.moves.len()
            invariant
                forall|p: P, m: M| call_requires(*do_move, (p, m)),
                cloned(self.root_position, start),
                i <= self.moves@.len(),
                played(outcomes_2(*do_move), start, self.moves@.take(i as int), position),
            decreases self.moves.len() - i,
        {
            let ghost before = position;
            position = do_move(position, self.moves[i]);
            assert(self.moves@.take(i + 1).drop_last() =~= self.moves@.take(i as int));
            assert(outcomes_2(*do_move)(before, self.moves@.take(i + 1).last(), position));
            i = i + 1;
        }
        assert(self.moves@.take(i as int) =~= self.moves@);
        position
    }
}

impl<P: Clone, M: Copy> Clone for SearchPosition<P, M> {
    /// A copy: a clone of the root, and the same moves.
    fn clone(&self) -> (copy: Self)
        ensures
            self.copied(copy),
    {
        let mut moves: Vec<M> = Vec::new();
        let mut i: usize = 0;
        while i < self.moves.len()
            invariant
                i <= self.moves@.len(),
                moves@ == self.moves@.take(i as int),
            decreases self.moves.len() - i,
        {
            moves.push(self.moves[i]);
            assert(self.moves@.take(i + 1) =~= self.moves@.take(i as int).push(
                self.moves@[i as int],
            ));
            i = i + 1;
        }
        assert(self.moves@.take(i as int) =~= self.moves@);
        SearchPosition { root_position: self.root_position.clone(), moves }
    }
}

impl<P: PartialEq, M: PartialEq> SearchPosition<P, M> {
    /// Returns the moves needed to reach `new_position` from this one if `new_position`
    /// lies further down the same line; otherwise `None`.
    pub fn move_difference<'a>(&self, new_position: &'a SearchPosition<P, M>) -> (diff: Option<
        &'a [M],
    >)
        ensures
            diff matches Some(moves) ==> self.moves@.len() <= new_position.moves@.len() && moves@
                == new_position.moves@.skip(self.moves@.len() as int),
            P::obeys_eq_spec() && M::obeys_eq_spec() ==> match diff {
                Some(moves) => difference(*self, *new_position) == Some(moves@),
                None => difference(*self, *new_position) is None,
            },
    {
        if self.root_position != new_position.root_position {
            return None;
        }
        if new_position.moves.len() < self.moves.len() {
            return None;
        }
        let mut i: usize = 0;
        while i < self.moves.len()
            invariant
                i <= self.moves@.len() <= new_position.moves@.len(),
                M::obeys_eq_spec() ==> forall|k: int|
                    0 <= k < i ==> #[trigger] self.moves@[k].eq_spec(&new_position.moves@[k]),
            decreases self.moves.len() - i,
        {
            if self.moves[i] != new_position.moves[i] {
                assert(M::obeys_eq_spec() ==> !self.moves@[i as int].eq_spec(
                    &new_position.moves@[i as int],
                ));
                return None;
            }
            i = i + 1;
        }
        let rest = slice_subrange(
            new_position.moves.as_slice(),
            self.moves.len(),
            new_position.moves.len(),
        );
        assert(rest@ =~= new_position.moves@.skip(self.moves@.len() as int));
        Some(rest)
    }
}

/// Playing `first` and then `second` is playing the two lists as one.
pub proof fn law_played_in_two_steps<P, M>(
    step: spec_fn(P, M, P) -> bool,
    start: P,
    first: Seq<M>,
    mid: P,
    second: Seq<M>,
    end: P,
)
    requires
        played(step, start, first, mid),
        played(step, mid, second, end),
    ensures
        played(step, start, first + second, end),
    decreases second.len(),
{
    if second.len() == 0 {
        assert(first + second =~= first);
    } else {
        let before = choose|before: P|
            played(step, mid, second.drop_last(), before) && #[trigger] step(
                before,
                second.last(),
                end,
            );
        law_played_in_two_steps(step, start, first, mid, second.drop_last(), before);
        assert((first + second).drop_last() =~= first + second.drop_last());
        assert(step(before, (first + second).last(), end));
    }
}

/// Equality, as the comparison of `T` decides it, is equality of values.
pub open spec fn compares_values<T: PartialEq>() -> bool {
    forall|a: T, b: T| #[trigger] a.eq_spec(&b) <==> a == b
}

/// Where there is a difference, the later position is the earlier one with the
/// difference played on top: the same root, and the moves of the earlier one followed
/// by the difference.
pub proof fn law_difference_completes<P: PartialEq, M: PartialEq>(
    earlier: SearchPosition<P, M>,
    later: SearchPosition<P, M>,
)
    requires
        compares_values::<P>(),
        compares_values::<M>(),
    ensures
        difference(earlier, later) matches Some(diff) ==> {
            &&& later.root_position == earlier.root_position
            &&& later.moves@ == earlier.moves@ + diff
        },
{
    if let Some(diff) = difference(earlier, later) {
        assert forall|i: int| 0 <= i < earlier.moves@.len() implies #[trigger] earlier.moves@[i]
            == later.moves@[i] by {
            assert(earlier.moves@[i].eq_spec(&later.moves@[i]));
        }
        assert(later.moves@ =~= earlier.moves@ + diff);
    }
}

/// Every continuation of a position is found: if the later position is the earlier one
/// with `diff` played on top, the difference is `diff`.
pub proof fn law_difference_finds_continuations<P: PartialEq, M: PartialEq>(
    earlier: SearchPosition<P, M>,
    later: SearchPosition<P, M>,
    diff: Seq<M>,
)
    requires
        compares_values::<P>(),
        compares_values::<M>(),
        later.root_position == earlier.root_position,
        later.moves@ == earlier.moves@ + diff,
    ensures
        difference(earlier, later) == Some(diff),
{
    assert forall|i: int| 0 <= i < earlier.moves@.len() implies #[trigger] earlier.moves@[i].eq_spec(
        &later.moves@[i],
    ) by {
        assert(later.moves@[i] == earlier.moves@[i]);
    }
    assert(later.moves@.skip(earlier.moves@.len() as int) =~= diff);
}

/// A position lies no moves below itself.
pub proof fn law_difference_to_itself<P: PartialEq, M: PartialEq>(position: SearchPosition<P, M>)
    requires
        compares_values::<P>(),
        compares_values::<M>(),
    ensures
        difference(position, position) == Some(Seq::<M>::empty()),
{
    assert(position.moves@ =~= position.moves@ + Seq::<M>::empty());
    law_difference_finds_continuations(position, position, Seq::empty());
}

/// Differences add up along a line of positions.
pub proof fn law_differences_add_up<P: PartialEq, M: PartialEq>(
    a: SearchPosition<P, M>,
    b: SearchPosition<P, M>,
    c: SearchPosition<P, M>,
)
    requires
        compares_values::<P>(),
        compares_values::<M>(),
        difference(a, b) is Some,
        difference(b, c) is Some,
    ensures
        difference(a, c) == Some(difference(a, b)->0 + difference(b, c)->0),
{
    law_difference_completes(a, b);
    law_difference_completes(b, c);
    let ab = difference(a, b)->0;
    let bc = difference(b, c)->0;
    assert(c.moves@ =~= a.moves@ + (ab + bc));
    law_difference_finds_continuations(a, c, ab + bc);
}

/// Carrying a tree over is sound: a position that the earlier moves lead to, with the
/// difference played on top, is a position that the later moves lead to.
pub proof fn law_difference_reaches_later<P: Clone + PartialEq, M: PartialEq>(
    earlier: SearchPosition<P, M>,
    later: SearchPosition<P, M>,
    step: spec_fn(P, M, P) -> bool,
    mid: P,
    end: P,
)
    requires
        compares_values::<P>(),
        compares_values::<M>(),
        difference(earlier, later) is Some,
        earlier.reaches(step, mid),
        played(step, mid, difference(earlier, later)->0, end),
    ensures
        later.reaches(step, end),
{
    law_difference_completes(earlier, later);
    let diff = difference(earlier, later)->0;
    let start = choose|start: P|
        cloned(earlier.root_position, start) && #[trigger] played(
            step,
            start,
            earlier.moves@,
            mid,
        );
    law_played_in_two_steps(step, start, earlier.moves@, mid, diff, end);
    assert(played(step, start, later.moves@, end));
}

/// Where a move leads to one position only, so does a list of moves.
pub proof fn law_played_one_way<P, M>(
    step: spec_fn(P, M, P) -> bool,
    start: P,
    moves: Seq<M>,
    first: P,
    second: P,
)
    requires
        single_2(step),
        played(step, start, moves, first),
        played(step, start, moves, second),
    ensures
        first == second,
    decreases moves.len(),
{
    if moves.len() > 0 {
        let a = choose|mid: P|
            played(step, start, moves.drop_last(), mid) && #[trigger] step(
                mid,
                moves.last(),
                first,
            );
        let b = choose|mid: P|
            played(step, start, moves.drop_last(), mid) && #[trigger] step(
                mid,
                moves.last(),
                second,
            );
        law_played_one_way(step, start, moves.drop_last(), a, b);
    }
}

/// Where moves lead to one position only and clones are equal, the moves of a position lead to
/// one position only, however often they are played; without moves it is the root.
pub proof fn law_position_is_one<P: Clone, M>(
    position: SearchPosition<P, M>,
    step: spec_fn(P, M, P) -> bool,
    first: P,
    second: P,
)
    requires
        single_2(step),
        clones_are_equal::<P>(),
        position.reaches(step, first),
        position.reaches(step, second),
    ensures
        first == second,
        position.moves@.len() == 0 ==> first == position.root_position,
{
    let a = choose|start: P|
        cloned(position.root_position, start) && #[trigger] played(
            step,
            start,
            position.moves@,
            first,
        );
    let b = choose|start: P|
        cloned(position.root_position, start) && #[trigger] played(
            step,
            start,
            position.moves@,
            second,
        );
    assert(a == b);
    law_played_one_way(step, a, position.moves@, first, second);
}

/// Where moves lead to one position only and clones are equal, playing the difference on top of
/// the earlier position gives the later position itself.
pub proof fn law_difference_gives_later<P: Clone + PartialEq, M: PartialEq>(
    earlier: SearchPosition<P, M>,
    later: SearchPosition<P, M>,
    step: spec_fn(P, M, P) -> bool,
    mid: P,
    end: P,
    later_end: P,
)
    requires
        single_2(step),
        clones_are_equal::<P>(),
        compares_values::<P>(),
        compares_values::<M>(),
        difference(earlier, later) is Some,
        earlier.reaches(step, mid),
        played(step, mid, difference(earlier, later)->0, end),
        later.reaches(step, later_end),
    ensures
        end == later_end,
{
    law_difference_reaches_later(earlier, later, step, mid, end);
    law_position_is_one(later, step, end, later_end);
}

/// Playing a list of moves passes through one position for each move, and every move is played,
/// in order, in the position that the one before it led to.
pub proof fn law_every_move_is_played<P, M>(
    step: spec_fn(P, M, P) -> bool,
    start: P,
    moves: Seq<M>,
    end: P,
) -> (path: Seq<P>)
    requires
        played(step, start, moves, end),
    ensures
        path.len() == moves.len() + 1,
        path[0] == start,
        path.last() == end,
        forall|i: int| 0 <= i < moves.len() ==> step(path[i], #[trigger] moves[i], path[i + 1]),
    decreases moves.len(),
{
    if moves.len() == 0 {
        seq![start]
    } else {
        let mid = choose|mid: P|
            played(step, start, moves.drop_last(), mid) && #[trigger] step(mid, moves.last(), end);
        let front = law_every_move_is_played(step, start, moves.drop_last(), mid);
        let path = front.push(end);
        assert forall|i: int| 0 <= i < moves.len() implies step(
            path[i],
            #[trigger] moves[i],
            path[i + 1],
        ) by {
            if i < moves.len() - 1 {
                assert(moves.drop_last()[i] == moves[i]);
                assert(path[i] == front[i] && path[i + 1] == front[i + 1]);
            }
        }
        path
    }
}

/// Positions that every move leads on through, one after the other, are what playing the moves
/// can lead to.
pub proof fn law_path_is_played<P, M>(
    step: spec_fn(P, M, P) -> bool,
    moves: Seq<M>,
    path: Seq<P>,
)
    requires
        path.len() == moves.len() + 1,
        forall|i: int| 0 <= i < moves.len() ==> step(path[i], #[trigger] moves[i], path[i + 1]),
    ensures
        played(step, path[0], moves, path.last()),
    decreases moves.len(),
{
    if moves.len() > 0 {
        let front = path.drop_last();
        let less = moves.drop_last();
        assert forall|i: int| 0 <= i < less.len() implies step(
            front[i],
            #[trigger] less[i],
            front[i + 1],
        ) by {
            assert(step(path[i], moves[i], path[i + 1]));
        }
        law_path_is_played(step, less, front);
        assert(step(path[moves.len() - 1], moves[moves.len() - 1], path[moves.len() as int]));
        assert(step(front.last(), moves.last(), path.last()));
    }
}

/// The position that the moves lead to is found by playing every one of them, in order, from a
/// clone of the root.
pub proof fn law_position_plays_every_move<P: Clone, M, F: Fn(P, M) -> P>(
    position: SearchPosition<P, M>,
    do_move: F,
    end: P,
) -> (path: Seq<P>)
    requires
        position.reaches(outcomes_2(do_move), end),
    ensures
        path.len() == position.moves@.len() + 1,
        cloned(position.root_position, path[0]),
        path.last() == end,
        forall|i: int|
            0 <= i < position.moves@.len() ==> call_ensures(
                do_move,
                (path[i], #[trigger] position.moves@[i]),
                path[i + 1],
            ),
{
    let step = outcomes_2(do_move);
    let start = choose|start: P|
        cloned(position.root_position, start) && #[trigger] played(
            step,
            start,
            position.moves@,
            end,
        );
    let path = law_every_move_is_played(step, start, position.moves@, end);
    assert forall|i: int| 0 <= i < position.moves@.len() implies call_ensures(
        do_move,
        (path[i], #[trigger] position.moves@[i]),
        path[i + 1],
    ) by {
        assert(step(path[i], position.moves@[i], path[i + 1]));
    }
    path
}

/// There is a difference exactly if the root is the same and the later position starts with the
/// moves of the earlier one; it is the moves behind these.
pub proof fn law_difference_is_what_was_played_since<P: PartialEq, M: PartialEq>(
    earlier: SearchPosition<P, M>,
    later: SearchPosition<P, M>,
)
    requires
        forall|a: P, b: P| #[trigger] a.eq_spec(&b) <==> a == b,
        forall|a: M, b: M| #[trigger] a.eq_spec(&b) <==> a == b,
    ensures
        difference(earlier, later) is Some <==> earlier.root_position == later.root_position
            && earlier.moves@.len() <= later.moves@.len() && forall|i: int|
            0 <= i < earlier.moves@.len() ==> #[trigger] earlier.moves@[i] == later.moves@[i],
        difference(earlier, later) matches Some(diff) ==> diff.len() == later.moves@.len()
            - earlier.moves@.len() && forall|i: int|
            0 <= i < diff.len() ==> #[trigger] diff[i] == later.moves@[earlier.moves@.len() + i],
{
    if forall|i: int|
        0 <= i < earlier.moves@.len() ==> #[trigger] earlier.moves@[i] == later.moves@[i] {
        assert forall|i: int| 0 <= i < earlier.moves@.len() implies
            #[trigger] earlier.moves@[i].eq_spec(&later.moves@[i]) by {
            assert(earlier.moves@[i] == later.moves@[i]);
        }
    }
    if difference(earlier, later) is Some {
        assert forall|i: int| 0 <= i < earlier.moves@.len() implies #[trigger] earlier.moves@[i]
            == later.moves@[i] by {
            assert(earlier.moves@[i].eq_spec(&later.moves@[i]));
        }
    }
}

/// A copy has a clone of the root and the same moves.
pub proof fn law_copy_has_the_same_moves<P: Clone, M>(
    position: SearchPosition<P, M>,
    copy: SearchPosition<P, M>,
)
    requires
        position.copied(copy),
    ensures
        cloned(position.root_position, copy.root_position),
        copy.moves@.len() == position.moves@.len(),
        forall|i: int| 0 <= i < position.moves@.len() ==> #[trigger] copy.moves@[i]
            == position.moves@[i],
{
}

} // verus!
