//! The `position` command: a root, and the moves to play from it.

use vstd::prelude::*;
use vstd::slice::slice_subrange;

use crate::error::TeiError;
use crate::outcome::clones_are_equal;
use crate::outcome::outcomes_2;
use crate::outcome::single_2;
use crate::protocol::is_playable;
use crate::search_position::compares_values;
use crate::search_position::difference;
use crate::search_position::law_difference_finds_continuations;
use crate::search_position::law_position_is_one;
use crate::search_position::played;
use crate::search_position::SearchPosition;
use crate::text::is_word;
use crate::text::join_words;
use crate::text::joined;
use crate::text::law_joined_words_split_back;
use crate::text::law_words_across_white_space;
use crate::text::same_text;
use crate::text::split_words;
use crate::text::views;
use crate::text::words;

verus! {

/// Whether the words of `list` can be read as the moves `moves`, each in the position that the
/// ones before it lead to from `start`, and `end` be where they all lead to. `reads` says what a
/// text can be read as in a position, and `step` what a move can make of one.
pub open spec fn moves_read<P, M>(
    reads: spec_fn(P, Seq<char>, Result<M, String>) -> bool,
    step: spec_fn(P, M, P) -> bool,
    start: P,
    list: Seq<Seq<char>>,
    moves: Seq<M>,
    end: P,
) -> bool
    decreases list.len(),
{
    &&& moves.len() == list.len()
    &&& if list.len() == 0 {
        end == start
    } else {
        exists|before: P|
            moves_read(reads, step, start, list.drop_last(), moves.drop_last(), before) && reads(
                before,
                list.last(),
                Ok(moves.last()),
            ) && #[trigger] step(before, moves.last(), end)
    }
}

/// Whether the words of `list`, read as moves from `start` on, can be refused for this reason.
/// The words before the one that is refused are read as moves.
pub open spec fn moves_refused<P, M>(
    reads: spec_fn(P, Seq<char>, Result<M, String>) -> bool,
    step: spec_fn(P, M, P) -> bool,
    start: P,
    list: Seq<Seq<char>>,
    reason: String,
) -> bool {
    exists|n: int, moves: Seq<M>, before: P|
        0 <= n < list.len() && #[trigger] moves_read(
            reads,
            step,
            start,
            list.take(n),
            moves,
            before,
        ) && reads(before, list[n], Err(reason))
}

/// The calls that reading a position makes. `P` is the type of positions, `M` that of moves
/// and `K` that of komi values.
pub struct PositionCalls<StartPosition, FromTps, MoveFromSan, DoMove> {
    /// The start position on a board of a given size.
    pub start_position: StartPosition,
    /// The position that a TPS string describes, on a board of a given size.
    pub from_tps: FromTps,
    /// The move that a text stands for in a position.
    pub move_from_san: MoveFromSan,
    /// The position after a move.
    pub do_move: DoMove,
}

impl<StartPosition, FromTps, MoveFromSan, DoMove> PositionCalls<
    StartPosition,
    FromTps,
    MoveFromSan,
    DoMove,
> {
    /// Whether every call may be made with every argument, board sizes being those that games
    /// are played on.
    pub open spec fn callable<P, M, K>(self) -> bool where
        StartPosition: Fn(usize, K) -> P,
        FromTps: Fn(&str, usize, K) -> Result<P, String>,
        MoveFromSan: Fn(&P, &str) -> Result<M, String>,
        DoMove: Fn(P, M) -> P,
     {
        &&& forall|n: usize, k: K|
            is_playable(n) ==> #[trigger] call_requires(self.start_position, (n, k))
        &&& forall|t: &str, n: usize, k: K|
            is_playable(n) ==> #[trigger] call_requires(self.from_tps, (t, n, k))
        &&& forall|p: &P, t: &str| call_requires(self.move_from_san, (p, t))
        &&& forall|p: P, m: M| call_requires(self.do_move, (p, m))
    }

    /// Which moves a text can be read as in a position, or why it can be refused.
    pub open spec fn reads<P, M>(self) -> spec_fn(P, Seq<char>, Result<M, String>) -> bool where
        MoveFromSan: Fn(&P, &str) -> Result<M, String>,
     {
        |position: P, text: Seq<char>, read: Result<M, String>|
            exists|san: &str|
                san@ == text && #[trigger] call_ensures(self.move_from_san, (&position, san), read)
    }

    /// Whether the words of `list` can be read as the moves `moves`, from a copy of `root` on.
    pub open spec fn line_read<P: Clone, M>(
        self,
        root: P,
        list: Seq<Seq<char>>,
        moves: Seq<M>,
    ) -> bool where MoveFromSan: Fn(&P, &str) -> Result<M, String>, DoMove: Fn(P, M) -> P {
        exists|start: P, end: P|
            cloned(root, start) && #[trigger] moves_read(
                self.reads::<P, M>(),
                outcomes_2(self.do_move),
                start,
                list,
                moves,
                end,
            )
    }

    /// Whether the words of `list`, read as moves from a copy of `root` on, can be refused for
    /// this reason.
    pub open spec fn line_refused<P: Clone, M>(
        self,
        root: P,
        list: Seq<Seq<char>>,
        reason: String,
    ) -> bool where MoveFromSan: Fn(&P, &str) -> Result<M, String>, DoMove: Fn(P, M) -> P {
        exists|start: P|
            cloned(root, start) && #[trigger] moves_refused(
                self.reads::<P, M>(),
                outcomes_2(self.do_move),
                start,
                list,
                reason,
            )
    }

    /// Whether the words of `list` behind the root can make `read` of it. There may be none;
    /// otherwise the first is `moves`, and the others are moves, played on a copy of the root.
    pub open spec fn rest_read<P: Clone, M>(
        self,
        root: P,
        list: Seq<Seq<char>>,
        read: Result<SearchPosition<P, M>, TeiError>,
    ) -> bool where MoveFromSan: Fn(&P, &str) -> Result<M, String>, DoMove: Fn(P, M) -> P {
        if list.len() == 0 {
            read matches Ok(position) && position.root_position == root && position.moves@.len()
                == 0
        } else if list[0] != "moves"@ {
            read matches Err(TeiError::ExpectedMoves(word)) && word@ == list[0]
        } else {
            match read {
                Ok(position) => position.root_position == root && self.line_read(
                    root,
                    list.skip(1),
                    position.moves@,
                ),
                Err(TeiError::InvalidMove(reason)) => self.line_refused::<P, M>(
                    root,
                    list.skip(1),
                    reason,
                ),
                Err(_) => false,
            }
        }
    }

    /// Where the TPS string ends among the words of `list`: it is made of the three words
    /// behind `tps`, or of fewer if there are no more.
    pub open spec fn tps_end(list: Seq<Seq<char>>) -> int {
        if list.len() < 5 {
            list.len() as int
        } else {
            5
        }
    }

    /// Whether the words of a `position` command can make `read` of it, on a board of the size
    /// `size`. The first word is the command itself, and the second says what the root is.
    pub open spec fn position_read<P: Clone, M, K>(
        self,
        list: Seq<Seq<char>>,
        size: usize,
        komi: K,
        read: Result<SearchPosition<P, M>, TeiError>,
    ) -> bool where
        StartPosition: Fn(usize, K) -> P,
        FromTps: Fn(&str, usize, K) -> Result<P, String>,
        MoveFromSan: Fn(&P, &str) -> Result<M, String>,
        DoMove: Fn(P, M) -> P,
     {
        if list.len() >= 2 && list[1] == "startpos"@ {
            exists|root: P| #[trigger]
                call_ensures(self.start_position, (size, komi), root) && self.rest_read(
                    root,
                    list.skip(2),
                    read,
                )
        } else if list.len() >= 2 && list[1] == "tps"@ {
            exists|tps: &str, found: Result<P, String>|
                tps@ == joined(list.subrange(2, Self::tps_end(list))) && #[trigger] call_ensures(
                    self.from_tps,
                    (tps, size, komi),
                    found,
                ) && match found {
                    Ok(root) => self.rest_read(root, list.skip(Self::tps_end(list)), read),
                    Err(reason) => read == Err::<SearchPosition<P, M>, TeiError>(
                        TeiError::InvalidTps(reason),
                    ),
                }
        } else {
            read == Err::<SearchPosition<P, M>, TeiError>(TeiError::ExpectedRoot)
        }
    }

    /// Reads the moves behind the root.
    fn read_moves<P: Clone, M: Copy, K>(&self, root: P, list: &[&str]) -> (read: Result<
        SearchPosition<P, M>,
        TeiError,
    >) where
        StartPosition: Fn(usize, K) -> P,
        FromTps: Fn(&str, usize, K) -> Result<P, String>,
        MoveFromSan: Fn(&P, &str) -> Result<M, String>,
        DoMove: Fn(P, M) -> P,

        requires
            self.callable::<P, M, K>(),
        ensures
            self.rest_read(root, views(list@), read),
    {
        let mut moves: Vec<M> = Vec::new();
        if list.len() == 0 {
            return Ok(SearchPosition { root_position: root, moves });
        }
        let ghost all = views(list@);
        assert(all[0] == list@[0]@);
        if !same_text(list[0], "moves") {
            return Err(TeiError::ExpectedMoves(list[0].to_owned()));
        }
        let ghost reads = self.reads::<P, M>();
        let ghost step = outcomes_2(self.do_move);
        let mut scratch = root.clone();
        let ghost start = scratch;
        let ghost texts = all.skip(1);
        let mut i: usize = 1;
        assert(texts.take(0) =~= Seq::empty());
        while i < list.len()
            invariant
                self.callable::<P, M, K>(),
                cloned(root, start),
                all == views(list@),
                all.len() > 0 && all[0] == "moves"@,
                texts == all.skip(1),
                1 <= i <= list@.len(),
                reads == self.reads::<P, M>(),
                step == outcomes_2(self.do_move),
                moves_read(reads, step, start, texts.take(i - 1), moves@, scratch),
            decreases list.len() - i,
        {
            let ghost before = scratch;
            let ghost played = moves@;
            assert(texts[i - 1] == list@[i as int]@);
            match (self.move_from_san)(&scratch, list[i]) {
                Err(reason) => {
                    proof {
                        let n = i - 1;
                        let san = list@[i as int];
                        assert(call_ensures(self.move_from_san, (&before, san), Err(reason)));
                        assert(reads(before, texts[n], Err(reason)));
                        assert(moves_read(reads, step, start, texts.take(n), played, before));
                        assert(moves_refused(reads, step, start, texts, reason));
                        assert(self.line_refused::<P, M>(root, texts, reason));
                    }
                    return Err(TeiError::InvalidMove(reason));
                },
                Ok(mv) => {
                    scratch = (self.do_move)(scratch, mv);
                    moves.push(mv);
                    proof {
                        let more = texts.take(i as int);
                        let san = list@[i as int];
                        assert(more.drop_last() =~= texts.take(i - 1));
                        assert(more.last() == san@);
                        assert(moves@.drop_last() =~= played);
                        assert(call_ensures(
                            self.move_from_san,
                            (&before, san),
                            Ok(moves@.last()),
                        ));
                        assert(reads(before, more.last(), Ok(moves@.last())));
                        assert(step(before, moves@.last(), scratch));
                        assert(moves_read(reads, step, start, more, moves@, scratch));
                    }
                },
            }
            i = i + 1;
        }
        assert(texts.take(i - 1) =~= texts);
        assert(self.line_read(root, texts, moves@));
        Ok(SearchPosition { root_position: root, moves })
    }

    /// Reads a `position` command, on a board of the size `size`.
    pub fn parse_position_string<P: Clone, M: Copy, K: Copy>(
        &self,
        line: &str,
        size: usize,
        komi: K,
    ) -> (read: Result<SearchPosition<P, M>, TeiError>) where
        StartPosition: Fn(usize, K) -> P,
        FromTps: Fn(&str, usize, K) -> Result<P, String>,
        MoveFromSan: Fn(&P, &str) -> Result<M, String>,
        DoMove: Fn(P, M) -> P,

        requires
            is_playable(size),
            self.callable::<P, M, K>(),
        ensures
            self.position_read(words(line@), size, komi, read),
    {
        let list = split_words(line);
        let ghost all = words(line@);
        if list.len() < 2 {
            return Err(TeiError::ExpectedRoot);
        }
        assert(all[1] == list@[1]@);
        if same_text(list[1], "startpos") {
            let root = (self.start_position)(size, komi);
            let rest = slice_subrange(list.as_slice(), 2, list.len());
            assert(views(rest@) =~= all.skip(2));
            assert(call_ensures(self.start_position, (size, komi), root));
            self.read_moves::<P, M, K>(root, rest)
        } else if same_text(list[1], "tps") {
            assert("tps"@ != "startpos"@) by {
                reveal_strlit("tps");
                reveal_strlit("startpos");
            }
            let end: usize = if list.len() < 5 {
                list.len()
            } else {
                5
            };
            let parts = slice_subrange(list.as_slice(), 2, end);
            assert(views(parts@) =~= all.subrange(2, end as int));
            let text = join_words(parts);
            let tps = text.as_str();
            let found = (self.from_tps)(tps, size, komi);
            assert(call_ensures(self.from_tps, (tps, size, komi), found));
            match found {
                Err(reason) => Err(TeiError::InvalidTps(reason)),
                Ok(root) => {
                    let rest = slice_subrange(list.as_slice(), end, list.len());
                    assert(views(rest@) =~= all.skip(end as int));
                    self.read_moves::<P, M, K>(root, rest)
                },
            }
        } else {
            Err(TeiError::ExpectedRoot)
        }
    }
}

// ---------------------------------------------------------------------------
// Laws
// ---------------------------------------------------------------------------

impl<StartPosition, FromTps, MoveFromSan, DoMove> PositionCalls<
    StartPosition,
    FromTps,
    MoveFromSan,
    DoMove,
> {
    /// Whether every call has one result only, which depends on its arguments, texts taken by
    /// their characters, and whether clones of positions are equal to them.
    pub open spec fn decided<P: Clone, M, K>(self) -> bool where
        StartPosition: Fn(usize, K) -> P,
        FromTps: Fn(&str, usize, K) -> Result<P, String>,
        MoveFromSan: Fn(&P, &str) -> Result<M, String>,
        DoMove: Fn(P, M) -> P,
     {
        &&& single_2(outcomes_2(self.start_position))
        &&& forall|s: &str, t: &str, n: usize, k: K, a: Result<P, String>, b: Result<P, String>|
            s@ == t@ && #[trigger] call_ensures(self.from_tps, (s, n, k), a)
                && #[trigger] call_ensures(self.from_tps, (t, n, k), b) ==> a == b
        &&& forall|p: &P, s: &str, t: &str, a: Result<M, String>, b: Result<M, String>|
            s@ == t@ && #[trigger] call_ensures(self.move_from_san, (p, s), a)
                && #[trigger] call_ensures(self.move_from_san, (p, t), b) ==> a == b
        &&& single_2(outcomes_2(self.do_move))
        &&& clones_are_equal::<P>()
    }
}

/// Where reading and playing moves have one outcome only, so has reading a list of them.
proof fn lemma_moves_read_one_way<P, M>(
    reads: spec_fn(P, Seq<char>, Result<M, String>) -> bool,
    step: spec_fn(P, M, P) -> bool,
    start: P,
    list: Seq<Seq<char>>,
    first: Seq<M>,
    first_end: P,
    second: Seq<M>,
    second_end: P,
)
    requires
        single_2(reads),
        single_2(step),
        moves_read(reads, step, start, list, first, first_end),
        moves_read(reads, step, start, list, second, second_end),
    ensures
        first == second,
        first_end == second_end,
    decreases list.len(),
{
    if list.len() == 0 {
        assert(first =~= second);
    } else {
        let front = list.drop_last();
        let a = choose|before: P|
            moves_read(reads, step, start, front, first.drop_last(), before) && reads(
                before,
                list.last(),
                Ok(first.last()),
            ) && #[trigger] step(before, first.last(), first_end);
        let b = choose|before: P|
            moves_read(reads, step, start, front, second.drop_last(), before) && reads(
                before,
                list.last(),
                Ok(second.last()),
            ) && #[trigger] step(before, second.last(), second_end);
        lemma_moves_read_one_way(
            reads,
            step,
            start,
            front,
            first.drop_last(),
            a,
            second.drop_last(),
            b,
        );
        let read: Result<M, String> = Ok(first.last());
        let other: Result<M, String> = Ok(second.last());
        assert(reads(a, list.last(), read) && reads(a, list.last(), other));
        assert(read == other);
        assert(first =~= first.drop_last().push(first.last()));
        assert(second =~= second.drop_last().push(second.last()));
    }
}

/// A list of moves is read from its front: what it starts with is read as if it were all.
proof fn lemma_front_is_read<P, M>(
    reads: spec_fn(P, Seq<char>, Result<M, String>) -> bool,
    step: spec_fn(P, M, P) -> bool,
    start: P,
    front: Seq<Seq<char>>,
    more: Seq<Seq<char>>,
    moves: Seq<M>,
    end: P,
) -> (mid: P)
    requires
        moves_read(reads, step, start, front + more, moves, end),
    ensures
        moves.len() == front.len() + more.len(),
        moves_read(reads, step, start, front, moves.take(front.len() as int), mid),
    decreases more.len(),
{
    if more.len() == 0 {
        assert(front + more =~= front);
        assert(moves.take(front.len() as int) =~= moves);
        end
    } else {
        let list = front + more;
        let before = choose|before: P|
            moves_read(reads, step, start, list.drop_last(), moves.drop_last(), before) && reads(
                before,
                list.last(),
                Ok(moves.last()),
            ) && #[trigger] step(before, moves.last(), end);
        assert(list.drop_last() =~= front + more.drop_last());
        let mid = lemma_front_is_read(
            reads,
            step,
            start,
            front,
            more.drop_last(),
            moves.drop_last(),
            before,
        );
        assert(moves.drop_last().take(front.len() as int) =~= moves.take(front.len() as int));
        mid
    }
}

/// Where every call has one result, a text is read as one move.
proof fn lemma_reads_one_way<P, M, K, StartPosition, FromTps, MoveFromSan, DoMove>(
    calls: PositionCalls<StartPosition, FromTps, MoveFromSan, DoMove>,
) where
    P: Clone,
    StartPosition: Fn(usize, K) -> P,
    FromTps: Fn(&str, usize, K) -> Result<P, String>,
    MoveFromSan: Fn(&P, &str) -> Result<M, String>,
    DoMove: Fn(P, M) -> P,

    requires
        calls.decided::<P, M, K>(),
    ensures
        single_2(calls.reads::<P, M>()),
{
    let reads = calls.reads::<P, M>();
    assert forall|p: P, t: Seq<char>, x: Result<M, String>, y: Result<M, String>| #[trigger]
        reads(p, t, x) && #[trigger] reads(p, t, y) implies x == y by {
        let s1 = choose|san: &str|
            san@ == t && #[trigger] call_ensures(calls.move_from_san, (&p, san), x);
        let s2 = choose|san: &str|
            san@ == t && #[trigger] call_ensures(calls.move_from_san, (&p, san), y);
        assert(call_ensures(calls.move_from_san, (&p, s1), x));
        assert(call_ensures(calls.move_from_san, (&p, s2), y));
    }
}

/// What follows a line that is complete up to its root is read as further moves.
proof fn lemma_rest_continues<P, M, K, StartPosition, FromTps, MoveFromSan, DoMove>(
    calls: PositionCalls<StartPosition, FromTps, MoveFromSan, DoMove>,
    root: P,
    list: Seq<Seq<char>>,
    more: Seq<Seq<char>>,
    earlier: SearchPosition<P, M>,
    later: SearchPosition<P, M>,
) where
    P: Clone,
    StartPosition: Fn(usize, K) -> P,
    FromTps: Fn(&str, usize, K) -> Result<P, String>,
    MoveFromSan: Fn(&P, &str) -> Result<M, String>,
    DoMove: Fn(P, M) -> P,

    requires
        calls.decided::<P, M, K>(),
        calls.rest_read(root, list, Ok(earlier)),
        calls.rest_read(root, list + more, Ok(later)),
    ensures
        earlier.root_position == root,
        later.root_position == root,
        earlier.moves@.is_prefix_of(later.moves@),
{
    let all = list + more;
    if list.len() == 0 {
        assert(earlier.moves@ =~= later.moves@.subrange(0, 0));
    } else {
        let reads = calls.reads::<P, M>();
        let step = outcomes_2(calls.do_move);
        assert(all[0] == list[0]);
        assert(all.skip(1) =~= list.skip(1) + more);
        let (a, a_end) = choose|start: P, end: P|
            cloned(root, start) && #[trigger] moves_read(
                reads,
                step,
                start,
                list.skip(1),
                earlier.moves@,
                end,
            );
        let (b, b_end) = choose|start: P, end: P|
            cloned(root, start) && #[trigger] moves_read(
                reads,
                step,
                start,
                all.skip(1),
                later.moves@,
                end,
            );
        let n = list.skip(1).len() as int;
        let mid = lemma_front_is_read(
            reads,
            step,
            b,
            list.skip(1),
            more,
            later.moves@,
            b_end,
        );
        lemma_reads_one_way::<P, M, K, StartPosition, FromTps, MoveFromSan, DoMove>(calls);
        assert(a == b);
        lemma_moves_read_one_way(
            reads,
            step,
            a,
            list.skip(1),
            earlier.moves@,
            a_end,
            later.moves@.take(n),
            mid,
        );
        assert(earlier.moves@ =~= later.moves@.subrange(0, n));
    }
}

/// A line that carries another one further continues it. If the words of a `position` command,
/// complete up to the root at least, are followed by more words, and both lines are read, then
/// the longer line has the same root and starts with the moves of the shorter one, so that the
/// moves played since are found.
pub proof fn law_longer_line_continues_the_shorter<
    P,
    M,
    K,
    StartPosition,
    FromTps,
    MoveFromSan,
    DoMove,
>(
    calls: PositionCalls<StartPosition, FromTps, MoveFromSan, DoMove>,
    list: Seq<Seq<char>>,
    more: Seq<Seq<char>>,
    size: usize,
    komi: K,
    earlier: SearchPosition<P, M>,
    later: SearchPosition<P, M>,
) where
    P: Clone + PartialEq,
    M: PartialEq,
    StartPosition: Fn(usize, K) -> P,
    FromTps: Fn(&str, usize, K) -> Result<P, String>,
    MoveFromSan: Fn(&P, &str) -> Result<M, String>,
    DoMove: Fn(P, M) -> P,

    requires
        calls.decided::<P, M, K>(),
        compares_values::<P>(),
        compares_values::<M>(),
        list.len() >= 5 || list.len() >= 2 && list[1] == "startpos"@,
        calls.position_read(list, size, komi, Ok(earlier)),
        calls.position_read(list + more, size, komi, Ok(later)),
    ensures
        difference(earlier, later) == Some(later.moves@.skip(earlier.moves@.len() as int)),
{
    let all = list + more;
    assert(all[1] == list[1]);
    if list[1] == "startpos"@ {
        let a = choose|root: P| #[trigger]
            call_ensures(calls.start_position, (size, komi), root) && calls.rest_read(
                root,
                list.skip(2),
                Ok(earlier),
            );
        let b = choose|root: P| #[trigger]
            call_ensures(calls.start_position, (size, komi), root) && calls.rest_read(
                root,
                all.skip(2),
                Ok(later),
            );
        assert(outcomes_2(calls.start_position)(size, komi, a));
        assert(outcomes_2(calls.start_position)(size, komi, b));
        assert(all.skip(2) =~= list.skip(2) + more);
        lemma_rest_continues::<P, M, K, StartPosition, FromTps, MoveFromSan, DoMove>(
            calls,
            a,
            list.skip(2),
            more,
            earlier,
            later,
        );
    } else {
        let (s, a) = choose|tps: &str, found: Result<P, String>|
            tps@ == joined(list.subrange(2, 5)) && #[trigger] call_ensures(
                calls.from_tps,
                (tps, size, komi),
                found,
            ) && match found {
                Ok(root) => calls.rest_read(root, list.skip(5), Ok(earlier)),
                Err(_) => false,
            };
        let (t, b) = choose|tps: &str, found: Result<P, String>|
            tps@ == joined(all.subrange(2, 5)) && #[trigger] call_ensures(
                calls.from_tps,
                (tps, size, komi),
                found,
            ) && match found {
                Ok(root) => calls.rest_read(root, all.skip(5), Ok(later)),
                Err(_) => false,
            };
        assert(all.subrange(2, 5) =~= list.subrange(2, 5));
        assert(a == b);
        assert(all.skip(5) =~= list.skip(5) + more);
        lemma_rest_continues::<P, M, K, StartPosition, FromTps, MoveFromSan, DoMove>(
            calls,
            a->Ok_0,
            list.skip(5),
            more,
            earlier,
            later,
        );
    }
    let diff = later.moves@.skip(earlier.moves@.len() as int);
    assert(later.moves@ =~= earlier.moves@ + diff);
    law_difference_finds_continuations(earlier, later, diff);
}

/// The word at which a list that is read as moves goes on is read as the next of these moves.
proof fn lemma_read_at<P, M>(
    reads: spec_fn(P, Seq<char>, Result<M, String>) -> bool,
    step: spec_fn(P, M, P) -> bool,
    start: P,
    list: Seq<Seq<char>>,
    moves: Seq<M>,
    end: P,
    n: int,
    front: Seq<M>,
    here: P,
)
    requires
        single_2(reads),
        single_2(step),
        moves_read(reads, step, start, list, moves, end),
        0 <= n < list.len(),
        moves_read(reads, step, start, list.take(n), front, here),
    ensures
        reads(here, list[n], Ok(moves[n])),
{
    let more = list.take(n + 1);
    assert(more + list.skip(n + 1) =~= list);
    let next = lemma_front_is_read(reads, step, start, more, list.skip(n + 1), moves, end);
    let played = moves.take(n + 1);
    let before = choose|before: P|
        moves_read(reads, step, start, more.drop_last(), played.drop_last(), before) && reads(
            before,
            more.last(),
            Ok(played.last()),
        ) && #[trigger] step(before, played.last(), next);
    assert(more.drop_last() =~= list.take(n));
    lemma_moves_read_one_way(
        reads,
        step,
        start,
        list.take(n),
        front,
        here,
        played.drop_last(),
        before,
    );
}

/// Moves that are read are played.
proof fn lemma_read_moves_are_played<P, M>(
    reads: spec_fn(P, Seq<char>, Result<M, String>) -> bool,
    step: spec_fn(P, M, P) -> bool,
    start: P,
    list: Seq<Seq<char>>,
    moves: Seq<M>,
    end: P,
)
    requires
        moves_read(reads, step, start, list, moves, end),
    ensures
        played(step, start, moves, end),
    decreases list.len(),
{
    if list.len() > 0 {
        let before = choose|before: P|
            moves_read(reads, step, start, list.drop_last(), moves.drop_last(), before) && reads(
                before,
                list.last(),
                Ok(moves.last()),
            ) && #[trigger] step(before, moves.last(), end);
        lemma_read_moves_are_played(
            reads,
            step,
            start,
            list.drop_last(),
            moves.drop_last(),
            before,
        );
    }
}

/// Where the root ends among the words of a `position` command.
pub open spec fn root_end(list: Seq<Seq<char>>) -> int {
    if list.len() >= 2 && list[1] == "startpos"@ {
        2
    } else if list.len() < 5 {
        list.len() as int
    } else {
        5
    }
}

/// A line with the same words for the root has the same root, and is read on from there.
proof fn lemma_same_root<P, M, K, StartPosition, FromTps, MoveFromSan, DoMove>(
    calls: PositionCalls<StartPosition, FromTps, MoveFromSan, DoMove>,
    list: Seq<Seq<char>>,
    other: Seq<Seq<char>>,
    size: usize,
    komi: K,
    position: SearchPosition<P, M>,
    read: Result<SearchPosition<P, M>, TeiError>,
) where
    P: Clone,
    StartPosition: Fn(usize, K) -> P,
    FromTps: Fn(&str, usize, K) -> Result<P, String>,
    MoveFromSan: Fn(&P, &str) -> Result<M, String>,
    DoMove: Fn(P, M) -> P,

    requires
        calls.decided::<P, M, K>(),
        calls.position_read(list, size, komi, Ok(position)),
        calls.position_read(other, size, komi, read),
        list.len() >= 1,
        other.len() >= 1,
        root_end(other) == root_end(list),
        other.subrange(1, root_end(list)) == list.subrange(1, root_end(list)),
    ensures
        list.len() >= 2,
        calls.rest_read(position.root_position, list.skip(root_end(list)), Ok(position)),
        calls.rest_read(position.root_position, other.skip(root_end(list)), read),
{
    let end = root_end(list);
    assert(other.subrange(1, end)[0] == list.subrange(1, end)[0]);
    assert(other[1] == list[1]);
    if list[1] == "startpos"@ {
        let a = choose|root: P| #[trigger]
            call_ensures(calls.start_position, (size, komi), root) && calls.rest_read(
                root,
                list.skip(2),
                Ok(position),
            );
        let b = choose|root: P| #[trigger]
            call_ensures(calls.start_position, (size, komi), root) && calls.rest_read(
                root,
                other.skip(2),
                read,
            );
        assert(outcomes_2(calls.start_position)(size, komi, a));
        assert(outcomes_2(calls.start_position)(size, komi, b));
    } else {
        let (s, a) = choose|tps: &str, found: Result<P, String>|
            tps@ == joined(list.subrange(2, end)) && #[trigger] call_ensures(
                calls.from_tps,
                (tps, size, komi),
                found,
            ) && match found {
                Ok(root) => calls.rest_read(root, list.skip(end), Ok(position)),
                Err(_) => false,
            };
        let (t, b) = choose|tps: &str, found: Result<P, String>|
            tps@ == joined(other.subrange(2, end)) && #[trigger] call_ensures(
                calls.from_tps,
                (tps, size, komi),
                found,
            ) && match found {
                Ok(root) => calls.rest_read(root, other.skip(end), read),
                Err(reason) => read == Err::<SearchPosition<P, M>, TeiError>(
                    TeiError::InvalidTps(reason),
                ),
            };
        assert(list.subrange(2, end) =~= list.subrange(1, end).subrange(1, end - 1));
        assert(other.subrange(2, end) =~= other.subrange(1, end).subrange(1, end - 1));
        assert(a == b);
    }
}

/// Words behind the root that can be read are always read, and in one way.
proof fn lemma_rest_read_one_way<P, M, K, StartPosition, FromTps, MoveFromSan, DoMove>(
    calls: PositionCalls<StartPosition, FromTps, MoveFromSan, DoMove>,
    root: P,
    list: Seq<Seq<char>>,
    position: SearchPosition<P, M>,
    read: Result<SearchPosition<P, M>, TeiError>,
) where
    P: Clone,
    StartPosition: Fn(usize, K) -> P,
    FromTps: Fn(&str, usize, K) -> Result<P, String>,
    MoveFromSan: Fn(&P, &str) -> Result<M, String>,
    DoMove: Fn(P, M) -> P,

    requires
        calls.decided::<P, M, K>(),
        calls.rest_read(root, list, Ok(position)),
        calls.rest_read(root, list, read),
    ensures
        read matches Ok(other) && other.root_position == position.root_position && other.moves@
            == position.moves@,
{
    if list.len() == 0 {
        assert(read->Ok_0.moves@ =~= position.moves@);
    } else {
        let reads = calls.reads::<P, M>();
        let step = outcomes_2(calls.do_move);
        lemma_reads_one_way::<P, M, K, StartPosition, FromTps, MoveFromSan, DoMove>(calls);
        let texts = list.skip(1);
        let (a, a_end) = choose|start: P, end: P|
            cloned(root, start) && #[trigger] moves_read(
                reads,
                step,
                start,
                texts,
                position.moves@,
                end,
            );
        match read {
            Ok(other) => {
                let (b, b_end) = choose|start: P, end: P|
                    cloned(root, start) && #[trigger] moves_read(
                        reads,
                        step,
                        start,
                        texts,
                        other.moves@,
                        end,
                    );
                assert(a == b);
                lemma_moves_read_one_way(
                    reads,
                    step,
                    a,
                    texts,
                    position.moves@,
                    a_end,
                    other.moves@,
                    b_end,
                );
            },
            Err(error) => {
                let reason = error->InvalidMove_0;
                assert(calls.line_refused::<P, M>(root, texts, reason));
                let b = choose|start: P|
                    cloned(root, start) && #[trigger] moves_refused(
                        reads,
                        step,
                        start,
                        texts,
                        reason,
                    );
                assert(a == b);
                lemma_read_moves_are_not_refused(
                    reads,
                    step,
                    a,
                    texts,
                    position.moves@,
                    a_end,
                    reason,
                );
            },
        }
    }
}

/// Words that are read as moves are not refused.
proof fn lemma_read_moves_are_not_refused<P, M>(
    reads: spec_fn(P, Seq<char>, Result<M, String>) -> bool,
    step: spec_fn(P, M, P) -> bool,
    start: P,
    list: Seq<Seq<char>>,
    moves: Seq<M>,
    end: P,
    reason: String,
)
    requires
        single_2(reads),
        single_2(step),
        moves_read(reads, step, start, list, moves, end),
    ensures
        !moves_refused(reads, step, start, list, reason),
{
    if moves_refused(reads, step, start, list, reason) {
        let (n, front, here) = choose|n: int, front: Seq<M>, here: P|
            0 <= n < list.len() && #[trigger] moves_read(
                reads,
                step,
                start,
                list.take(n),
                front,
                here,
            ) && reads(here, list[n], Err(reason));
        lemma_read_at(reads, step, start, list, moves, end, n, front, here);
        let refused: Result<M, String> = Err(reason);
        let taken: Result<M, String> = Ok(moves[n]);
        assert(reads(here, list[n], refused) && reads(here, list[n], taken));
        assert(refused == taken);
    }
}

/// The words behind the first one.
pub open spec fn arguments(list: Seq<Seq<char>>) -> Seq<Seq<char>> {
    if list.len() == 0 {
        list
    } else {
        list.skip(1)
    }
}

/// Only the words behind the first one count: neither that word nor the white space between the
/// words makes a difference. Where every call has one result, two lines that have these words in
/// common are read as the same position.
pub proof fn law_only_the_arguments_count<P, M, K, StartPosition, FromTps, MoveFromSan, DoMove>(
    calls: PositionCalls<StartPosition, FromTps, MoveFromSan, DoMove>,
    line: Seq<char>,
    other: Seq<char>,
    size: usize,
    komi: K,
    position: SearchPosition<P, M>,
    read: Result<SearchPosition<P, M>, TeiError>,
) where
    P: Clone,
    StartPosition: Fn(usize, K) -> P,
    FromTps: Fn(&str, usize, K) -> Result<P, String>,
    MoveFromSan: Fn(&P, &str) -> Result<M, String>,
    DoMove: Fn(P, M) -> P,

    requires
        calls.decided::<P, M, K>(),
        arguments(words(line)) == arguments(words(other)),
        calls.position_read(words(line), size, komi, Ok(position)),
        calls.position_read(words(other), size, komi, read),
    ensures
        read matches Ok(same) && same.root_position == position.root_position && same.moves@
            == position.moves@,
{
    let list = words(line);
    let same = words(other);
    let end = root_end(list);
    assert(list.len() >= 2);
    assert(arguments(list).len() == list.len() - 1);
    assert(arguments(same).len() == list.len() - 1);
    assert(same[1] == arguments(same)[0] && list[1] == arguments(list)[0]);
    assert(list.subrange(1, end) =~= arguments(list).subrange(0, end - 1));
    assert(same.subrange(1, end) =~= arguments(same).subrange(0, end - 1));
    assert(list.skip(end) =~= arguments(list).skip(end - 1));
    assert(same.skip(end) =~= arguments(same).skip(end - 1));
    lemma_same_root::<P, M, K, StartPosition, FromTps, MoveFromSan, DoMove>(
        calls,
        list,
        same,
        size,
        komi,
        position,
        read,
    );
    lemma_rest_read_one_way::<P, M, K, StartPosition, FromTps, MoveFromSan, DoMove>(
        calls,
        position.root_position,
        list.skip(end),
        position,
        read,
    );
}

/// An empty list of moves makes no difference. Where every call has one result, a line that
/// gives a whole root and no more is read as the same position when `moves` is added to it.
pub proof fn law_empty_move_list_makes_no_difference<
    P,
    M,
    K,
    StartPosition,
    FromTps,
    MoveFromSan,
    DoMove,
>(
    calls: PositionCalls<StartPosition, FromTps, MoveFromSan, DoMove>,
    line: Seq<char>,
    other: Seq<char>,
    size: usize,
    komi: K,
    position: SearchPosition<P, M>,
    read: Result<SearchPosition<P, M>, TeiError>,
) where
    P: Clone,
    StartPosition: Fn(usize, K) -> P,
    FromTps: Fn(&str, usize, K) -> Result<P, String>,
    MoveFromSan: Fn(&P, &str) -> Result<M, String>,
    DoMove: Fn(P, M) -> P,

    requires
        calls.decided::<P, M, K>(),
        words(line).len() == 5 || words(line).len() == 2 && words(line)[1] == "startpos"@,
        words(line).len() == root_end(words(line)),
        arguments(words(other)) == arguments(words(line)).push("moves"@),
        calls.position_read(words(line), size, komi, Ok(position)),
        calls.position_read(words(other), size, komi, read),
    ensures
        read matches Ok(same) && same.root_position == position.root_position && same.moves@
            == position.moves@,
{
    let list = words(line);
    let same = words(other);
    let end = root_end(list);
    assert(arguments(list).len() == list.len() - 1);
    assert(arguments(same).len() == list.len());
    assert(same[1] == arguments(same)[0] && list[1] == arguments(list)[0]);
    assert(list.subrange(1, end) =~= arguments(list));
    assert(same.subrange(1, end) =~= arguments(same).drop_last());
    assert(arguments(same).drop_last() =~= arguments(list));
    lemma_same_root::<P, M, K, StartPosition, FromTps, MoveFromSan, DoMove>(
        calls,
        list,
        same,
        size,
        komi,
        position,
        read,
    );
    assert(list.skip(end) =~= Seq::empty());
    let rest = same.skip(end);
    assert(rest[0] == arguments(same).last());
    let texts = rest.skip(1);
    assert(texts =~= Seq::empty());
    match read {
        Ok(found) => {
            assert(calls.line_read(position.root_position, texts, found.moves@));
            assert(found.moves@ =~= position.moves@);
        },
        Err(error) => {
            assert(calls.line_refused::<P, M>(
                position.root_position,
                texts,
                error->InvalidMove_0,
            ));
        },
    }
}

/// A word that is added to a line with a list of moves adds the move that it is read as. Where
/// every call has one result, and the word is read as a move in the position that the line leads
/// to, the longer line is read, has the same root and the same moves with this one behind them;
/// so the difference is this one move.
pub proof fn law_added_word_adds_its_move<P, M, K, StartPosition, FromTps, MoveFromSan, DoMove>(
    calls: PositionCalls<StartPosition, FromTps, MoveFromSan, DoMove>,
    line: Seq<char>,
    word: Seq<char>,
    size: usize,
    komi: K,
    position: SearchPosition<P, M>,
    here: P,
    mv: M,
    read: Result<SearchPosition<P, M>, TeiError>,
) where
    P: Clone + PartialEq,
    M: PartialEq,
    StartPosition: Fn(usize, K) -> P,
    FromTps: Fn(&str, usize, K) -> Result<P, String>,
    MoveFromSan: Fn(&P, &str) -> Result<M, String>,
    DoMove: Fn(P, M) -> P,

    requires
        calls.decided::<P, M, K>(),
        compares_values::<P>(),
        compares_values::<M>(),
        is_word(word),
        words(line).len() >= 6 || words(line).len() >= 3 && words(line)[1] == "startpos"@,
        calls.position_read(words(line), size, komi, Ok(position)),
        position.reaches(outcomes_2(calls.do_move), here),
        calls.reads::<P, M>()(here, word, Ok(mv)),
        calls.position_read(words(line + seq![' '] + word), size, komi, read),
    ensures
        read matches Ok(longer) && longer.root_position == position.root_position && longer.moves@
            == position.moves@.push(mv) && difference(position, longer) == Some(seq![mv]),
{
    let list = words(line);
    law_words_across_white_space(line, ' ', word);
    law_joined_words_split_back(seq![word]);
    let all = list.push(word);
    assert(words(line + seq![' '] + word) =~= all);
    let end = root_end(list);
    assert(all[1] == list[1]);
    assert(all.subrange(1, end) =~= list.subrange(1, end));
    lemma_same_root::<P, M, K, StartPosition, FromTps, MoveFromSan, DoMove>(
        calls,
        list,
        all,
        size,
        komi,
        position,
        read,
    );
    let root = position.root_position;
    let rest = list.skip(end);
    let longer_rest = all.skip(end);
    assert(longer_rest =~= rest.push(word));
    assert(longer_rest[0] == rest[0]);
    let texts = rest.skip(1);
    let longer_texts = longer_rest.skip(1);
    assert(longer_texts =~= texts.push(word));
    let reads = calls.reads::<P, M>();
    let step = outcomes_2(calls.do_move);
    lemma_reads_one_way::<P, M, K, StartPosition, FromTps, MoveFromSan, DoMove>(calls);
    let (a, a_end) = choose|start: P, end: P|
        cloned(root, start) && #[trigger] moves_read(
            reads,
            step,
            start,
            texts,
            position.moves@,
            end,
        );
    assert(a == root);
    lemma_read_moves_are_played(reads, step, a, texts, position.moves@, a_end);
    assert(position.reaches(step, a_end));
    law_position_is_one(position, step, a_end, here);
    let taken: Result<M, String> = Ok(mv);
    assert(reads(a_end, word, taken));
    match read {
        Err(error) => {
            let reason = error->InvalidMove_0;
            assert(calls.line_refused::<P, M>(root, longer_texts, reason));
            let b = choose|start: P|
                cloned(root, start) && #[trigger] moves_refused(
                    reads,
                    step,
                    start,
                    longer_texts,
                    reason,
                );
            assert(b == root);
            let (n, front, before) = choose|n: int, front: Seq<M>, before: P|
                0 <= n < longer_texts.len() && #[trigger] moves_read(
                    reads,
                    step,
                    b,
                    longer_texts.take(n),
                    front,
                    before,
                ) && reads(before, longer_texts[n], Err(reason));
            let refused: Result<M, String> = Err(reason);
            assert(longer_texts.take(n) =~= texts.take(n));
            if n < texts.len() {
                lemma_read_at(
                    reads,
                    step,
                    a,
                    texts,
                    position.moves@,
                    a_end,
                    n,
                    front,
                    before,
                );
                let earlier: Result<M, String> = Ok(position.moves@[n]);
                assert(reads(before, texts[n], earlier) && reads(before, texts[n], refused));
                assert(earlier == refused);
            } else {
                assert(texts.take(n) =~= texts);
                lemma_moves_read_one_way(
                    reads,
                    step,
                    a,
                    texts,
                    position.moves@,
                    a_end,
                    front,
                    before,
                );
                assert(reads(a_end, word, refused));
                assert(taken == refused);
            }
        },
        Ok(longer) => {
            assert(calls.line_read(root, longer_texts, longer.moves@));
            let (b, b_end) = choose|start: P, end: P|
                cloned(root, start) && #[trigger] moves_read(
                    reads,
                    step,
                    start,
                    longer_texts,
                    longer.moves@,
                    end,
                );
            assert(b == root);
            let before = choose|before: P|
                moves_read(
                    reads,
                    step,
                    b,
                    longer_texts.drop_last(),
                    longer.moves@.drop_last(),
                    before,
                ) && reads(before, longer_texts.last(), Ok(longer.moves@.last()))
                    && #[trigger] step(before, longer.moves@.last(), b_end);
            assert(longer_texts.drop_last() =~= texts);
            lemma_moves_read_one_way(
                reads,
                step,
                a,
                texts,
                position.moves@,
                a_end,
                longer.moves@.drop_last(),
                before,
            );
            let last: Result<M, String> = Ok(longer.moves@.last());
            assert(reads(a_end, word, last));
            assert(last == taken);
            assert(longer.moves@ =~= position.moves@.push(mv));
            assert(longer.moves@ =~= position.moves@ + seq![mv]);
            law_difference_finds_continuations(position, longer, seq![mv]);
        },
    }
}

} // verus!
