//! What holds of annotated games and texts as a whole.
//!
//! These laws compare results: of two runs, of two budgets, or of an annotation and the
//! questions asked one by one. They hold where every call has one result.

use vstd::prelude::*;
use vstd::utf8::decode_utf8;
use vstd::utf8::valid_utf8;

use crate::annotate::all_written;
use crate::annotate::is_threat_mark;
use crate::annotate::law_other_annotations_stay;
use crate::annotate::law_threat_is_replaced;
use crate::annotate::marked;
use crate::annotate::moves_of;
use crate::annotate::nodes_or_default;
use crate::annotate::texts_of;
use crate::annotate::threats_found;
use crate::annotate::utf8_complaint;
use crate::annotate::with_threat;
use crate::annotate::without_threats;
use crate::annotate::write_fails;
use crate::annotate::written;
use crate::annotate::Annotator;
use crate::annotate::Game;
use crate::annotate::PtnMove;
use crate::annotate::Threat;
use crate::annotate::DEFAULT_TINUE_NODES;
use crate::outcome::clones_are_equal;
use crate::outcome::outcomes_1;
use crate::outcome::outcomes_2;
use crate::outcome::outcomes_of_view;
use crate::search_position::law_played_one_way;
use crate::search_position::played;
use crate::size_tag::size_value;
use crate::size_tag::ApiError;
use crate::text::views;
use crate::threat::is_supported;
use crate::threat::law_larger_budget_finds_the_same;
use crate::threat::law_proof_finds_one_thing;
use crate::threat::tinue_value;
use crate::threat::ProofResult;

verus! {

// ---------------------------------------------------------------------------
// The threat in one position
// ---------------------------------------------------------------------------

impl<GameOver, NullMove, HasWinningMove, NewProof, Select, Outcome, DoMove> Annotator<
    GameOver,
    NullMove,
    HasWinningMove,
    NewProof,
    Select,
    Outcome,
    DoMove,
> {
    /// What a threat found in a game that goes on rests on: what the proof search found out, and
    /// whether there was a winning move.
    proof fn lemma_threat_parts<P: Clone, Q>(
        self,
        nodes: nat,
        position: P,
        threat: Option<Threat>,
    ) -> (parts: (P, Option<ProofResult>)) where
        GameOver: Fn(&P) -> bool,
        NullMove: Fn(P) -> P,
        HasWinningMove: Fn(P) -> bool,
        NewProof: Fn(P) -> Q,
        Select: Fn(Q) -> Q,
        Outcome: Fn(&Q) -> Option<ProofResult>,

        requires
            clones_are_equal::<P>(),
            self.threat_found::<P, Q>(nodes, position, threat),
            !call_ensures(self.rules.game_over, (&position,), true),
        ensures
            call_ensures(self.rules.null_move, (position,), parts.0),
            self.prover.proof_finds::<P, Q>(nodes, parts.0, parts.1),
            parts.1 == Some(ProofResult::Proved) ==> threat == Some(Threat::Tinue),
            parts.1 != Some(ProofResult::Proved) ==> {
                ||| call_ensures(self.rules.has_winning_move, (parts.0,), true) && threat == Some(
                    Threat::Tak,
                )
                ||| call_ensures(self.rules.has_winning_move, (parts.0,), false) && threat is None
            },
    {
        let (copy, passed) = choose|copy: P, passed: P|
            cloned(position, copy) && #[trigger] call_ensures(
                self.rules.null_move,
                (copy,),
                passed,
            ) && self.passed_threat::<P, Q>(nodes, passed, threat);
        let (asked, found) = choose|copy: P, found: Option<ProofResult>|
            cloned(passed, copy) && #[trigger] self.prover.proof_finds::<P, Q>(nodes, copy, found)
                && if found == Some(ProofResult::Proved) {
                threat == Some(Threat::Tinue)
            } else {
                ||| call_ensures(self.rules.has_winning_move, (passed,), true) && threat == Some(
                    Threat::Tak,
                )
                ||| call_ensures(self.rules.has_winning_move, (passed,), false) && threat is None
            };
        assert(copy == position);
        assert(asked == passed);
        (passed, found)
    }

    /// The threat found in a position is the answer to the two questions: tinue if the position
    /// is tinue, otherwise tak if it is in tak, otherwise none.
    pub proof fn law_threat_answers_the_questions<P: Clone, M, Q>(
        self,
        nodes: nat,
        position: P,
        threat: Option<Threat>,
        tak: bool,
        tinue: Option<bool>,
    ) where
        GameOver: Fn(&P) -> bool,
        NullMove: Fn(P) -> P,
        HasWinningMove: Fn(P) -> bool,
        NewProof: Fn(P) -> Q,
        Select: Fn(Q) -> Q,
        Outcome: Fn(&Q) -> Option<ProofResult>,
        DoMove: Fn(P, M) -> P,

        requires
            self.decided::<P, M, Q>(),
            self.threat_found::<P, Q>(nodes, position, threat),
            self.rules.tak_found(position, tak),
            self.rules.tinue_found::<P, Q, NewProof, Select, Outcome>(
                self.prover,
                nodes,
                position,
                tinue,
            ),
        ensures
            threat == if tinue == Some(true) {
                Some(Threat::Tinue)
            } else if tak {
                Some(Threat::Tak)
            } else {
                None
            },
    {
        let ends = outcomes_of_view(self.rules.game_over);
        let passes = outcomes_1(self.rules.null_move);
        let wins = outcomes_1(self.rules.has_winning_move);
        if ends(position, true) {
            assert(!ends(position, false));
        } else {
            let (passed, found) = self.lemma_threat_parts::<P, Q>(nodes, position, threat);
            let tak_passed = choose|passed: P| #[trigger]
                call_ensures(self.rules.null_move, (position,), passed) && call_ensures(
                    self.rules.has_winning_move,
                    (passed,),
                    tak,
                );
            let (tinue_passed, tinue_found) = choose|passed: P, found: Option<ProofResult>|
                call_ensures(self.rules.null_move, (position,), passed)
                    && #[trigger] self.prover.proof_finds::<P, Q>(nodes, passed, found) && tinue
                    == tinue_value(found);
            assert(passes(position, passed) && passes(position, tak_passed));
            assert(passes(position, passed) && passes(position, tinue_passed));
            law_proof_finds_one_thing::<P, Q, NewProof, Select, Outcome>(
                self.prover,
                nodes,
                passed,
                found,
                tinue_found,
            );
            assert(wins(passed, tak));
            if tak {
                assert(!wins(passed, false));
            } else {
                assert(!wins(passed, true));
            }
        }
    }

    /// Two budgets on one position: the larger one finds tinue where the smaller one does, and
    /// otherwise tinue or the same threat.
    pub proof fn law_larger_budget_only_adds_tinue<P: Clone, M, Q>(
        self,
        nodes: nat,
        more: nat,
        position: P,
        threat: Option<Threat>,
        threat_more: Option<Threat>,
    ) where
        GameOver: Fn(&P) -> bool,
        NullMove: Fn(P) -> P,
        HasWinningMove: Fn(P) -> bool,
        NewProof: Fn(P) -> Q,
        Select: Fn(Q) -> Q,
        Outcome: Fn(&Q) -> Option<ProofResult>,
        DoMove: Fn(P, M) -> P,

        requires
            self.decided::<P, M, Q>(),
            self.prover.can_grow::<P, Q>(nodes),
            nodes <= more,
            self.threat_found::<P, Q>(nodes, position, threat),
            self.threat_found::<P, Q>(more, position, threat_more),
        ensures
            threat_more == threat || threat_more == Some(Threat::Tinue),
    {
        let ends = outcomes_of_view(self.rules.game_over);
        let passes = outcomes_1(self.rules.null_move);
        let wins = outcomes_1(self.rules.has_winning_move);
        if ends(position, true) {
            assert(!ends(position, false));
        } else {
            let (a, found) = self.lemma_threat_parts::<P, Q>(nodes, position, threat);
            let (b, found_more) = self.lemma_threat_parts::<P, Q>(more, position, threat_more);
            assert(passes(position, a) && passes(position, b));
            law_larger_budget_finds_the_same::<P, Q, NewProof, Select, Outcome>(
                self.prover,
                nodes,
                more,
                a,
                found,
                found_more,
            );
            assert(!(wins(a, true) && wins(a, false)));
        }
    }

    /// In one position, one threat is found.
    pub proof fn law_one_threat_is_found<P: Clone, M, Q>(
        self,
        nodes: nat,
        position: P,
        first: Option<Threat>,
        second: Option<Threat>,
    ) where
        GameOver: Fn(&P) -> bool,
        NullMove: Fn(P) -> P,
        HasWinningMove: Fn(P) -> bool,
        NewProof: Fn(P) -> Q,
        Select: Fn(Q) -> Q,
        Outcome: Fn(&Q) -> Option<ProofResult>,
        DoMove: Fn(P, M) -> P,

        requires
            self.decided::<P, M, Q>(),
            self.threat_found::<P, Q>(nodes, position, first),
            self.threat_found::<P, Q>(nodes, position, second),
        ensures
            first == second,
    {
        let ends = outcomes_of_view(self.rules.game_over);
        let passes = outcomes_1(self.rules.null_move);
        let wins = outcomes_1(self.rules.has_winning_move);
        if ends(position, true) {
            assert(!ends(position, false));
        } else {
            let (a, found) = self.lemma_threat_parts::<P, Q>(nodes, position, first);
            let (b, other) = self.lemma_threat_parts::<P, Q>(nodes, position, second);
            assert(passes(position, a) && passes(position, b));
            law_proof_finds_one_thing::<P, Q, NewProof, Select, Outcome>(
                self.prover,
                nodes,
                a,
                found,
                other,
            );
            assert(!(wins(a, true) && wins(a, false)));
        }
    }
}

// ---------------------------------------------------------------------------
// The marks of one game
// ---------------------------------------------------------------------------

/// Whether a move is marked with a threat.
pub open spec fn carries<M>(ptn_move: PtnMove<M>, threat: Threat) -> bool {
    views(ptn_move.annotations@).contains(threat.mark())
}

/// The marks of a move are those of the threat that it was annotated with.
proof fn lemma_marks_of(
    annotations: Seq<Seq<char>>,
    threat: Option<Threat>,
    asked: Threat,
)
    ensures
        with_threat(annotations, threat).contains(asked.mark()) <==> threat == Some(asked),
{
    reveal_strlit("'");
    reveal_strlit("\"");
    assert("'"@[0] != "\""@[0]);
    let out = with_threat(annotations, threat);
    law_other_annotations_stay(annotations, threat);
    assert(is_threat_mark(asked.mark()));
    if threat == Some(asked) {
        assert(out[out.len() - 1] == asked.mark());
    }
    if out.contains(asked.mark()) {
        let i = choose|i: int| 0 <= i < out.len() && out[i] == asked.mark();
        assert(is_threat_mark(out[i]));
        assert(threat->0.mark() == asked.mark());
    }
}

/// The threat shown after a move was found in the position that the moves up to it lead to.
proof fn lemma_threat_at<P, M>(
    step: spec_fn(P, M, P) -> bool,
    shows: spec_fn(P, Option<Threat>) -> bool,
    start: P,
    moves: Seq<M>,
    threats: Seq<Option<Threat>>,
    end: P,
    i: int,
) -> (position: P)
    requires
        threats_found(step, shows, start, moves, threats, end),
        0 <= i < moves.len(),
    ensures
        played(step, start, moves.take(i + 1), position),
        shows(position, threats[i]),
    decreases moves.len(),
{
    let before = choose|before: P|
        threats_found(
            step,
            shows,
            start,
            moves.drop_last(),
            threats.drop_last(),
            before,
        ) && #[trigger] step(before, moves.last(), end) && shows(end, threats.last());
    if i == moves.len() - 1 {
        lemma_moves_with_threats_are_played(
            step,
            shows,
            start,
            moves,
            threats,
            end,
        );
        assert(moves.take(i + 1) =~= moves);
        end
    } else {
        assert(moves.drop_last().take(i + 1) =~= moves.take(i + 1));
        lemma_threat_at(
            step,
            shows,
            start,
            moves.drop_last(),
            threats.drop_last(),
            before,
            i,
        )
    }
}

proof fn lemma_moves_with_threats_are_played<P, M>(
    step: spec_fn(P, M, P) -> bool,
    shows: spec_fn(P, Option<Threat>) -> bool,
    start: P,
    moves: Seq<M>,
    threats: Seq<Option<Threat>>,
    end: P,
)
    requires
        threats_found(step, shows, start, moves, threats, end),
    ensures
        played(step, start, moves, end),
    decreases moves.len(),
{
    if moves.len() > 0 {
        let before = choose|before: P|
            threats_found(
                step,
                shows,
                start,
                moves.drop_last(),
                threats.drop_last(),
                before,
            ) && #[trigger] step(before, moves.last(), end) && shows(end, threats.last());
        lemma_moves_with_threats_are_played(
            step,
            shows,
            start,
            moves.drop_last(),
            threats.drop_last(),
            before,
        );
    }
}

/// Whether what is marked in `after` are the marks of `before`, with tinue in place of some of
/// them: a mark of tinue stays, and any mark that changes becomes one of tinue.
pub open spec fn marks_grow<P, M, X>(before: Game<P, M, X>, after: Game<P, M, X>) -> bool {
    &&& after.moves@.len() == before.moves@.len()
    &&& forall|i: int|
        #![trigger before.moves@[i]]
        #![trigger after.moves@[i]]
        0 <= i < before.moves@.len() ==> {
            &&& carries(before.moves@[i], Threat::Tinue) ==> carries(after.moves@[i], Threat::Tinue)
            &&& carries(before.moves@[i], Threat::Tak) != carries(after.moves@[i], Threat::Tak)
                || carries(before.moves@[i], Threat::Tinue) != carries(
                after.moves@[i],
                Threat::Tinue,
            ) ==> carries(after.moves@[i], Threat::Tinue)
            &&& !carries(after.moves@[i], Threat::Tak) && !carries(after.moves@[i], Threat::Tinue)
                ==> !carries(before.moves@[i], Threat::Tak) && !carries(
                before.moves@[i],
                Threat::Tinue,
            )
        }
}

impl<GameOver, NullMove, HasWinningMove, NewProof, Select, Outcome, DoMove> Annotator<
    GameOver,
    NullMove,
    HasWinningMove,
    NewProof,
    Select,
    Outcome,
    DoMove,
> {
    /// Whether the marks of `after`, which are those of `before` annotated, answer the two
    /// questions: a move is marked with tinue exactly if the position after it is tinue, and with
    /// tak exactly if it is not, and the position is in tak.
    pub open spec fn marks_answer<P: Clone, M, X, Q>(
        self,
        nodes: nat,
        before: Game<P, M, X>,
        after: Game<P, M, X>,
    ) -> bool where
        GameOver: Fn(&P) -> bool,
        NullMove: Fn(P) -> P,
        HasWinningMove: Fn(P) -> bool,
        NewProof: Fn(P) -> Q,
        Select: Fn(Q) -> Q,
        Outcome: Fn(&Q) -> Option<ProofResult>,
        DoMove: Fn(P, M) -> P,
     {
        &&& after.moves@.len() == before.moves@.len()
        &&& forall|i: int, position: P, tak: bool, tinue: Option<bool>|
            0 <= i < before.moves@.len() && #[trigger] played(
                outcomes_2(self.do_move),
                before.start_position,
                moves_of(before.moves@).take(i + 1),
                position,
            ) && #[trigger] self.rules.tak_found(position, tak) && #[trigger] self.rules.tinue_found::<
                P,
                Q,
                NewProof,
                Select,
                Outcome,
            >(self.prover, nodes, position, tinue) ==> {
                &&& carries(after.moves@[i], Threat::Tinue) <==> tinue == Some(true)
                &&& carries(after.moves@[i], Threat::Tak) <==> tinue != Some(true) && tak
            }
    }

    /// What the marks of a move rest on: the threat found in the position after it.
    proof fn lemma_mark_at<P: Clone, M, X, Q>(
        self,
        nodes: nat,
        before: Game<P, M, X>,
        after: Game<P, M, X>,
        i: int,
    ) -> (found: (P, Option<Threat>)) where
        GameOver: Fn(&P) -> bool,
        NullMove: Fn(P) -> P,
        HasWinningMove: Fn(P) -> bool,
        NewProof: Fn(P) -> Q,
        Select: Fn(Q) -> Q,
        Outcome: Fn(&Q) -> Option<ProofResult>,
        DoMove: Fn(P, M) -> P,

        requires
            clones_are_equal::<P>(),
            self.annotated::<P, M, X, Q>(nodes, before, after),
            0 <= i < before.moves@.len(),
        ensures
            after.moves@.len() == before.moves@.len(),
            played(
                outcomes_2(self.do_move),
                before.start_position,
                moves_of(before.moves@).take(i + 1),
                found.0,
            ),
            self.threat_found::<P, Q>(nodes, found.0, found.1),
            views(after.moves@[i].annotations@) == with_threat(
                views(before.moves@[i].annotations@),
                found.1,
            ),
    {
        let step = outcomes_2(self.do_move);
        let shows = self.threats::<P, Q>(nodes);
        let (start, threats, end) = choose|start: P, threats: Seq<Option<Threat>>, end: P|
            cloned(before.start_position, start) && #[trigger] threats_found(
                step,
                shows,
                start,
                moves_of(before.moves@),
                threats,
                end,
            ) && marked(before.moves@, threats, after.moves@);
        assert(start == before.start_position);
        let position = lemma_threat_at(
            step,
            shows,
            start,
            moves_of(before.moves@),
            threats,
            end,
            i,
        );
        assert(after.moves@[i] == after.moves@[i]);
        (position, threats[i])
    }

    /// The marks of an annotated game answer the two questions, move by move.
    pub proof fn law_marks_answer_the_questions<P: Clone, M, X, Q>(
        self,
        nodes: nat,
        before: Game<P, M, X>,
        after: Game<P, M, X>,
    ) where
        GameOver: Fn(&P) -> bool,
        NullMove: Fn(P) -> P,
        HasWinningMove: Fn(P) -> bool,
        NewProof: Fn(P) -> Q,
        Select: Fn(Q) -> Q,
        Outcome: Fn(&Q) -> Option<ProofResult>,
        DoMove: Fn(P, M) -> P,

        requires
            self.decided::<P, M, Q>(),
            self.annotated::<P, M, X, Q>(nodes, before, after),
        ensures
            self.marks_answer::<P, M, X, Q>(nodes, before, after),
    {
        assert forall|i: int, position: P, tak: bool, tinue: Option<bool>|
            0 <= i < before.moves@.len() && #[trigger] played(
                outcomes_2(self.do_move),
                before.start_position,
                moves_of(before.moves@).take(i + 1),
                position,
            ) && #[trigger] self.rules.tak_found(position, tak) && #[trigger] self.rules.tinue_found::<
                P,
                Q,
                NewProof,
                Select,
                Outcome,
            >(self.prover, nodes, position, tinue) implies {
            &&& carries(after.moves@[i], Threat::Tinue) <==> tinue == Some(true)
            &&& carries(after.moves@[i], Threat::Tak) <==> tinue != Some(true) && tak
        } by {
            let (found, threat) = self.lemma_mark_at::<P, M, X, Q>(nodes, before, after, i);
            law_played_one_way(
                outcomes_2(self.do_move),
                before.start_position,
                moves_of(before.moves@).take(i + 1),
                found,
                position,
            );
            self.law_threat_answers_the_questions::<P, M, Q>(
                nodes,
                position,
                threat,
                tak,
                tinue,
            );
            let annotations = views(before.moves@[i].annotations@);
            lemma_marks_of(annotations, threat, Threat::Tinue);
            lemma_marks_of(annotations, threat, Threat::Tak);
        }
    }

    /// A larger budget only adds marks of tinue: one that is there stays, and any mark that
    /// changes becomes one.
    pub proof fn law_larger_budget_only_adds_tinue_marks<P: Clone, M, X, Q>(
        self,
        nodes: nat,
        more: nat,
        game: Game<P, M, X>,
        after: Game<P, M, X>,
        after_more: Game<P, M, X>,
    ) where
        GameOver: Fn(&P) -> bool,
        NullMove: Fn(P) -> P,
        HasWinningMove: Fn(P) -> bool,
        NewProof: Fn(P) -> Q,
        Select: Fn(Q) -> Q,
        Outcome: Fn(&Q) -> Option<ProofResult>,
        DoMove: Fn(P, M) -> P,

        requires
            self.decided::<P, M, Q>(),
            self.prover.can_grow::<P, Q>(nodes),
            nodes <= more,
            self.annotated::<P, M, X, Q>(nodes, game, after),
            self.annotated::<P, M, X, Q>(more, game, after_more),
        ensures
            marks_grow(after, after_more),
    {
        assert forall|i: int| 0 <= i < game.moves@.len() implies {
            &&& carries(#[trigger] after.moves@[i], Threat::Tinue) ==> carries(
                after_more.moves@[i],
                Threat::Tinue,
            )
            &&& carries(after.moves@[i], Threat::Tak) != carries(after_more.moves@[i], Threat::Tak)
                || carries(after.moves@[i], Threat::Tinue) != carries(
                after_more.moves@[i],
                Threat::Tinue,
            ) ==> carries(after_more.moves@[i], Threat::Tinue)
            &&& !carries(after_more.moves@[i], Threat::Tak) && !carries(
                after_more.moves@[i],
                Threat::Tinue,
            ) ==> !carries(after.moves@[i], Threat::Tak) && !carries(
                after.moves@[i],
                Threat::Tinue,
            )
        } by {
            let (a, threat) = self.lemma_mark_at::<P, M, X, Q>(nodes, game, after, i);
            let (b, threat_more) = self.lemma_mark_at::<P, M, X, Q>(more, game, after_more, i);
            law_played_one_way(
                outcomes_2(self.do_move),
                game.start_position,
                moves_of(game.moves@).take(i + 1),
                a,
                b,
            );
            self.law_larger_budget_only_adds_tinue::<P, M, Q>(
                nodes,
                more,
                a,
                threat,
                threat_more,
            );
            let annotations = views(game.moves@[i].annotations@);
            lemma_marks_of(annotations, threat, Threat::Tinue);
            lemma_marks_of(annotations, threat, Threat::Tak);
            lemma_marks_of(annotations, threat_more, Threat::Tinue);
            lemma_marks_of(annotations, threat_more, Threat::Tak);
        }
        assert(moves_of(after.moves@).len() == moves_of(game.moves@).len());
        assert(moves_of(after_more.moves@).len() == moves_of(game.moves@).len());
    }
}

// ---------------------------------------------------------------------------
// Games that are the same, and games that are alike
// ---------------------------------------------------------------------------

/// Whether two games are the same, where `kin` says which sources count as the same: the same
/// start, the same moves and the same annotations.
pub open spec fn same_game<P, M, X>(
    kin: spec_fn(X, X) -> bool,
    a: Game<P, M, X>,
    b: Game<P, M, X>,
) -> bool {
    &&& a.start_position == b.start_position
    &&& kin(a.source, b.source)
    &&& moves_of(a.moves@) == moves_of(b.moves@)
    &&& forall|i: int|
        #![trigger a.moves@[i]]
        #![trigger b.moves@[i]]
        0 <= i < a.moves@.len() ==> views(a.moves@[i].annotations@) == views(
            b.moves@[i].annotations@,
        )
}

/// Whether two games are the same but for the marks of threats.
pub open spec fn alike_game<P, M, X>(
    kin: spec_fn(X, X) -> bool,
    a: Game<P, M, X>,
    b: Game<P, M, X>,
) -> bool {
    &&& a.start_position == b.start_position
    &&& kin(a.source, b.source)
    &&& moves_of(a.moves@) == moves_of(b.moves@)
    &&& forall|i: int|
        #![trigger a.moves@[i]]
        #![trigger b.moves@[i]]
        0 <= i < a.moves@.len() ==> without_threats(views(a.moves@[i].annotations@))
            == without_threats(views(b.moves@[i].annotations@))
}

/// Whether two lists of games are the same, game by game.
pub open spec fn same_games<P, M, X>(
    kin: spec_fn(X, X) -> bool,
    a: Seq<Game<P, M, X>>,
    b: Seq<Game<P, M, X>>,
) -> bool {
    &&& a.len() == b.len()
    &&& forall|i: int|
        #![trigger a[i]]
        #![trigger b[i]]
        0 <= i < a.len() ==> same_game(kin, a[i], b[i])
}

/// Whether two results of reading are the same but for the marks of threats: both give games
/// that are alike, or both are refused for the same reason.
pub open spec fn alike_parsed<P, M, X>(
    kin: spec_fn(X, X) -> bool,
    a: Result<Vec<Game<P, M, X>>, String>,
    b: Result<Vec<Game<P, M, X>>, String>,
) -> bool {
    match (a, b) {
        (Ok(a), Ok(b)) => a@.len() == b@.len() && forall|i: int|
            #![trigger a@[i]]
            #![trigger b@[i]]
            0 <= i < a@.len() ==> alike_game(kin, a@[i], b@[i]),
        (Err(a), Err(b)) => a@ == b@,
        _ => false,
    }
}

/// Whether two written games are the same bytes, or failed for the same reason.
pub open spec fn same_bytes(a: Result<Vec<u8>, String>, b: Result<Vec<u8>, String>) -> bool {
    match (a, b) {
        (Ok(a), Ok(b)) => a@ == b@,
        (Err(a), Err(b)) => a@ == b@,
        _ => false,
    }
}

/// Whether the same game is always written as the same bytes.
pub open spec fn writes_one_way<P, M, X, ToPtn: Fn(&Game<P, M, X>) -> Result<Vec<u8>, String>>(
    kin: spec_fn(X, X) -> bool,
    to_ptn: ToPtn,
) -> bool {
    forall|
        g: Game<P, M, X>,
        h: Game<P, M, X>,
        a: Result<Vec<u8>, String>,
        b: Result<Vec<u8>, String>,
    |
        same_game(kin, g, h) && #[trigger] call_ensures(to_ptn, (&g,), a)
            && #[trigger] call_ensures(to_ptn, (&h,), b) ==> same_bytes(a, b)
}

/// Whether two answers are the same text, or the same refusal.
pub open spec fn same_answer(a: Result<String, ApiError>, b: Result<String, ApiError>) -> bool {
    match (a, b) {
        (Ok(a), Ok(b)) => a@ == b@,
        (Err(ApiError::Refused(a)), Err(ApiError::Refused(b))) => a@ == b@,
        (Err(a), Err(b)) => a == b,
        _ => false,
    }
}

/// Byte strings that are the same, one by one, encode the same text.
proof fn lemma_same_texts(a: Seq<Vec<u8>>, b: Seq<Vec<u8>>)
    requires
        a.len() == b.len(),
        forall|i: int| 0 <= i < a.len() ==> (#[trigger] a[i])@ == b[i]@,
    ensures
        texts_of(a) == texts_of(b),
    decreases a.len(),
{
    if a.len() > 0 {
        assert(a[a.len() - 1]@ == b[a.len() - 1]@);
        assert forall|i: int| 0 <= i < a.drop_last().len() implies (#[trigger] a.drop_last()[i])@
            == b.drop_last()[i]@ by {
            assert(a[i]@ == b[i]@);
        }
        lemma_same_texts(a.drop_last(), b.drop_last());
    }
}

/// A game that can be written does not fail, nor does one that is the same.
proof fn lemma_written_does_not_fail<
    P,
    M,
    X,
    ToPtn: Fn(&Game<P, M, X>) -> Result<Vec<u8>, String>,
>(
    kin: spec_fn(X, X) -> bool,
    to_ptn: ToPtn,
    g: Game<P, M, X>,
    h: Game<P, M, X>,
    bytes: Vec<u8>,
    reason: String,
)
    requires
        writes_one_way(kin, to_ptn),
        same_game(kin, g, h) || same_game(kin, h, g),
        call_ensures(to_ptn, (&g,), Ok(bytes)),
        valid_utf8(bytes@),
    ensures
        !write_fails(to_ptn, h, reason),
{
    let ok: Result<Vec<u8>, String> = Ok(bytes);
    let err: Result<Vec<u8>, String> = Err(reason);
    assert(call_ensures(to_ptn, (&g,), ok));
    if call_ensures(to_ptn, (&h,), err) {
        assert(same_bytes(ok, err) || same_bytes(err, ok));
    } else if write_fails(to_ptn, h, reason) {
        let other = choose|other: Vec<u8>| #[trigger]
            call_ensures(to_ptn, (&h,), Ok(other)) && !valid_utf8(other@) && reason@
                == utf8_complaint(other@);
        let bad: Result<Vec<u8>, String> = Ok(other);
        assert(call_ensures(to_ptn, (&h,), bad));
        assert(same_bytes(ok, bad) || same_bytes(bad, ok));
    }
}

/// Games that are the same fail for the same reason.
proof fn lemma_same_failure<P, M, X, ToPtn: Fn(&Game<P, M, X>) -> Result<Vec<u8>, String>>(
    kin: spec_fn(X, X) -> bool,
    to_ptn: ToPtn,
    g: Game<P, M, X>,
    h: Game<P, M, X>,
    first: String,
    second: String,
)
    requires
        writes_one_way(kin, to_ptn),
        same_game(kin, g, h),
        write_fails(to_ptn, g, first),
        write_fails(to_ptn, h, second),
    ensures
        first@ == second@,
{
    let a: Result<Vec<u8>, String> = if call_ensures(to_ptn, (&g,), Err(first)) {
        Err(first)
    } else {
        Ok(
            choose|bytes: Vec<u8>| #[trigger]
                call_ensures(to_ptn, (&g,), Ok(bytes)) && !valid_utf8(bytes@) && first@
                    == utf8_complaint(bytes@),
        )
    };
    let b: Result<Vec<u8>, String> = if call_ensures(to_ptn, (&h,), Err(second)) {
        Err(second)
    } else {
        Ok(
            choose|bytes: Vec<u8>| #[trigger]
                call_ensures(to_ptn, (&h,), Ok(bytes)) && !valid_utf8(bytes@) && second@
                    == utf8_complaint(bytes@),
        )
    };
    assert(call_ensures(to_ptn, (&g,), a));
    assert(call_ensures(to_ptn, (&h,), b));
    assert(same_bytes(a, b));
}

/// Games that are the same are written as the same text, or refused for the same reason.
pub proof fn law_same_games_are_written_the_same<
    P,
    M,
    X,
    ToPtn: Fn(&Game<P, M, X>) -> Result<Vec<u8>, String>,
>(
    kin: spec_fn(X, X) -> bool,
    to_ptn: ToPtn,
    a: Seq<Game<P, M, X>>,
    b: Seq<Game<P, M, X>>,
    first: Result<String, ApiError>,
    second: Result<String, ApiError>,
)
    requires
        writes_one_way(kin, to_ptn),
        same_games(kin, a, b),
        all_written(to_ptn, a, first),
        all_written(to_ptn, b, second),
    ensures
        same_answer(first, second),
{
    // How far each of the two runs has come, and what it has written until then.
    let (n, list) = match first {
        Ok(text) => (
            a.len() as int,
            choose|list: Seq<Vec<u8>>| #[trigger]
                written(to_ptn, a, list) && text@ == texts_of(list),
        ),
        Err(error) => choose|n: int, list: Seq<Vec<u8>>|
            0 <= n < a.len() && #[trigger] written(to_ptn, a.take(n), list) && write_fails(
                to_ptn,
                a[n],
                error->Refused_0,
            ),
    };
    let (m, other) = match second {
        Ok(text) => (
            b.len() as int,
            choose|list: Seq<Vec<u8>>| #[trigger]
                written(to_ptn, b, list) && text@ == texts_of(list),
        ),
        Err(error) => choose|n: int, list: Seq<Vec<u8>>|
            0 <= n < b.len() && #[trigger] written(to_ptn, b.take(n), list) && write_fails(
                to_ptn,
                b[n],
                error->Refused_0,
            ),
    };
    assert(a.take(a.len() as int) =~= a);
    assert(b.take(b.len() as int) =~= b);
    assert(written(to_ptn, a.take(n), list));
    assert(written(to_ptn, b.take(m), other));
    if n < m {
        let bytes = other[n];
        assert(valid_utf8(other[n]@));
        assert(b.take(m)[n] == b[n]);
        assert(same_game(kin, a[n], b[n]));
        lemma_written_does_not_fail(kin, to_ptn, b[n], a[n], bytes, first->Err_0->Refused_0);
    } else if m < n {
        let bytes = list[m];
        assert(valid_utf8(list[m]@));
        assert(a.take(n)[m] == a[m]);
        assert(same_game(kin, a[m], b[m]));
        lemma_written_does_not_fail(kin, to_ptn, a[m], b[m], bytes, second->Err_0->Refused_0);
    } else if n == a.len() {
        assert forall|i: int| 0 <= i < list.len() implies (#[trigger] list[i])@ == other[i]@ by {
            let x: Result<Vec<u8>, String> = Ok(list[i]);
            let y: Result<Vec<u8>, String> = Ok(other[i]);
            assert(valid_utf8(list[i]@) && valid_utf8(other[i]@));
            assert(same_game(kin, a[i], b[i]));
            assert(call_ensures(to_ptn, (&a[i],), x));
            assert(call_ensures(to_ptn, (&b[i],), y));
            assert(same_bytes(x, y));
        }
        lemma_same_texts(list, other);
    } else {
        assert(same_game(kin, a[n], b[n]));
        lemma_same_failure(
            kin,
            to_ptn,
            a[n],
            b[n],
            first->Err_0->Refused_0,
            second->Err_0->Refused_0,
        );
    }
}

// ---------------------------------------------------------------------------
// Whole texts
// ---------------------------------------------------------------------------

impl<GameOver, NullMove, HasWinningMove, NewProof, Select, Outcome, DoMove> Annotator<
    GameOver,
    NullMove,
    HasWinningMove,
    NewProof,
    Select,
    Outcome,
    DoMove,
> {
    /// Games that are the same but for the marks of threats are the same once they have been
    /// annotated.
    pub proof fn law_old_marks_leave_no_trace<P: Clone, M, X, Q>(
        self,
        kin: spec_fn(X, X) -> bool,
        nodes: nat,
        a: Game<P, M, X>,
        b: Game<P, M, X>,
        a_after: Game<P, M, X>,
        b_after: Game<P, M, X>,
    ) where
        GameOver: Fn(&P) -> bool,
        NullMove: Fn(P) -> P,
        HasWinningMove: Fn(P) -> bool,
        NewProof: Fn(P) -> Q,
        Select: Fn(Q) -> Q,
        Outcome: Fn(&Q) -> Option<ProofResult>,
        DoMove: Fn(P, M) -> P,

        requires
            self.decided::<P, M, Q>(),
            alike_game(kin, a, b),
            self.annotated::<P, M, X, Q>(nodes, a, a_after),
            self.annotated::<P, M, X, Q>(nodes, b, b_after),
        ensures
            same_game(kin, a_after, b_after),
    {
        assert(moves_of(a.moves@).len() == moves_of(b.moves@).len());
        assert(moves_of(a_after.moves@).len() == moves_of(a.moves@).len());
        assert(moves_of(b_after.moves@).len() == moves_of(b.moves@).len());
        assert forall|i: int|
            #![trigger a_after.moves@[i]]
            #![trigger b_after.moves@[i]]
            0 <= i < a_after.moves@.len() implies views(a_after.moves@[i].annotations@) == views(
            b_after.moves@[i].annotations@,
        ) by {
            let (x, first) = self.lemma_mark_at::<P, M, X, Q>(nodes, a, a_after, i);
            let (y, second) = self.lemma_mark_at::<P, M, X, Q>(nodes, b, b_after, i);
            law_played_one_way(
                outcomes_2(self.do_move),
                a.start_position,
                moves_of(a.moves@).take(i + 1),
                x,
                y,
            );
            self.law_one_threat_is_found::<P, M, Q>(nodes, x, first, second);
            assert(without_threats(views(a.moves@[i].annotations@)) == without_threats(
                views(b.moves@[i].annotations@),
            ));
        }
    }

    /// The marks of threats in the input have no influence on the output. If two texts give the
    /// same board size and are read as games that are the same but for these marks, or are
    /// refused for the same reason, annotating them with the same budget gives the same answer.
    pub proof fn law_old_marks_do_not_matter<P: Clone, M, X, Q, ParsePtn, ToPtn>(
        self,
        kin: spec_fn(X, X) -> bool,
        ptn: &str,
        other: &str,
        budget: Option<u32>,
        other_budget: Option<u32>,
        parse_ptn: ParsePtn,
        to_ptn: ToPtn,
        first: Result<String, ApiError>,
        second: Result<String, ApiError>,
    ) where
        GameOver: Fn(&P) -> bool,
        NullMove: Fn(P) -> P,
        HasWinningMove: Fn(P) -> bool,
        NewProof: Fn(P) -> Q,
        Select: Fn(Q) -> Q,
        Outcome: Fn(&Q) -> Option<ProofResult>,
        DoMove: Fn(P, M) -> P,
        ParsePtn: Fn(&str, usize) -> Result<Vec<Game<P, M, X>>, String>,
        ToPtn: Fn(&Game<P, M, X>) -> Result<Vec<u8>, String>,

        requires
            self.decided::<P, M, Q>(),
            writes_one_way(kin, to_ptn),
            size_value(ptn@) == size_value(other@),
            forall|
                size: usize,
                a: Result<Vec<Game<P, M, X>>, String>,
                b: Result<Vec<Game<P, M, X>>, String>,
            |
                size_value(ptn@) == Ok::<usize, ApiError>(size) && #[trigger] call_ensures(
                    parse_ptn,
                    (ptn, size),
                    a,
                ) && #[trigger] call_ensures(parse_ptn, (other, size), b) ==> alike_parsed(
                    kin,
                    a,
                    b,
                ),
            nodes_or_default(budget) == nodes_or_default(other_budget),
            self.ptn_annotated::<P, M, X, Q, ParsePtn, ToPtn>(
                ptn,
                budget,
                parse_ptn,
                to_ptn,
                first,
            ),
            self.ptn_annotated::<P, M, X, Q, ParsePtn, ToPtn>(
                other,
                other_budget,
                parse_ptn,
                to_ptn,
                second,
            ),
        ensures
            same_answer(first, second),
    {
        if let Ok(size) = size_value(ptn@) {
            if is_supported(size) {
                let nodes = nodes_or_default(budget);
                let x = choose|parsed: Result<Vec<Game<P, M, X>>, String>| #[trigger]
                    call_ensures(parse_ptn, (ptn, size), parsed) && match parsed {
                        Err(reason) => first == Err::<String, ApiError>(ApiError::Refused(reason)),
                        Ok(games) => exists|after: Seq<Game<P, M, X>>| #[trigger]
                            self.all_annotated::<P, M, X, Q>(nodes, games@, after) && all_written(
                                to_ptn,
                                after,
                                first,
                            ),
                    };
                let y = choose|parsed: Result<Vec<Game<P, M, X>>, String>| #[trigger]
                    call_ensures(parse_ptn, (other, size), parsed) && match parsed {
                        Err(reason) => second == Err::<String, ApiError>(ApiError::Refused(reason)),
                        Ok(games) => exists|after: Seq<Game<P, M, X>>| #[trigger]
                            self.all_annotated::<P, M, X, Q>(nodes, games@, after) && all_written(
                                to_ptn,
                                after,
                                second,
                            ),
                    };
                assert(alike_parsed(kin, x, y));
                if let (Ok(a), Ok(b)) = (x, y) {
                    let a_after = choose|after: Seq<Game<P, M, X>>| #[trigger]
                        self.all_annotated::<P, M, X, Q>(nodes, a@, after) && all_written(
                            to_ptn,
                            after,
                            first,
                        );
                    let b_after = choose|after: Seq<Game<P, M, X>>| #[trigger]
                        self.all_annotated::<P, M, X, Q>(nodes, b@, after) && all_written(
                            to_ptn,
                            after,
                            second,
                        );
                    assert forall|i: int|
                        #![trigger a_after[i]]
                        #![trigger b_after[i]]
                        0 <= i < a_after.len() implies same_game(kin, a_after[i], b_after[i]) by {
                        assert(alike_game(kin, a@[i], b@[i]));
                        assert(self.annotated::<P, M, X, Q>(nodes, a@[i], a_after[i]));
                        assert(self.annotated::<P, M, X, Q>(nodes, b@[i], b_after[i]));
                        self.law_old_marks_leave_no_trace::<P, M, X, Q>(
                            kin,
                            nodes,
                            a@[i],
                            b@[i],
                            a_after[i],
                            b_after[i],
                        );
                    }
                    law_same_games_are_written_the_same(
                        kin,
                        to_ptn,
                        a_after,
                        b_after,
                        first,
                        second,
                    );
                }
            }
        }
    }

    /// Without a budget, the answer is that of a budget of 500 nodes, refusals included.
    pub proof fn law_default_budget<P: Clone, M, X, Q, ParsePtn, ToPtn>(
        self,
        kin: spec_fn(X, X) -> bool,
        ptn: &str,
        parse_ptn: ParsePtn,
        to_ptn: ToPtn,
        without: Result<String, ApiError>,
        with: Result<String, ApiError>,
    ) where
        GameOver: Fn(&P) -> bool,
        NullMove: Fn(P) -> P,
        HasWinningMove: Fn(P) -> bool,
        NewProof: Fn(P) -> Q,
        Select: Fn(Q) -> Q,
        Outcome: Fn(&Q) -> Option<ProofResult>,
        DoMove: Fn(P, M) -> P,
        ParsePtn: Fn(&str, usize) -> Result<Vec<Game<P, M, X>>, String>,
        ToPtn: Fn(&Game<P, M, X>) -> Result<Vec<u8>, String>,

        requires
            self.decided::<P, M, Q>(),
            forall|x: X| #[trigger] kin(x, x),
            writes_one_way(kin, to_ptn),
            single_parse::<P, M, X, ParsePtn>(ptn, parse_ptn),
            self.ptn_annotated::<P, M, X, Q, ParsePtn, ToPtn>(
                ptn,
                None,
                parse_ptn,
                to_ptn,
                without,
            ),
            self.ptn_annotated::<P, M, X, Q, ParsePtn, ToPtn>(
                ptn,
                Some(500),
                parse_ptn,
                to_ptn,
                with,
            ),
        ensures
            same_answer(without, with),
    {
        assert(DEFAULT_TINUE_NODES == 500);
        assert forall|
            size: usize,
            a: Result<Vec<Game<P, M, X>>, String>,
            b: Result<Vec<Game<P, M, X>>, String>,
        |
            size_value(ptn@) == Ok::<usize, ApiError>(size) && #[trigger] call_ensures(
                parse_ptn,
                (ptn, size),
                a,
            ) && #[trigger] call_ensures(parse_ptn, (ptn, size), b) implies alike_parsed(
            kin,
            a,
            b,
        ) by {
            assert(a == b);
            if let Ok(games) = a {
                assert forall|i: int| 0 <= i < games@.len() implies #[trigger] kin(
                    games@[i].source,
                    games@[i].source,
                ) by {}
            }
        }
        self.law_old_marks_do_not_matter::<P, M, X, Q, ParsePtn, ToPtn>(
            kin,
            ptn,
            ptn,
            None,
            Some(500),
            parse_ptn,
            to_ptn,
            without,
            with,
        );
    }

    /// Whether the games that were written as `out`, when `ptn` was annotated, are what `out`,
    /// held by `copy`, is read as.
    pub open spec fn read_back<P: Clone, M, X, Q, ParsePtn, ToPtn>(
        self,
        kin: spec_fn(X, X) -> bool,
        ptn: &str,
        nodes: nat,
        parse_ptn: ParsePtn,
        to_ptn: ToPtn,
        out: String,
        copy: &str,
    ) -> bool where
        GameOver: Fn(&P) -> bool,
        NullMove: Fn(P) -> P,
        HasWinningMove: Fn(P) -> bool,
        NewProof: Fn(P) -> Q,
        Select: Fn(Q) -> Q,
        Outcome: Fn(&Q) -> Option<ProofResult>,
        DoMove: Fn(P, M) -> P,
        ParsePtn: Fn(&str, usize) -> Result<Vec<Game<P, M, X>>, String>,
        ToPtn: Fn(&Game<P, M, X>) -> Result<Vec<u8>, String>,
     {
        forall|
            size: usize,
            games: Vec<Game<P, M, X>>,
            after: Seq<Game<P, M, X>>,
            again: Result<Vec<Game<P, M, X>>, String>,
        |
            size_value(ptn@) == Ok::<usize, ApiError>(size) && call_ensures(
                parse_ptn,
                (ptn, size),
                Ok(games),
            ) && #[trigger] self.all_annotated::<P, M, X, Q>(nodes, games@, after) && all_written(
                to_ptn,
                after,
                Ok(out),
            ) && #[trigger] call_ensures(parse_ptn, (copy, size), again) ==> (again matches Ok(read)
                && same_games(kin, read@, after))
    }

    /// Annotating an annotated text again with the same budget changes nothing, if it gives the
    /// same board size and is read as the games that were written.
    pub proof fn law_annotating_a_text_again_changes_nothing<P: Clone, M, X, Q, ParsePtn, ToPtn>(
        self,
        kin: spec_fn(X, X) -> bool,
        ptn: &str,
        budget: Option<u32>,
        parse_ptn: ParsePtn,
        to_ptn: ToPtn,
        out: String,
        copy: &str,
        again: Result<String, ApiError>,
    ) where
        GameOver: Fn(&P) -> bool,
        NullMove: Fn(P) -> P,
        HasWinningMove: Fn(P) -> bool,
        NewProof: Fn(P) -> Q,
        Select: Fn(Q) -> Q,
        Outcome: Fn(&Q) -> Option<ProofResult>,
        DoMove: Fn(P, M) -> P,
        ParsePtn: Fn(&str, usize) -> Result<Vec<Game<P, M, X>>, String>,
        ToPtn: Fn(&Game<P, M, X>) -> Result<Vec<u8>, String>,

        requires
            self.decided::<P, M, Q>(),
            writes_one_way(kin, to_ptn),
            single_parse::<P, M, X, ParsePtn>(ptn, parse_ptn),
            copy@ == out@,
            size_value(copy@) == size_value(ptn@),
            self.ptn_annotated::<P, M, X, Q, ParsePtn, ToPtn>(
                ptn,
                budget,
                parse_ptn,
                to_ptn,
                Ok(out),
            ),
            self.read_back::<P, M, X, Q, ParsePtn, ToPtn>(
                kin,
                ptn,
                nodes_or_default(budget),
                parse_ptn,
                to_ptn,
                out,
                copy,
            ),
            self.ptn_annotated::<P, M, X, Q, ParsePtn, ToPtn>(
                copy,
                budget,
                parse_ptn,
                to_ptn,
                again,
            ),
        ensures
            again matches Ok(text) && text@ == out@,
    {
        let nodes = nodes_or_default(budget);
        let first: Result<String, ApiError> = Ok(out);
        let (games, after) = self.lemma_games_behind_text::<P, M, X, Q, ParsePtn, ToPtn>(
            ptn,
            budget,
            parse_ptn,
            to_ptn,
            out,
        );
        let parsed: Result<Vec<Game<P, M, X>>, String> = Ok(games);
        assert forall|
            n: usize,
            a: Result<Vec<Game<P, M, X>>, String>,
            b: Result<Vec<Game<P, M, X>>, String>,
        |
            size_value(copy@) == Ok::<usize, ApiError>(n) && #[trigger] call_ensures(
                parse_ptn,
                (copy, n),
                a,
            ) && #[trigger] call_ensures(parse_ptn, (ptn, n), b) implies alike_parsed(
            kin,
            a,
            b,
        ) by {
            assert(call_ensures(parse_ptn, (ptn, n), parsed));
            assert(b == parsed);
            assert(a matches Ok(read) && same_games(kin, read@, after));
            let read = a->Ok_0;
            assert forall|i: int|
                #![trigger read@[i]]
                #![trigger games@[i]]
                0 <= i < read@.len() implies alike_game(kin, read@[i], games@[i]) by {
                assert(same_game(kin, read@[i], after[i]));
                assert(self.annotated::<P, M, X, Q>(nodes, games@[i], after[i]));
                self.lemma_annotated_is_alike::<P, M, X, Q>(
                    kin,
                    nodes,
                    games@[i],
                    after[i],
                    read@[i],
                );
            }
        }
        self.law_old_marks_do_not_matter::<P, M, X, Q, ParsePtn, ToPtn>(
            kin,
            copy,
            ptn,
            budget,
            budget,
            parse_ptn,
            to_ptn,
            again,
            first,
        );
    }

    /// A game that is the same as an annotated one is like the one that was annotated.
    proof fn lemma_annotated_is_alike<P: Clone, M, X, Q>(
        self,
        kin: spec_fn(X, X) -> bool,
        nodes: nat,
        game: Game<P, M, X>,
        after: Game<P, M, X>,
        read: Game<P, M, X>,
    ) where
        GameOver: Fn(&P) -> bool,
        NullMove: Fn(P) -> P,
        HasWinningMove: Fn(P) -> bool,
        NewProof: Fn(P) -> Q,
        Select: Fn(Q) -> Q,
        Outcome: Fn(&Q) -> Option<ProofResult>,
        DoMove: Fn(P, M) -> P,

        requires
            self.annotated::<P, M, X, Q>(nodes, game, after),
            same_game(kin, read, after),
        ensures
            alike_game(kin, read, game),
    {
        let (start, threats, end) = choose|start: P, threats: Seq<Option<Threat>>, end: P|
            cloned(game.start_position, start) && #[trigger] threats_found(
                outcomes_2(self.do_move),
                self.threats::<P, Q>(nodes),
                start,
                moves_of(game.moves@),
                threats,
                end,
            ) && marked(game.moves@, threats, after.moves@);
        assert(moves_of(read.moves@).len() == moves_of(game.moves@).len());
        assert forall|i: int|
            #![trigger read.moves@[i]]
            #![trigger game.moves@[i]]
            0 <= i < read.moves@.len() implies without_threats(
            views(read.moves@[i].annotations@),
        ) == without_threats(views(game.moves@[i].annotations@)) by {
            assert(views(read.moves@[i].annotations@) == views(after.moves@[i].annotations@));
            law_threat_is_replaced(views(game.moves@[i].annotations@), threats[i], None);
        }
    }
}

impl<GameOver, NullMove, HasWinningMove, NewProof, Select, Outcome, DoMove> Annotator<
    GameOver,
    NullMove,
    HasWinningMove,
    NewProof,
    Select,
    Outcome,
    DoMove,
> {
    /// The games that a text is written from, once it has been annotated.
    proof fn lemma_games_behind_text<P: Clone, M, X, Q, ParsePtn, ToPtn>(
        self,
        ptn: &str,
        budget: Option<u32>,
        parse_ptn: ParsePtn,
        to_ptn: ToPtn,
        out: String,
    ) -> (behind: (Vec<Game<P, M, X>>, Seq<Game<P, M, X>>)) where
        GameOver: Fn(&P) -> bool,
        NullMove: Fn(P) -> P,
        HasWinningMove: Fn(P) -> bool,
        NewProof: Fn(P) -> Q,
        Select: Fn(Q) -> Q,
        Outcome: Fn(&Q) -> Option<ProofResult>,
        DoMove: Fn(P, M) -> P,
        ParsePtn: Fn(&str, usize) -> Result<Vec<Game<P, M, X>>, String>,
        ToPtn: Fn(&Game<P, M, X>) -> Result<Vec<u8>, String>,

        requires
            self.ptn_annotated::<P, M, X, Q, ParsePtn, ToPtn>(
                ptn,
                budget,
                parse_ptn,
                to_ptn,
                Ok(out),
            ),
        ensures
            size_value(ptn@) is Ok,
            call_ensures(parse_ptn, (ptn, size_value(ptn@)->Ok_0), Ok(behind.0)),
            self.all_annotated::<P, M, X, Q>(nodes_or_default(budget), behind.0@, behind.1),
            all_written(to_ptn, behind.1, Ok(out)),
    {
        let nodes = nodes_or_default(budget);
        let size = size_value(ptn@)->Ok_0;
        let text: Result<String, ApiError> = Ok(out);
        let parsed = choose|parsed: Result<Vec<Game<P, M, X>>, String>| #[trigger]
            call_ensures(parse_ptn, (ptn, size), parsed) && match parsed {
                Err(reason) => text == Err::<String, ApiError>(ApiError::Refused(reason)),
                Ok(games) => exists|after: Seq<Game<P, M, X>>| #[trigger]
                    self.all_annotated::<P, M, X, Q>(nodes, games@, after) && all_written(
                        to_ptn,
                        after,
                        text,
                    ),
            };
        let games = parsed->Ok_0;
        let after = choose|after: Seq<Game<P, M, X>>| #[trigger]
            self.all_annotated::<P, M, X, Q>(nodes, games@, after) && all_written(
                to_ptn,
                after,
                text,
            );
        (games, after)
    }

    /// The marks in an annotated text answer the two questions: it is written from games whose
    /// marks do, move by move, for the games that the input was read as.
    pub proof fn law_annotated_text_answers_the_questions<P: Clone, M, X, Q, ParsePtn, ToPtn>(
        self,
        ptn: &str,
        budget: Option<u32>,
        parse_ptn: ParsePtn,
        to_ptn: ToPtn,
        out: String,
    ) where
        GameOver: Fn(&P) -> bool,
        NullMove: Fn(P) -> P,
        HasWinningMove: Fn(P) -> bool,
        NewProof: Fn(P) -> Q,
        Select: Fn(Q) -> Q,
        Outcome: Fn(&Q) -> Option<ProofResult>,
        DoMove: Fn(P, M) -> P,
        ParsePtn: Fn(&str, usize) -> Result<Vec<Game<P, M, X>>, String>,
        ToPtn: Fn(&Game<P, M, X>) -> Result<Vec<u8>, String>,

        requires
            self.decided::<P, M, Q>(),
            self.ptn_annotated::<P, M, X, Q, ParsePtn, ToPtn>(
                ptn,
                budget,
                parse_ptn,
                to_ptn,
                Ok(out),
            ),
        ensures
            exists|size: usize, games: Vec<Game<P, M, X>>, after: Seq<Game<P, M, X>>|
                size_value(ptn@) == Ok::<usize, ApiError>(size) && #[trigger] call_ensures(
                    parse_ptn,
                    (ptn, size),
                    Ok(games),
                ) && after.len() == games@.len() && (forall|i: int|
                    0 <= i < games@.len() ==> self.marks_answer::<P, M, X, Q>(
                        nodes_or_default(budget),
                        games@[i],
                        #[trigger] after[i],
                    )) && #[trigger] all_written(to_ptn, after, Ok(out)),
    {
        let nodes = nodes_or_default(budget);
        let (games, after) = self.lemma_games_behind_text::<P, M, X, Q, ParsePtn, ToPtn>(
            ptn,
            budget,
            parse_ptn,
            to_ptn,
            out,
        );
        assert forall|i: int| 0 <= i < games@.len() implies self.marks_answer::<P, M, X, Q>(
            nodes,
            games@[i],
            #[trigger] after[i],
        ) by {
            self.law_marks_answer_the_questions::<P, M, X, Q>(nodes, games@[i], after[i]);
        }
        assert(call_ensures(parse_ptn, (ptn, size_value(ptn@)->Ok_0), Ok(games)));
    }

    /// A larger budget only adds marks of tinue to an annotated text: the two texts are written
    /// from games whose marks, game by game, grow from the smaller budget to the larger one.
    pub proof fn law_larger_budget_only_adds_tinue_to_a_text<P: Clone, M, X, Q, ParsePtn, ToPtn>(
        self,
        ptn: &str,
        budget: Option<u32>,
        larger_budget: Option<u32>,
        parse_ptn: ParsePtn,
        to_ptn: ToPtn,
        out: String,
        out_more: String,
    ) where
        GameOver: Fn(&P) -> bool,
        NullMove: Fn(P) -> P,
        HasWinningMove: Fn(P) -> bool,
        NewProof: Fn(P) -> Q,
        Select: Fn(Q) -> Q,
        Outcome: Fn(&Q) -> Option<ProofResult>,
        DoMove: Fn(P, M) -> P,
        ParsePtn: Fn(&str, usize) -> Result<Vec<Game<P, M, X>>, String>,
        ToPtn: Fn(&Game<P, M, X>) -> Result<Vec<u8>, String>,

        requires
            self.decided::<P, M, Q>(),
            self.prover.can_grow::<P, Q>(nodes_or_default(budget)),
            single_parse::<P, M, X, ParsePtn>(ptn, parse_ptn),
            nodes_or_default(budget) <= nodes_or_default(larger_budget),
            self.ptn_annotated::<P, M, X, Q, ParsePtn, ToPtn>(
                ptn,
                budget,
                parse_ptn,
                to_ptn,
                Ok(out),
            ),
            self.ptn_annotated::<P, M, X, Q, ParsePtn, ToPtn>(
                ptn,
                larger_budget,
                parse_ptn,
                to_ptn,
                Ok(out_more),
            ),
        ensures
            exists|after: Seq<Game<P, M, X>>, after_more: Seq<Game<P, M, X>>| #[trigger]
                all_written(to_ptn, after, Ok(out)) && #[trigger] all_written(
                    to_ptn,
                    after_more,
                    Ok(out_more),
                ) && after.len() == after_more.len() && forall|i: int|
                    0 <= i < after.len() ==> marks_grow(#[trigger] after[i], after_more[i]),
    {
        let (games, after) = self.lemma_games_behind_text::<P, M, X, Q, ParsePtn, ToPtn>(
            ptn,
            budget,
            parse_ptn,
            to_ptn,
            out,
        );
        let (same, after_more) = self.lemma_games_behind_text::<P, M, X, Q, ParsePtn, ToPtn>(
            ptn,
            larger_budget,
            parse_ptn,
            to_ptn,
            out_more,
        );
        let a: Result<Vec<Game<P, M, X>>, String> = Ok(games);
        let b: Result<Vec<Game<P, M, X>>, String> = Ok(same);
        let size = size_value(ptn@)->Ok_0;
        assert(call_ensures(parse_ptn, (ptn, size), a));
        assert(call_ensures(parse_ptn, (ptn, size), b));
        assert(a == b);
        assert forall|i: int| 0 <= i < after.len() implies marks_grow(
            #[trigger] after[i],
            after_more[i],
        ) by {
            assert(self.annotated::<P, M, X, Q>(
                nodes_or_default(larger_budget),
                games@[i],
                after_more[i],
            ));
            self.law_larger_budget_only_adds_tinue_marks::<P, M, X, Q>(
                nodes_or_default(budget),
                nodes_or_default(larger_budget),
                games@[i],
                after[i],
                after_more[i],
            );
        }
    }
}

/// Whether a text is read in one way, on the board size that it gives.
pub open spec fn single_parse<
    P,
    M,
    X,
    ParsePtn: Fn(&str, usize) -> Result<Vec<Game<P, M, X>>, String>,
>(ptn: &str, parse_ptn: ParsePtn) -> bool {
    forall|
        size: usize,
        a: Result<Vec<Game<P, M, X>>, String>,
        b: Result<Vec<Game<P, M, X>>, String>,
    |
        size_value(ptn@) == Ok::<usize, ApiError>(size) && #[trigger] call_ensures(
            parse_ptn,
            (ptn, size),
            a,
        ) && #[trigger] call_ensures(parse_ptn, (ptn, size), b) ==> a == b
}

// ---------------------------------------------------------------------------
// What annotating comes down to
// ---------------------------------------------------------------------------

/// Annotating takes out the two marks wherever they stand, leaves every other annotation where it
/// is, and puts the mark of the threat, if there is one, behind them.
pub proof fn law_marks_are_taken_out_and_put_last(annotations: Seq<Seq<char>>)
    ensures
        with_threat(annotations, None) == annotations.filter(
            |a: Seq<char>| a != "'"@ && a != "\""@,
        ),
        with_threat(annotations, Some(Threat::Tak)) == annotations.filter(
            |a: Seq<char>| a != "'"@ && a != "\""@,
        ).push("'"@),
        with_threat(annotations, Some(Threat::Tinue)) == annotations.filter(
            |a: Seq<char>| a != "'"@ && a != "\""@,
        ).push("\""@),
{
    lemma_marks_are_filtered(annotations);
}

proof fn lemma_marks_are_filtered(annotations: Seq<Seq<char>>)
    ensures
        without_threats(annotations) == annotations.filter(
            |a: Seq<char>| a != "'"@ && a != "\""@,
        ),
    decreases annotations.len(),
{
    reveal(Seq::filter);
    if annotations.len() > 0 {
        lemma_marks_are_filtered(annotations.drop_last());
    } else {
        assert(annotations =~= Seq::empty());
    }
}

impl<GameOver, NullMove, HasWinningMove, NewProof, Select, Outcome, DoMove> Annotator<
    GameOver,
    NullMove,
    HasWinningMove,
    NewProof,
    Select,
    Outcome,
    DoMove,
> {
    /// The calls behind a threat. There is none if the game is over. Otherwise the other player
    /// passes, on a clone of the position, and a proof search is made on a clone of what that
    /// gives; the threat is tinue if it proves the win, and otherwise tak or none, as there is a
    /// winning move after the pass or not.
    pub proof fn law_threat_is_looked_for_after_a_pass<P: Clone, Q>(
        self,
        nodes: nat,
        position: P,
        threat: Option<Threat>,
    ) -> (behind: (P, P, P, Option<ProofResult>)) where
        GameOver: Fn(&P) -> bool,
        NullMove: Fn(P) -> P,
        HasWinningMove: Fn(P) -> bool,
        NewProof: Fn(P) -> Q,
        Select: Fn(Q) -> Q,
        Outcome: Fn(&Q) -> Option<ProofResult>,

        requires
            self.threat_found::<P, Q>(nodes, position, threat),
        ensures
            (call_ensures(self.rules.game_over, (&position,), true) && threat is None) || ({
                let (copy, passed, asked, found) = behind;
                &&& call_ensures(self.rules.game_over, (&position,), false)
                &&& cloned(position, copy)
                &&& call_ensures(self.rules.null_move, (copy,), passed)
                &&& cloned(passed, asked)
                &&& self.prover.proof_finds::<P, Q>(nodes, asked, found)
                &&& threat == Some(Threat::Tinue) <==> found == Some(ProofResult::Proved)
                &&& threat == Some(Threat::Tak) ==> call_ensures(
                    self.rules.has_winning_move,
                    (passed,),
                    true,
                )
                &&& threat is None ==> call_ensures(self.rules.has_winning_move, (passed,), false)
            }),
    {
        if call_ensures(self.rules.game_over, (&position,), true) && threat is None {
            (position, position, position, None)
        } else {
            let (copy, passed) = choose|copy: P, passed: P|
                cloned(position, copy) && #[trigger] call_ensures(
                    self.rules.null_move,
                    (copy,),
                    passed,
                ) && self.passed_threat::<P, Q>(nodes, passed, threat);
            let (asked, found) = choose|copy: P, found: Option<ProofResult>|
                cloned(passed, copy) && #[trigger] self.prover.proof_finds::<P, Q>(
                    nodes,
                    copy,
                    found,
                ) && if found == Some(ProofResult::Proved) {
                    threat == Some(Threat::Tinue)
                } else {
                    ||| call_ensures(self.rules.has_winning_move, (passed,), true) && threat
                        == Some(Threat::Tak)
                    ||| call_ensures(self.rules.has_winning_move, (passed,), false)
                        && threat is None
                };
            (copy, passed, asked, found)
        }
    }

    /// An annotated game is the same game, move by move: the moves are played one after the other
    /// from a clone of the start, and each carries the mark of the threat that is found in the
    /// position that it leads to, with the nodes given.
    pub proof fn law_each_move_is_marked_with_its_own_threat<P: Clone, M, X, Q>(
        self,
        nodes: nat,
        before: Game<P, M, X>,
        after: Game<P, M, X>,
    ) -> (behind: (Seq<P>, Seq<Option<Threat>>)) where
        GameOver: Fn(&P) -> bool,
        NullMove: Fn(P) -> P,
        HasWinningMove: Fn(P) -> bool,
        NewProof: Fn(P) -> Q,
        Select: Fn(Q) -> Q,
        Outcome: Fn(&Q) -> Option<ProofResult>,
        DoMove: Fn(P, M) -> P,

        requires
            self.annotated::<P, M, X, Q>(nodes, before, after),
        ensures
            after.start_position == before.start_position,
            after.source == before.source,
            after.moves@.len() == before.moves@.len(),
            behind.0.len() == before.moves@.len() + 1,
            behind.1.len() == before.moves@.len(),
            cloned(before.start_position, behind.0[0]),
            forall|i: int|
                0 <= i < before.moves@.len() ==> call_ensures(
                    self.do_move,
                    (behind.0[i], (#[trigger] before.moves@[i]).mv),
                    behind.0[i + 1],
                ),
            forall|i: int|
                0 <= i < before.moves@.len() ==> self.threat_found::<P, Q>(
                    nodes,
                    behind.0[i + 1],
                    #[trigger] behind.1[i],
                ),
            forall|i: int|
                0 <= i < before.moves@.len() ==> (#[trigger] after.moves@[i]).mv
                    == before.moves@[i].mv && views(after.moves@[i].annotations@) == with_threat(
                    views(before.moves@[i].annotations@),
                    behind.1[i],
                ),
    {
        let step = outcomes_2(self.do_move);
        let shows = self.threats::<P, Q>(nodes);
        let (start, threats, end) = choose|start: P, threats: Seq<Option<Threat>>, end: P|
            cloned(before.start_position, start) && #[trigger] threats_found(
                step,
                shows,
                start,
                moves_of(before.moves@),
                threats,
                end,
            ) && marked(before.moves@, threats, after.moves@);
        let moves = moves_of(before.moves@);
        let path = lemma_threat_path(step, shows, start, moves, threats, end);
        assert(moves.len() == before.moves@.len());
        assert forall|i: int| 0 <= i < before.moves@.len() implies call_ensures(
            self.do_move,
            (path[i], (#[trigger] before.moves@[i]).mv),
            path[i + 1],
        ) by {
            assert(step(path[i], moves[i], path[i + 1]));
        }
        assert forall|i: int| 0 <= i < before.moves@.len() implies self.threat_found::<P, Q>(
            nodes,
            path[i + 1],
            #[trigger] threats[i],
        ) by {
            assert(shows(path[i + 1], threats[i]));
        }
        assert forall|i: int| 0 <= i < before.moves@.len() implies (#[trigger] after.moves@[i]).mv
            == before.moves@[i].mv by {
            assert(moves_of(after.moves@)[i] == moves[i]);
        }
        (path, threats)
    }
}

proof fn lemma_threat_path<P, M>(
    step: spec_fn(P, M, P) -> bool,
    shows: spec_fn(P, Option<Threat>) -> bool,
    start: P,
    moves: Seq<M>,
    threats: Seq<Option<Threat>>,
    end: P,
) -> (path: Seq<P>)
    requires
        threats_found(step, shows, start, moves, threats, end),
    ensures
        threats.len() == moves.len(),
        path.len() == moves.len() + 1,
        path[0] == start,
        path.last() == end,
        forall|i: int| 0 <= i < moves.len() ==> step(path[i], #[trigger] moves[i], path[i + 1]),
        forall|i: int| 0 <= i < moves.len() ==> shows(path[i + 1], #[trigger] threats[i]),
    decreases moves.len(),
{
    if moves.len() == 0 {
        seq![start]
    } else {
        let before = choose|before: P|
            threats_found(
                step,
                shows,
                start,
                moves.drop_last(),
                threats.drop_last(),
                before,
            ) && #[trigger] step(before, moves.last(), end) && shows(end, threats.last());
        let front = lemma_threat_path(
            step,
            shows,
            start,
            moves.drop_last(),
            threats.drop_last(),
            before,
        );
        let path = front.push(end);
        assert forall|i: int| 0 <= i < moves.len() implies step(
            path[i],
            #[trigger] moves[i],
            path[i + 1],
        ) by {
            if i < moves.len() - 1 {
                assert(moves.drop_last()[i] == moves[i]);
                assert(path[i] == front[i] && path[i + 1] == front[i + 1]);
            }
        }
        assert forall|i: int| 0 <= i < moves.len() implies shows(
            path[i + 1],
            #[trigger] threats[i],
        ) by {
            if i < moves.len() - 1 {
                assert(threats.drop_last()[i] == threats[i]);
                assert(path[i + 1] == front[i + 1]);
            }
        }
        path
    }
}

/// The moves of a record are its moves, in order, without their annotations.
pub proof fn law_moves_are_in_order<M>(moves: Seq<PtnMove<M>>)
    ensures
        moves_of(moves).len() == moves.len(),
        forall|i: int| 0 <= i < moves.len() ==> #[trigger] moves_of(moves)[i] == moves[i].mv,
{
}

/// Written games are one text: each game in turn is written as bytes, and the texts that these
/// encode stand one behind the other.
pub proof fn law_written_text_is_all_the_games<G, ToPtn: Fn(&G) -> Result<Vec<u8>, String>>(
    to_ptn: ToPtn,
    games: Seq<G>,
    text: String,
) -> (list: Seq<Vec<u8>>)
    requires
        all_written(to_ptn, games, Ok(text)),
    ensures
        list.len() == games.len(),
        forall|i: int|
            0 <= i < games.len() ==> call_ensures(to_ptn, (&games[i],), Ok(#[trigger] list[i]))
                && valid_utf8(list[i]@),
        text@ == list.map_values(|bytes: Vec<u8>| decode_utf8(bytes@)).flatten_alt(),
{
    let list = choose|list: Seq<Vec<u8>>| #[trigger]
        written(to_ptn, games, list) && text@ == texts_of(list);
    assert forall|i: int| 0 <= i < games.len() implies call_ensures(
        to_ptn,
        (&games[i],),
        Ok(#[trigger] list[i]),
    ) && valid_utf8(list[i]@) by {
        assert(valid_utf8(list[i]@));
    }
    lemma_texts_are_flattened(list);
    list
}

proof fn lemma_texts_are_flattened(list: Seq<Vec<u8>>)
    ensures
        texts_of(list) == list.map_values(|bytes: Vec<u8>| decode_utf8(bytes@)).flatten_alt(),
    decreases list.len(),
{
    let f = |bytes: Vec<u8>| decode_utf8(bytes@);
    if list.len() > 0 {
        lemma_texts_are_flattened(list.drop_last());
        assert(list.map_values(f).drop_last() =~= list.drop_last().map_values(f));
        assert(list.map_values(f).last() == decode_utf8(list.last()@));
    }
}

/// Writing fails with the first game that cannot be written, or whose bytes are no UTF-8, for the
/// reason that there is for it; all games before it have been written.
pub proof fn law_writing_fails_with_the_first_bad_game<
    G,
    ToPtn: Fn(&G) -> Result<Vec<u8>, String>,
>(to_ptn: ToPtn, games: Seq<G>, error: ApiError) -> (until: (int, Seq<Vec<u8>>))
    requires
        all_written(to_ptn, games, Err(error)),
    ensures
        0 <= until.0 < games.len(),
        error is Refused,
        until.1.len() == until.0,
        forall|i: int|
            0 <= i < until.0 ==> call_ensures(to_ptn, (&games[i],), Ok(#[trigger] until.1[i]))
                && valid_utf8(until.1[i]@),
        call_ensures(to_ptn, (&games[until.0],), Err(error->Refused_0)) || exists|bytes: Vec<u8>|
            #[trigger] call_ensures(to_ptn, (&games[until.0],), Ok(bytes)) && !valid_utf8(bytes@)
                && error->Refused_0@ == utf8_complaint(bytes@),
{
    let (n, list) = choose|n: int, list: Seq<Vec<u8>>|
        0 <= n < games.len() && #[trigger] written(to_ptn, games.take(n), list) && write_fails(
            to_ptn,
            games[n],
            error->Refused_0,
        );
    assert forall|i: int| 0 <= i < n implies call_ensures(
        to_ptn,
        (&games[i],),
        Ok(#[trigger] list[i]),
    ) && valid_utf8(list[i]@) by {
        assert(games.take(n)[i] == games[i]);
        assert(valid_utf8(list[i]@));
    }
    (n, list)
}

impl<GameOver, NullMove, HasWinningMove, NewProof, Select, Outcome, DoMove> Annotator<
    GameOver,
    NullMove,
    HasWinningMove,
    NewProof,
    Select,
    Outcome,
    DoMove,
> {
    /// Annotating a text. Without a size, or with another one than 4, 5 or 6, it is refused; a
    /// text that cannot be read is refused for the reason given. Otherwise each of the games that
    /// were read is annotated, with the nodes given or with 500, and they are written in order.
    pub proof fn law_annotating_reads_annotates_and_writes<P: Clone, M, X, Q, ParsePtn, ToPtn>(
        self,
        ptn: &str,
        budget: Option<u32>,
        parse_ptn: ParsePtn,
        to_ptn: ToPtn,
        text: Result<String, ApiError>,
    ) where
        GameOver: Fn(&P) -> bool,
        NullMove: Fn(P) -> P,
        HasWinningMove: Fn(P) -> bool,
        NewProof: Fn(P) -> Q,
        Select: Fn(Q) -> Q,
        Outcome: Fn(&Q) -> Option<ProofResult>,
        DoMove: Fn(P, M) -> P,
        ParsePtn: Fn(&str, usize) -> Result<Vec<Game<P, M, X>>, String>,
        ToPtn: Fn(&Game<P, M, X>) -> Result<Vec<u8>, String>,

        requires
            self.ptn_annotated::<P, M, X, Q, ParsePtn, ToPtn>(
                ptn,
                budget,
                parse_ptn,
                to_ptn,
                text,
            ),
        ensures
            size_value(ptn@) matches Err(error) ==> text == Err::<String, ApiError>(error),
            size_value(ptn@) matches Ok(size) && size != 4 && size != 5 && size != 6 ==> text
                == Err::<String, ApiError>(ApiError::UnsupportedSize(size_value(ptn@)->Ok_0)),
            size_value(ptn@) matches Ok(size) && (size == 4 || size == 5 || size == 6) ==> exists|
                parsed: Result<Vec<Game<P, M, X>>, String>,
            | #[trigger]
                call_ensures(parse_ptn, (ptn, size_value(ptn@)->Ok_0), parsed) && match parsed {
                    Err(reason) => text == Err::<String, ApiError>(ApiError::Refused(reason)),
                    Ok(games) => exists|after: Seq<Game<P, M, X>>| #[trigger]
                        all_written(to_ptn, after, text) && after.len() == games@.len() && forall|
                            i: int,
                        |
                            0 <= i < after.len() ==> self.annotated::<P, M, X, Q>(
                                match budget {
                                    Some(nodes) => nodes as nat,
                                    None => 500,
                                },
                                games@[i],
                                #[trigger] after[i],
                            ),
                },
    {
        if let Ok(size) = size_value(ptn@) {
            if size == 4 || size == 5 || size == 6 {
                let nodes = nodes_or_default(budget);
                let parsed = choose|parsed: Result<Vec<Game<P, M, X>>, String>| #[trigger]
                    call_ensures(parse_ptn, (ptn, size), parsed) && match parsed {
                        Err(reason) => text == Err::<String, ApiError>(ApiError::Refused(reason)),
                        Ok(games) => exists|after: Seq<Game<P, M, X>>| #[trigger]
                            self.all_annotated::<P, M, X, Q>(nodes, games@, after) && all_written(
                                to_ptn,
                                after,
                                text,
                            ),
                    };
                assert(call_ensures(parse_ptn, (ptn, size), parsed));
                if let Ok(games) = parsed {
                    let after = choose|after: Seq<Game<P, M, X>>| #[trigger]
                        self.all_annotated::<P, M, X, Q>(nodes, games@, after) && all_written(
                            to_ptn,
                            after,
                            text,
                        );
                    assert(all_written(to_ptn, after, text));
                }
            }
        }
    }
}

} // verus!
