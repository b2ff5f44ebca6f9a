//! Annotating the moves of game records with the threats that they make.

use vstd::prelude::*;
use vstd::string::*;
use vstd::utf8::decode_utf8;
use vstd::utf8::valid_utf8;

use crate::outcome::clones_are_equal;
use crate::outcome::outcomes_2;
use crate::outcome::single_2;
use crate::size_tag::extract_size;
use crate::size_tag::size_value;
use crate::size_tag::ApiError;
use crate::text::same_text;
use crate::text::views;
use crate::threat::is_supported;
use crate::threat::supported;
use crate::threat::ProofResult;
use crate::threat::Prover;
use crate::threat::Rules;

verus! {

/// A threat that a move makes.
#[derive(Debug, Clone, Copy, PartialEq, Eq, Structural)]
pub enum Threat {
    /// A road on the next move.
    Tak,
    /// A road that cannot be stopped.
    Tinue,
}

/// A move of a game record, and the annotations written behind it.
pub struct PtnMove<M> {
    pub mv: M,
    pub annotations: Vec<&'static str>,
}

/// A game record. `source` is what else belongs to it.
pub struct Game<P, M, X> {
    pub start_position: P,
    pub moves: Vec<PtnMove<M>>,
    pub source: X,
}

// ---------------------------------------------------------------------------
// The annotations of one move
// ---------------------------------------------------------------------------

impl Threat {
    /// The annotation that marks this threat.
    pub open spec fn mark(self) -> Seq<char> {
        match self {
            Threat::Tak => "'"@,
            Threat::Tinue => "\""@,
        }
    }

    /// The annotation that marks this threat.
    pub fn symbol(&self) -> (symbol: &'static str)
        ensures
            symbol@ == self.mark(),
    {
        match self {
            Threat::Tak => "'",
            Threat::Tinue => "\"",
        }
    }
}

/// Whether an annotation marks a threat.
pub open spec fn is_threat_mark(annotation: Seq<char>) -> bool {
    annotation == Threat::Tak.mark() || annotation == Threat::Tinue.mark()
}

/// `annotations` without the marks of threats.
pub open spec fn without_threats(annotations: Seq<Seq<char>>) -> Seq<Seq<char>>
    decreases annotations.len(),
{
    if annotations.len() == 0 {
        Seq::empty()
    } else if is_threat_mark(annotations.last()) {
        without_threats(annotations.drop_last())
    } else {
        without_threats(annotations.drop_last()).push(annotations.last())
    }
}

/// `annotations` with their marks of threats replaced by the mark of `threat`, if there is
/// one. It stands last.
pub open spec fn with_threat(annotations: Seq<Seq<char>>, threat: Option<Threat>) -> Seq<
    Seq<char>,
> {
    match threat {
        Some(threat) => without_threats(annotations).push(threat.mark()),
        None => without_threats(annotations),
    }
}

/// Replaces the marks of threats among `annotations`.
pub fn replace_threat(annotations: &Vec<&'static str>, threat: Option<Threat>) -> (out: Vec<
    &'static str,
>)
    ensures
        views(out@) == with_threat(views(annotations@), threat),
{
    let mut out: Vec<&'static str> = Vec::new();
    let mut i: usize = 0;
    let ghost all = views(annotations@);
    while i < annotations.len()
        invariant
            all == views(annotations@),
            i <= annotations@.len(),
            views(out@) == without_threats(all.take(i as int)),
        decreases annotations.len() - i,
    {
        let annotation = annotations[i];
        assert(all.take(i + 1).drop_last() =~= all.take(i as int));
        assert(all.take(i + 1).last() == annotation@);
        if !same_text(annotation, "'") && !same_text(annotation, "\"") {
            assert(views(out@.push(annotation)) =~= views(out@).push(annotation@));
            out.push(annotation);
        }
        i = i + 1;
    }
    assert(all.take(i as int) =~= all);
    if let Some(threat) = threat {
        let symbol = threat.symbol();
        assert(views(out@.push(symbol)) =~= views(out@).push(symbol@));
        out.push(symbol);
    }
    out
}

/// Annotating twice is annotating once: only the second threat is marked.
pub proof fn law_threat_is_replaced(
    annotations: Seq<Seq<char>>,
    first: Option<Threat>,
    second: Option<Threat>,
)
    ensures
        with_threat(with_threat(annotations, first), second) == with_threat(annotations, second),
{
    let kept = without_threats(annotations);
    lemma_without_threats_again(annotations);
    if let Some(threat) = first {
        assert(kept.push(threat.mark()).drop_last() =~= kept);
    }
}

proof fn lemma_without_threats_again(annotations: Seq<Seq<char>>)
    ensures
        without_threats(without_threats(annotations)) == without_threats(annotations),
    decreases annotations.len(),
{
    if annotations.len() > 0 {
        let front = without_threats(annotations.drop_last());
        lemma_without_threats_again(annotations.drop_last());
        if !is_threat_mark(annotations.last()) {
            assert(front.push(annotations.last()).drop_last() =~= front);
        }
    }
}

/// Annotating keeps every other annotation, in order, and leaves no mark of a threat but
/// that of the threat given.
pub proof fn law_other_annotations_stay(annotations: Seq<Seq<char>>, threat: Option<Threat>)
    ensures
        without_threats(with_threat(annotations, threat)) == without_threats(annotations),
        forall|i: int|
            0 <= i < with_threat(annotations, threat).len() && is_threat_mark(
                #[trigger] with_threat(annotations, threat)[i],
            ) ==> threat is Some && i == with_threat(annotations, threat).len() - 1
                && with_threat(annotations, threat)[i] == threat->0.mark(),
{
    law_threat_is_replaced(annotations, threat, None);
    lemma_no_threats_left(annotations);
}

proof fn lemma_no_threats_left(annotations: Seq<Seq<char>>)
    ensures
        forall|i: int|
            0 <= i < without_threats(annotations).len() ==> !is_threat_mark(
                #[trigger] without_threats(annotations)[i],
            ),
    decreases annotations.len(),
{
    if annotations.len() > 0 {
        lemma_no_threats_left(annotations.drop_last());
        let front = without_threats(annotations.drop_last());
        assert forall|i: int| 0 <= i < without_threats(annotations).len() implies !is_threat_mark(
            #[trigger] without_threats(annotations)[i],
        ) by {
            if i < front.len() {
                assert(without_threats(annotations)[i] == front[i]);
            }
        }
    }
}

// ---------------------------------------------------------------------------
// The threats of one game
// ---------------------------------------------------------------------------

/// Whether playing `moves` from `start` can lead to `end`, with `threats` shown after each of
/// the moves. `step` says what a move can make of a position, and `shows` which threats can be
/// found in one.
pub open spec fn threats_found<P, M>(
    step: spec_fn(P, M, P) -> bool,
    shows: spec_fn(P, Option<Threat>) -> bool,
    start: P,
    moves: Seq<M>,
    threats: Seq<Option<Threat>>,
    end: P,
) -> bool
    decreases moves.len(),
{
    &&& threats.len() == moves.len()
    &&& if moves.len() == 0 {
        end == start
    } else {
        exists|before: P|
            threats_found(
                step,
                shows,
                start,
                moves.drop_last(),
                threats.drop_last(),
                before,
            ) && #[trigger] step(before, moves.last(), end) && shows(end, threats.last())
    }
}

/// The calls that annotating a game makes.
pub struct Annotator<GameOver, NullMove, HasWinningMove, NewProof, Select, Outcome, DoMove> {
    /// The rules of the game.
    pub rules: Rules<GameOver, NullMove, HasWinningMove>,
    /// The proof search.
    pub prover: Prover<NewProof, Select, Outcome>,
    /// The position after a move.
    pub do_move: DoMove,
}

impl<GameOver, NullMove, HasWinningMove, NewProof, Select, Outcome, DoMove> Annotator<
    GameOver,
    NullMove,
    HasWinningMove,
    NewProof,
    Select,
    Outcome,
    DoMove,
> {
    /// Whether every call may be made with every argument.
    pub open spec fn callable<P, M, Q>(self) -> bool where
        GameOver: Fn(&P) -> bool,
        NullMove: Fn(P) -> P,
        HasWinningMove: Fn(P) -> bool,
        NewProof: Fn(P) -> Q,
        Select: Fn(Q) -> Q,
        Outcome: Fn(&Q) -> Option<ProofResult>,
        DoMove: Fn(P, M) -> P,
     {
        &&& self.rules.callable::<P>()
        &&& self.prover.callable::<P, Q>()
        &&& forall|p: P, m: M| call_requires(self.do_move, (p, m))
    }

    /// Whether every call has one result at most, and clones of positions are equal to them.
    pub open spec fn decided<P: Clone, M, Q>(self) -> bool where
        GameOver: Fn(&P) -> bool,
        NullMove: Fn(P) -> P,
        HasWinningMove: Fn(P) -> bool,
        NewProof: Fn(P) -> Q,
        Select: Fn(Q) -> Q,
        Outcome: Fn(&Q) -> Option<ProofResult>,
        DoMove: Fn(P, M) -> P,
     {
        &&& self.rules.decided::<P>()
        &&& self.prover.decided::<P, Q>()
        &&& single_2(outcomes_2(self.do_move))
        &&& clones_are_equal::<P>()
    }

    /// Whether `threat` can be found in `passed`, a position in which the player who has
    /// just moved is to move again. Tinue, the stronger claim, is looked for first.
    pub open spec fn passed_threat<P: Clone, Q>(
        self,
        nodes: nat,
        passed: P,
        threat: Option<Threat>,
    ) -> bool where
        HasWinningMove: Fn(P) -> bool,
        NewProof: Fn(P) -> Q,
        Select: Fn(Q) -> Q,
        Outcome: Fn(&Q) -> Option<ProofResult>,
     {
        exists|copy: P, found: Option<ProofResult>|
            cloned(passed, copy) && #[trigger] self.prover.proof_finds::<P, Q>(nodes, copy, found)
                && if found == Some(ProofResult::Proved) {
                threat == Some(Threat::Tinue)
            } else {
                ||| call_ensures(self.rules.has_winning_move, (passed,), true) && threat == Some(
                    Threat::Tak,
                )
                ||| call_ensures(self.rules.has_winning_move, (passed,), false) && threat is None
            }
    }

    /// Whether `threat` can be found in `position`, of the player who has just moved. There
    /// is none if the game is over.
    pub open spec fn threat_found<P: Clone, Q>(
        self,
        nodes: nat,
        position: P,
        threat: Option<Threat>,
    ) -> bool where
        GameOver: Fn(&P) -> bool,
        NullMove: Fn(P) -> P,
        HasWinningMove: Fn(P) -> bool,
        NewProof: Fn(P) -> Q,
        Select: Fn(Q) -> Q,
        Outcome: Fn(&Q) -> Option<ProofResult>,
     {
        ||| call_ensures(self.rules.game_over, (&position,), true) && threat is None
        ||| call_ensures(self.rules.game_over, (&position,), false) && exists|copy: P, passed: P|
            cloned(position, copy) && #[trigger] call_ensures(
                self.rules.null_move,
                (copy,),
                passed,
            ) && self.passed_threat::<P, Q>(nodes, passed, threat)
    }

    /// Looks for a threat in `position`, of the player who has just moved.
    pub fn find_threat<P: Clone, Q>(&self, position: &P, tinue_nodes: u32) -> (threat: Option<
        Threat,
    >) where
        GameOver: Fn(&P) -> bool,
        NullMove: Fn(P) -> P,
        HasWinningMove: Fn(P) -> bool,
        NewProof: Fn(P) -> Q,
        Select: Fn(Q) -> Q,
        Outcome: Fn(&Q) -> Option<ProofResult>,

        requires
            self.rules.callable::<P>(),
            self.prover.callable::<P, Q>(),
        ensures
            self.threat_found::<P, Q>(tinue_nodes as nat, *position, threat),
    {
        if (self.rules.game_over)(position) {
            return None;
        }
        let passed = (self.rules.null_move)(position.clone());
        let found = self.prover.find_proof(passed.clone(), tinue_nodes);
        let ghost asked = passed;
        let threat = match found {
            Some(ProofResult::Proved) => Some(Threat::Tinue),
            _ => {
                if (self.rules.has_winning_move)(passed) {
                    Some(Threat::Tak)
                } else {
                    None
                }
            },
        };
        assert(self.passed_threat::<P, Q>(tinue_nodes as nat, asked, threat));
        threat
    }

    /// Which threats can be found in a position, of the player who has just moved.
    pub open spec fn threats<P: Clone, Q>(self, nodes: nat) -> spec_fn(P, Option<Threat>) -> bool where
        GameOver: Fn(&P) -> bool,
        NullMove: Fn(P) -> P,
        HasWinningMove: Fn(P) -> bool,
        NewProof: Fn(P) -> Q,
        Select: Fn(Q) -> Q,
        Outcome: Fn(&Q) -> Option<ProofResult>,
     {
        |position: P, threat: Option<Threat>| self.threat_found::<P, Q>(nodes, position, threat)
    }

    /// Finds the threat that each move of `moves`, played from `start_position`, makes.
    pub fn find_threats<P: Clone, M: Copy, Q>(
        &self,
        start_position: &P,
        moves: &Vec<PtnMove<M>>,
        tinue_nodes: u32,
    ) -> (threats: Vec<Option<Threat>>) where
        GameOver: Fn(&P) -> bool,
        NullMove: Fn(P) -> P,
        HasWinningMove: Fn(P) -> bool,
        NewProof: Fn(P) -> Q,
        Select: Fn(Q) -> Q,
        Outcome: Fn(&Q) -> Option<ProofResult>,
        DoMove: Fn(P, M) -> P,

        requires
            self.callable::<P, M, Q>(),
        ensures
            exists|start: P, end: P|
                cloned(*start_position, start) && #[trigger] threats_found(
                    outcomes_2(self.do_move),
                    self.threats::<P, Q>(tinue_nodes as nat),
                    start,
                    moves_of(moves@),
                    threats@,
                    end,
                ),
    {
        let ghost step = outcomes_2(self.do_move);
        let ghost shows = self.threats::<P, Q>(tinue_nodes as nat);
        let mut position = start_position.clone();
        let ghost start = position;
        let ghost all = moves_of(moves@);
        let mut threats: Vec<Option<Threat>> = Vec::new();
        let mut i: usize = 0;
        assert(all.take(0) =~= Seq::empty());
        while i < moves.len()
            invariant
                self.callable::<P, M, Q>(),
                cloned(*start_position, start),
                all == moves_of(moves@),
                i <= moves@.len(),
                step == outcomes_2(self.do_move),
                shows == self.threats::<P, Q>(tinue_nodes as nat),
                threats_found(
                    step,
                    shows,
                    start,
                    all.take(i as int),
                    threats@,
                    position,
                ),
            decreases moves.len() - i,
        {
            let ghost before = position;
            let ghost found = threats@;
            position = (self.do_move)(position, moves[i].mv);
            let threat = self.find_threat::<P, Q>(&position, tinue_nodes);
            threats.push(threat);
            proof {
                let more = all.take(i + 1);
                assert(more.drop_last() =~= all.take(i as int));
                assert(more.last() == moves@[i as int].mv);
                assert(threats@.drop_last() =~= found);
                assert(step(before, more.last(), position));
                assert(shows(position, threats@.last()));
                assert(threats_found(step, shows, start, more, threats@, position));
            }
            i = i + 1;
        }
        assert(all.take(i as int) =~= all);
        threats
    }

    /// Whether `after` can be `before`, annotated: the threats that its moves make are
    /// marked, and nothing else has changed.
    pub open spec fn annotated<P: Clone, M, X, Q>(
        self,
        nodes: nat,
        before: Game<P, M, X>,
        after: Game<P, M, X>,
    ) -> bool where
        GameOver: Fn(&P) -> bool,
        NullMove: Fn(P) -> P,
        HasWinningMove: Fn(P) -> bool,
        NewProof: Fn(P) -> Q,
        Select: Fn(Q) -> Q,
        Outcome: Fn(&Q) -> Option<ProofResult>,
        DoMove: Fn(P, M) -> P,
     {
        &&& after.start_position == before.start_position
        &&& after.source == before.source
        &&& moves_of(after.moves@) == moves_of(before.moves@)
        &&& exists|start: P, threats: Seq<Option<Threat>>, end: P|
            cloned(before.start_position, start) && #[trigger] threats_found(
                outcomes_2(self.do_move),
                self.threats::<P, Q>(nodes),
                start,
                moves_of(before.moves@),
                threats,
                end,
            ) && marked(before.moves@, threats, after.moves@)
    }

    /// Annotates `game`.
    pub fn annotate_game<P: Clone, M: Copy, X, Q>(
        &self,
        game: Game<P, M, X>,
        tinue_nodes: u32,
    ) -> (out: Game<P, M, X>) where
        GameOver: Fn(&P) -> bool,
        NullMove: Fn(P) -> P,
        HasWinningMove: Fn(P) -> bool,
        NewProof: Fn(P) -> Q,
        Select: Fn(Q) -> Q,
        Outcome: Fn(&Q) -> Option<ProofResult>,
        DoMove: Fn(P, M) -> P,

        requires
            self.callable::<P, M, Q>(),
        ensures
            self.annotated::<P, M, X, Q>(tinue_nodes as nat, game, out),
    {
        let threats = self.find_threats::<P, M, Q>(
            &game.start_position,
            &game.moves,
            tinue_nodes,
        );
        let ghost (start, end) = choose|start: P, end: P|
            cloned(game.start_position, start) && #[trigger] threats_found(
                outcomes_2(self.do_move),
                self.threats::<P, Q>(tinue_nodes as nat),
                start,
                moves_of(game.moves@),
                threats@,
                end,
            );
        let mut moves: Vec<PtnMove<M>> = Vec::new();
        let mut i: usize = 0;
        while i < game.moves.len()
            invariant
                threats@.len() == game.moves@.len(),
                i <= game.moves@.len(),
                moves@.len() == i,
                forall|k: int|
                    0 <= k < i ==> (#[trigger] moves@[k]).mv == game.moves@[k].mv && views(
                        moves@[k].annotations@,
                    ) == with_threat(views(game.moves@[k].annotations@), threats@[k]),
            decreases game.moves.len() - i,
        {
            let annotations = replace_threat(&game.moves[i].annotations, threats[i]);
            moves.push(PtnMove { mv: game.moves[i].mv, annotations });
            i = i + 1;
        }
        assert(moves_of(moves@) =~= moves_of(game.moves@));
        assert(marked(game.moves@, threats@, moves@));
        Game { start_position: game.start_position, moves, source: game.source }
    }
}

/// The moves of a game record.
pub open spec fn moves_of<M>(moves: Seq<PtnMove<M>>) -> Seq<M> {
    moves.map_values(|m: PtnMove<M>| m.mv)
}

/// Whether `after` are the moves `before` with `threats` marked, each on its move.
pub open spec fn marked<M>(
    before: Seq<PtnMove<M>>,
    threats: Seq<Option<Threat>>,
    after: Seq<PtnMove<M>>,
) -> bool {
    &&& after.len() == before.len()
    &&& forall|i: int|
        0 <= i < before.len() ==> views((#[trigger] after[i]).annotations@) == with_threat(
            views(before[i].annotations@),
            threats[i],
        )
}

// ---------------------------------------------------------------------------
// Whole texts
// ---------------------------------------------------------------------------

/// What the standard library says of bytes that are not UTF-8.
pub uninterp spec fn utf8_complaint(bytes: Seq<u8>) -> Seq<char>;

/// Calls `String::from_utf8` of the standard library.
///
/// Bytes that are valid UTF-8 become the text that they encode, and no others become a
/// text. For these there is a complaint, which depends on the bytes alone.
#[verifier::external_body]
fn text_from_utf8(bytes: Vec<u8>) -> (text: Result<String, String>)
    ensures
        match text {
            Ok(text) => valid_utf8(bytes@) && text@ == decode_utf8(bytes@),
            Err(complaint) => !valid_utf8(bytes@) && complaint@ == utf8_complaint(bytes@),
        },
{
    String::from_utf8(bytes).map_err(|error| error.to_string())
}

/// The texts that the byte strings of `list` encode, one after the other.
pub open spec fn texts_of(list: Seq<Vec<u8>>) -> Seq<char>
    decreases list.len(),
{
    if list.len() == 0 {
        Seq::empty()
    } else {
        texts_of(list.drop_last()) + decode_utf8(list.last()@)
    }
}

/// Whether each of `games` can be written as the byte string of `list` in the same place,
/// all of them valid UTF-8.
pub open spec fn written<G, ToPtn: Fn(&G) -> Result<Vec<u8>, String>>(
    to_ptn: ToPtn,
    games: Seq<G>,
    list: Seq<Vec<u8>>,
) -> bool {
    &&& list.len() == games.len()
    &&& forall|i: int|
        0 <= i < games.len() ==> valid_utf8(#[trigger] list[i]@) && call_ensures(
            to_ptn,
            (&games[i],),
            Ok(list[i]),
        )
}

/// Whether writing `game` can fail for this reason.
pub open spec fn write_fails<G, ToPtn: Fn(&G) -> Result<Vec<u8>, String>>(
    to_ptn: ToPtn,
    game: G,
    reason: String,
) -> bool {
    ||| call_ensures(to_ptn, (&game,), Err(reason))
    ||| exists|bytes: Vec<u8>| #[trigger]
        call_ensures(to_ptn, (&game,), Ok(bytes)) && !valid_utf8(bytes@) && reason@
            == utf8_complaint(bytes@)
}

/// Whether writing `games` one after the other can give `text`: the texts of all of them,
/// or the reason why the first that cannot be written failed.
pub open spec fn all_written<G, ToPtn: Fn(&G) -> Result<Vec<u8>, String>>(
    to_ptn: ToPtn,
    games: Seq<G>,
    text: Result<String, ApiError>,
) -> bool {
    match text {
        Ok(text) => exists|list: Seq<Vec<u8>>| #[trigger]
            written(to_ptn, games, list) && text@ == texts_of(list),
        Err(ApiError::Refused(reason)) => exists|n: int, list: Seq<Vec<u8>>|
            0 <= n < games.len() && #[trigger] written(to_ptn, games.take(n), list)
                && write_fails(to_ptn, games[n], reason),
        Err(_) => false,
    }
}

/// Writes `games` one after the other.
pub fn write_games<G, ToPtn: Fn(&G) -> Result<Vec<u8>, String>>(
    games: &Vec<G>,
    to_ptn: &ToPtn,
) -> (text: Result<String, ApiError>)
    requires
        forall|g: &G| call_requires(*to_ptn, (g,)),
    ensures
        all_written(*to_ptn, games@, text),
{
    let mut output = String::new();
    let ghost mut list: Seq<Vec<u8>> = Seq::empty();
    let mut i: usize = 0;
    while i < games.len()
        invariant
            forall|g: &G| call_requires(*to_ptn, (g,)),
            i <= games@.len(),
            written(*to_ptn, games@.take(i as int), list),
            output@ == texts_of(list),
        decreases games.len() - i,
    {
        match to_ptn(&games[i]) {
            Err(reason) => {
                assert(write_fails(*to_ptn, games@[i as int], reason));
                return Err(ApiError::Refused(reason));
            },
            Ok(bytes) => {
                let ghost encoded = bytes;
                match text_from_utf8(bytes) {
                    Err(complaint) => {
                        assert(call_ensures(*to_ptn, (&games@[i as int],), Ok(encoded)));
                        assert(write_fails(*to_ptn, games@[i as int], complaint));
                        return Err(ApiError::Refused(complaint));
                    },
                    Ok(text) => {
                        output.append(text.as_str());
                        proof {
                            let more = list.push(encoded);
                            assert(more.drop_last() =~= list);
                            assert forall|k: int| 0 <= k < games@.take(i + 1).len() implies
                                valid_utf8(#[trigger] more[k]@) && call_ensures(
                                *to_ptn,
                                (&games@.take(i + 1)[k],),
                                Ok(more[k]),
                            ) by {
                                if k < i {
                                    assert(more[k] == list[k]);
                                    assert(games@.take(i + 1)[k] == games@.take(i as int)[k]);
                                }
                            }
                            list = more;
                        }
                    },
                }
            },
        }
        i = i + 1;
    }
    assert(games@.take(i as int) =~= games@);
    Ok(output)
}

impl<GameOver, NullMove, HasWinningMove, NewProof, Select, Outcome, DoMove> Annotator<
    GameOver,
    NullMove,
    HasWinningMove,
    NewProof,
    Select,
    Outcome,
    DoMove,
> {
    /// Whether each game of `after` can be the game of `before` in the same place, annotated.
    pub open spec fn all_annotated<P: Clone, M, X, Q>(
        self,
        nodes: nat,
        before: Seq<Game<P, M, X>>,
        after: Seq<Game<P, M, X>>,
    ) -> bool where
        GameOver: Fn(&P) -> bool,
        NullMove: Fn(P) -> P,
        HasWinningMove: Fn(P) -> bool,
        NewProof: Fn(P) -> Q,
        Select: Fn(Q) -> Q,
        Outcome: Fn(&Q) -> Option<ProofResult>,
        DoMove: Fn(P, M) -> P,
     {
        &&& after.len() == before.len()
        &&& forall|i: int|
            0 <= i < before.len() ==> self.annotated::<P, M, X, Q>(
                nodes,
                before[i],
                #[trigger] after[i],
            )
    }

    /// Annotates `games`.
    pub fn annotate_games<P: Clone, M: Copy, X, Q>(
        &self,
        games: Vec<Game<P, M, X>>,
        tinue_nodes: u32,
    ) -> (out: Vec<Game<P, M, X>>) where
        GameOver: Fn(&P) -> bool,
        NullMove: Fn(P) -> P,
        HasWinningMove: Fn(P) -> bool,
        NewProof: Fn(P) -> Q,
        Select: Fn(Q) -> Q,
        Outcome: Fn(&Q) -> Option<ProofResult>,
        DoMove: Fn(P, M) -> P,

        requires
            self.callable::<P, M, Q>(),
        ensures
            self.all_annotated::<P, M, X, Q>(tinue_nodes as nat, games@, out@),
    {
        let ghost all = games@;
        let mut out: Vec<Game<P, M, X>> = Vec::new();
        for game in it: games
            invariant
                self.callable::<P, M, Q>(),
                it.seq() == all,
                out@.len() == it.index(),
                forall|i: int|
                    0 <= i < out@.len() ==> self.annotated::<P, M, X, Q>(
                        tinue_nodes as nat,
                        all[i],
                        #[trigger] out@[i],
                    ),
        {
            let annotated = self.annotate_game::<P, M, X, Q>(game, tinue_nodes);
            out.push(annotated);
        }
        out
    }

    /// Whether annotating `ptn` can give `text`: its games are read, annotated and written.
    pub open spec fn text_annotated<P: Clone, M, X, Q, ParsePtn, ToPtn>(
        self,
        ptn: &str,
        size: usize,
        nodes: nat,
        parse_ptn: ParsePtn,
        to_ptn: ToPtn,
        text: Result<String, ApiError>,
    ) -> bool where
        GameOver: Fn(&P) -> bool,
        NullMove: Fn(P) -> P,
        HasWinningMove: Fn(P) -> bool,
        NewProof: Fn(P) -> Q,
        Select: Fn(Q) -> Q,
        Outcome: Fn(&Q) -> Option<ProofResult>,
        DoMove: Fn(P, M) -> P,
        ParsePtn: Fn(&str, usize) -> Result<Vec<Game<P, M, X>>, String>,
        ToPtn: Fn(&Game<P, M, X>) -> Result<Vec<u8>, String>,
     {
        exists|parsed: Result<Vec<Game<P, M, X>>, String>| #[trigger]
            call_ensures(parse_ptn, (ptn, size), parsed) && match parsed {
                Err(reason) => text == Err::<String, ApiError>(ApiError::Refused(reason)),
                Ok(games) => exists|after: Seq<Game<P, M, X>>| #[trigger]
                    self.all_annotated::<P, M, X, Q>(nodes, games@, after) && all_written(
                        to_ptn,
                        after,
                        text,
                    ),
            }
    }

    /// Annotates the games of `ptn`, which are played on boards of the size `size`.
    ///
    /// `parse_ptn` reads game records, and `to_ptn` writes one; each says why if it cannot.
    pub fn annotate_sized<P: Clone, M: Copy, X, Q, ParsePtn, ToPtn>(
        &self,
        ptn: &str,
        size: usize,
        tinue_nodes: u32,
        parse_ptn: &ParsePtn,
        to_ptn: &ToPtn,
    ) -> (text: Result<String, ApiError>) where
        GameOver: Fn(&P) -> bool,
        NullMove: Fn(P) -> P,
        HasWinningMove: Fn(P) -> bool,
        NewProof: Fn(P) -> Q,
        Select: Fn(Q) -> Q,
        Outcome: Fn(&Q) -> Option<ProofResult>,
        DoMove: Fn(P, M) -> P,
        ParsePtn: Fn(&str, usize) -> Result<Vec<Game<P, M, X>>, String>,
        ToPtn: Fn(&Game<P, M, X>) -> Result<Vec<u8>, String>,

        requires
            self.callable::<P, M, Q>(),
            call_requires(*parse_ptn, (ptn, size)),
            forall|g: &Game<P, M, X>| call_requires(*to_ptn, (g,)),
        ensures
            self.text_annotated::<P, M, X, Q, ParsePtn, ToPtn>(
                ptn,
                size,
                tinue_nodes as nat,
                *parse_ptn,
                *to_ptn,
                text,
            ),
    {
        match parse_ptn(ptn, size) {
            Err(reason) => Err(ApiError::Refused(reason)),
            Ok(games) => {
                let ghost parsed = games;
                let after = self.annotate_games::<P, M, X, Q>(games, tinue_nodes);
                assert(call_ensures(*parse_ptn, (ptn, size), Ok(parsed)));
                write_games(&after, to_ptn)
            },
        }
    }
}

/// How many nodes a proof search may use if nothing is said of it.
pub const DEFAULT_TINUE_NODES: u32 = 500;

/// How many nodes a proof search may use.
pub open spec fn nodes_or_default(tinue_nodes: Option<u32>) -> nat {
    match tinue_nodes {
        Some(nodes) => nodes as nat,
        None => DEFAULT_TINUE_NODES as nat,
    }
}

impl<GameOver, NullMove, HasWinningMove, NewProof, Select, Outcome, DoMove> Annotator<
    GameOver,
    NullMove,
    HasWinningMove,
    NewProof,
    Select,
    Outcome,
    DoMove,
> {
    /// Whether annotating `ptn`, whose board size is read from it, can give `text`.
    pub open spec fn ptn_annotated<P: Clone, M, X, Q, ParsePtn, ToPtn>(
        self,
        ptn: &str,
        tinue_nodes: Option<u32>,
        parse_ptn: ParsePtn,
        to_ptn: ToPtn,
        text: Result<String, ApiError>,
    ) -> bool where
        GameOver: Fn(&P) -> bool,
        NullMove: Fn(P) -> P,
        HasWinningMove: Fn(P) -> bool,
        NewProof: Fn(P) -> Q,
        Select: Fn(Q) -> Q,
        Outcome: Fn(&Q) -> Option<ProofResult>,
        DoMove: Fn(P, M) -> P,
        ParsePtn: Fn(&str, usize) -> Result<Vec<Game<P, M, X>>, String>,
        ToPtn: Fn(&Game<P, M, X>) -> Result<Vec<u8>, String>,
     {
        match size_value(ptn@) {
            Err(error) => text == Err::<String, ApiError>(error),
            Ok(size) => if is_supported(size) {
                self.text_annotated::<P, M, X, Q, ParsePtn, ToPtn>(
                    ptn,
                    size,
                    nodes_or_default(tinue_nodes),
                    parse_ptn,
                    to_ptn,
                    text,
                )
            } else {
                text == Err::<String, ApiError>(ApiError::UnsupportedSize(size))
            },
        }
    }
}

/// Annotates each move of `ptn` with the threat that it makes, in place of any
/// annotation of a threat that is there already. The board size is read from `ptn`.
///
/// `tinue_nodes` bounds the proof search for each position; without it the bound is 500.
pub fn annotate_ptn<
    P: Clone,
    M: Copy,
    X,
    Q,
    GameOver,
    NullMove,
    HasWinningMove,
    NewProof,
    Select,
    Outcome,
    DoMove,
    ParsePtn,
    ToPtn,
>(
    ptn: &str,
    tinue_nodes: Option<u32>,
    annotator: &Annotator<
        GameOver,
        NullMove,
        HasWinningMove,
        NewProof,
        Select,
        Outcome,
        DoMove,
    >,
    parse_ptn: &ParsePtn,
    to_ptn: &ToPtn,
) -> (text: Result<String, ApiError>) where
    GameOver: Fn(&P) -> bool,
    NullMove: Fn(P) -> P,
    HasWinningMove: Fn(P) -> bool,
    NewProof: Fn(P) -> Q,
    Select: Fn(Q) -> Q,
    Outcome: Fn(&Q) -> Option<ProofResult>,
    DoMove: Fn(P, M) -> P,
    ParsePtn: Fn(&str, usize) -> Result<Vec<Game<P, M, X>>, String>,
    ToPtn: Fn(&Game<P, M, X>) -> Result<Vec<u8>, String>,

    requires
        annotator.callable::<P, M, Q>(),
        forall|size: usize| is_supported(size) ==> call_requires(*parse_ptn, (ptn, size)),
        forall|g: &Game<P, M, X>| call_requires(*to_ptn, (g,)),
    ensures
        annotator.ptn_annotated::<P, M, X, Q, ParsePtn, ToPtn>(
            ptn,
            tinue_nodes,
            *parse_ptn,
            *to_ptn,
            text,
        ),
{
    let nodes: u32 = match tinue_nodes {
        Some(nodes) => nodes,
        None => DEFAULT_TINUE_NODES,
    };
    let size = match extract_size(ptn) {
        Ok(size) => size,
        Err(error) => {
            return Err(error);
        },
    };
    if !supported(size) {
        return Err(ApiError::UnsupportedSize(size));
    }
    annotator.annotate_sized::<P, M, X, Q, ParsePtn, ToPtn>(ptn, size, nodes, parse_ptn, to_ptn)
}

// ---------------------------------------------------------------------------
// Laws
// ---------------------------------------------------------------------------

/// A move that ends the game is marked with no threat.
pub proof fn law_last_move_has_no_threat<
    P: Clone,
    Q,
    GameOver,
    NullMove,
    HasWinningMove,
    NewProof,
    Select,
    Outcome,
    DoMove,
>(
    annotator: Annotator<
        GameOver,
        NullMove,
        HasWinningMove,
        NewProof,
        Select,
        Outcome,
        DoMove,
    >,
    nodes: nat,
    position: P,
    threat: Option<Threat>,
) where
    GameOver: Fn(&P) -> bool,
    NullMove: Fn(P) -> P,
    HasWinningMove: Fn(P) -> bool,
    NewProof: Fn(P) -> Q,
    Select: Fn(Q) -> Q,
    Outcome: Fn(&Q) -> Option<ProofResult>,

    requires
        !call_ensures(annotator.rules.game_over, (&position,), false),
        annotator.threat_found::<P, Q>(nodes, position, threat),
    ensures
        threat is None,
{
}

/// Annotating a game that has been annotated before is annotating it for the first time: the
/// marks of the first time, whatever they were, leave no trace.
pub proof fn law_annotating_again_is_annotating_once<
    P: Clone,
    M,
    X,
    Q,
    GameOver,
    NullMove,
    HasWinningMove,
    NewProof,
    Select,
    Outcome,
    DoMove,
>(
    annotator: Annotator<
        GameOver,
        NullMove,
        HasWinningMove,
        NewProof,
        Select,
        Outcome,
        DoMove,
    >,
    first_nodes: nat,
    second_nodes: nat,
    game: Game<P, M, X>,
    once: Game<P, M, X>,
    twice: Game<P, M, X>,
) where
    GameOver: Fn(&P) -> bool,
    NullMove: Fn(P) -> P,
    HasWinningMove: Fn(P) -> bool,
    NewProof: Fn(P) -> Q,
    Select: Fn(Q) -> Q,
    Outcome: Fn(&Q) -> Option<ProofResult>,
    DoMove: Fn(P, M) -> P,

    requires
        annotator.annotated::<P, M, X, Q>(first_nodes, game, once),
        annotator.annotated::<P, M, X, Q>(second_nodes, once, twice),
    ensures
        annotator.annotated::<P, M, X, Q>(second_nodes, game, twice),
{
    let step = outcomes_2(annotator.do_move);
    let first_shows = annotator.threats::<P, Q>(first_nodes);
    let second_shows = annotator.threats::<P, Q>(second_nodes);
    let (first_start, first, first_end) = choose|
        start: P,
        threats: Seq<Option<Threat>>,
        end: P,
    |
        cloned(game.start_position, start) && #[trigger] threats_found(
            step,
            first_shows,
            start,
            moves_of(game.moves@),
            threats,
            end,
        ) && marked(game.moves@, threats, once.moves@);
    let (start, second, end) = choose|start: P, threats: Seq<Option<Threat>>, end: P|
        cloned(once.start_position, start) && #[trigger] threats_found(
            step,
            second_shows,
            start,
            moves_of(once.moves@),
            threats,
            end,
        ) && marked(once.moves@, threats, twice.moves@);
    assert forall|i: int| 0 <= i < game.moves@.len() implies views(
        (#[trigger] twice.moves@[i]).annotations@,
    ) == with_threat(views(game.moves@[i].annotations@), second[i]) by {
        let middle = once.moves@[i];
        law_threat_is_replaced(views(game.moves@[i].annotations@), first[i], second[i]);
    }
    assert(marked(game.moves@, second, twice.moves@));
}

} // verus!
