//! Road threats: tak, one move away from a road, and tinue, a road that cannot be stopped.
//!
//! Both are asked of the player who has just moved, so the other player passes first. What
//! the rules of the game and the proof search do is handed in as functions; `P` is the type
//! of positions and `Q` that of proof trees.

use vstd::prelude::*;

use crate::outcome::outcomes_1;
use crate::outcome::outcomes_of_view;
use crate::outcome::single_1;
use crate::size_tag::ApiError;

verus! {

/// What a proof search has found out about a forced road win.
#[derive(Debug, Clone, Copy, PartialEq, Eq, Structural)]
pub enum ProofResult {
    Proved,
    Disproved,
}

/// Whether a board size is one that threats can be looked for on.
pub open spec fn is_supported(size: usize) -> bool {
    4 <= size <= 6
}

/// Whether `size` is supported.
pub fn supported(size: usize) -> (yes: bool)
    ensures
        yes == is_supported(size),
{
    4 <= size && size <= 6
}

// ---------------------------------------------------------------------------
// Proof search
// ---------------------------------------------------------------------------

/// Whether a proof search of at most `nodes` nodes, started on `start`, can end with `end`: it
/// goes on until a node brings a result. `selects` says what a node can make of a proof tree,
/// and `finds` what a proof tree can be found to say.
pub open spec fn proof_ends<Q>(
    selects: spec_fn(Q, Q) -> bool,
    finds: spec_fn(Q, Option<ProofResult>) -> bool,
    nodes: nat,
    start: Q,
    end: Q,
) -> bool
    decreases nodes,
{
    if nodes == 0 {
        end == start
    } else {
        exists|next: Q| #[trigger]
            selects(start, next) && {
                ||| end == next && (finds(next, Some(ProofResult::Proved)) || finds(
                    next,
                    Some(ProofResult::Disproved),
                ))
                ||| finds(next, None) && proof_ends(selects, finds, (nodes - 1) as nat, next, end)
            }
    }
}

/// The calls into the proof search.
pub struct Prover<NewProof, Select, Outcome> {
    /// A new proof tree for a position.
    pub new_proof: NewProof,
    /// Expands a proof tree by one node.
    pub select: Select,
    /// What a proof tree has found out so far.
    pub outcome: Outcome,
}

impl<NewProof, Select, Outcome> Prover<NewProof, Select, Outcome> {
    /// Whether every call may be made with every argument.
    pub open spec fn callable<P, Q>(self) -> bool where
        NewProof: Fn(P) -> Q,
        Select: Fn(Q) -> Q,
        Outcome: Fn(&Q) -> Option<ProofResult>,
     {
        &&& forall|p: P| call_requires(self.new_proof, (p,))
        &&& forall|q: Q| call_requires(self.select, (q,))
        &&& forall|q: &Q| call_requires(self.outcome, (q,))
    }

    /// Whether every call has one result at most.
    pub open spec fn decided<P, Q>(self) -> bool where
        NewProof: Fn(P) -> Q,
        Select: Fn(Q) -> Q,
        Outcome: Fn(&Q) -> Option<ProofResult>,
     {
        &&& single_1(outcomes_1(self.new_proof))
        &&& single_1(outcomes_1(self.select))
        &&& single_1(outcomes_of_view(self.outcome))
    }

    /// Whether a proof search of at most `nodes` nodes, on a new proof tree for `position`,
    /// can find out `found`.
    pub open spec fn proof_finds<P, Q>(
        self,
        nodes: nat,
        position: P,
        found: Option<ProofResult>,
    ) -> bool where
        NewProof: Fn(P) -> Q,
        Select: Fn(Q) -> Q,
        Outcome: Fn(&Q) -> Option<ProofResult>,
     {
        exists|start: Q, end: Q|
            call_ensures(self.new_proof, (position,), start) && #[trigger] proof_ends(
                outcomes_1(self.select),
                outcomes_of_view(self.outcome),
                nodes,
                start,
                end,
            ) && call_ensures(self.outcome, (&end,), found)
    }

    /// Searches for a proof on a new proof tree for `position`, with at most `nodes` nodes.
    pub fn find_proof<P, Q>(&self, position: P, nodes: u32) -> (found: Option<ProofResult>) where
        NewProof: Fn(P) -> Q,
        Select: Fn(Q) -> Q,
        Outcome: Fn(&Q) -> Option<ProofResult>,

        requires
            self.callable::<P, Q>(),
        ensures
            self.proof_finds(nodes as nat, position, found),
    {
        let ghost selects = outcomes_1(self.select);
        let ghost finds = outcomes_of_view(self.outcome);
        let mut tree = (self.new_proof)(position);
        let ghost start = tree;
        let mut left: u32 = nodes;
        let mut settled = false;
        while left > 0 && !settled
            invariant
                self.callable::<P, Q>(),
                selects == outcomes_1(self.select),
                finds == outcomes_of_view(self.outcome),
                call_ensures(self.new_proof, (position,), start),
                settled ==> proof_ends(selects, finds, nodes as nat, start, tree),
                !settled ==> forall|end: Q|
                    proof_ends(selects, finds, left as nat, tree, end) ==> #[trigger] proof_ends(
                        selects,
                        finds,
                        nodes as nat,
                        start,
                        end,
                    ),
            decreases left,
        {
            let ghost before = tree;
            tree = (self.select)(tree);
            let found = (self.outcome)(&tree);
            assert(selects(before, tree));
            assert(finds(tree, found));
            if found.is_some() {
                settled = true;
                assert(found->0 is Proved || found->0 is Disproved);
                assert(proof_ends(selects, finds, left as nat, before, tree));
            } else {
                assert forall|end: Q|
                    proof_ends(selects, finds, (left - 1) as nat, tree, end) implies #[trigger]
                    proof_ends(selects, finds, nodes as nat, start, end) by {
                    assert(proof_ends(selects, finds, left as nat, before, end));
                }
            }
            left = left - 1;
        }
        assert(settled || proof_ends(selects, finds, 0, tree, tree));
        assert(proof_ends(selects, finds, nodes as nat, start, tree));
        (self.outcome)(&tree)
    }
}

/// What is known of tinue, from what a proof search has found out.
pub open spec fn tinue_value(found: Option<ProofResult>) -> Option<bool> {
    match found {
        Some(ProofResult::Proved) => Some(true),
        Some(ProofResult::Disproved) => Some(false),
        None => None,
    }
}

/// Says what is known of tinue, from what a proof search has found out.
pub fn tinue_verdict(found: Option<ProofResult>) -> (tinue: Option<bool>)
    ensures
        tinue == tinue_value(found),
{
    match found {
        Some(ProofResult::Proved) => Some(true),
        Some(ProofResult::Disproved) => Some(false),
        None => None,
    }
}

// ---------------------------------------------------------------------------
// Tak and tinue
// ---------------------------------------------------------------------------

/// The calls into the rules of the game.
pub struct Rules<GameOver, NullMove, HasWinningMove> {
    /// Whether the game is over in a position.
    pub game_over: GameOver,
    /// The position after the player to move has passed.
    pub null_move: NullMove,
    /// Whether the player to move can complete a road at once.
    pub has_winning_move: HasWinningMove,
}

impl<GameOver, NullMove, HasWinningMove> Rules<GameOver, NullMove, HasWinningMove> {
    /// Whether every call may be made with every argument.
    pub open spec fn callable<P>(self) -> bool where
        GameOver: Fn(&P) -> bool,
        NullMove: Fn(P) -> P,
        HasWinningMove: Fn(P) -> bool,
     {
        &&& forall|p: &P| call_requires(self.game_over, (p,))
        &&& forall|p: P| call_requires(self.null_move, (p,))
        &&& forall|p: P| call_requires(self.has_winning_move, (p,))
    }

    /// Whether every call has one result at most.
    pub open spec fn decided<P>(self) -> bool where
        GameOver: Fn(&P) -> bool,
        NullMove: Fn(P) -> P,
        HasWinningMove: Fn(P) -> bool,
     {
        &&& single_1(outcomes_of_view(self.game_over))
        &&& single_1(outcomes_1(self.null_move))
        &&& single_1(outcomes_1(self.has_winning_move))
    }

    /// Whether `position` can be found to be in tak, or not: no if the game is over,
    /// otherwise whether the player who has just moved could win at once, the other one
    /// passing.
    pub open spec fn tak_found<P>(self, position: P, tak: bool) -> bool where
        GameOver: Fn(&P) -> bool,
        NullMove: Fn(P) -> P,
        HasWinningMove: Fn(P) -> bool,
     {
        ||| call_ensures(self.game_over, (&position,), true) && !tak
        ||| call_ensures(self.game_over, (&position,), false) && exists|passed: P| #[trigger]
            call_ensures(self.null_move, (position,), passed) && call_ensures(
                self.has_winning_move,
                (passed,),
                tak,
            )
    }

    /// Whether `position` is in tak.
    pub fn is_tak_sized<P>(&self, position: P) -> (tak: bool) where
        GameOver: Fn(&P) -> bool,
        NullMove: Fn(P) -> P,
        HasWinningMove: Fn(P) -> bool,

        requires
            self.callable::<P>(),
        ensures
            self.tak_found(position, tak),
    {
        if (self.game_over)(&position) {
            return false;
        }
        let passed = (self.null_move)(position);
        (self.has_winning_move)(passed)
    }

    /// Whether `position` can be found to be tinue, or not, or neither: no if the game is
    /// over, otherwise what a proof search finds out after the player to move has passed.
    pub open spec fn tinue_found<P, Q, NewProof, Select, Outcome>(
        self,
        prover: Prover<NewProof, Select, Outcome>,
        nodes: nat,
        position: P,
        tinue: Option<bool>,
    ) -> bool where
        GameOver: Fn(&P) -> bool,
        NullMove: Fn(P) -> P,
        NewProof: Fn(P) -> Q,
        Select: Fn(Q) -> Q,
        Outcome: Fn(&Q) -> Option<ProofResult>,
     {
        ||| call_ensures(self.game_over, (&position,), true) && tinue == Some(false)
        ||| call_ensures(self.game_over, (&position,), false) && exists|
            passed: P,
            found: Option<ProofResult>,
        |
            call_ensures(self.null_move, (position,), passed)
                && #[trigger] prover.proof_finds::<P, Q>(nodes, passed, found) && tinue
                == tinue_value(found)
    }

    /// Whether `position` is tinue, if `max_nodes` nodes are enough to find out.
    pub fn is_tinue_sized<P, Q, NewProof, Select, Outcome>(
        &self,
        prover: &Prover<NewProof, Select, Outcome>,
        position: P,
        max_nodes: u32,
    ) -> (tinue: Option<bool>) where
        GameOver: Fn(&P) -> bool,
        NullMove: Fn(P) -> P,
        HasWinningMove: Fn(P) -> bool,
        NewProof: Fn(P) -> Q,
        Select: Fn(Q) -> Q,
        Outcome: Fn(&Q) -> Option<ProofResult>,

        requires
            self.callable::<P>(),
            prover.callable::<P, Q>(),
        ensures
            self.tinue_found::<P, Q, NewProof, Select, Outcome>(
                *prover,
                max_nodes as nat,
                position,
                tinue,
            ),
    {
        if (self.game_over)(&position) {
            return Some(false);
        }
        let passed = (self.null_move)(position);
        let found = prover.find_proof(passed, max_nodes);
        tinue_verdict(found)
    }
}

/// Whether the position that `tps` describes is in tak: the player who has just moved can
/// complete a road on their next turn.
///
/// `parse_position` reads a position on a board of a given size, or says why it cannot.
pub fn is_tak<P, ParsePosition, GameOver, NullMove, HasWinningMove>(
    tps: &str,
    size: usize,
    parse_position: &ParsePosition,
    rules: &Rules<GameOver, NullMove, HasWinningMove>,
) -> (tak: Result<bool, ApiError>) where
    ParsePosition: Fn(&str, usize) -> Result<P, String>,
    GameOver: Fn(&P) -> bool,
    NullMove: Fn(P) -> P,
    HasWinningMove: Fn(P) -> bool,

    requires
        is_supported(size) ==> call_requires(*parse_position, (tps, size)),
        rules.callable::<P>(),
    ensures
        !is_supported(size) ==> tak == Err::<bool, ApiError>(ApiError::UnsupportedSize(size)),
        is_supported(size) ==> exists|parsed: Result<P, String>| #[trigger]
            call_ensures(*parse_position, (tps, size), parsed) && match parsed {
                Err(reason) => tak == Err::<bool, ApiError>(ApiError::Refused(reason)),
                Ok(position) => tak matches Ok(yes) && rules.tak_found(position, yes),
            },
{
    if !supported(size) {
        return Err(ApiError::UnsupportedSize(size));
    }
    match parse_position(tps, size) {
        Err(reason) => Err(ApiError::Refused(reason)),
        Ok(position) => Ok(rules.is_tak_sized(position)),
    }
}

/// Whether asking if the position that `tps` describes is tinue can be answered with `tinue`,
/// when a proof search may use `nodes` nodes.
pub open spec fn tinue_answered<
    P,
    Q,
    ParsePosition,
    GameOver,
    NullMove,
    HasWinningMove,
    NewProof,
    Select,
    Outcome,
>(
    tps: &str,
    size: usize,
    nodes: nat,
    parse_position: ParsePosition,
    rules: Rules<GameOver, NullMove, HasWinningMove>,
    prover: Prover<NewProof, Select, Outcome>,
    tinue: Result<Option<bool>, ApiError>,
) -> bool where
    ParsePosition: Fn(&str, usize) -> Result<P, String>,
    GameOver: Fn(&P) -> bool,
    NullMove: Fn(P) -> P,
    HasWinningMove: Fn(P) -> bool,
    NewProof: Fn(P) -> Q,
    Select: Fn(Q) -> Q,
    Outcome: Fn(&Q) -> Option<ProofResult>,
 {
    if is_supported(size) {
        exists|parsed: Result<P, String>| #[trigger]
            call_ensures(parse_position, (tps, size), parsed) && match parsed {
                Err(reason) => tinue == Err::<Option<bool>, ApiError>(ApiError::Refused(reason)),
                Ok(position) => tinue matches Ok(known) && rules.tinue_found::<
                    P,
                    Q,
                    NewProof,
                    Select,
                    Outcome,
                >(prover, nodes, position, known),
            }
    } else {
        tinue == Err::<Option<bool>, ApiError>(ApiError::UnsupportedSize(size))
    }
}

/// Whether the position that `tps` describes is tinue: the player who has just moved has a
/// forced road win. `None` if `max_nodes` nodes are not enough to find out.
pub fn is_tinue<P, Q, ParsePosition, GameOver, NullMove, HasWinningMove, NewProof, Select, Outcome>(
    tps: &str,
    size: usize,
    max_nodes: u32,
    parse_position: &ParsePosition,
    rules: &Rules<GameOver, NullMove, HasWinningMove>,
    prover: &Prover<NewProof, Select, Outcome>,
) -> (tinue: Result<Option<bool>, ApiError>) where
    ParsePosition: Fn(&str, usize) -> Result<P, String>,
    GameOver: Fn(&P) -> bool,
    NullMove: Fn(P) -> P,
    HasWinningMove: Fn(P) -> bool,
    NewProof: Fn(P) -> Q,
    Select: Fn(Q) -> Q,
    Outcome: Fn(&Q) -> Option<ProofResult>,

    requires
        is_supported(size) ==> call_requires(*parse_position, (tps, size)),
        rules.callable::<P>(),
        prover.callable::<P, Q>(),
    ensures
        tinue_answered::<
            P,
            Q,
            ParsePosition,
            GameOver,
            NullMove,
            HasWinningMove,
            NewProof,
            Select,
            Outcome,
        >(tps, size, max_nodes as nat, *parse_position, *rules, *prover, tinue),
{
    if !supported(size) {
        return Err(ApiError::UnsupportedSize(size));
    }
    match parse_position(tps, size) {
        Err(reason) => Err(ApiError::Refused(reason)),
        Ok(position) => Ok(rules.is_tinue_sized(prover, position, max_nodes)),
    }
}

// ---------------------------------------------------------------------------
// Laws
// ---------------------------------------------------------------------------

/// Whether `end` can be what exactly `nodes` nodes make of `start`.
pub open spec fn expanded<Q>(
    selects: spec_fn(Q, Q) -> bool,
    nodes: nat,
    start: Q,
    end: Q,
) -> bool
    decreases nodes,
{
    if nodes == 0 {
        end == start
    } else {
        exists|next: Q| #[trigger]
            selects(start, next) && expanded(selects, (nodes - 1) as nat, next, end)
    }
}

/// A proof search that ends without a result has used all its nodes.
pub proof fn law_open_proof_used_all_nodes<Q>(
    selects: spec_fn(Q, Q) -> bool,
    finds: spec_fn(Q, Option<ProofResult>) -> bool,
    nodes: nat,
    start: Q,
    end: Q,
)
    requires
        proof_ends(selects, finds, nodes, start, end),
        !finds(end, Some(ProofResult::Proved)),
        !finds(end, Some(ProofResult::Disproved)),
    ensures
        expanded(selects, nodes, start, end),
    decreases nodes,
{
    if nodes > 0 {
        let next = choose|next: Q| #[trigger]
            selects(start, next) && finds(next, None) && proof_ends(
                selects,
                finds,
                (nodes - 1) as nat,
                next,
                end,
            );
        law_open_proof_used_all_nodes(selects, finds, (nodes - 1) as nat, next, end);
    }
}

/// A proof search uses no more nodes than it may.
pub proof fn law_proof_keeps_to_its_nodes<Q>(
    selects: spec_fn(Q, Q) -> bool,
    finds: spec_fn(Q, Option<ProofResult>) -> bool,
    nodes: nat,
    start: Q,
    end: Q,
)
    requires
        proof_ends(selects, finds, nodes, start, end),
    ensures
        exists|used: nat| used <= nodes && #[trigger] expanded(selects, used, start, end),
    decreases nodes,
{
    if nodes == 0 {
        assert(expanded(selects, 0, start, end));
    } else {
        let next = choose|next: Q| #[trigger]
            selects(start, next) && {
                ||| end == next && (finds(next, Some(ProofResult::Proved)) || finds(
                    next,
                    Some(ProofResult::Disproved),
                ))
                ||| finds(next, None) && proof_ends(selects, finds, (nodes - 1) as nat, next, end)
            };
        if end == next {
            assert(expanded(selects, 0, next, end));
            assert(expanded(selects, 1, start, end));
        } else {
            law_proof_keeps_to_its_nodes(selects, finds, (nodes - 1) as nat, next, end);
            let used = choose|used: nat|
                used <= nodes - 1 && #[trigger] expanded(selects, used, next, end);
            assert(expanded(selects, used + 1, start, end));
        }
    }
}

/// More nodes find as much: a result that a proof search can end with, it can end with too if
/// it may use more nodes. A proof tree on which nothing but a result can be found has one.
pub proof fn law_more_nodes_find_as_much<Q>(
    selects: spec_fn(Q, Q) -> bool,
    finds: spec_fn(Q, Option<ProofResult>) -> bool,
    nodes: nat,
    more: nat,
    start: Q,
    end: Q,
)
    requires
        0 < nodes <= more,
        proof_ends(selects, finds, nodes, start, end),
        !finds(end, None),
    ensures
        proof_ends(selects, finds, more, start, end),
    decreases nodes,
{
    let next = choose|next: Q| #[trigger]
        selects(start, next) && {
            ||| end == next && (finds(next, Some(ProofResult::Proved)) || finds(
                next,
                Some(ProofResult::Disproved),
            ))
            ||| finds(next, None) && proof_ends(selects, finds, (nodes - 1) as nat, next, end)
        };
    if finds(next, None) {
        assert(nodes > 1);
        law_more_nodes_find_as_much(
            selects,
            finds,
            (nodes - 1) as nat,
            (more - 1) as nat,
            next,
            end,
        );
    }
}

/// Once the game is over, a position is neither in tak nor tinue.
pub proof fn law_finished_game_has_no_threat<
    P,
    Q,
    GameOver,
    NullMove,
    HasWinningMove,
    NewProof,
    Select,
    Outcome,
>(
    rules: Rules<GameOver, NullMove, HasWinningMove>,
    prover: Prover<NewProof, Select, Outcome>,
    nodes: nat,
    position: P,
    tak: bool,
    tinue: Option<bool>,
) where
    GameOver: Fn(&P) -> bool,
    NullMove: Fn(P) -> P,
    HasWinningMove: Fn(P) -> bool,
    NewProof: Fn(P) -> Q,
    Select: Fn(Q) -> Q,
    Outcome: Fn(&Q) -> Option<ProofResult>,

    requires
        !call_ensures(rules.game_over, (&position,), false),
        rules.tak_found(position, tak),
        rules.tinue_found::<P, Q, NewProof, Select, Outcome>(prover, nodes, position, tinue),
    ensures
        !tak,
        tinue == Some(false),
{
}

/// A verdict on tinue that can be reached with some nodes can be reached with more.
pub proof fn law_more_nodes_keep_the_verdict<
    P,
    Q,
    GameOver,
    NullMove,
    HasWinningMove,
    NewProof,
    Select,
    Outcome,
>(
    rules: Rules<GameOver, NullMove, HasWinningMove>,
    prover: Prover<NewProof, Select, Outcome>,
    nodes: nat,
    more: nat,
    position: P,
    tinue: bool,
) where
    GameOver: Fn(&P) -> bool,
    NullMove: Fn(P) -> P,
    HasWinningMove: Fn(P) -> bool,
    NewProof: Fn(P) -> Q,
    Select: Fn(Q) -> Q,
    Outcome: Fn(&Q) -> Option<ProofResult>,

    requires
        0 < nodes <= more,
        single_1(outcomes_of_view(prover.outcome)),
        rules.tinue_found::<P, Q, NewProof, Select, Outcome>(
            prover,
            nodes,
            position,
            Some(tinue),
        ),
    ensures
        rules.tinue_found::<P, Q, NewProof, Select, Outcome>(prover, more, position, Some(tinue)),
{
    if !(call_ensures(rules.game_over, (&position,), true) && !tinue) {
        let (passed, found) = choose|passed: P, found: Option<ProofResult>|
            call_ensures(rules.null_move, (position,), passed)
                && #[trigger] prover.proof_finds::<P, Q>(nodes, passed, found) && Some(tinue)
                == tinue_value(found);
        let selects = outcomes_1(prover.select);
        let finds = outcomes_of_view(prover.outcome);
        let (start, end) = choose|start: Q, end: Q|
            call_ensures(prover.new_proof, (passed,), start) && #[trigger] proof_ends(
                selects,
                finds,
                nodes,
                start,
                end,
            ) && call_ensures(prover.outcome, (&end,), found);
        assert(finds(end, found));
        law_more_nodes_find_as_much(selects, finds, nodes, more, start, end);
        assert(prover.proof_finds::<P, Q>(more, passed, found));
    }
}

/// If tinue is left open, the proof search has used all the nodes that it might.
pub proof fn law_open_verdict_used_all_nodes<
    P,
    Q,
    GameOver,
    NullMove,
    HasWinningMove,
    NewProof,
    Select,
    Outcome,
>(
    rules: Rules<GameOver, NullMove, HasWinningMove>,
    prover: Prover<NewProof, Select, Outcome>,
    nodes: nat,
    position: P,
) where
    GameOver: Fn(&P) -> bool,
    NullMove: Fn(P) -> P,
    HasWinningMove: Fn(P) -> bool,
    NewProof: Fn(P) -> Q,
    Select: Fn(Q) -> Q,
    Outcome: Fn(&Q) -> Option<ProofResult>,

    requires
        single_1(outcomes_of_view(prover.outcome)),
        rules.tinue_found::<P, Q, NewProof, Select, Outcome>(prover, nodes, position, None),
    ensures
        exists|passed: P, start: Q, end: Q|
            call_ensures(rules.null_move, (position,), passed) && #[trigger] call_ensures(
                prover.new_proof,
                (passed,),
                start,
            ) && #[trigger] expanded(outcomes_1(prover.select), nodes, start, end),
{
    let (passed, found) = choose|passed: P, found: Option<ProofResult>|
        call_ensures(rules.null_move, (position,), passed)
            && #[trigger] prover.proof_finds::<P, Q>(nodes, passed, found) && tinue_value(
            found,
        ) is None;
    let selects = outcomes_1(prover.select);
    let finds = outcomes_of_view(prover.outcome);
    let (start, end) = choose|start: Q, end: Q|
        call_ensures(prover.new_proof, (passed,), start) && #[trigger] proof_ends(
            selects,
            finds,
            nodes,
            start,
            end,
        ) && call_ensures(prover.outcome, (&end,), found);
    assert(finds(end, None));
    law_open_proof_used_all_nodes(selects, finds, nodes, start, end);
}

/// Where selecting a node and asking for a result have one result, a proof search ends one way.
proof fn lemma_proof_ends_one_way<Q>(
    selects: spec_fn(Q, Q) -> bool,
    finds: spec_fn(Q, Option<ProofResult>) -> bool,
    nodes: nat,
    start: Q,
    first: Q,
    second: Q,
)
    requires
        single_1(selects),
        single_1(finds),
        proof_ends(selects, finds, nodes, start, first),
        proof_ends(selects, finds, nodes, start, second),
    ensures
        first == second,
    decreases nodes,
{
    if nodes > 0 {
        let a = choose|next: Q| #[trigger]
            selects(start, next) && {
                ||| first == next && (finds(next, Some(ProofResult::Proved)) || finds(
                    next,
                    Some(ProofResult::Disproved),
                ))
                ||| finds(next, None) && proof_ends(selects, finds, (nodes - 1) as nat, next, first)
            };
        let b = choose|next: Q| #[trigger]
            selects(start, next) && {
                ||| second == next && (finds(next, Some(ProofResult::Proved)) || finds(
                    next,
                    Some(ProofResult::Disproved),
                ))
                ||| finds(next, None) && proof_ends(
                    selects,
                    finds,
                    (nodes - 1) as nat,
                    next,
                    second,
                )
            };
        assert(a == b);
        if finds(a, None) {
            lemma_proof_ends_one_way(selects, finds, (nodes - 1) as nat, a, first, second);
        }
    }
}

impl<NewProof, Select, Outcome> Prover<NewProof, Select, Outcome> {
    /// Whether a larger budget than `nodes` can only add results. It can unless nothing may be
    /// expanded at all: then a new proof tree that has a result already, if there is such a one,
    /// has to keep it through its first node.
    pub open spec fn can_grow<P, Q>(self, nodes: nat) -> bool where
        NewProof: Fn(P) -> Q,
        Select: Fn(Q) -> Q,
        Outcome: Fn(&Q) -> Option<ProofResult>,
     {
        nodes > 0 || forall|p: P, q: Q, next: Q, result: ProofResult|
            #[trigger] call_ensures(self.new_proof, (p,), q) && #[trigger] call_ensures(
                self.select,
                (q,),
                next,
            ) && #[trigger] call_ensures(self.outcome, (&q,), Some(result)) ==> call_ensures(
                self.outcome,
                (&next,),
                Some(result),
            )
    }
}

/// Two proof searches on one position, where every call has one result: what the smaller budget
/// finds out, the larger one finds out too.
pub proof fn law_larger_budget_finds_the_same<P, Q, NewProof, Select, Outcome>(
    prover: Prover<NewProof, Select, Outcome>,
    nodes: nat,
    more: nat,
    position: P,
    found: Option<ProofResult>,
    found_more: Option<ProofResult>,
) where NewProof: Fn(P) -> Q, Select: Fn(Q) -> Q, Outcome: Fn(&Q) -> Option<ProofResult>
    requires
        prover.decided::<P, Q>(),
        prover.can_grow::<P, Q>(nodes),
        nodes <= more,
        prover.proof_finds::<P, Q>(nodes, position, found),
        prover.proof_finds::<P, Q>(more, position, found_more),
    ensures
        found is Some ==> found_more == found,
{
    let selects = outcomes_1(prover.select);
    let finds = outcomes_of_view(prover.outcome);
    let (a, a_end) = choose|start: Q, end: Q|
        call_ensures(prover.new_proof, (position,), start) && #[trigger] proof_ends(
            selects,
            finds,
            nodes,
            start,
            end,
        ) && call_ensures(prover.outcome, (&end,), found);
    let (b, b_end) = choose|start: Q, end: Q|
        call_ensures(prover.new_proof, (position,), start) && #[trigger] proof_ends(
            selects,
            finds,
            more,
            start,
            end,
        ) && call_ensures(prover.outcome, (&end,), found_more);
    assert(outcomes_1(prover.new_proof)(position, a));
    assert(outcomes_1(prover.new_proof)(position, b));
    assert(a == b);
    assert(finds(a_end, found));
    assert(finds(b_end, found_more));
    if found is Some {
        if nodes > 0 {
            law_more_nodes_find_as_much(selects, finds, nodes, more, a, a_end);
            lemma_proof_ends_one_way(selects, finds, more, a, a_end, b_end);
        } else if more > 0 {
            let next = choose|next: Q| #[trigger]
                selects(a, next) && {
                    ||| b_end == next && (finds(next, Some(ProofResult::Proved)) || finds(
                        next,
                        Some(ProofResult::Disproved),
                    ))
                    ||| finds(next, None) && proof_ends(
                        selects,
                        finds,
                        (more - 1) as nat,
                        next,
                        b_end,
                    )
                };
            assert(call_ensures(prover.select, (a,), next));
            assert(call_ensures(prover.outcome, (&a,), Some(found->0)));
            assert(call_ensures(prover.outcome, (&next,), Some(found->0)));
            assert(finds(next, Some(found->0)));
        }
    }
}

/// Where every call has one result, a proof search finds out one thing.
pub proof fn law_proof_finds_one_thing<P, Q, NewProof, Select, Outcome>(
    prover: Prover<NewProof, Select, Outcome>,
    nodes: nat,
    position: P,
    first: Option<ProofResult>,
    second: Option<ProofResult>,
) where NewProof: Fn(P) -> Q, Select: Fn(Q) -> Q, Outcome: Fn(&Q) -> Option<ProofResult>
    requires
        prover.decided::<P, Q>(),
        prover.proof_finds::<P, Q>(nodes, position, first),
        prover.proof_finds::<P, Q>(nodes, position, second),
    ensures
        first == second,
{
    let selects = outcomes_1(prover.select);
    let finds = outcomes_of_view(prover.outcome);
    let (a, a_end) = choose|start: Q, end: Q|
        call_ensures(prover.new_proof, (position,), start) && #[trigger] proof_ends(
            selects,
            finds,
            nodes,
            start,
            end,
        ) && call_ensures(prover.outcome, (&end,), first);
    let (b, b_end) = choose|start: Q, end: Q|
        call_ensures(prover.new_proof, (position,), start) && #[trigger] proof_ends(
            selects,
            finds,
            nodes,
            start,
            end,
        ) && call_ensures(prover.outcome, (&end,), second);
    assert(outcomes_1(prover.new_proof)(position, a));
    assert(outcomes_1(prover.new_proof)(position, b));
    lemma_proof_ends_one_way(selects, finds, nodes, a, a_end, b_end);
    assert(finds(a_end, first));
    assert(finds(a_end, second));
}

/// Two verdicts on tinue for one position, where every call has one result: a larger budget
/// never changes or loses a verdict.
pub proof fn law_larger_budget_gives_the_same_verdict<
    P,
    Q,
    GameOver,
    NullMove,
    HasWinningMove,
    NewProof,
    Select,
    Outcome,
>(
    rules: Rules<GameOver, NullMove, HasWinningMove>,
    prover: Prover<NewProof, Select, Outcome>,
    nodes: nat,
    more: nat,
    position: P,
    tinue: Option<bool>,
    tinue_more: Option<bool>,
) where
    GameOver: Fn(&P) -> bool,
    NullMove: Fn(P) -> P,
    HasWinningMove: Fn(P) -> bool,
    NewProof: Fn(P) -> Q,
    Select: Fn(Q) -> Q,
    Outcome: Fn(&Q) -> Option<ProofResult>,

    requires
        rules.decided::<P>(),
        prover.decided::<P, Q>(),
        prover.can_grow::<P, Q>(nodes),
        nodes <= more,
        rules.tinue_found::<P, Q, NewProof, Select, Outcome>(prover, nodes, position, tinue),
        rules.tinue_found::<P, Q, NewProof, Select, Outcome>(prover, more, position, tinue_more),
    ensures
        tinue is Some ==> tinue_more == tinue,
{
    let ends = outcomes_of_view(rules.game_over);
    if ends(position, true) {
        assert(!ends(position, false));
    } else {
        let (a, found) = choose|passed: P, found: Option<ProofResult>|
            call_ensures(rules.null_move, (position,), passed)
                && #[trigger] prover.proof_finds::<P, Q>(nodes, passed, found) && tinue
                == tinue_value(found);
        let (b, found_more) = choose|passed: P, found: Option<ProofResult>|
            call_ensures(rules.null_move, (position,), passed)
                && #[trigger] prover.proof_finds::<P, Q>(more, passed, found) && tinue_more
                == tinue_value(found);
        assert(outcomes_1(rules.null_move)(position, a));
        assert(outcomes_1(rules.null_move)(position, b));
        law_larger_budget_finds_the_same::<P, Q, NewProof, Select, Outcome>(
            prover,
            nodes,
            more,
            a,
            found,
            found_more,
        );
    }
}

/// Two answers on tinue for one text, where every call has one result. A larger budget never
/// changes or loses an answer, so what is left open with it is left open with a smaller one;
/// and whether the text is refused, and why, does not depend on the budget.
pub proof fn law_larger_budget_gives_the_same_answer<
    P,
    Q,
    ParsePosition,
    GameOver,
    NullMove,
    HasWinningMove,
    NewProof,
    Select,
    Outcome,
>(
    tps: &str,
    size: usize,
    nodes: nat,
    more: nat,
    parse_position: ParsePosition,
    rules: Rules<GameOver, NullMove, HasWinningMove>,
    prover: Prover<NewProof, Select, Outcome>,
    tinue: Result<Option<bool>, ApiError>,
    tinue_more: Result<Option<bool>, ApiError>,
) where
    ParsePosition: Fn(&str, usize) -> Result<P, String>,
    GameOver: Fn(&P) -> bool,
    NullMove: Fn(P) -> P,
    HasWinningMove: Fn(P) -> bool,
    NewProof: Fn(P) -> Q,
    Select: Fn(Q) -> Q,
    Outcome: Fn(&Q) -> Option<ProofResult>,

    requires
        forall|a: Result<P, String>, b: Result<P, String>| #[trigger]
            call_ensures(parse_position, (tps, size), a) && #[trigger] call_ensures(
                parse_position,
                (tps, size),
                b,
            ) ==> a == b,
        rules.decided::<P>(),
        prover.decided::<P, Q>(),
        prover.can_grow::<P, Q>(nodes),
        nodes <= more,
        tinue_answered::<
            P,
            Q,
            ParsePosition,
            GameOver,
            NullMove,
            HasWinningMove,
            NewProof,
            Select,
            Outcome,
        >(tps, size, nodes, parse_position, rules, prover, tinue),
        tinue_answered::<
            P,
            Q,
            ParsePosition,
            GameOver,
            NullMove,
            HasWinningMove,
            NewProof,
            Select,
            Outcome,
        >(tps, size, more, parse_position, rules, prover, tinue_more),
    ensures
        tinue is Err || tinue_more is Err ==> tinue_more == tinue,
        tinue matches Ok(Some(_)) ==> tinue_more == tinue,
        tinue_more == Ok::<Option<bool>, ApiError>(None) ==> tinue == tinue_more,
{
    if is_supported(size) {
        let parsed = choose|parsed: Result<P, String>| #[trigger]
            call_ensures(parse_position, (tps, size), parsed) && match parsed {
                Err(reason) => tinue == Err::<Option<bool>, ApiError>(ApiError::Refused(reason)),
                Ok(position) => tinue matches Ok(known) && rules.tinue_found::<
                    P,
                    Q,
                    NewProof,
                    Select,
                    Outcome,
                >(prover, nodes, position, known),
            };
        if let Ok(position) = parsed {
            law_larger_budget_gives_the_same_verdict::<
                P,
                Q,
                GameOver,
                NullMove,
                HasWinningMove,
                NewProof,
                Select,
                Outcome,
            >(rules, prover, nodes, more, position, tinue->Ok_0, tinue_more->Ok_0);
        }
    }
}

} // verus!
