//! What proof searches and the questions about threats come down to: the calls that they make,
//! and what these return.

use vstd::prelude::*;

use crate::outcome::outcomes_1;
use crate::outcome::outcomes_of_view;
use crate::size_tag::ApiError;
use crate::threat::is_supported;
use crate::threat::proof_ends;
use crate::threat::tinue_answered;
use crate::threat::tinue_value;
use crate::threat::ProofResult;
use crate::threat::Prover;
use crate::threat::Rules;

verus! {

/// The proof trees behind the end of a proof search.
proof fn lemma_proof_path<Q>(
    selects: spec_fn(Q, Q) -> bool,
    finds: spec_fn(Q, Option<ProofResult>) -> bool,
    nodes: nat,
    start: Q,
    end: Q,
) -> (path: Seq<Q>)
    requires
        proof_ends(selects, finds, nodes, start, end),
    ensures
        1 <= path.len() <= nodes + 1,
        nodes > 0 ==> path.len() >= 2,
        path[0] == start,
        path.last() == end,
        forall|i: int, j: int|
            0 <= i < j < path.len() && j == i + 1 ==> selects(#[trigger] path[i], #[trigger] path[j]),
        forall|i: int| 1 <= i < path.len() - 1 ==> finds(#[trigger] path[i], None),
        path.len() <= nodes ==> finds(end, Some(ProofResult::Proved)) || finds(
            end,
            Some(ProofResult::Disproved),
        ),
    decreases nodes,
{
    if nodes == 0 {
        seq![start]
    } else {
        let next = choose|next: Q| #[trigger]
            selects(start, next) && {
                ||| end == next && (finds(next, Some(ProofResult::Proved)) || finds(
                    next,
                    Some(ProofResult::Disproved),
                ))
                ||| finds(next, None) && proof_ends(selects, finds, (nodes - 1) as nat, next, end)
            };
        if end == next && (finds(next, Some(ProofResult::Proved)) || finds(
            next,
            Some(ProofResult::Disproved),
        )) {
            seq![start, next]
        } else {
            let rest = lemma_proof_path(selects, finds, (nodes - 1) as nat, next, end);
            let path = seq![start] + rest;
            assert forall|i: int, j: int| 0 <= i < j < path.len() && j == i + 1 implies selects(
                #[trigger] path[i],
                #[trigger] path[j],
            ) by {
                assert(path[j] == rest[j - 1]);
                if i > 0 {
                    assert(path[i] == rest[i - 1]);
                }
            }
            assert forall|i: int| 1 <= i < path.len() - 1 implies finds(#[trigger] path[i], None) by {
                assert(path[i] == rest[i - 1]);
            }
            assert(path.last() == rest.last());
            path
        }
    }
}

/// A proof search starts with a new proof tree and expands it node by node, by no more nodes than
/// it may. It goes on while a node brings no result, and stops short of the budget only where a
/// node has brought one. What it finds out is what the prover says of the last tree, so it never
/// claims what the prover has not said.
pub proof fn law_proof_search_goes_node_by_node<P, Q, NewProof, Select, Outcome>(
    prover: Prover<NewProof, Select, Outcome>,
    nodes: nat,
    position: P,
    found: Option<ProofResult>,
) -> (path: Seq<Q>) where
    NewProof: Fn(P) -> Q,
    Select: Fn(Q) -> Q,
    Outcome: Fn(&Q) -> Option<ProofResult>,

    requires
        prover.proof_finds::<P, Q>(nodes, position, found),
    ensures
        1 <= path.len() <= nodes + 1,
        nodes > 0 ==> path.len() >= 2,
        call_ensures(prover.new_proof, (position,), path[0]),
        forall|i: int, j: int|
            0 <= i < j < path.len() && j == i + 1 ==> call_ensures(
                prover.select,
                (#[trigger] path[i],),
                #[trigger] path[j],
            ),
        forall|i: int|
            1 <= i < path.len() - 1 ==> call_ensures(prover.outcome, (&#[trigger] path[i],), None),
        path.len() <= nodes ==> call_ensures(
            prover.outcome,
            (&path.last(),),
            Some(ProofResult::Proved),
        ) || call_ensures(prover.outcome, (&path.last(),), Some(ProofResult::Disproved)),
        call_ensures(prover.outcome, (&path.last(),), found),
{
    let selects = outcomes_1(prover.select);
    let finds = outcomes_of_view(prover.outcome);
    let (start, end) = choose|start: Q, end: Q|
        call_ensures(prover.new_proof, (position,), start) && #[trigger] proof_ends(
            selects,
            finds,
            nodes,
            start,
            end,
        ) && call_ensures(prover.outcome, (&end,), found);
    let path = lemma_proof_path(selects, finds, nodes, start, end);
    assert forall|i: int, j: int| 0 <= i < j < path.len() && j == i + 1 implies call_ensures(
        prover.select,
        (#[trigger] path[i],),
        #[trigger] path[j],
    ) by {
        assert(selects(path[i], path[j]));
    }
    assert forall|i: int| 1 <= i < path.len() - 1 implies call_ensures(
        prover.outcome,
        (&#[trigger] path[i],),
        None,
    ) by {
        assert(finds(path[i], None));
    }
    path
}

/// Two runs of the prover on one position go through the same trees.
proof fn lemma_runs_agree<P, Q, NewProof, Select, Outcome>(
    prover: Prover<NewProof, Select, Outcome>,
    position: P,
    a: Seq<Q>,
    b: Seq<Q>,
    n: int,
) where
    NewProof: Fn(P) -> Q,
    Select: Fn(Q) -> Q,
    Outcome: Fn(&Q) -> Option<ProofResult>,

    requires
        forall|p: P, a: Q, b: Q| #[trigger]
            call_ensures(prover.new_proof, (p,), a) && #[trigger] call_ensures(
                prover.new_proof,
                (p,),
                b,
            ) ==> a == b,
        forall|q: Q, a: Q, b: Q| #[trigger]
            call_ensures(prover.select, (q,), a) && #[trigger] call_ensures(
                prover.select,
                (q,),
                b,
            ) ==> a == b,
        forall|q: Q, a: Option<ProofResult>, b: Option<ProofResult>| #[trigger]
            call_ensures(prover.outcome, (&q,), a) && #[trigger] call_ensures(
                prover.outcome,
                (&q,),
                b,
            ) ==> a == b,
        0 <= n < a.len(),
        n < b.len(),
        call_ensures(prover.new_proof, (position,), a[0]),
        call_ensures(prover.new_proof, (position,), b[0]),
        forall|i: int, j: int|
            0 <= i < j < a.len() && j == i + 1 ==> call_ensures(
                prover.select,
                (#[trigger] a[i],),
                #[trigger] a[j],
            ),
        forall|i: int, j: int|
            0 <= i < j < b.len() && j == i + 1 ==> call_ensures(
                prover.select,
                (#[trigger] b[i],),
                #[trigger] b[j],
            ),
    ensures
        a[n] == b[n],
    decreases n,
{
    if n > 0 {
        lemma_runs_agree::<P, Q, NewProof, Select, Outcome>(prover, position, a, b, n - 1);
        assert(call_ensures(prover.select, (a[n - 1],), a[n]));
        assert(call_ensures(prover.select, (b[n - 1],), b[n]));
    }
}

/// The first result is found. Where every call has one result, if the prover says something for
/// the first time after some nodes that the budget allows, the search finds out just that.
pub proof fn law_first_result_is_found<P, Q, NewProof, Select, Outcome>(
    prover: Prover<NewProof, Select, Outcome>,
    nodes: nat,
    position: P,
    run: Seq<Q>,
    result: ProofResult,
    found: Option<ProofResult>,
) where
    NewProof: Fn(P) -> Q,
    Select: Fn(Q) -> Q,
    Outcome: Fn(&Q) -> Option<ProofResult>,

    requires
        forall|p: P, a: Q, b: Q| #[trigger]
            call_ensures(prover.new_proof, (p,), a) && #[trigger] call_ensures(
                prover.new_proof,
                (p,),
                b,
            ) ==> a == b,
        forall|q: Q, a: Q, b: Q| #[trigger]
            call_ensures(prover.select, (q,), a) && #[trigger] call_ensures(
                prover.select,
                (q,),
                b,
            ) ==> a == b,
        forall|q: Q, a: Option<ProofResult>, b: Option<ProofResult>| #[trigger]
            call_ensures(prover.outcome, (&q,), a) && #[trigger] call_ensures(
                prover.outcome,
                (&q,),
                b,
            ) ==> a == b,
        2 <= run.len() <= nodes + 1,
        call_ensures(prover.new_proof, (position,), run[0]),
        forall|i: int, j: int|
            0 <= i < j < run.len() && j == i + 1 ==> call_ensures(
                prover.select,
                (#[trigger] run[i],),
                #[trigger] run[j],
            ),
        forall|i: int|
            1 <= i < run.len() - 1 ==> call_ensures(prover.outcome, (&#[trigger] run[i],), None),
        call_ensures(prover.outcome, (&run.last(),), Some(result)),
        prover.proof_finds::<P, Q>(nodes, position, found),
    ensures
        found == Some(result),
{
    let path = law_proof_search_goes_node_by_node::<P, Q, NewProof, Select, Outcome>(
        prover,
        nodes,
        position,
        found,
    );
    let k = run.len() - 1;
    let m = path.len() - 1;
    let nothing: Option<ProofResult> = None;
    let something: Option<ProofResult> = Some(result);
    if m < k {
        lemma_runs_agree::<P, Q, NewProof, Select, Outcome>(prover, position, path, run, m);
        assert(call_ensures(prover.outcome, (&run[m],), nothing));
        let said: Option<ProofResult> = if call_ensures(
            prover.outcome,
            (&path.last(),),
            Some(ProofResult::Proved),
        ) {
            Some(ProofResult::Proved)
        } else {
            Some(ProofResult::Disproved)
        };
        assert(call_ensures(prover.outcome, (&path.last(),), said));
        assert(said == nothing);
    } else {
        lemma_runs_agree::<P, Q, NewProof, Select, Outcome>(prover, position, path, run, k);
        assert(call_ensures(prover.outcome, (&run[k],), something));
        if m > k {
            assert(call_ensures(prover.outcome, (&path[k],), nothing));
            assert(something == nothing);
        } else {
            assert(call_ensures(prover.outcome, (&path[k],), found));
        }
    }
}

/// Nothing is found that is not there. Where every call has one result, if the prover says nothing
/// after any of the nodes that the budget allows, the search is left open.
pub proof fn law_open_proof_stays_open<P, Q, NewProof, Select, Outcome>(
    prover: Prover<NewProof, Select, Outcome>,
    nodes: nat,
    position: P,
    run: Seq<Q>,
    found: Option<ProofResult>,
) where
    NewProof: Fn(P) -> Q,
    Select: Fn(Q) -> Q,
    Outcome: Fn(&Q) -> Option<ProofResult>,

    requires
        forall|p: P, a: Q, b: Q| #[trigger]
            call_ensures(prover.new_proof, (p,), a) && #[trigger] call_ensures(
                prover.new_proof,
                (p,),
                b,
            ) ==> a == b,
        forall|q: Q, a: Q, b: Q| #[trigger]
            call_ensures(prover.select, (q,), a) && #[trigger] call_ensures(
                prover.select,
                (q,),
                b,
            ) ==> a == b,
        forall|q: Q, a: Option<ProofResult>, b: Option<ProofResult>| #[trigger]
            call_ensures(prover.outcome, (&q,), a) && #[trigger] call_ensures(
                prover.outcome,
                (&q,),
                b,
            ) ==> a == b,
        nodes > 0,
        run.len() == nodes + 1,
        call_ensures(prover.new_proof, (position,), run[0]),
        forall|i: int, j: int|
            0 <= i < j < run.len() && j == i + 1 ==> call_ensures(
                prover.select,
                (#[trigger] run[i],),
                #[trigger] run[j],
            ),
        forall|i: int|
            1 <= i < run.len() ==> call_ensures(prover.outcome, (&#[trigger] run[i],), None),
        prover.proof_finds::<P, Q>(nodes, position, found),
    ensures
        found is None,
{
    let path = law_proof_search_goes_node_by_node::<P, Q, NewProof, Select, Outcome>(
        prover,
        nodes,
        position,
        found,
    );
    let m = path.len() - 1;
    let nothing: Option<ProofResult> = None;
    lemma_runs_agree::<P, Q, NewProof, Select, Outcome>(prover, position, path, run, m);
    assert(call_ensures(prover.outcome, (&run[m],), nothing));
    assert(call_ensures(prover.outcome, (&path.last(),), found));
    assert(found == nothing);
}

/// Boards of 4, 5 and 6 are supported, and no others.
pub proof fn law_supported_sizes(size: usize)
    ensures
        is_supported(size) <==> size == 4 || size == 5 || size == 6,
{
}

/// A position is in tak exactly if the game goes on and the player to move, having been passed by
/// the other one, has a winning move.
pub proof fn law_tak_is_a_win_after_a_pass<P, GameOver, NullMove, HasWinningMove>(
    rules: Rules<GameOver, NullMove, HasWinningMove>,
    position: P,
    tak: bool,
) where
    GameOver: Fn(&P) -> bool,
    NullMove: Fn(P) -> P,
    HasWinningMove: Fn(P) -> bool,

    requires
        rules.tak_found(position, tak),
    ensures
        tak ==> call_ensures(rules.game_over, (&position,), false) && exists|passed: P| #[trigger]
            call_ensures(rules.null_move, (position,), passed) && call_ensures(
                rules.has_winning_move,
                (passed,),
                true,
            ),
        !tak ==> call_ensures(rules.game_over, (&position,), true) || (call_ensures(
            rules.game_over,
            (&position,),
            false,
        ) && exists|passed: P| #[trigger]
            call_ensures(rules.null_move, (position,), passed) && call_ensures(
                rules.has_winning_move,
                (passed,),
                false,
            )),
{
}

/// The calls behind a verdict on tinue. It is no if the game is over. Otherwise the other player
/// passes, a proof search is made on that position with the nodes given, node by node, and the
/// verdict is yes exactly if the last tree is proved, no exactly if it is disproved, and open
/// exactly if neither is said of it.
pub proof fn law_tinue_is_what_the_prover_says_after_a_pass<
    P,
    Q,
    GameOver,
    NullMove,
    HasWinningMove,
    NewProof,
    Select,
    Outcome,
>(
    rules: Rules<GameOver, NullMove, HasWinningMove>,
    prover: Prover<NewProof, Select, Outcome>,
    nodes: nat,
    over: P,
    tinue: Option<bool>,
) -> (behind: (P, Seq<Q>)) where
    GameOver: Fn(&P) -> bool,
    NullMove: Fn(P) -> P,
    HasWinningMove: Fn(P) -> bool,
    NewProof: Fn(P) -> Q,
    Select: Fn(Q) -> Q,
    Outcome: Fn(&Q) -> Option<ProofResult>,

    requires
        rules.tinue_found::<P, Q, NewProof, Select, Outcome>(prover, nodes, over, tinue),
    ensures
        (call_ensures(rules.game_over, (&over,), true) && tinue == Some(false)) || ({
            let position = behind.0;
            let path = behind.1;
            &&& call_ensures(rules.game_over, (&over,), false)
            &&& call_ensures(rules.null_move, (over,), position)
            &&& 1 <= path.len() <= nodes + 1
            &&& nodes > 0 ==> path.len() >= 2
            &&& call_ensures(prover.new_proof, (position,), path[0])
            &&& forall|i: int, j: int|
                0 <= i < j < path.len() && j == i + 1 ==> call_ensures(
                    prover.select,
                    (#[trigger] path[i],),
                    #[trigger] path[j],
                )
            &&& forall|i: int|
                1 <= i < path.len() - 1 ==> call_ensures(
                    prover.outcome,
                    (&#[trigger] path[i],),
                    None,
                )
            &&& path.len() <= nodes ==> call_ensures(
                prover.outcome,
                (&path.last(),),
                Some(ProofResult::Proved),
            ) || call_ensures(prover.outcome, (&path.last(),), Some(ProofResult::Disproved))
            &&& tinue == Some(true) ==> call_ensures(
                prover.outcome,
                (&path.last(),),
                Some(ProofResult::Proved),
            )
            &&& tinue == Some(false) ==> call_ensures(
                prover.outcome,
                (&path.last(),),
                Some(ProofResult::Disproved),
            )
            &&& tinue is None ==> call_ensures(prover.outcome, (&path.last(),), None)
        }),
{
    if call_ensures(rules.game_over, (&over,), true) && tinue == Some(false) {
        (over, Seq::empty())
    } else {
        let (position, found) = choose|passed: P, found: Option<ProofResult>|
            call_ensures(rules.null_move, (over,), passed)
                && #[trigger] prover.proof_finds::<P, Q>(nodes, passed, found) && tinue
                == tinue_value(found);
        let path = law_proof_search_goes_node_by_node::<P, Q, NewProof, Select, Outcome>(
            prover,
            nodes,
            position,
            found,
        );
        (position, path)
    }
}

/// The answer on tinue for a text: a board of another size than 4, 5 or 6 is refused, a text that
/// cannot be read is refused for the reason given, and otherwise the verdict on the position that
/// was read is the answer.
pub proof fn law_tinue_is_answered_for_the_position_read<
    P,
    Q,
    ParsePosition,
    GameOver,
    NullMove,
    HasWinningMove,
    NewProof,
    Select,
    Outcome,
>(
    tps: &str,
    size: usize,
    nodes: nat,
    parse_position: ParsePosition,
    rules: Rules<GameOver, NullMove, HasWinningMove>,
    prover: Prover<NewProof, Select, Outcome>,
    tinue: Result<Option<bool>, ApiError>,
) where
    ParsePosition: Fn(&str, usize) -> Result<P, String>,
    GameOver: Fn(&P) -> bool,
    NullMove: Fn(P) -> P,
    HasWinningMove: Fn(P) -> bool,
    NewProof: Fn(P) -> Q,
    Select: Fn(Q) -> Q,
    Outcome: Fn(&Q) -> Option<ProofResult>,

    requires
        tinue_answered::<
            P,
            Q,
            ParsePosition,
            GameOver,
            NullMove,
            HasWinningMove,
            NewProof,
            Select,
            Outcome,
        >(tps, size, nodes, parse_position, rules, prover, tinue),
    ensures
        size != 4 && size != 5 && size != 6 ==> tinue == Err::<Option<bool>, ApiError>(
            ApiError::UnsupportedSize(size),
        ),
        size == 4 || size == 5 || size == 6 ==> match tinue {
            Ok(known) => exists|position: P|
                call_ensures(parse_position, (tps, size), Ok::<P, String>(position))
                    && #[trigger] rules.tinue_found::<P, Q, NewProof, Select, Outcome>(
                    prover,
                    nodes,
                    position,
                    known,
                ),
            Err(error) => error is Refused && call_ensures(
                parse_position,
                (tps, size),
                Err::<P, String>(error->Refused_0),
            ),
        },
{
}

} // verus!
