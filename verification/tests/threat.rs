use std::cell::Cell;

use tiltak_interface::size_tag::ApiError;
use tiltak_interface::threat::is_tak;
use tiltak_interface::threat::is_tinue;
use tiltak_interface::threat::supported;
use tiltak_interface::threat::tinue_verdict;
use tiltak_interface::threat::ProofResult;
use tiltak_interface::threat::Prover;
use tiltak_interface::threat::Rules;

/// A game of numbers: it is over at 100, passing adds one, and a multiple of ten plus one is
/// won at once.
fn parse(tps: &str, size: usize) -> Result<u32, String> {
    match tps.parse::<u32>() {
        Ok(number) => Ok(number + size as u32 - 5),
        Err(_) => Err(format!("no position: {tps}")),
    }
}

fn over(position: &u32) -> bool {
    *position == 100
}

fn pass(position: u32) -> u32 {
    position + 1
}

fn wins(position: u32) -> bool {
    position % 10 == 1
}

#[test]
fn tak_is_a_win_after_the_other_player_passes() {
    let rules = Rules { game_over: over, null_move: pass, has_winning_move: wins };
    assert_eq!(is_tak("20", 5, &parse, &rules), Ok(true));
    assert_eq!(is_tak("21", 5, &parse, &rules), Ok(false));
    assert_eq!(is_tak("21", 4, &parse, &rules), Ok(true));
    assert_eq!(is_tak("19", 6, &parse, &rules), Ok(true));
}

#[test]
fn finished_game_is_neither_tak_nor_tinue() {
    let rules = Rules { game_over: over, null_move: pass, has_winning_move: wins };
    let prover = Prover {
        new_proof: |_: u32| -> u32 { panic!("no proof search is expected") },
        select: |tree: u32| tree,
        outcome: |_: &u32| None,
    };
    assert_eq!(is_tak("100", 5, &parse, &rules), Ok(false));
    assert_eq!(is_tinue("100", 5, 50, &parse, &rules, &prover), Ok(Some(false)));
}

#[test]
fn unsupported_sizes_are_refused() {
    let rules = Rules { game_over: over, null_move: pass, has_winning_move: wins };
    let prover = Prover {
        new_proof: |position: u32| position,
        select: |tree: u32| tree,
        outcome: |_: &u32| None,
    };
    for size in [0, 3, 7, 8] {
        assert!(!supported(size));
        assert_eq!(is_tak("20", size, &parse, &rules), Err(ApiError::UnsupportedSize(size)));
        assert_eq!(
            is_tinue("20", size, 1, &parse, &rules, &prover),
            Err(ApiError::UnsupportedSize(size))
        );
    }
    assert!(supported(4) && supported(5) && supported(6));
}

#[test]
fn unreadable_positions_are_refused() {
    let rules = Rules { game_over: over, null_move: pass, has_winning_move: wins };
    let prover = Prover {
        new_proof: |position: u32| position,
        select: |tree: u32| tree,
        outcome: |_: &u32| None,
    };
    let refused = ApiError::Refused("no position: x".to_string());
    assert_eq!(is_tak("x", 5, &parse, &rules), Err(refused));
    let refused = ApiError::Refused("no position: x".to_string());
    assert_eq!(is_tinue("x", 5, 1, &parse, &rules, &prover), Err(refused));
}

/// A proof that needs three nodes from a position that is passed from.
fn settle(tree: &(u32, u32)) -> Option<ProofResult> {
    if tree.1 < 3 {
        None
    } else if tree.0 % 2 == 1 {
        Some(ProofResult::Proved)
    } else {
        Some(ProofResult::Disproved)
    }
}

#[test]
fn tinue_is_what_the_proof_search_finds() {
    let rules = Rules { game_over: over, null_move: pass, has_winning_move: wins };
    let prover = Prover {
        new_proof: |position: u32| (position, 0),
        select: |tree: (u32, u32)| (tree.0, tree.1 + 1),
        outcome: settle,
    };
    assert_eq!(is_tinue("20", 5, 3, &parse, &rules, &prover), Ok(Some(true)));
    assert_eq!(is_tinue("21", 5, 3, &parse, &rules, &prover), Ok(Some(false)));
    assert_eq!(is_tinue("20", 5, 2, &parse, &rules, &prover), Ok(None));
    assert_eq!(is_tinue("20", 5, 0, &parse, &rules, &prover), Ok(None));
}

#[test]
fn more_nodes_find_as_much() {
    let rules = Rules { game_over: over, null_move: pass, has_winning_move: wins };
    let prover = Prover {
        new_proof: |position: u32| (position, 0),
        select: |tree: (u32, u32)| (tree.0, tree.1 + 1),
        outcome: settle,
    };
    for nodes in 3..20 {
        assert_eq!(is_tinue("20", 5, nodes, &parse, &rules, &prover), Ok(Some(true)));
    }
}

#[test]
fn proof_search_stops_at_a_result_and_keeps_to_its_nodes() {
    let selected = Cell::new(0);
    let prover = Prover {
        new_proof: |position: u32| (position, 0),
        select: |tree: (u32, u32)| {
            selected.set(selected.get() + 1);
            (tree.0, tree.1 + 1)
        },
        outcome: settle,
    };
    assert_eq!(prover.find_proof(7, 500), Some(ProofResult::Proved));
    assert_eq!(selected.get(), 3);
    selected.set(0);
    assert_eq!(prover.find_proof(7, 2), None);
    assert_eq!(selected.get(), 2);
}

#[test]
fn verdicts_follow_the_proof() {
    assert_eq!(tinue_verdict(Some(ProofResult::Proved)), Some(true));
    assert_eq!(tinue_verdict(Some(ProofResult::Disproved)), Some(false));
    assert_eq!(tinue_verdict(None), None);
}

#[test]
fn larger_budget_gives_the_same_answer() {
    let rules = Rules { game_over: over, null_move: pass, has_winning_move: wins };
    let prover = Prover {
        new_proof: |position: u32| (position, 0),
        select: |tree: (u32, u32)| (tree.0, tree.1 + 1),
        outcome: settle,
    };
    for tps in ["20", "21", "100", "x"] {
        for size in [5, 7] {
            for nodes in 0..6 {
                let answer = is_tinue(tps, size, nodes, &parse, &rules, &prover);
                let more = is_tinue(tps, size, nodes + 1, &parse, &rules, &prover);
                if answer != Ok(None) {
                    assert_eq!(answer, more);
                }
            }
        }
    }
}
