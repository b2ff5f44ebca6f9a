use std::cell::Cell;
use std::cell::RefCell;

use tiltak_interface::error::TeiError;
use tiltak_interface::go_command::Side;
use tiltak_interface::search::search_batch;
use tiltak_interface::search::SearchCalls;

#[test]
fn undisturbed_batches_are_complete() {
    let end = search_batch(5u64, 7, &|_: &u64| false, &|tree: u64| (tree + 1, false));
    assert_eq!(end, (12, false));
    let end = search_batch(5u64, 0, &|_: &u64| false, &|tree: u64| (tree + 1, false));
    assert_eq!(end, (5, false));
}

#[test]
fn exhausted_arena_ends_a_batch() {
    let end = search_batch(5u64, 7, &|_: &u64| false, &|tree: u64| (tree + 1, tree == 7));
    assert_eq!(end, (8, true));
}

#[test]
fn stop_flag_ends_a_batch() {
    let end = search_batch(5u64, 7, &|_: &u64| true, &|tree: u64| (tree + 1, false));
    assert_eq!(end, (5, false));
    let left = Cell::new(3);
    let stopped = |_: &u64| {
        left.set(left.get() - 1);
        left.get() < 0
    };
    let end = search_batch(5u64, 7, &stopped, &|tree: u64| (tree + 1, false));
    assert_eq!(end, (8, false));
}

#[test]
fn rounds_go_on_until_the_time_is_up() {
    let reports: RefCell<Vec<u64>> = RefCell::new(Vec::new());
    let calls = SearchCalls {
        stopped: |_: &u64| false,
        select: |tree: u64| (tree + 1, false),
        nodes_in: |round: i32| 10 + round as u64,
        best_move: |tree: &u64| tree * 100,
        report: |tree: &u64, started: &u64| reports.borrow_mut().push(tree + started),
        now: || 1000u64,
        time_up: |_: &u64, millis: u64, _: &u64| {
            assert_eq!(millis, 25);
            reports.borrow().len() == 3
        },
        search_for_time: |tree: u64, _: u128, _: &u64| (tree, false),
    };
    let end = calls.run_go("go movetime 25", Side::White, 0);
    assert_eq!(end, Ok((3300, Some(33))));
    assert_eq!(*reports.borrow(), vec![1010, 1021, 1033]);
}

#[test]
fn stopped_search_ends_after_one_round() {
    let reports = Cell::new(0);
    let calls = SearchCalls {
        stopped: |_: &u64| true,
        select: |tree: u64| (tree + 1, false),
        nodes_in: |_: i32| 200,
        best_move: |tree: &u64| *tree,
        report: |_: &u64, _: &()| reports.set(reports.get() + 1),
        now: || (),
        time_up: |_: &(), _: u64, _: &u64| panic!("no clock is expected"),
        search_for_time: |tree: u64, _: u128, _: &()| (tree, false),
    };
    assert_eq!(calls.run_go("go infinite", Side::White, 9), Ok((9, Some(9))));
    assert_eq!(reports.get(), 1);
}

#[test]
fn exhausted_tree_is_not_kept() {
    let calls = SearchCalls {
        stopped: |_: &u64| false,
        select: |tree: u64| (tree + 1, tree == 30),
        nodes_in: |_: i32| 20,
        best_move: |tree: &u64| *tree,
        report: |_: &u64, _: &()| (),
        now: || (),
        time_up: |_: &(), _: u64, _: &u64| false,
        search_for_time: |tree: u64, _: u128, _: &()| (tree + 5, true),
    };
    assert_eq!(calls.run_go("go infinite", Side::White, 0), Ok((31, None)));
    assert_eq!(calls.run_go("go wtime 10", Side::White, 0), Ok((5, None)));
}

#[test]
fn search_against_the_clock_gets_the_budget_of_the_side() {
    let budget = Cell::new(0);
    let calls = SearchCalls {
        stopped: |_: &u64| true,
        select: |tree: u64| (tree, true),
        nodes_in: |_: i32| 20,
        best_move: |tree: &u64| tree + 1,
        report: |_: &u64, _: &u8| (),
        now: || 4u8,
        time_up: |_: &u8, _: u64, _: &u64| true,
        search_for_time: |tree: u64, nanos: u128, started: &u8| {
            budget.set(nanos);
            (tree + *started as u64, false)
        },
    };
    let line = "go wtime 100 winc 10 btime 200 binc 20";
    assert_eq!(calls.run_go(line, Side::White, 1), Ok((6, Some(5))));
    assert_eq!(budget.get(), 25_000_000);
    assert_eq!(calls.run_go(line, Side::Black, 1), Ok((6, Some(5))));
    assert_eq!(budget.get(), 50_000_000);
}

#[test]
fn malformed_go_commands_start_no_search() {
    let calls = SearchCalls {
        stopped: |_: &u64| panic!("no search is expected"),
        select: |_: u64| panic!("no search is expected"),
        nodes_in: |_: i32| panic!("no search is expected"),
        best_move: |_: &u64| -> u64 { panic!("no search is expected") },
        report: |_: &u64, _: &u8| panic!("no search is expected"),
        now: || -> u8 { panic!("no search is expected") },
        time_up: |_: &u8, _: u64, _: &u64| panic!("no search is expected"),
        search_for_time: |_: u64, _: u128, _: &u8| panic!("no search is expected"),
    };
    assert_eq!(calls.run_go("go", Side::White, 1), Err(TeiError::InvalidGo));
    assert_eq!(calls.run_go("go movetime", Side::White, 1), Err(TeiError::InvalidMoveTime));
    assert_eq!(calls.run_go("go binc x", Side::White, 1), Err(TeiError::IncorrectGo));
}

#[test]
fn stop_during_a_search_ends_it_with_its_round() {
    let reports = Cell::new(0);
    let calls = SearchCalls {
        stopped: |tree: &u64| *tree >= 27,
        select: |tree: u64| (tree + 1, false),
        nodes_in: |_: i32| 10,
        best_move: |tree: &u64| tree * 2,
        report: |_: &u64, _: &()| reports.set(reports.get() + 1),
        now: || (),
        time_up: |_: &(), _: u64, _: &u64| false,
        search_for_time: |tree: u64, _: u128, _: &()| (tree, false),
    };
    assert_eq!(calls.run_go("go infinite", Side::White, 0), Ok((54, Some(27))));
    assert_eq!(reports.get(), 3);
    reports.set(0);
    assert_eq!(calls.run_go("go movetime 5", Side::White, 10), Ok((54, Some(27))));
    assert_eq!(reports.get(), 2);
}

#[test]
fn flag_raised_after_a_round_ends_the_search() {
    let reports = Cell::new(0);
    let calls = SearchCalls {
        stopped: |_: &u64| reports.get() == 4,
        select: |tree: u64| (tree + 1, false),
        nodes_in: |round: i32| 1 + round as u64,
        best_move: |tree: &u64| *tree,
        report: |_: &u64, _: &()| reports.set(reports.get() + 1),
        now: || (),
        time_up: |_: &(), _: u64, _: &u64| false,
        search_for_time: |tree: u64, _: u128, _: &()| (tree, false),
    };
    assert_eq!(calls.run_go("go infinite", Side::White, 0), Ok((10, Some(10))));
}

#[test]
fn flag_is_read_on_every_tree_that_is_expanded() {
    let read: RefCell<Vec<u64>> = RefCell::new(Vec::new());
    let stopped = |tree: &u64| {
        read.borrow_mut().push(*tree);
        false
    };
    let end = search_batch(5u64, 3, &stopped, &|tree: u64| (tree + 1, false));
    assert_eq!(end, (8, false));
    assert_eq!(*read.borrow(), vec![5, 6, 7]);
}

#[test]
fn undisturbed_search_ends_with_the_first_round_after_which_the_time_is_up() {
    let asked: RefCell<Vec<u64>> = RefCell::new(Vec::new());
    let calls = SearchCalls {
        stopped: |_: &u64| false,
        select: |tree: u64| (tree + 1, false),
        nodes_in: |round: i32| 200 + 50 * round as u64,
        best_move: |tree: &u64| *tree,
        report: |_: &u64, _: &()| (),
        now: || (),
        time_up: |_: &(), millis: u64, tree: &u64| {
            asked.borrow_mut().push(*tree);
            *tree > millis
        },
        search_for_time: |tree: u64, _: u128, _: &()| (tree, false),
    };
    assert_eq!(calls.run_go("go movetime 700", Side::White, 0), Ok((750, Some(750))));
    assert_eq!(*asked.borrow(), vec![200, 450, 750]);
}
