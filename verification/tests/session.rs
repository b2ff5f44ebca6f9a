use tiltak_interface::error::TeiError;
use tiltak_interface::position_string::PositionCalls;
use tiltak_interface::protocol::parse_command;
use tiltak_interface::session::Action;
use tiltak_interface::session::GoCalls;
use tiltak_interface::session::GoJob;
use tiltak_interface::session::Session;
use tiltak_interface::settings::build_mcts_settings;
use tiltak_interface::settings::MctsSettings;

type Play = Session<i8, String, u32, String>;

fn half_komi(n: i8) -> Option<i8> {
    if -10 <= n && n <= 10 {
        Some(n)
    } else {
        None
    }
}

fn start(size: usize, komi: i8) -> String {
    format!("start {size} {komi}")
}

fn from_tps(tps: &str, size: usize, _: i8) -> Result<String, String> {
    Ok(format!("[{tps}] {size}"))
}

fn from_san(_: &String, san: &str) -> Result<u32, String> {
    san.parse().map_err(|_| format!("no move: {san}"))
}

fn add_move(position: String, mv: u32) -> String {
    format!("{position} {mv}")
}

fn new_tree(position: String, settings: MctsSettings) -> String {
    match settings.rollout_depth {
        Some(depth) => format!("tree({position}, {depth})"),
        None => format!("tree({position})"),
    }
}

/// A tree cannot be carried over by the move 99.
fn reroot(tree: String, moves: &[u32]) -> Option<String> {
    if moves.contains(&99) {
        None
    } else {
        Some(format!("{tree} + {moves:?}"))
    }
}

fn execute(session: &mut Play, line: &str) -> Result<Action<String, String>, TeiError> {
    let position_calls = PositionCalls {
        start_position: start,
        from_tps,
        move_from_san: from_san,
        do_move: add_move,
    };
    let go_calls = GoCalls { new_tree, reroot, do_move: add_move };
    let settings = build_mcts_settings(false, false, None);
    let command = parse_command(line)?;
    session.carry_out(command, line, settings, &half_komi, &position_calls, &go_calls)
}

fn accept(session: &mut Play, line: &str) {
    assert!(matches!(execute(session, line), Ok(Action::Nothing)));
}

fn refuse(session: &mut Play, line: &str) -> TeiError {
    match execute(session, line) {
        Err(error) => error,
        Ok(_) => panic!("{line} was accepted"),
    }
}

fn go(session: &mut Play) -> GoJob<String, String> {
    match execute(session, "go infinite") {
        Ok(Action::Search(job)) => job,
        _ => panic!("no search was started"),
    }
}

/// Searches for `elapsed` nanoseconds, keeping the tree.
fn search(session: &mut Play, elapsed: u128) -> GoJob<String, String> {
    let job = go(session);
    assert!(session.searching);
    session.drain_worker(Some((Some(job.tree.clone()), elapsed)));
    assert!(!session.searching);
    job
}

fn playing() -> Play {
    let mut session = Session::new(0);
    accept(&mut session, "teinewgame 5");
    accept(&mut session, "position startpos moves 1");
    session
}

#[test]
fn new_session_is_empty() {
    let session: Play = Session::new(3);
    assert!(session.position.is_none() && session.last_searched.is_none());
    assert!(session.search_tree.is_none() && session.size.is_none());
    assert_eq!(session.komi, 3);
    assert_eq!(session.multi_pv, 1);
    assert_eq!(session.cumulative_search_time, 0);
    assert!(!session.searching);
}

#[test]
fn simple_commands_are_answered() {
    let mut session: Play = Session::new(0);
    assert!(matches!(execute(&mut session, "isready"), Ok(Action::Answer("readyok"))));
    assert!(matches!(execute(&mut session, "stop"), Ok(Action::Nothing)));
    assert!(matches!(execute(&mut session, "quit"), Ok(Action::Exit)));
}

#[test]
fn options_are_set() {
    let mut session: Play = Session::new(0);
    accept(&mut session, "setoption name HalfKomi value -4");
    accept(&mut session, "setoption name MultiPV value 3");
    assert_eq!(session.komi, -4);
    assert_eq!(session.multi_pv, 3);
    assert_eq!(refuse(&mut session, "setoption name HalfKomi value 11"), TeiError::InvalidKomi);
    assert_eq!(refuse(&mut session, "setoption name HalfKomi value x"), TeiError::InvalidKomi);
    assert_eq!(refuse(&mut session, "setoption name MultiPV value 9"), TeiError::InvalidMultiPv);
    assert_eq!(refuse(&mut session, "setoption name Hash value 9"), TeiError::InvalidSetOption);
    assert_eq!(session.komi, -4);
    assert_eq!(session.multi_pv, 3);
}

#[test]
fn commands_out_of_order_are_refused() {
    let mut session: Play = Session::new(0);
    assert_eq!(refuse(&mut session, "position startpos"), TeiError::PositionBeforeNewGame);
    assert_eq!(refuse(&mut session, "go infinite"), TeiError::GoBeforeNewGame);
    assert_eq!(refuse(&mut session, "teinewgame 8"), TeiError::UnsupportedSize(8));
    assert_eq!(refuse(&mut session, "go infinite"), TeiError::GoBeforeNewGame);
    accept(&mut session, "teinewgame 7");
    assert_eq!(refuse(&mut session, "go infinite"), TeiError::PositionNotSet);
}

#[test]
fn position_is_read_with_size_and_komi() {
    let mut session: Play = Session::new(0);
    accept(&mut session, "setoption name HalfKomi value 2");
    accept(&mut session, "teinewgame 6");
    accept(&mut session, "position startpos moves 4 5");
    let job = go(&mut session);
    assert_eq!(job.position, "start 6 2 4 5");
    assert_eq!(job.tree, "tree(start 6 2 4 5)");
    assert!(!job.reused);
    assert_eq!(job.time_offset, 0);
}

#[test]
fn refused_position_keeps_the_old_one() {
    let mut session = playing();
    let error = TeiError::InvalidMove("no move: x".to_string());
    assert_eq!(refuse(&mut session, "position startpos moves 2 x"), error);
    assert_eq!(go(&mut session).position, "start 5 0 1");
}

#[test]
fn settings_reach_the_new_tree() {
    let mut session = playing();
    let settings = build_mcts_settings(true, false, None);
    let go_calls = GoCalls { new_tree, reroot, do_move: add_move };
    let job = session.prepare_go(settings, &go_calls).unwrap_or_else(|_| panic!("refused"));
    assert_eq!(job.tree, "tree(start 5 0 1, 200)");
}

#[test]
fn continuation_is_offered_the_tree() {
    let mut session = playing();
    search(&mut session, 100);
    accept(&mut session, "position startpos moves 1 2 3");
    let job = search(&mut session, 10);
    assert_eq!(job.tree, "tree(start 5 0 1) + [2, 3]");
    assert_eq!(job.position, "start 5 0 1 2 3");
    assert!(job.reused);
    let job = search(&mut session, 1);
    assert_eq!(job.tree, "tree(start 5 0 1) + [2, 3] + []");
    assert!(job.reused);
}

#[test]
fn other_position_gets_a_new_tree() {
    for line in [
        "position startpos",
        "position startpos moves 2",
        "position tps x5 1 1 moves 1",
        "position startpos moves 1 99",
    ] {
        let mut session = playing();
        search(&mut session, 100);
        accept(&mut session, line);
        let job = search(&mut session, 7);
        assert!(!job.reused);
        assert_eq!(job.tree, format!("tree({})", job.position));
        assert_eq!(job.time_offset, 0);
        assert_eq!(session.cumulative_search_time, 7);
    }
}

#[test]
fn time_adds_up_while_the_tree_is_carried_over() {
    let mut session = playing();
    assert_eq!(search(&mut session, 100).time_offset, 0);
    assert_eq!(session.cumulative_search_time, 100);
    assert_eq!(search(&mut session, 20).time_offset, 100);
    assert_eq!(session.cumulative_search_time, 120);
    accept(&mut session, "position startpos moves 3");
    assert_eq!(search(&mut session, 5).time_offset, 0);
    assert_eq!(session.cumulative_search_time, 5);
}

#[test]
fn new_game_forgets_the_tree() {
    let mut session = playing();
    accept(&mut session, "setoption name MultiPV value 2");
    search(&mut session, 100);
    accept(&mut session, "teinewgame 5");
    assert!(session.position.is_none() && session.last_searched.is_none());
    assert!(session.search_tree.is_none());
    assert_eq!(session.cumulative_search_time, 0);
    assert_eq!(session.multi_pv, 2);
    accept(&mut session, "position startpos moves 1");
    assert!(!go(&mut session).reused);
}

#[test]
fn lost_tree_is_replaced() {
    let mut session = playing();
    go(&mut session);
    session.drain_worker(Some((None, 100)));
    let job = go(&mut session);
    assert!(!job.reused);
    assert_eq!(job.time_offset, 0);
}

#[test]
fn draining_without_a_search_changes_nothing() {
    let mut session = playing();
    search(&mut session, 100);
    session.drain_worker(None);
    assert_eq!(session.cumulative_search_time, 100);
    assert_eq!(session.search_tree.as_deref(), Some("tree(start 5 0 1)"));
}

#[test]
fn drained_tree_replaces_a_kept_one() {
    let mut session = playing();
    search(&mut session, 1_000_000_000);
    session.searching = true;
    assert!(session.search_tree.is_some());
    session.drain_worker(Some((None, 250_000_000)));
    assert!(session.search_tree.is_none());
    assert!(!session.searching);
    assert_eq!(session.cumulative_search_time, 1_250_000_000);
}

#[test]
fn draining_again_changes_nothing() {
    let mut session = playing();
    let job = go(&mut session);
    session.drain_worker(Some((Some(job.tree), 40)));
    let (time, tree) = (session.cumulative_search_time, session.search_tree.clone());
    session.drain_worker(None);
    assert_eq!(session.cumulative_search_time, time);
    assert_eq!(session.search_tree, tree);
    assert_eq!(time, 40);
}

#[test]
fn time_never_falls_while_draining() {
    let mut session = playing();
    let mut last = session.cumulative_search_time;
    for elapsed in [0, 5, 0, 70] {
        session.searching = true;
        session.drain_worker(Some((None, elapsed)));
        assert!(session.cumulative_search_time >= last);
        last = session.cumulative_search_time;
    }
    assert_eq!(last, 75);
}

#[test]
fn search_after_search_depends_on_what_was_left() {
    for (tree, moves, expected, offset) in [
        (Some("kept"), "1 2", "kept + [2]", 30),
        (Some("kept"), "1 99", "tree(start 5 0 1 99)", 0),
        (None, "1 2", "tree(start 5 0 1 2)", 0),
    ] {
        let mut session = playing();
        go(&mut session);
        session.drain_worker(Some((tree.map(str::to_string), 30)));
        accept(&mut session, &format!("position startpos moves {moves}"));
        let job = go(&mut session);
        assert_eq!(job.tree, expected);
        assert_eq!(job.time_offset, offset);
        assert_eq!(session.cumulative_search_time, offset);
    }
}
