use tiltak_interface::report::best_move_line;
use tiltak_interface::report::info_line;
use tiltak_interface::report::measured;
use tiltak_interface::report::nodes_this_go;
use tiltak_interface::report::reported_millis;
use tiltak_interface::report::search_info;
use tiltak_interface::report::search_progress;
use tiltak_interface::report::Progress;
use tiltak_interface::report::Variation;

fn progress() -> Progress {
    Progress { depth: 6, nodes: 1000, time_ms: 250, nps: "4000".to_string() }
}

fn variation(score_cp: i64, win: i64, moves: &[&str]) -> Variation {
    Variation {
        score_cp,
        win,
        draw: 0,
        loss: 1000 - win,
        pv: moves.iter().map(|mv| mv.to_string()).collect(),
    }
}

#[test]
fn reports_are_written_out() {
    let line = info_line(None, &progress(), &variation(12, 560, &["a1", "e5"]));
    assert_eq!(
        line,
        "info depth 6 seldepth 2 nodes 1000 score cp 12 wdl 560 0 440 time 250 nps 4000 pv a1 e5"
    );
    let line = info_line(Some(3), &progress(), &variation(-100, 0, &[]));
    assert_eq!(
        line,
        "info multipv 3 depth 6 seldepth 0 nodes 1000 score cp -100 wdl 0 0 1000 time 250 \
         nps 4000 pv "
    );
}

#[test]
fn several_lines_are_numbered() {
    let best = |n: usize| {
        let mut list = vec![variation(20, 600, &["a1"]), variation(10, 550, &["b1", "c1"])];
        list.truncate(n);
        list
    };
    let main = || variation(0, 500, &[]);
    let lines = search_info(4, &progress(), &best, &main);
    assert_eq!(
        lines,
        vec![
            info_line(Some(1), &progress(), &variation(20, 600, &["a1"])),
            info_line(Some(2), &progress(), &variation(10, 550, &["b1", "c1"])),
        ]
    );
}

#[test]
fn one_line_has_no_number() {
    let best = |_: usize| vec![variation(20, 600, &["a1"])];
    let main = || variation(5, 525, &["d4"]);
    let lines = search_info(1, &progress(), &best, &main);
    assert_eq!(lines, vec![info_line(None, &progress(), &variation(5, 525, &["d4"]))]);
}

#[test]
fn best_move_is_announced() {
    assert_eq!(best_move_line("Cc3"), "bestmove Cc3");
}

#[test]
fn a_microsecond_is_the_least_time_measured() {
    assert_eq!(measured(0), 1_000);
    assert_eq!(measured(999), 1_000);
    assert_eq!(measured(1_001), 1_001);
}

#[test]
fn reported_time_counts_on_from_the_offset() {
    assert_eq!(reported_millis(0, 0), 0);
    assert_eq!(reported_millis(0, 1_999_999), 1);
    assert_eq!(reported_millis(1_500_000, 500_000), 2);
    assert_eq!(reported_millis(999_000, 0), 1);
}

#[test]
fn reported_time_does_not_go_back() {
    let mut last = 0;
    let mut offset = 0;
    for taken in [0, 10, 2_000_000, 999, 5_000_000] {
        for elapsed in [0, taken / 2, taken] {
            let millis = reported_millis(offset, elapsed);
            assert!(millis >= last);
            last = millis;
        }
        offset += taken;
    }
}

#[test]
fn nodes_of_a_search_are_those_since_its_start() {
    assert_eq!(nodes_this_go(1200, 200), 1000);
    assert_eq!(nodes_this_go(200, 200), 0);
    assert_eq!(nodes_this_go(100, 200), 0);
}

#[test]
fn progress_is_put_together_from_counts_and_times() {
    let depth_of = |visits: u32| visits as u64 + 1;
    let speed_of = |nodes: u32, nanos: u128| format!("{nodes} in {nanos}");
    let progress = search_progress(1200, 200, 1_500_000, 700_000, &depth_of, &speed_of);
    assert_eq!(progress.depth, 1201);
    assert_eq!(progress.nodes, 1200);
    assert_eq!(progress.time_ms, 2);
    assert_eq!(progress.nps, "1000 in 700000");
    let progress = search_progress(100, 200, 0, 5, &depth_of, &speed_of);
    assert_eq!(progress.nodes, 100);
    assert_eq!(progress.time_ms, 0);
    assert_eq!(progress.nps, "0 in 1000");
}
