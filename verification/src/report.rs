//! The lines that report on a search.

use vstd::prelude::*;
use vstd::string::*;

use crate::number::decimal;
use crate::number::decimal_text;
use crate::number::signed_decimal;
use crate::number::signed_decimal_text;
use crate::session::MAX_NANOS;
use crate::text::join_words;
use crate::text::joined;
use crate::text::views;

verus! {

/// How far a search has come.
pub struct Progress {
    /// The depth that the number of nodes is worth.
    pub depth: u64,
    /// How many nodes the tree has seen.
    pub nodes: u32,
    /// How long the search has taken, in milliseconds.
    pub time_ms: u128,
    /// How many nodes were searched in a second, as text.
    pub nps: String,
}

/// A line of play, as the search sees it.
pub struct Variation {
    /// The score, in hundredths from -100 to 100.
    pub score_cp: i64,
    /// The chance of a win, in thousandths.
    pub win: i64,
    /// The chance of a draw, in thousandths.
    pub draw: i64,
    /// The chance of a loss, in thousandths.
    pub loss: i64,
    /// The moves.
    pub pv: Vec<String>,
}

/// The texts that a list of strings holds.
pub open spec fn string_views(list: Seq<String>) -> Seq<Seq<char>> {
    list.map_values(|s: String| s@)
}

/// The report on a line of play, with its number where it has one.
pub open spec fn info_text(
    number: Option<int>,
    progress: Progress,
    variation: Variation,
) -> Seq<char> {
    "info "@ + (match number {
        Some(n) => "multipv "@ + decimal(n as nat) + " "@,
        None => Seq::empty(),
    }) + "depth "@ + decimal(progress.depth as nat) + " seldepth "@ + decimal(
        variation.pv@.len(),
    ) + " nodes "@ + decimal(progress.nodes as nat) + " score cp "@ + signed_decimal(
        variation.score_cp as int,
    ) + " wdl "@ + signed_decimal(variation.win as int) + " "@ + signed_decimal(
        variation.draw as int,
    ) + " "@ + signed_decimal(variation.loss as int) + " time "@ + decimal(
        progress.time_ms as nat,
    ) + " nps "@ + progress.nps@ + " pv "@ + joined(string_views(variation.pv@))
}

/// Joins the strings of `list` with single spaces.
fn join_strings(list: &Vec<String>) -> (text: String)
    ensures
        text@ == joined(string_views(list@)),
{
    let mut slices: Vec<&str> = Vec::new();
    let mut i: usize = 0;
    while i < list.len()
        invariant
            i <= list@.len(),
            slices@.len() == i,
            forall|k: int| 0 <= k < i ==> (#[trigger] slices@[k])@ == list@[k]@,
        decreases list.len() - i,
    {
        slices.push(list[i].as_str());
        i = i + 1;
    }
    assert(views(slices@) =~= string_views(list@));
    join_words(slices.as_slice())
}

/// Writes the report on a line of play.
pub fn info_line(number: Option<usize>, progress: &Progress, variation: &Variation) -> (line:
    String)
    ensures
        line@ == info_text(
            match number {
                Some(n) => Some(n as int),
                None => None,
            },
            *progress,
            *variation,
        ),
{
    let mut line = "info ".to_owned();
    match number {
        Some(n) => {
            let mut label = "multipv ".to_owned();
            label.append(decimal_text(n as u128).as_str());
            label.append(" ");
            line.append(label.as_str());
        },
        None => {
            assert("info "@ + Seq::<char>::empty() =~= "info "@);
        },
    }
    line.append("depth ");
    line.append(decimal_text(progress.depth as u128).as_str());
    line.append(" seldepth ");
    line.append(decimal_text(variation.pv.len() as u128).as_str());
    line.append(" nodes ");
    line.append(decimal_text(progress.nodes as u128).as_str());
    line.append(" score cp ");
    line.append(signed_decimal_text(variation.score_cp).as_str());
    line.append(" wdl ");
    line.append(signed_decimal_text(variation.win).as_str());
    line.append(" ");
    line.append(signed_decimal_text(variation.draw).as_str());
    line.append(" ");
    line.append(signed_decimal_text(variation.loss).as_str());
    line.append(" time ");
    line.append(decimal_text(progress.time_ms).as_str());
    line.append(" nps ");
    line.append(progress.nps.as_str());
    line.append(" pv ");
    line.append(join_strings(&variation.pv).as_str());
    line
}

/// Writes the report on a search that has to report `multi_pv` lines of play.
///
/// `best_lines` gives the best lines of play, as many as asked for or fewer, and `main_line`
/// the best one. Lines are numbered from one where more than one was asked for.
pub fn search_info<BestLines, MainLine>(
    multi_pv: usize,
    progress: &Progress,
    best_lines: &BestLines,
    main_line: &MainLine,
) -> (lines: Vec<String>) where
    BestLines: Fn(usize) -> Vec<Variation>,
    MainLine: Fn() -> Variation,

    requires
        multi_pv > 1 ==> call_requires(*best_lines, (multi_pv,)),
        multi_pv <= 1 ==> call_requires(*main_line, ()),
    ensures
        multi_pv > 1 ==> exists|list: Vec<Variation>| #[trigger]
            call_ensures(*best_lines, (multi_pv,), list) && lines@.len() == list@.len() && forall|
                i: int,
            |
                0 <= i < list@.len() ==> (#[trigger] lines@[i])@ == info_text(
                    Some(i + 1),
                    *progress,
                    list@[i],
                ),
        multi_pv <= 1 ==> exists|variation: Variation| #[trigger]
            call_ensures(*main_line, (), variation) && lines@.len() == 1 && lines@[0]@
                == info_text(None, *progress, variation),
{
    let mut lines: Vec<String> = Vec::new();
    if multi_pv > 1 {
        let list = best_lines(multi_pv);
        let mut i: usize = 0;
        while i < list.len()
            invariant
                i <= list@.len(),
                lines@.len() == i,
                forall|k: int|
                    0 <= k < i ==> (#[trigger] lines@[k])@ == info_text(
                        Some(k + 1),
                        *progress,
                        list@[k],
                    ),
            decreases list.len() - i,
        {
            lines.push(info_line(Some(i + 1), progress, &list[i]));
            i = i + 1;
        }
        assert(call_ensures(*best_lines, (multi_pv,), list));
    } else {
        let variation = main_line();
        lines.push(info_line(None, progress, &variation));
        assert(call_ensures(*main_line, (), variation));
    }
    lines
}

/// The line that announces the best move, which is given as text.
pub fn best_move_line(san: &str) -> (line: String)
    ensures
        line@ == "bestmove "@ + san@,
{
    "bestmove ".to_owned().concat(san)
}

/// The time that a search is taken to have run for, in nanoseconds: never less than a
/// microsecond.
pub open spec fn measured_value(elapsed: u128) -> u128 {
    if elapsed < 1_000 {
        1_000
    } else {
        elapsed
    }
}

/// Says what time a search is taken to have run for.
pub fn measured(elapsed: u128) -> (nanos: u128)
    ensures
        nanos == measured_value(elapsed),
{
    if elapsed < 1_000 {
        1_000
    } else {
        elapsed
    }
}

/// The time to report, in whole milliseconds, of a search that has run for `elapsed`
/// nanoseconds with a tree that was searched for `time_offset` nanoseconds before.
pub open spec fn reported_value(time_offset: u128, elapsed: u128) -> int {
    (time_offset + measured_value(elapsed)) / 1_000_000
}

/// Says what time to report of a search.
pub fn reported_millis(time_offset: u128, elapsed: u128) -> (millis: u128)
    requires
        time_offset + measured_value(elapsed) <= MAX_NANOS,
    ensures
        millis == reported_value(time_offset, elapsed),
{
    (time_offset + measured(elapsed)) / 1_000_000
}

/// How many nodes a search has seen, of a tree that had seen `visits_at_start` when it
/// started; none if the tree has seen fewer since.
pub open spec fn nodes_value(total_visits: u32, visits_at_start: u32) -> u32 {
    if total_visits > visits_at_start {
        (total_visits - visits_at_start) as u32
    } else {
        0
    }
}

/// Says how many nodes a search has seen.
pub fn nodes_this_go(total_visits: u32, visits_at_start: u32) -> (nodes: u32)
    ensures
        nodes == nodes_value(total_visits, visits_at_start),
{
    if total_visits > visits_at_start {
        total_visits - visits_at_start
    } else {
        0
    }
}

/// Says how far a search has come, of a tree that has seen `total_visits` nodes, and had seen
/// `visits_at_start` when the search started `elapsed` nanoseconds ago.
///
/// `depth_of` says what depth a number of nodes is worth, and `speed_of` writes how many nodes
/// in a second a number of nodes makes that were searched in a number of nanoseconds.
pub fn search_progress<DepthOf: Fn(u32) -> u64, SpeedOf: Fn(u32, u128) -> String>(
    total_visits: u32,
    visits_at_start: u32,
    time_offset: u128,
    elapsed: u128,
    depth_of: &DepthOf,
    speed_of: &SpeedOf,
) -> (progress: Progress)
    requires
        time_offset + measured_value(elapsed) <= MAX_NANOS,
        call_requires(*depth_of, (total_visits,)),
        call_requires(
            *speed_of,
            (nodes_value(total_visits, visits_at_start), measured_value(elapsed)),
        ),
    ensures
        progress.nodes == total_visits,
        progress.time_ms == reported_value(time_offset, elapsed),
        call_ensures(*depth_of, (total_visits,), progress.depth),
        call_ensures(
            *speed_of,
            (nodes_value(total_visits, visits_at_start), measured_value(elapsed)),
            progress.nps,
        ),
{
    let depth: u64 = depth_of(total_visits);
    let nps = speed_of(nodes_this_go(total_visits, visits_at_start), measured(elapsed));
    Progress { depth, nodes: total_visits, time_ms: reported_millis(time_offset, elapsed), nps }
}

/// The reported time never goes back while a tree is carried over: a report of the next search
/// shows no less than one of this search did, if the next one counts on from the time that this
/// one took in all.
pub proof fn law_reported_time_does_not_go_back(
    time_offset: u128,
    elapsed: u128,
    taken: u128,
    next_offset: u128,
    next_elapsed: u128,
)
    requires
        elapsed <= taken,
        next_offset == time_offset + taken,
    ensures
        reported_value(time_offset, elapsed) <= reported_value(next_offset, next_elapsed),
{
}

} // verus!
