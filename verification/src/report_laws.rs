//! What the reports on a search say, word by word.

use vstd::prelude::*;

use crate::number::decimal;
use crate::number::signed_decimal;
use crate::report::info_text;
use crate::report::measured_value;
use crate::report::nodes_value;
use crate::report::reported_value;
use crate::report::string_views;
use crate::report::Progress;
use crate::report::Variation;
use crate::text::joined;
use crate::text_laws::law_joining_puts_single_spaces;

verus! {

/// The time that is reported is the time before and the time of this search together, in whole
/// milliseconds, where a search counts for at least a microsecond.
pub proof fn law_reported_time_is_all_the_time(time_offset: u128, elapsed: u128)
    ensures
        elapsed >= 1_000 ==> measured_value(elapsed) == elapsed,
        elapsed < 1_000 ==> measured_value(elapsed) == 1_000,
        elapsed >= 1_000 ==> 1_000_000 * reported_value(time_offset, elapsed) <= time_offset + elapsed
            < 1_000_000 * reported_value(time_offset, elapsed) + 1_000_000,
        elapsed < 1_000 ==> 1_000_000 * reported_value(time_offset, elapsed) <= time_offset + 1_000
            < 1_000_000 * reported_value(time_offset, elapsed) + 1_000_000,
{
}

/// The nodes of a search and those that the tree had seen before make up all of them, and there are
/// none if the tree has seen fewer since.
pub proof fn law_nodes_of_a_search_are_the_new_ones(total_visits: u32, visits_at_start: u32)
    ensures
        total_visits >= visits_at_start ==> nodes_value(total_visits, visits_at_start)
            + visits_at_start == total_visits,
        total_visits < visits_at_start ==> nodes_value(total_visits, visits_at_start) == 0,
{
}

/// Joining two lists puts one space between them.
proof fn lemma_joined_lists(a: Seq<Seq<char>>, b: Seq<Seq<char>>)
    requires
        a.len() > 0,
        b.len() > 0,
    ensures
        joined(a + b) == joined(a) + seq![' '] + joined(b),
    decreases b.len(),
{
    let last = b.last();
    if b.len() == 1 {
        assert(a + b =~= a.push(last));
        law_joining_puts_single_spaces(a, last);
    } else {
        let front = b.drop_last();
        lemma_joined_lists(a, front);
        assert((a + b).drop_last() =~= a + front);
        assert((a + b).last() == last);
        assert(joined(a) + seq![' '] + (joined(front) + seq![' '] + last) =~= joined(a) + seq![' ']
            + joined(front) + seq![' '] + last);
    }
}

/// A label between spaces, and a value behind it, add two words.
proof fn lemma_field(
    list: Seq<Seq<char>>,
    gap: Seq<char>,
    label: Seq<char>,
    value: Seq<char>,
)
    requires
        list.len() > 0,
        gap == seq![' '] + label + seq![' '],
    ensures
        joined(list) + gap + value == joined(list + seq![label, value]),
{
    law_joining_puts_single_spaces(list, label);
    law_joining_puts_single_spaces(list.push(label), value);
    assert(list + seq![label, value] =~= list.push(label).push(value));
    assert(joined(list) + gap + value =~= joined(list) + seq![' '] + label + seq![' '] + value);
}

/// The front of a report, up to the depth.
proof fn lemma_report_front(number: Option<int>, depth: Seq<char>)
    ensures
        "info "@ + (match number {
            Some(n) => "multipv "@ + decimal(n as nat) + " "@,
            None => Seq::empty(),
        }) + "depth "@ + depth == joined(
            (match number {
                Some(n) => seq!["info"@, "multipv"@, decimal(n as nat)],
                None => seq!["info"@],
            }) + seq!["depth"@, depth],
        ),
{
    reveal_strlit("info ");
    reveal_strlit("info");
    reveal_strlit("multipv ");
    reveal_strlit("multipv");
    reveal_strlit(" ");
    reveal_strlit("depth ");
    reveal_strlit("depth");
    assert("info "@ =~= "info"@ + seq![' ']);
    assert("multipv "@ =~= "multipv"@ + seq![' ']);
    assert(" "@ =~= seq![' ']);
    assert("depth "@ =~= "depth"@ + seq![' ']);
    let gap = seq![' '] + "depth"@ + seq![' '];
    let info = seq!["info"@];
    law_joining_puts_single_spaces(info, "info"@);
    match number {
        None => {
            lemma_field(info, gap, "depth"@, depth);
            assert("info "@ + Seq::<char>::empty() + "depth "@ + depth =~= "info"@ + gap + depth);
        },
        Some(n) => {
            let value = decimal(n as nat);
            let multi = seq![' '] + "multipv"@ + seq![' '];
            lemma_field(info, multi, "multipv"@, value);
            let list = info + seq!["multipv"@, value];
            assert(list =~= seq!["info"@, "multipv"@, value]);
            lemma_field(list, gap, "depth"@, depth);
            assert("info "@ + ("multipv "@ + value + " "@) + "depth "@ + depth =~= "info"@ + multi
                + value + gap + depth);
        },
    }
}

proof fn lemma_report_counts(
    list: Seq<Seq<char>>,
    seldepth: Seq<char>,
    nodes: Seq<char>,
    cp: Seq<char>,
)
    requires
        list.len() > 0,
    ensures
        joined(list) + " seldepth "@ + seldepth + " nodes "@ + nodes + " score cp "@ + cp == joined(
            list + seq!["seldepth"@, seldepth, "nodes"@, nodes, "score"@, "cp"@, cp],
        ),
{
    reveal_strlit(" seldepth ");
    reveal_strlit("seldepth");
    assert(" seldepth "@ =~= seq![' '] + "seldepth"@ + seq![' ']);
    reveal_strlit(" nodes ");
    reveal_strlit("nodes");
    assert(" nodes "@ =~= seq![' '] + "nodes"@ + seq![' ']);
    reveal_strlit(" score cp ");
    reveal_strlit("score");
    reveal_strlit("cp");
    assert(" score cp "@ =~= seq![' '] + "score"@ + seq![' '] + "cp"@ + seq![' ']);
    let l1 = list + seq!["seldepth"@, seldepth];
    lemma_field(list, " seldepth "@, "seldepth"@, seldepth);
    let l2 = l1 + seq!["nodes"@, nodes];
    lemma_field(l1, " nodes "@, "nodes"@, nodes);
    let gap = seq![' '] + "score"@ + seq![' '];
    let l3 = l2 + seq!["score"@, "cp"@];
    lemma_field(l2, gap, "score"@, "cp"@);
    law_joining_puts_single_spaces(l3, cp);
    assert(joined(l2) + " score cp "@ + cp =~= joined(l2) + gap + "cp"@ + seq![' '] + cp);
    assert(l3.push(cp) =~= list + seq![
        "seldepth"@,
        seldepth,
        "nodes"@,
        nodes,
        "score"@,
        "cp"@,
        cp,
    ]);
}

proof fn lemma_report_chances(
    list: Seq<Seq<char>>,
    win: Seq<char>,
    draw: Seq<char>,
    loss: Seq<char>,
)
    requires
        list.len() > 0,
    ensures
        joined(list) + " wdl "@ + win + " "@ + draw + " "@ + loss == joined(
            list + seq!["wdl"@, win, draw, loss],
        ),
{
    reveal_strlit(" wdl ");
    reveal_strlit("wdl");
    assert(" wdl "@ =~= seq![' '] + "wdl"@ + seq![' ']);
    reveal_strlit(" ");
    assert(" "@ =~= seq![' ']);
    let l1 = list + seq!["wdl"@, win];
    lemma_field(list, " wdl "@, "wdl"@, win);
    law_joining_puts_single_spaces(l1, draw);
    law_joining_puts_single_spaces(l1.push(draw), loss);
    assert(l1.push(draw).push(loss) =~= list + seq!["wdl"@, win, draw, loss]);
}

proof fn lemma_report_back(list: Seq<Seq<char>>, time: Seq<char>, nps: Seq<char>)
    requires
        list.len() > 0,
    ensures
        joined(list) + " time "@ + time + " nps "@ + nps + " pv "@ == joined(
            list + seq!["time"@, time, "nps"@, nps, "pv"@],
        ) + seq![' '],
{
    reveal_strlit(" time ");
    reveal_strlit("time");
    assert(" time "@ =~= seq![' '] + "time"@ + seq![' ']);
    reveal_strlit(" nps ");
    reveal_strlit("nps");
    assert(" nps "@ =~= seq![' '] + "nps"@ + seq![' ']);
    reveal_strlit(" pv ");
    reveal_strlit("pv");
    assert(" pv "@ =~= seq![' '] + "pv"@ + seq![' ']);
    let l1 = list + seq!["time"@, time];
    lemma_field(list, " time "@, "time"@, time);
    let l2 = l1 + seq!["nps"@, nps];
    lemma_field(l1, " nps "@, "nps"@, nps);
    law_joining_puts_single_spaces(l2, "pv"@);
    assert(joined(l2) + " pv "@ =~= joined(l2) + seq![' '] + "pv"@ + seq![' ']);
    assert(l2.push("pv"@) =~= list + seq!["time"@, time, "nps"@, nps, "pv"@]);
}

/// A report names each of its numbers and gives it in decimal notation, in a fixed order, and ends
/// with the moves of the line of play. There is one space between neighbours, and one behind the
/// last label where there are no moves.
pub proof fn law_report_names_its_numbers(
    number: Option<int>,
    progress: Progress,
    variation: Variation,
)
    ensures
        ({
            let labelled = (match number {
                Some(n) => seq!["info"@, "multipv"@, decimal(n as nat)],
                None => seq!["info"@],
            }) + seq![
                "depth"@,
                decimal(progress.depth as nat),
                "seldepth"@,
                decimal(variation.pv@.len()),
                "nodes"@,
                decimal(progress.nodes as nat),
                "score"@,
                "cp"@,
                signed_decimal(variation.score_cp as int),
                "wdl"@,
                signed_decimal(variation.win as int),
                signed_decimal(variation.draw as int),
                signed_decimal(variation.loss as int),
                "time"@,
                decimal(progress.time_ms as nat),
                "nps"@,
                progress.nps@,
                "pv"@,
            ];
            let moves = variation.pv@.map_values(|mv: String| mv@);
            &&& variation.pv@.len() > 0 ==> info_text(number, progress, variation) == joined(
                labelled + moves,
            )
            &&& variation.pv@.len() == 0 ==> info_text(number, progress, variation) == joined(
                labelled,
            ) + seq![' ']
        }),
{
    let front: Seq<Seq<char>> = match number {
        Some(n) => seq!["info"@, "multipv"@, decimal(n as nat)],
        None => seq!["info"@],
    };
    let depth = decimal(progress.depth as nat);
    let seldepth = decimal(variation.pv@.len());
    let nodes = decimal(progress.nodes as nat);
    let cp = signed_decimal(variation.score_cp as int);
    let win = signed_decimal(variation.win as int);
    let draw = signed_decimal(variation.draw as int);
    let loss = signed_decimal(variation.loss as int);
    let time = decimal(progress.time_ms as nat);
    let nps = progress.nps@;
    let moves = string_views(variation.pv@);
    let l0 = front + seq!["depth"@, depth];
    lemma_report_front(number, depth);
    let l3 = l0 + seq!["seldepth"@, seldepth, "nodes"@, nodes, "score"@, "cp"@, cp];
    lemma_report_counts(l0, seldepth, nodes, cp);
    let l6 = l3 + seq!["wdl"@, win, draw, loss];
    lemma_report_chances(l3, win, draw, loss);
    let l8 = l6 + seq!["time"@, time, "nps"@, nps, "pv"@];
    lemma_report_back(l6, time, nps);
    assert(info_text(number, progress, variation) == joined(l8) + seq![' '] + joined(moves));
    let labelled = front + seq![
        "depth"@,
        decimal(progress.depth as nat),
        "seldepth"@,
        decimal(variation.pv@.len()),
        "nodes"@,
        decimal(progress.nodes as nat),
        "score"@,
        "cp"@,
        signed_decimal(variation.score_cp as int),
        "wdl"@,
        signed_decimal(variation.win as int),
        signed_decimal(variation.draw as int),
        signed_decimal(variation.loss as int),
        "time"@,
        decimal(progress.time_ms as nat),
        "nps"@,
        progress.nps@,
        "pv"@,
    ];
    assert(l8 =~= labelled);
    assert(moves =~= variation.pv@.map_values(|mv: String| mv@));
    if variation.pv@.len() > 0 {
        lemma_joined_lists(l8, moves);
    } else {
        assert(joined(moves) =~= Seq::empty());
        assert(joined(l8) + seq![' '] + joined(moves) =~= joined(l8) + seq![' ']);
    }
}

} // verus!
