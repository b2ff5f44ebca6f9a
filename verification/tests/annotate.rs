use tiltak_interface::annotate::annotate_ptn;
use tiltak_interface::annotate::replace_threat;
use tiltak_interface::annotate::write_games;
use tiltak_interface::annotate::Annotator;
use tiltak_interface::annotate::Game;
use tiltak_interface::annotate::PtnMove;
use tiltak_interface::annotate::Threat;
use tiltak_interface::size_tag::ApiError;
use tiltak_interface::threat::is_tak;
use tiltak_interface::threat::is_tinue;
use tiltak_interface::threat::ProofResult;
use tiltak_interface::threat::Prover;
use tiltak_interface::threat::Rules;

type Record = Game<u32, u32, String>;

/// A game of numbers: moves are added up, the game is over at 100, and passing adds one. A
/// multiple of ten plus one is won at once, and a multiple of twenty plus one by force, which
/// takes a proof of three nodes.
fn add_move(position: u32, mv: u32) -> u32 {
    position + mv
}

fn over(position: &u32) -> bool {
    *position == 100
}

fn pass(position: u32) -> u32 {
    position + 1
}

fn wins(position: u32) -> bool {
    position % 10 == 1
}

fn new_proof(position: u32) -> (u32, u32) {
    (position, 0)
}

fn select(tree: (u32, u32)) -> (u32, u32) {
    (tree.0, tree.1 + 1)
}

fn outcome(tree: &(u32, u32)) -> Option<ProofResult> {
    if tree.1 < 3 {
        None
    } else if tree.0 % 20 == 1 {
        Some(ProofResult::Proved)
    } else {
        Some(ProofResult::Disproved)
    }
}

/// Reads one game from each line of numbers, with the marks of annotations behind them.
fn parse_ptn(ptn: &str, size: usize) -> Result<Vec<Record>, String> {
    let mut games = Vec::new();
    for line in ptn.lines() {
        if line.starts_with('[') {
            continue;
        }
        let mut moves = Vec::new();
        for word in line.split_whitespace() {
            let number = word.trim_end_matches(['\'', '"', '!', '?']);
            let mv: u32 = number.parse().map_err(|_| format!("no move: {word}"))?;
            let mut annotations = Vec::new();
            for mark in word[number.len()..].chars() {
                annotations.push(match mark {
                    '\'' => "'",
                    '"' => "\"",
                    '!' => "!",
                    _ => "?",
                });
            }
            moves.push(PtnMove { mv, annotations });
        }
        games.push(Game { start_position: 0, moves, source: format!("size {size}:") });
    }
    Ok(games)
}

fn to_ptn(game: &Record) -> Result<Vec<u8>, String> {
    let mut text = game.source.clone();
    for mv in &game.moves {
        if mv.mv == 13 {
            return Err("thirteen cannot be written".to_string());
        }
        text.push_str(&format!(" {}{}", mv.mv, mv.annotations.concat()));
    }
    text.push('\n');
    let mut bytes = text.into_bytes();
    if game.moves.iter().any(|mv| mv.mv == 14) {
        bytes.push(0xff);
    }
    Ok(bytes)
}

fn annotate(ptn: &str, tinue_nodes: Option<u32>) -> Result<String, ApiError> {
    let annotator = Annotator {
        rules: Rules { game_over: over, null_move: pass, has_winning_move: wins },
        prover: Prover { new_proof, select, outcome },
        do_move: add_move,
    };
    annotate_ptn(ptn, tinue_nodes, &annotator, &parse_ptn, &to_ptn)
}

#[test]
fn threats_are_marked() {
    let text = annotate("[Size \"5\"]\n10 10 5 5 10", None);
    assert_eq!(text, Ok("size 5: 10' 10\" 5 5' 10\"\n".to_string()));
}

#[test]
fn too_few_nodes_find_tak_only() {
    let text = annotate("[Size \"6\"]\n10 10", Some(2));
    assert_eq!(text, Ok("size 6: 10' 10'\n".to_string()));
    let text = annotate("[Size \"6\"]\n10 10", Some(3));
    assert_eq!(text, Ok("size 6: 10' 10\"\n".to_string()));
}

#[test]
fn move_that_ends_the_game_makes_no_threat() {
    let text = annotate("[Size \"4\"]\n90 10'", None);
    assert_eq!(text, Ok("size 4: 90' 10\n".to_string()));
}

#[test]
fn marks_are_replaced_and_other_annotations_stay() {
    let text = annotate("[Size \"5\"]\n5'! 5\"? 10!'?\" 3'", None);
    assert_eq!(text, Ok("size 5: 5! 5?' 10!?\" 3\n".to_string()));
}

#[test]
fn annotating_again_changes_nothing() {
    let once = annotate("[Size \"5\"]\n10! 10 5'\n20 1", None).unwrap();
    let body = once.replace("size 5:", "");
    let twice = annotate(&format!("[Size \"5\"]\n{body}"), None).unwrap();
    assert_eq!(once, twice);
}

#[test]
fn all_games_are_written_one_after_the_other() {
    let text = annotate("[Size \"5\"]\n10\n20\n", None);
    assert_eq!(text, Ok("size 5: 10'\nsize 5: 20\"\n".to_string()));
    assert_eq!(annotate("[Size \"5\"]", None), Ok(String::new()));
}

#[test]
fn texts_without_a_supported_size_are_refused() {
    assert_eq!(annotate("10 10", None), Err(ApiError::MissingSizeTag));
    assert_eq!(annotate("[Size \"\"]\n10", None), Err(ApiError::InvalidSizeTag));
    assert_eq!(annotate("[Size \"7\"]\n10", None), Err(ApiError::UnsupportedSize(7)));
    assert_eq!(annotate("[Size \"3\"]\n10", None), Err(ApiError::UnsupportedSize(3)));
}

#[test]
fn unreadable_and_unwritable_games_are_refused() {
    let refused = |reason: &str| Err(ApiError::Refused(reason.to_string()));
    assert_eq!(annotate("[Size \"5\"]\n10 x", None), refused("no move: x"));
    assert_eq!(annotate("[Size \"5\"]\n10\n13", None), refused("thirteen cannot be written"));
}

#[test]
fn games_must_be_written_as_utf8() {
    let text = annotate("[Size \"5\"]\n14", None);
    let bytes = b"size 5: 14\n\xff".to_vec();
    let complaint = String::from_utf8(bytes).unwrap_err().to_string();
    assert_eq!(text, Err(ApiError::Refused(complaint)));
}

#[test]
fn written_texts_keep_their_characters() {
    let to_bytes = |text: &String| -> Result<Vec<u8>, String> { Ok(text.clone().into_bytes()) };
    let games = vec!["größe ".to_string(), "🂡".to_string()];
    assert_eq!(write_games(&games, &to_bytes), Ok("größe 🂡".to_string()));
}

#[test]
fn first_failure_is_reported() {
    let to_bytes = |n: &u8| -> Result<Vec<u8>, String> {
        if *n == 0 {
            Ok(vec![0xc3])
        } else {
            Err(format!("failure {n}"))
        }
    };
    let refused = ApiError::Refused("failure 2".to_string());
    assert_eq!(write_games(&vec![2, 0], &to_bytes), Err(refused));
    let complaint = String::from_utf8(vec![0xc3]).unwrap_err().to_string();
    assert_eq!(write_games(&vec![0, 2], &to_bytes), Err(ApiError::Refused(complaint)));
}

#[test]
fn threat_marks_of_one_move_are_replaced() {
    let annotations = vec!["!", "'", "?", "\""];
    assert_eq!(replace_threat(&annotations, None), vec!["!", "?"]);
    assert_eq!(replace_threat(&annotations, Some(Threat::Tak)), vec!["!", "?", "'"]);
    let twice = replace_threat(
        &replace_threat(&annotations, Some(Threat::Tak)),
        Some(Threat::Tinue),
    );
    assert_eq!(twice, replace_threat(&annotations, Some(Threat::Tinue)));
    assert_eq!(twice, vec!["!", "?", "\""]);
}

#[test]
fn threats_have_their_symbols() {
    assert_eq!(Threat::Tak.symbol(), "'");
    assert_eq!(Threat::Tinue.symbol(), "\"");
}

fn parse_position(tps: &str, _: usize) -> Result<u32, String> {
    tps.parse().map_err(|_| format!("no position: {tps}"))
}

#[test]
fn marks_answer_the_questions() {
    let rules = Rules { game_over: over, null_move: pass, has_winning_move: wins };
    let prover = Prover { new_proof, select, outcome };
    let moves = [10, 10, 5, 5, 60, 10];
    let list: Vec<String> = moves.iter().map(u32::to_string).collect();
    for nodes in [0, 2, 3, 10] {
        let ptn = format!("[Size \"5\"]\n{}", list.join(" "));
        let text = annotate(&ptn, Some(nodes)).unwrap();
        let marked: Vec<&str> = text.split_whitespace().skip(2).collect();
        let mut position = 0;
        for (mv, word) in moves.into_iter().zip(marked) {
            position += mv;
            let tps = position.to_string();
            let tinue = is_tinue(&tps, 5, nodes, &parse_position, &rules, &prover);
            let tak = is_tak(&tps, 5, &parse_position, &rules);
            assert_eq!(word.contains('"'), tinue == Ok(Some(true)));
            assert_eq!(word.contains('\''), tinue != Ok(Some(true)) && tak == Ok(true));
        }
    }
}

#[test]
fn larger_budget_only_adds_tinue_marks() {
    let ptn = "[Size \"5\"]\n10 10 5 5 60 10";
    for nodes in 0..6 {
        let text = annotate(ptn, Some(nodes)).unwrap();
        let more = annotate(ptn, Some(nodes + 1)).unwrap();
        for (word, larger) in text.split_whitespace().zip(more.split_whitespace()) {
            assert!(word == larger || larger.ends_with('"'));
        }
    }
}

#[test]
fn old_marks_do_not_matter() {
    let plain = annotate("[Size \"5\"]\n10! 10 5?", Some(7));
    for body in ["10!' 10' 5?'", "10\"! 10 5?", "10'! 10\"' 5\"?"] {
        assert_eq!(annotate(&format!("[Size \"5\"]\n{body}"), Some(7)), plain);
    }
}

#[test]
fn default_budget_is_five_hundred_nodes() {
    for ptn in [
        "[Size \"5\"]\n10 10 5",
        "[Size \"5\"]\nx",
        "[Size \"9\"]\n10",
        "[Size \"5\"]\n14",
        "",
    ] {
        assert_eq!(annotate(ptn, None), annotate(ptn, Some(500)));
    }
}
