use tiltak_interface::error::TeiError;
use tiltak_interface::position_string::PositionCalls;
use tiltak_interface::search_position::SearchPosition;

/// A position is the text of all that led to it.
fn start(size: usize, komi: i8) -> String {
    format!("start {size} {komi}")
}

fn from_tps(tps: &str, size: usize, komi: i8) -> Result<String, String> {
    if tps.starts_with('x') {
        Ok(format!("[{tps}] {size} {komi}"))
    } else {
        Err(format!("no tps: {tps}"))
    }
}

/// A move is a number; `end` is the length of the position that it is read in.
fn from_san(position: &String, san: &str) -> Result<usize, String> {
    if san == "end" {
        return Ok(position.len());
    }
    san.parse().map_err(|_| format!("no move in {position}: {san}"))
}

fn add_move(position: String, mv: usize) -> String {
    format!("{position} {mv}")
}

fn read(line: &str) -> Result<(String, Vec<usize>), TeiError> {
    let calls = PositionCalls {
        start_position: start,
        from_tps,
        move_from_san: from_san,
        do_move: add_move,
    };
    let read: Result<SearchPosition<String, usize>, TeiError> =
        calls.parse_position_string(line, 6, 4);
    read.map(|position| (position.root_position, position.moves))
}

fn at(root_position: &str, moves: &[usize]) -> SearchPosition<String, usize> {
    SearchPosition { root_position: root_position.to_string(), moves: moves.to_vec() }
}

#[test]
fn start_position_is_read() {
    assert_eq!(read("position startpos"), Ok(("start 6 4".to_string(), vec![])));
    assert_eq!(read("position startpos moves"), Ok(("start 6 4".to_string(), vec![])));
}

#[test]
fn moves_are_read_where_they_are_played() {
    assert_eq!(
        read("position startpos moves 1 end 23 end"),
        Ok(("start 6 4".to_string(), vec![1, 11, 23, 17]))
    );
}

#[test]
fn tps_is_made_of_three_words() {
    assert_eq!(
        read("position tps x6/x6   1 2 moves 3"),
        Ok(("[x6/x6 1 2] 6 4".to_string(), vec![3]))
    );
    assert_eq!(read("position tps x6 1 2"), Ok(("[x6 1 2] 6 4".to_string(), vec![])));
    assert_eq!(read("position tps x6 moves"), Ok(("[x6 moves] 6 4".to_string(), vec![])));
}

#[test]
fn unknown_roots_are_refused() {
    assert_eq!(read("position"), Err(TeiError::ExpectedRoot));
    assert_eq!(read("position fen x6 1 2"), Err(TeiError::ExpectedRoot));
    assert_eq!(read(""), Err(TeiError::ExpectedRoot));
}

#[test]
fn refused_tps_is_reported() {
    assert_eq!(read("position tps"), Err(TeiError::InvalidTps("no tps: ".to_string())));
    let reason = "no tps: y 1 2".to_string();
    assert_eq!(read("position tps y 1 2 moves 1"), Err(TeiError::InvalidTps(reason)));
}

#[test]
fn other_words_than_moves_are_refused() {
    let error = TeiError::ExpectedMoves("move".to_string());
    assert_eq!(read("position startpos move 1"), Err(error));
    let error = TeiError::ExpectedMoves("3".to_string());
    assert_eq!(read("position tps x6 1 2 3 moves 1"), Err(error));
}

#[test]
fn refused_move_is_reported_where_it_was_read() {
    let error = TeiError::InvalidMove("no move in start 6 4 1 2: a1".to_string());
    assert_eq!(read("position startpos moves 1 2 a1 b2"), Err(error));
}

#[test]
fn moves_lead_to_a_position() {
    assert_eq!(at("r", &[]).position(&add_move), "r");
    assert_eq!(at("r", &[1, 2, 3]).position(&add_move), "r 1 2 3");
}

#[test]
fn difference_is_the_moves_played_since() {
    let later = at("r", &[1, 2, 3]);
    assert_eq!(at("r", &[]).move_difference(&later), Some(&[1, 2, 3][..]));
    assert_eq!(at("r", &[1]).move_difference(&later), Some(&[2, 3][..]));
    assert_eq!(later.move_difference(&later), Some(&[][..]));
}

#[test]
fn other_lines_have_no_difference() {
    let later = at("r", &[1, 2, 3]);
    assert_eq!(at("s", &[1]).move_difference(&later), None);
    assert_eq!(at("r", &[2]).move_difference(&later), None);
    assert_eq!(at("r", &[1, 3]).move_difference(&later), None);
    assert_eq!(at("r", &[1, 2, 3, 4]).move_difference(&later), None);
}

#[test]
fn differences_add_up() {
    let (a, b, c) = (at("r", &[1]), at("r", &[1, 2]), at("r", &[1, 2, 3, 4]));
    let mut sum = a.move_difference(&b).unwrap().to_vec();
    sum.extend(b.move_difference(&c).unwrap());
    assert_eq!(a.move_difference(&c), Some(&sum[..]));
}

#[test]
fn difference_leads_to_the_later_position() {
    let (earlier, later) = (at("r", &[7, 8]), at("r", &[7, 8, 9, 10]));
    let mut position = earlier.position(&add_move);
    for mv in earlier.move_difference(&later).unwrap() {
        position = add_move(position, *mv);
    }
    assert_eq!(position, later.position(&add_move));
}

#[test]
fn longer_line_continues_the_shorter() {
    for (line, more) in [
        ("position startpos", "moves 1 2"),
        ("position startpos moves", "3"),
        ("position startpos moves 1 end", "end 2"),
        ("position tps x6 1 2", "moves end"),
        ("position tps x6 1 2 moves 4", "5 6"),
    ] {
        let (earlier_root, earlier_moves) = read(line).unwrap();
        let (later_root, later_moves) = read(&format!("{line} {more}")).unwrap();
        let later = at(&later_root, &later_moves);
        let since = at(&earlier_root, &earlier_moves).move_difference(&later).map(<[_]>::to_vec);
        assert_eq!(since, Some(later_moves[earlier_moves.len()..].to_vec()));
    }
}

#[test]
fn copies_are_alike() {
    let position = at("r", &[1, 2]);
    let copy = position.clone();
    assert_eq!(copy.root_position, position.root_position);
    assert_eq!(copy.moves, position.moves);
}

#[test]
fn white_space_and_the_first_word_make_no_difference() {
    let plain = read("position tps x6 1 2 moves 3 end").unwrap();
    for line in [
        "  position   tps\tx6 1 2 moves 3 end  ",
        "pos tps x6 1 2 moves 3 end",
        "position tps x6\u{a0}1 2\r\nmoves 3 end",
    ] {
        assert_eq!(read(line), Ok(plain.clone()));
    }
}

#[test]
fn empty_move_list_makes_no_difference() {
    for line in ["position startpos", "position tps x6 1 2"] {
        assert_eq!(read(&format!("{line} moves")), read(line));
    }
}

#[test]
fn added_word_adds_its_move() {
    for line in ["position startpos moves", "position tps x6 1 2 moves 5 end"] {
        for word in ["17", "end"] {
            let (root, moves) = read(line).unwrap();
            let here = at(&root, &moves).position(&add_move);
            let mv = from_san(&here, word).unwrap();
            let (longer_root, longer_moves) = read(&format!("{line} {word}")).unwrap();
            assert_eq!(longer_root, root);
            assert_eq!(longer_moves, [moves.clone(), vec![mv]].concat());
            let longer = at(&longer_root, &longer_moves);
            assert_eq!(at(&root, &moves).move_difference(&longer), Some(&[mv][..]));
        }
    }
}

#[test]
fn position_is_the_same_each_time() {
    let position = at("r", &[1, 2]);
    assert_eq!(position.position(&add_move), position.position(&add_move));
    assert_eq!(at("r", &[]).position(&add_move), "r");
}
