use tiltak_interface::error::TeiError;
use tiltak_interface::protocol::greeting;
use tiltak_interface::protocol::is_handshake;
use tiltak_interface::protocol::parse_command;
use tiltak_interface::protocol::parse_new_game;
use tiltak_interface::protocol::parse_option;
use tiltak_interface::protocol::Command;
use tiltak_interface::protocol::OptionValue;
use tiltak_interface::protocol::WorkerOrders;

const COMMANDS: [(Command, &str); 7] = [
    (Command::Quit, "quit"),
    (Command::Stop, "stop"),
    (Command::IsReady, "isready"),
    (Command::SetOption, "setoption"),
    (Command::NewGame, "teinewgame"),
    (Command::Position, "position"),
    (Command::Go, "go"),
];

#[test]
fn handshake_is_the_word_alone() {
    assert!(is_handshake("tei\n"));
    assert!(is_handshake("  tei\r\n"));
    assert!(!is_handshake("tei ok"));
    assert!(!is_handshake("TEI"));
    assert!(!is_handshake(""));
}

#[test]
fn greeting_names_the_engine_and_its_options() {
    assert_eq!(
        greeting(),
        vec![
            "id name Tiltak",
            "id author Morten Lohne",
            "option name HalfKomi type spin default 0 min -10 max 10",
            "option name MultiPV type spin default 1 min 1 max 8",
            "teiok",
        ]
    );
}

#[test]
fn commands_are_told_by_their_first_word() {
    for (command, word) in COMMANDS {
        assert_eq!(parse_command(word), Ok(command));
        assert_eq!(parse_command(&format!("  {word} and more")), Ok(command));
        for (other, other_word) in COMMANDS {
            assert_eq!(command == other, word == other_word);
        }
    }
}

#[test]
fn other_first_words_are_refused() {
    assert_eq!(parse_command(""), Err(TeiError::EmptyLine));
    assert_eq!(parse_command(" \t"), Err(TeiError::EmptyLine));
    assert_eq!(parse_command("uci now"), Err(TeiError::UnknownCommand("uci".to_string())));
    assert_eq!(parse_command("Quit"), Err(TeiError::UnknownCommand("Quit".to_string())));
}

#[test]
fn commands_treat_a_running_search_each_in_their_way() {
    let ends = WorkerOrders { raise_stop: true, wait: true, lower_stop: false };
    let stops = WorkerOrders { raise_stop: true, wait: true, lower_stop: true };
    let waits = WorkerOrders { raise_stop: false, wait: true, lower_stop: false };
    let leaves = WorkerOrders { raise_stop: false, wait: false, lower_stop: false };
    let expected = [ends, stops, leaves, leaves, waits, waits, waits];
    for ((command, _), orders) in COMMANDS.into_iter().zip(expected) {
        assert_eq!(command.worker_orders(), orders);
    }
}

#[test]
fn stop_flag_comes_down_again() {
    for (command, _) in COMMANDS {
        let orders = command.worker_orders();
        if command != Command::Quit {
            assert_eq!(orders.raise_stop, orders.lower_stop);
        }
        assert!(!orders.raise_stop || orders.wait);
    }
}

#[test]
fn options_are_read() {
    let read = parse_option("setoption name HalfKomi value -4");
    assert_eq!(read, Ok(OptionValue::HalfKomi(-4)));
    let read = parse_option("setoption name MultiPV value 8 more");
    assert_eq!(read, Ok(OptionValue::MultiPv(8)));
    let read = parse_option("setoption  name  MultiPV  value  +1");
    assert_eq!(read, Ok(OptionValue::MultiPv(1)));
}

#[test]
fn malformed_options_are_refused() {
    for line in [
        "setoption",
        "setoption name",
        "setoption name HalfKomi",
        "setoption name halfkomi value 4",
        "setoption HalfKomi name value 4",
        "setoption name HalfKomi = 4",
        "setoption name Hash value 4",
    ] {
        assert_eq!(parse_option(line), Err(TeiError::InvalidSetOption));
    }
}

#[test]
fn option_values_out_of_range_are_refused() {
    for value in ["", "x", "128", "-129", "4.5"] {
        let line = format!("setoption name HalfKomi value {value}");
        assert_eq!(parse_option(&line), Err(TeiError::InvalidKomi));
    }
    for value in ["", "x", "0", "9", "-1"] {
        let line = format!("setoption name MultiPV value {value}");
        assert_eq!(parse_option(&line), Err(TeiError::InvalidMultiPv));
    }
}

#[test]
fn new_games_name_a_playable_size() {
    for size in 4..=7 {
        assert_eq!(parse_new_game(&format!("teinewgame {size}")), Ok(size));
    }
    assert_eq!(parse_new_game("teinewgame 3"), Err(TeiError::UnsupportedSize(3)));
    assert_eq!(parse_new_game("teinewgame 8"), Err(TeiError::UnsupportedSize(8)));
    assert_eq!(parse_new_game("teinewgame"), Err(TeiError::UnsupportedSize(0)));
    assert_eq!(parse_new_game("teinewgame five"), Err(TeiError::UnsupportedSize(0)));
}

#[test]
fn errors_say_what_was_wrong() {
    let line = "some line";
    let text = |error: TeiError| error.message(line);
    assert_eq!(text(TeiError::UnknownCommand("uci".to_string())), "Unknown command \"uci\"");
    assert_eq!(text(TeiError::InvalidSetOption), "Invalid setoption string \"some line\"");
    assert_eq!(text(TeiError::InvalidKomi), "Invalid komi setting \"some line\"");
    assert_eq!(text(TeiError::InvalidMultiPv), "Invalid MultiPV setting \"some line\"");
    assert_eq!(text(TeiError::UnsupportedSize(12)), "Error: Unsupported size 12");
    assert_eq!(
        text(TeiError::PositionBeforeNewGame),
        "Received position without receiving teinewgame string"
    );
    assert_eq!(
        text(TeiError::GoBeforeNewGame),
        "Error: Received go without receiving teinewgame string"
    );
    assert_eq!(text(TeiError::PositionNotSet), "position must be set before go");
    assert_eq!(
        text(TeiError::ExpectedRoot),
        "Expected \"startpos\" or \"tps\" to specify position."
    );
    assert_eq!(
        text(TeiError::ExpectedMoves("move".to_string())),
        "Expected \"moves\" in \"some line\", got \"move\"."
    );
    assert_eq!(text(TeiError::InvalidGo), "Invalid go command \"some line\"");
    assert_eq!(text(TeiError::IncorrectGo), "Incorrect go command some line");
    assert_eq!(text(TeiError::InvalidMoveTime), "Invalid movetime in \"some line\"");
    assert_eq!(text(TeiError::InvalidTps("no".to_string())), "Invalid TPS: no");
    assert_eq!(text(TeiError::InvalidMove("no".to_string())), "Invalid move: no");
    assert_eq!(text(TeiError::EmptyLine), "Empty command");
    assert_eq!(text(TeiError::RoundsSpent), "Search rounds spent");
}
