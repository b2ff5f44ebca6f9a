use tiltak_interface::error::TeiError;
use tiltak_interface::go_command::parse_go;
use tiltak_interface::go_command::Clock;
use tiltak_interface::go_command::GoCommand;
use tiltak_interface::go_command::Side;

fn clock(white_time: u64, white_inc: u64, black_time: u64, black_inc: u64) -> Clock {
    Clock { white_time, white_inc, black_time, black_inc }
}

#[test]
fn fixed_times_are_read() {
    assert_eq!(parse_go("go movetime 1500"), Ok(GoCommand::MoveTime(1500)));
    assert_eq!(parse_go("go movetime 0 infinite"), Ok(GoCommand::MoveTime(0)));
    assert_eq!(parse_go("go infinite"), Ok(GoCommand::Infinite));
    assert_eq!(parse_go("go infinite movetime x"), Ok(GoCommand::Infinite));
}

#[test]
fn move_time_is_read_back() {
    for millis in [0, 1, 999, u64::MAX] {
        assert_eq!(parse_go(&format!("go movetime {millis}")), Ok(GoCommand::MoveTime(millis)));
    }
}

#[test]
fn clocks_are_read_back() {
    let line = "go wtime 60000 btime 50000 winc 1000 binc 2000";
    assert_eq!(parse_go(line), Ok(GoCommand::Timed(clock(60000, 1000, 50000, 2000))));
    let line = "go binc 2000 winc 1000 btime 50000 wtime 60000";
    assert_eq!(parse_go(line), Ok(GoCommand::Timed(clock(60000, 1000, 50000, 2000))));
}

#[test]
fn missing_clocks_are_zero_and_other_words_are_passed_over() {
    assert_eq!(parse_go("go wtime 5"), Ok(GoCommand::Timed(clock(5, 0, 0, 0))));
    let line = "go winc 5 movestogo 3 btime 7";
    assert_eq!(parse_go(line), Ok(GoCommand::Timed(clock(0, 5, 7, 0))));
}

#[test]
fn later_clock_words_overrule_earlier_ones() {
    assert_eq!(parse_go("go wtime 5 wtime 6"), Ok(GoCommand::Timed(clock(6, 0, 0, 0))));
}

#[test]
fn go_commands_without_a_mode_are_refused() {
    assert_eq!(parse_go("go"), Err(TeiError::InvalidGo));
    assert_eq!(parse_go("go depth 5"), Err(TeiError::InvalidGo));
    assert_eq!(parse_go("go nodes wtime 5"), Err(TeiError::InvalidGo));
}

#[test]
fn times_that_are_no_numbers_are_refused() {
    assert_eq!(parse_go("go movetime"), Err(TeiError::InvalidMoveTime));
    assert_eq!(parse_go("go movetime soon"), Err(TeiError::InvalidMoveTime));
    assert_eq!(parse_go("go movetime 18446744073709551616"), Err(TeiError::InvalidMoveTime));
    assert_eq!(parse_go("go wtime"), Err(TeiError::IncorrectGo));
    assert_eq!(parse_go("go wtime btime 5"), Err(TeiError::IncorrectGo));
    assert_eq!(parse_go("go wtime 5 binc -1"), Err(TeiError::IncorrectGo));
}

#[test]
fn budget_is_a_fifth_of_the_time_and_half_the_increment() {
    let clock = clock(60_001, 1_001, 11, 3);
    assert_eq!(clock.max_time(Side::White), 12_000_200_000 + 500_500_000);
    assert_eq!(clock.max_time(Side::Black), 2_200_000 + 1_500_000);
}

#[test]
fn budget_of_the_longest_times_is_exact() {
    let clock = clock(u64::MAX, u64::MAX, 0, 0);
    let millis = u64::MAX as u128;
    assert_eq!(clock.max_time(Side::White), millis * 200_000 + millis * 500_000);
    assert_eq!(clock.max_time(Side::Black), 0);
}
