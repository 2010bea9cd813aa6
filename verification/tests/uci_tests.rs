use nullptrbot::ucigocommand::{parse_i32, str_eq, UCIGoCommand};

fn tokens(line: &str) -> Vec<String> {
    line.split_whitespace().map(|t| t.to_string()).collect()
}

#[test]
fn clock_parameters_are_parsed() {
    let cmd = UCIGoCommand::new(&tokens("go wtime 300000 btime 299000 winc 2000 binc 1000"));
    assert_eq!(cmd.wtime, Some(300000));
    assert_eq!(cmd.btime, Some(299000));
    assert_eq!(cmd.winc, Some(2000));
    assert_eq!(cmd.binc, Some(1000));
    assert_eq!(cmd.movetime, None);
    assert_eq!(cmd.infinite, None);
}

#[test]
fn movetime_depth_and_flags_are_parsed() {
    let cmd = UCIGoCommand::new(&tokens("go movetime 200 depth 6 ponder infinite"));
    assert_eq!(cmd.movetime, Some(200));
    assert_eq!(cmd.depth, Some(6));
    assert_eq!(cmd.ponder, Some(true));
    assert_eq!(cmd.infinite, Some(true));
}

#[test]
fn a_bad_number_reads_as_absent() {
    let cmd = UCIGoCommand::new(&tokens("go wtime soon btime 1000"));
    assert_eq!(cmd.wtime, None);
    assert_eq!(cmd.btime, Some(1000));
}

#[test]
fn a_keyword_without_its_number_is_skipped() {
    let cmd = UCIGoCommand::new(&tokens("go movetime"));
    assert_eq!(cmd.movetime, None);
}

#[test]
fn unknown_words_are_ignored() {
    let cmd = UCIGoCommand::new(&tokens("go searchmoves e2e4 movetime 50"));
    assert_eq!(cmd.movetime, Some(50));
}

#[test]
fn numbers_parse_exactly_as_std_does() {
    for s in ["123", "-123", "+5", "0", "-2147483648", "2147483647", "2147483648",
        "-2147483649", "", "abc", "12a", "-", "+", " 1"] {
        assert_eq!(parse_i32(s), s.parse::<i32>().ok(), "token {:?}", s);
    }
}

#[test]
fn string_equality_compares_contents() {
    assert!(str_eq("wtime", "wtime"));
    assert!(!str_eq("wtime", "btime"));
    assert!(!str_eq("wtime", "wtim"));
    assert!(str_eq("", ""));
}
