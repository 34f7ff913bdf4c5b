use cube_timer::seq_gen::shuffler;
use cube_timer::shuffle::{parse_length, LengthError, Shuffle};

fn axis(turn: &str) -> u8 {
    match turn.chars().next() {
        Some('R') | Some('L') => 0,
        Some('F') | Some('B') => 1,
        Some('U') | Some('D') => 2,
        _ => panic!("not a turn: {}", turn),
    }
}

const TURNS: [&str; 12] = ["R", "R'", "L", "L'", "F", "F'", "B", "B'", "U", "U'", "D", "D'"];

#[test]
fn scramble_of_zero_is_empty() {
    assert!(shuffler(0).is_empty());
}

#[test]
fn scramble_has_length_and_alternates_axes() {
    for n in [1u64, 2, 25, 200] {
        for _ in 0..20 {
            let s = shuffler(n);
            assert_eq!(s.len() as u64, n);
            for t in &s {
                assert!(TURNS.contains(&t.as_str()));
            }
            for w in s.windows(2) {
                assert_ne!(axis(&w[0]), axis(&w[1]));
            }
        }
    }
}

#[test]
fn scramble_uses_every_turn() {
    let s = shuffler(2_000);
    for t in TURNS {
        assert!(s.iter().any(|x| x == t));
    }
}

#[test]
fn length_parsing() {
    assert_eq!(parse_length("25"), Ok(25));
    assert_eq!(parse_length("+7"), Ok(7));
    assert_eq!(parse_length("007"), Ok(7));
    assert_eq!(parse_length("18446744073709551615"), Ok(u64::MAX));
    assert_eq!(parse_length(""), Err(LengthError::Empty));
    assert_eq!(parse_length("+"), Err(LengthError::InvalidDigit));
    assert_eq!(parse_length("-"), Err(LengthError::InvalidDigit));
    assert_eq!(parse_length("-1"), Err(LengthError::InvalidDigit));
    assert_eq!(parse_length("12a"), Err(LengthError::InvalidDigit));
    assert_eq!(parse_length(" 12"), Err(LengthError::InvalidDigit));
    assert_eq!(parse_length("18446744073709551616"), Err(LengthError::Overflow));
    assert_eq!(parse_length("99999999999999999999x"), Err(LengthError::Overflow));
}

#[test]
fn length_parsing_matches_std() {
    for s in ["0", "42", "+3", "-3", "+", "-", "", "1e3", "18446744073709551616", "٣"] {
        let ours = parse_length(s);
        match s.parse::<u64>() {
            Ok(v) => assert_eq!(ours, Ok(v)),
            Err(e) => {
                let msg = format!("Invalid input: {}", e);
                assert_eq!(ours.map_err(|x| x.message()), Err(msg));
            }
        }
    }
}

#[test]
fn typed_length_regenerates() {
    let mut sh = Shuffle::new(25);
    assert_eq!(sh.sequence.len(), 25);
    assert_eq!(sh.generate_shuffle("10"), Some(10));
    assert_eq!(sh.length, 10);
    assert_eq!(sh.sequence.len(), 10);
    assert!(sh.error.is_empty());
}

#[test]
fn empty_length_keeps_configured_length() {
    let mut sh = Shuffle::new(12);
    assert_eq!(sh.generate_shuffle(""), None);
    assert_eq!(sh.length, 12);
    assert_eq!(sh.sequence.len(), 12);
}

#[test]
fn invalid_length_keeps_scramble_and_shows_error() {
    let mut sh = Shuffle::new(8);
    let before = sh.sequence.clone();
    assert_eq!(sh.generate_shuffle("abc"), None);
    assert_eq!(sh.length, 8);
    assert_eq!(sh.sequence, before);
    assert_eq!(sh.error, "Invalid input: invalid digit found in string");
    assert_eq!(sh.generate_shuffle("99999999999999999999"), None);
    assert_eq!(sh.error, "Invalid input: number too large to fit in target type");
    assert_eq!(sh.generate_shuffle("3"), Some(3));
    assert!(sh.error.is_empty());
}
