//! Tests of the field normalizers: comma-splitting, duration formatting,
//! player-count and shot-code parsing.

use padel_sessions::parser::{
    process_duration, process_golpe, process_num_jugadores, split_to_vec,
};

#[test]
fn split_csv_trims_each_piece() {
    assert_eq!(split_to_vec("a, b ,c"), vec!["a", "b", "c"]);
}

#[test]
fn split_csv_empty_input_gives_one_empty_piece() {
    assert_eq!(split_to_vec(""), vec![""]);
}

#[test]
fn split_csv_keeps_empty_pieces() {
    assert_eq!(split_to_vec("a,,b,"), vec!["a", "", "b", ""]);
}

#[test]
fn split_csv_single_token() {
    assert_eq!(split_to_vec("  hello  "), vec!["hello"]);
}

#[test]
fn split_csv_trims_unicode_whitespace() {
    assert_eq!(split_to_vec("a\u{a0},\u{2003}b\u{3000}"), vec!["a", "b"]);
}

#[test]
fn duration_with_parenthesized_sub_part() {
    assert_eq!(process_duration("10'(5'/pair)"), "10m - 5m/pair");
}

#[test]
fn duration_without_parentheses() {
    assert_eq!(process_duration(" 10' "), "10m");
}

#[test]
fn duration_strips_newlines() {
    assert_eq!(process_duration("10'\n(5'/pair)\n"), "10m - 5m/pair");
}

#[test]
fn duration_with_one_parenthesis_falls_back() {
    assert_eq!(process_duration("10'(5'"), "10m(5m");
}

#[test]
fn duration_with_three_parentheses_falls_back() {
    assert_eq!(process_duration("a(b)c(d"), "a(b)c(d");
}

#[test]
fn player_counts_drop_unparseable_tokens() {
    let tokens = vec![
        "4 PLAYERS".to_string(),
        "X".to_string(),
        "2".to_string(),
    ];
    assert_eq!(process_num_jugadores(tokens), vec![4, 2]);
}

#[test]
fn player_counts_empty_input() {
    assert_eq!(process_num_jugadores(Vec::new()), Vec::<i32>::new());
}

#[test]
fn shot_code_reads_leading_number() {
    assert_eq!(process_golpe("3 FOREHAND"), Some(3));
}

#[test]
fn shot_code_unparseable_gives_nothing() {
    assert_eq!(process_golpe("N/A"), None);
}

#[test]
fn shot_code_skips_leading_whitespace() {
    assert_eq!(process_golpe("  -12 BACKHAND"), Some(-12));
}

#[test]
fn shot_code_plus_sign_and_leading_zeros() {
    assert_eq!(process_golpe("+007"), Some(7));
}

#[test]
fn shot_code_empty_and_blank() {
    assert_eq!(process_golpe(""), None);
    assert_eq!(process_golpe("   "), None);
}

#[test]
fn shot_code_extreme_values() {
    assert_eq!(process_golpe("2147483647"), Some(i32::MAX));
    assert_eq!(process_golpe("-2147483648"), Some(i32::MIN));
    assert_eq!(process_golpe("2147483648"), None);
    assert_eq!(process_golpe("-2147483649"), None);
    assert_eq!(process_golpe("99999999999999999999 x"), None);
}

#[test]
fn shot_code_sign_alone_gives_nothing() {
    assert_eq!(process_golpe("-"), None);
    assert_eq!(process_golpe("+ 3"), None);
}
