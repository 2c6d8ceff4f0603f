use tictactoe::Coordinates;

#[test]
fn parses_letter_and_digits_with_surrounding_whitespace() {
    let c = Coordinates::from_user_input(" a 1 ").unwrap();
    assert_eq!(c.column, 'A');
    assert_eq!(c.row, 1);
}

#[test]
fn parses_plain_address() {
    let c = Coordinates::from_user_input("B3").unwrap();
    assert_eq!(c.column, 'B');
    assert_eq!(c.row, 3);
}

#[test]
fn parses_lower_case_letter_to_upper_case() {
    let c = Coordinates::from_user_input("h8\n").unwrap();
    assert_eq!(c.column, 'H');
    assert_eq!(c.row, 8);
}

#[test]
fn parses_punctuation_as_filler() {
    let c = Coordinates::from_user_input("-c;7/").unwrap();
    assert_eq!(c.column, 'C');
    assert_eq!(c.row, 7);
}

#[test]
fn parses_multi_digit_row() {
    let c = Coordinates::from_user_input("A 12").unwrap();
    assert_eq!(c.column, 'A');
    assert_eq!(c.row, 12);
}

#[test]
fn parses_row_zero() {
    let c = Coordinates::from_user_input("A0").unwrap();
    assert_eq!(c.column, 'A');
    assert_eq!(c.row, 0);
}

#[test]
fn rejects_digits_without_letter() {
    let e = Coordinates::from_user_input("12").unwrap_err();
    assert_eq!(e.input, "12");
}

#[test]
fn rejects_letters_without_digits() {
    let e = Coordinates::from_user_input("AB").unwrap_err();
    assert_eq!(e.input, "AB");
}

#[test]
fn rejects_digits_split_by_whitespace() {
    assert!(Coordinates::from_user_input("A 1 2").is_err());
}

#[test]
fn rejects_empty_and_filler_only_input() {
    assert!(Coordinates::from_user_input("").is_err());
    assert!(Coordinates::from_user_input(" .,; ").is_err());
}

#[test]
fn rejects_number_too_large_for_a_row() {
    assert!(Coordinates::from_user_input("A99999999999999999999999999").is_err());
}

#[test]
fn rejects_non_ascii_letter() {
    assert!(Coordinates::from_user_input("é1").is_err());
}

#[test]
fn parse_error_carries_trimmed_input() {
    let e = Coordinates::from_user_input("  A B  ").unwrap_err();
    assert_eq!(e.input, "A B");
    let e = Coordinates::from_user_input("\t12 \n").unwrap_err();
    assert_eq!(e.input, "12");
}

#[test]
fn rejects_text_after_the_digits() {
    assert!(Coordinates::from_user_input("A1B").is_err());
}

#[test]
fn rejects_number_before_letter() {
    assert!(Coordinates::from_user_input("1A").is_err());
}

#[test]
fn leading_zeroes_are_part_of_the_number() {
    let c = Coordinates::from_user_input("a01").unwrap();
    assert_eq!(c.column, 'A');
    assert_eq!(c.row, 1);
}
