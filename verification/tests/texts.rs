use message_recorder::text::{
    decimal_len, digit, push_decimal, push_zero_padded, replace_terminators, SEPARATOR, TERMINATOR,
};

fn padded(n: usize, width: usize) -> String {
    let mut out = String::new();
    push_zero_padded(&mut out, n, width);
    out
}

#[test]
fn the_two_characters() {
    assert_eq!(TERMINATOR, '\0');
    assert_eq!(SEPARATOR, '|');
}

#[test]
fn digits_are_the_ten_characters() {
    let all: String = (0u8..10).map(digit).collect();
    assert_eq!(all, "0123456789");
}

#[test]
fn decimal_has_no_leading_zeros() {
    for (n, text) in [
        (0usize, "0"),
        (7, "7"),
        (10, "10"),
        (99, "99"),
        (100, "100"),
        (9999, "9999"),
        (10000, "10000"),
        (1234567890, "1234567890"),
    ] {
        let mut out = String::new();
        push_decimal(&mut out, n);
        assert_eq!(out, text);
        assert_eq!(decimal_len(n), text.len());
    }
    let mut out = String::new();
    push_decimal(&mut out, usize::MAX);
    assert_eq!(out, usize::MAX.to_string());
    assert_eq!(decimal_len(usize::MAX), usize::MAX.to_string().len());
}

#[test]
fn push_appends_to_what_is_there() {
    let mut out = String::from("id=");
    push_decimal(&mut out, 42);
    assert_eq!(out, "id=42");
    push_zero_padded(&mut out, 7, 3);
    assert_eq!(out, "id=42007");
}

#[test]
fn padding_fills_up_to_the_width() {
    assert_eq!(padded(0, 4), "0000");
    assert_eq!(padded(6, 4), "0006");
    assert_eq!(padded(42, 4), "0042");
    assert_eq!(padded(999, 4), "0999");
    assert_eq!(padded(1000, 4), "1000");
    assert_eq!(padded(9999, 4), "9999");
    assert_eq!(padded(5, 2), "05");
    assert_eq!(padded(5, 1), "5");
    assert_eq!(padded(5, 0), "5");
    assert_eq!(padded(0, 0), "0");
    assert_eq!(padded(3, 10), "0000000003");
}

#[test]
fn padding_never_cuts_a_long_number() {
    assert_eq!(padded(10000, 4), "10000");
    assert_eq!(padded(123456, 4), "123456");
    assert_eq!(padded(usize::MAX, 4), usize::MAX.to_string());
}

#[test]
fn padding_agrees_with_the_standard_formatter() {
    for n in (0usize..20000).step_by(37) {
        assert_eq!(padded(n, 4), format!("{:04}", n));
    }
}

#[test]
fn terminators_become_separators_in_place() {
    assert_eq!(replace_terminators("A\0B\0"), "A|B|");
    assert_eq!(replace_terminators("C\0"), "C|");
    assert_eq!(replace_terminators(""), "");
    assert_eq!(replace_terminators("\0"), "|");
    assert_eq!(replace_terminators("\0\0\0"), "|||");
    assert_eq!(replace_terminators("no terminator"), "no terminator");
    assert_eq!(replace_terminators("17\u{0}9000\u{0}AAPL\u{0}"), "17|9000|AAPL|");
}

#[test]
fn every_other_character_stays() {
    let message = "pre\0fix é \u{1F600}\0tab\there\0\n";
    let content = replace_terminators(message);
    let before: Vec<char> = message.chars().collect();
    let after: Vec<char> = content.chars().collect();
    assert_eq!(before.len(), after.len());
    let mut terminators = 0;
    for (b, a) in before.iter().zip(after.iter()) {
        if *b == '\0' {
            terminators += 1;
            assert_eq!(*a, '|');
        } else {
            assert_eq!(a, b);
        }
    }
    assert_eq!(terminators, 3);
    assert_eq!(after.iter().filter(|c| **c == '|').count(), 3);
    assert!(!content.contains('\0'));
}

#[test]
fn a_separator_of_the_message_stays_a_separator() {
    let content = replace_terminators("A|B\0");
    assert_eq!(content, "A|B|");
    assert_eq!(content.matches('|').count(), 2);
}

#[test]
fn replacement_agrees_with_the_standard_one() {
    for message in ["", "\0", "a\0b", "||\0||", "x\0\0y\0", "plain"] {
        assert_eq!(replace_terminators(message), message.replace('\0', "|"));
    }
}
