use graph_reader::extract::{next_usize, next_val, parse_usize, typed_result, IntError, ReadError};
use graph_reader::tokens::{whitespace_split, SourceEnd, WhitespaceSplit};
use std::collections::VecDeque;
use std::num::IntErrorKind;

fn stream(text: &str, end: SourceEnd) -> WhitespaceSplit {
    let lines: VecDeque<String> = text.lines().map(String::from).collect();
    whitespace_split(lines, end)
}

fn float(token: &str) -> Result<f32, String> {
    token.parse::<f32>().map_err(|e| e.to_string())
}

fn malformed(token: &str, diagnostic: &str) -> ReadError {
    ReadError::Malformed { token: token.to_string(), diagnostic: diagnostic.to_string() }
}

#[test]
fn parse_usize_reads_decimal_numbers() {
    assert_eq!(parse_usize("0"), Ok(0));
    assert_eq!(parse_usize("7"), Ok(7));
    assert_eq!(parse_usize("42"), Ok(42));
    assert_eq!(parse_usize("007"), Ok(7));
    assert_eq!(parse_usize("+5"), Ok(5));
    assert_eq!(parse_usize("1234567890"), Ok(1234567890));
}

#[test]
fn parse_usize_reads_the_largest_number() {
    let max = usize::MAX.to_string();
    assert_eq!(parse_usize(&max), Ok(usize::MAX));
    let padded = format!("000{}", max);
    assert_eq!(parse_usize(&padded), Ok(usize::MAX));
}

#[test]
fn parse_usize_rejects_the_empty_token() {
    assert_eq!(parse_usize(""), Err(IntError::Empty));
}

#[test]
fn parse_usize_rejects_what_is_no_digit() {
    for token in ["abc", "12a", "a12", "1 2", " 1", "1 ", "-1", "-0", "+", "++1", "1+", "1.0", "1e3",
        "0x10", "1_000", "\u{663}", "1\u{e9}"]
    {
        assert_eq!(parse_usize(token), Err(IntError::InvalidDigit), "token {:?}", token);
    }
}

#[test]
fn parse_usize_rejects_numbers_that_do_not_fit() {
    let max = usize::MAX.to_string();
    let mut above = max.clone();
    above.pop();
    above.push('9');
    assert!(above > max);
    assert_eq!(parse_usize(&above), Err(IntError::Overflow));
    assert_eq!(parse_usize(&format!("{}0", max)), Err(IntError::Overflow));
    assert_eq!(parse_usize("99999999999999999999999999999999999999999"), Err(IntError::Overflow));
}

#[test]
fn parse_usize_names_a_bad_digit_before_the_size() {
    assert_eq!(parse_usize("99999999999999999999999999999999999999999x"), Err(IntError::InvalidDigit));
}

#[test]
fn parse_usize_agrees_with_the_standard_parser() {
    let max = usize::MAX.to_string();
    let tokens = [
        "", "0", "1", "10", "0010", "+3", "+", "-3", "3-", "abc", "4 ", "٤", "1.5", "1e2", "+00",
        "18446744073709551615", "18446744073709551616", "4294967295", "4294967296",
        "340282366920938463463374607431768211456", max.as_str(),
    ];
    for token in tokens {
        let expected = token.parse::<usize>();
        let got = parse_usize(token);
        match (expected, got) {
            (Ok(a), Ok(b)) => assert_eq!(a, b, "token {:?}", token),
            (Err(e), Err(kind)) => {
                let same = match e.kind() {
                    IntErrorKind::Empty => kind == IntError::Empty,
                    IntErrorKind::InvalidDigit => kind == IntError::InvalidDigit,
                    IntErrorKind::PosOverflow => kind == IntError::Overflow,
                    _ => false,
                };
                assert!(same, "token {:?}", token);
                assert_eq!(kind.message(), e.to_string(), "token {:?}", token);
            },
            (a, b) => panic!("token {:?}: {:?} against {:?}", token, a, b),
        }
    }
}

#[test]
fn int_error_messages() {
    assert_eq!(IntError::Empty.message(), "cannot parse integer from empty string");
    assert_eq!(IntError::InvalidDigit.message(), "invalid digit found in string");
    assert_eq!(IntError::Overflow.message(), "number too large to fit in target type");
}

#[test]
fn typed_result_keeps_a_value() {
    assert_eq!(typed_result("7".to_string(), Ok::<u8, String>(7)), Ok(7));
}

#[test]
fn typed_result_wraps_a_diagnostic_with_its_token() {
    assert_eq!(
        typed_result::<u8>("x".to_string(), Err("no".to_string())),
        Err(malformed("x", "no"))
    );
}

#[test]
fn next_usize_reads_numbers_in_order() {
    let mut ws = stream("2 1\n0", SourceEnd::Complete);
    assert_eq!(next_usize(&mut ws), Ok(2));
    assert_eq!(next_usize(&mut ws), Ok(1));
    assert_eq!(next_usize(&mut ws), Ok(0));
    assert_eq!(next_usize(&mut ws), Err(ReadError::UnexpectedEnd));
}

#[test]
fn malformed_unsigned_token_is_reported_with_its_text() {
    let mut ws = stream("abc 5", SourceEnd::Complete);
    assert_eq!(next_usize(&mut ws), Err(malformed("abc", "invalid digit found in string")));
    assert_eq!(next_usize(&mut ws), Ok(5));
}

#[test]
fn empty_token_is_malformed_as_a_number() {
    let mut ws = stream("1  2", SourceEnd::Complete);
    assert_eq!(next_usize(&mut ws), Ok(1));
    assert_eq!(
        next_usize(&mut ws),
        Err(malformed("", "cannot parse integer from empty string"))
    );
    assert_eq!(next_usize(&mut ws), Ok(2));
}

#[test]
fn number_too_large_is_malformed() {
    let mut ws = stream("340282366920938463463374607431768211456", SourceEnd::Complete);
    assert_eq!(
        next_usize(&mut ws),
        Err(malformed(
            "340282366920938463463374607431768211456",
            "number too large to fit in target type"
        ))
    );
}

#[test]
fn next_val_reads_with_the_given_parser() {
    let mut ws = stream("3.5 -2 1e3", SourceEnd::Complete);
    assert_eq!(next_val(&mut ws, &float), Ok(3.5));
    assert_eq!(next_val(&mut ws, &float), Ok(-2.0));
    assert_eq!(next_val(&mut ws, &float), Ok(1000.0));
    assert_eq!(next_val(&mut ws, &float), Err(ReadError::UnexpectedEnd));
}

#[test]
fn next_val_reports_a_malformed_token_with_the_diagnostic() {
    let mut ws = stream("abc 2.5", SourceEnd::Complete);
    let diagnostic = "abc".parse::<f32>().unwrap_err().to_string();
    assert_eq!(next_val(&mut ws, &float), Err(malformed("abc", &diagnostic)));
    assert_eq!(next_val(&mut ws, &float), Ok(2.5));
}

#[test]
fn next_val_reads_different_types_from_one_stream() {
    let mut ws = stream("0 1 3.5", SourceEnd::Complete);
    let byte = |token: &str| token.parse::<u8>().map_err(|e| e.to_string());
    assert_eq!(next_usize(&mut ws), Ok(0));
    assert_eq!(next_val(&mut ws, &byte), Ok(1u8));
    assert_eq!(next_val(&mut ws, &float), Ok(3.5));
}

#[test]
fn end_of_input_is_an_error_of_its_own() {
    let mut ws = stream("", SourceEnd::Complete);
    assert_eq!(next_usize(&mut ws), Err(ReadError::UnexpectedEnd));
    assert_eq!(next_val(&mut ws, &float), Err(ReadError::UnexpectedEnd));
}

#[test]
fn failure_of_the_source_is_passed_on() {
    let mut ws = stream("1", SourceEnd::Failed);
    assert_eq!(next_usize(&mut ws), Ok(1));
    assert_eq!(next_usize(&mut ws), Err(ReadError::SourceFailed));
    assert_eq!(next_val(&mut ws, &float), Err(ReadError::SourceFailed));
}
