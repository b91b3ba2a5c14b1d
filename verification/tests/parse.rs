use line_editor::parse::{
    arg_ends_with_closure, arg_starts_with_closure, check_closures, get_address_list,
    get_lower_enclosure_type, get_upper_enclosure_type, parse_arg, split_arg, validate_split,
};
use line_editor::{AddressCondition, ArgParseError, ClosureType, ParsedAddrCond, Values};

fn chars(text: &str) -> Vec<char> {
    text.chars().collect()
}

fn parsed(lower: ClosureType, tokens: &[u32], upper: ClosureType) -> ParsedAddrCond {
    ParsedAddrCond { lower_enclosure: lower, body_tokens: tokens.to_vec(), upper_enclosure: upper }
}

#[test]
fn closures_at_both_ends() {
    assert!(check_closures(&"[1]".to_string()));
    assert!(check_closures(&"(1..2]".to_string()));
    assert!(check_closures(&"[]".to_string()));
    assert!(check_closures(&"(é)".to_string()));
    assert!(!check_closures(&"".to_string()));
    assert!(!check_closures(&"[".to_string()));
    assert!(!check_closures(&")".to_string()));
    assert!(!check_closures(&"1".to_string()));
    assert!(!check_closures(&"[1".to_string()));
    assert!(!check_closures(&"1]".to_string()));
    assert!(!check_closures(&"]1[".to_string()));
}

#[test]
fn closures_of_texts_that_are_not_ascii() {
    assert!(!arg_starts_with_closure(&"é[".to_string()));
    assert!(arg_starts_with_closure(&"[é".to_string()));
    assert!(arg_ends_with_closure(&"é]".to_string()));
    assert!(!arg_ends_with_closure(&"]é".to_string()));
    assert!(!arg_starts_with_closure(&"".to_string()));
    assert!(!arg_ends_with_closure(&"".to_string()));
}

#[test]
fn lower_enclosure_takes_the_first_character() {
    let mut body = chars("[12");
    assert_eq!(get_lower_enclosure_type(&mut body), Ok(ClosureType::Inclusive));
    assert_eq!(body, chars("12"));

    let mut body = chars("(12");
    assert_eq!(get_lower_enclosure_type(&mut body), Ok(ClosureType::Exclusive));
    assert_eq!(body, chars("12"));

    let mut body = chars("12");
    assert_eq!(get_lower_enclosure_type(&mut body), Err(ArgParseError::MissingClosuresError));
    assert_eq!(body, chars("2"));

    let mut body = chars("]");
    assert_eq!(get_lower_enclosure_type(&mut body), Err(ArgParseError::MissingClosuresError));
    assert_eq!(body, chars(""));

    let mut body = chars("");
    assert_eq!(get_lower_enclosure_type(&mut body), Err(ArgParseError::MissingClosuresError));
    assert_eq!(body, chars(""));
}

#[test]
fn upper_enclosure_takes_the_last_character() {
    let mut body = chars("12]");
    assert_eq!(get_upper_enclosure_type(&mut body), Ok(ClosureType::Inclusive));
    assert_eq!(body, chars("12"));

    let mut body = chars("12)");
    assert_eq!(get_upper_enclosure_type(&mut body), Ok(ClosureType::Exclusive));
    assert_eq!(body, chars("12"));

    let mut body = chars("12");
    assert_eq!(get_upper_enclosure_type(&mut body), Err(ArgParseError::MissingClosuresError));
    assert_eq!(body, chars("1"));

    let mut body = chars("");
    assert_eq!(get_upper_enclosure_type(&mut body), Err(ArgParseError::MissingClosuresError));
    assert_eq!(body, chars(""));
}

#[test]
fn address_lists() {
    assert_eq!(get_address_list(chars("5")), Ok(vec![5]));
    assert_eq!(get_address_list(chars("5..10")), Ok(vec![5, 10]));
    assert_eq!(get_address_list(chars("0..2..6")), Ok(vec![0, 2, 6]));
    assert_eq!(get_address_list(chars("+1..002")), Ok(vec![1, 2]));
    assert_eq!(get_address_list(chars("")), Err(ArgParseError::InvalidAddressNumber));
    assert_eq!(get_address_list(chars("1..")), Err(ArgParseError::InvalidAddressNumber));
    assert_eq!(get_address_list(chars("1..a..3")), Err(ArgParseError::InvalidAddressNumber));
    assert_eq!(get_address_list(chars("1..2..3..4")), Ok(vec![1, 2, 3, 4]));
    assert_eq!(get_address_list(chars("9..8..7..6..5")), Ok(vec![9, 8, 7, 6, 5]));
    assert_eq!(get_address_list(chars("1..2..3..x")), Err(ArgParseError::InvalidAddressNumber));
    assert_eq!(get_address_list(chars("a..b..c..d")), Err(ArgParseError::InvalidAddressNumber));
}

#[test]
fn validation_of_what_was_parsed() {
    let inc = ClosureType::Inclusive;
    let exc = ClosureType::Exclusive;
    assert_eq!(validate_split(parsed(inc, &[1], inc)), Ok(parsed(inc, &[1], inc)));
    assert_eq!(validate_split(parsed(exc, &[1], exc)), Ok(parsed(exc, &[1], exc)));
    assert_eq!(validate_split(parsed(inc, &[1, 2], exc)), Ok(parsed(inc, &[1, 2], exc)));
    assert_eq!(validate_split(parsed(exc, &[1, 2, 3], inc)), Ok(parsed(exc, &[1, 2, 3], inc)));
    assert_eq!(validate_split(parsed(inc, &[], inc)), Err(ArgParseError::InvalidAddressCount));
    assert_eq!(
        validate_split(parsed(inc, &[1, 2, 3, 4], inc)),
        Err(ArgParseError::InvalidAddressCount)
    );
    assert_eq!(validate_split(parsed(inc, &[1], exc)), Err(ArgParseError::InvalidClosuresError));
    assert_eq!(validate_split(parsed(exc, &[1], inc)), Err(ArgParseError::InvalidClosuresError));
    assert_eq!(validate_split(parsed(inc, &[1, 0, 3], inc)), Err(ArgParseError::InvalidStep));
    assert_eq!(validate_split(parsed(inc, &[0, 1, 0], inc)), Ok(parsed(inc, &[0, 1, 0], inc)));
}

#[test]
fn splitting_a_text() {
    let inc = ClosureType::Inclusive;
    let exc = ClosureType::Exclusive;
    assert_eq!(split_arg(&"[1]".to_string()), Ok(parsed(inc, &[1], inc)));
    assert_eq!(split_arg(&"(11)".to_string()), Ok(parsed(exc, &[11], exc)));
    assert_eq!(split_arg(&"[5..10)".to_string()), Ok(parsed(inc, &[5, 10], exc)));
    assert_eq!(split_arg(&"(0..2..6]".to_string()), Ok(parsed(exc, &[0, 2, 6], inc)));
    assert_eq!(split_arg(&"".to_string()), Err(ArgParseError::MissingClosuresError));
    assert_eq!(split_arg(&"1".to_string()), Err(ArgParseError::MissingClosuresError));
    assert_eq!(split_arg(&"[".to_string()), Err(ArgParseError::MissingClosuresError));
    assert_eq!(split_arg(&"[]".to_string()), Err(ArgParseError::InvalidAddressNumber));
    assert_eq!(split_arg(&"()".to_string()), Err(ArgParseError::InvalidAddressNumber));
    assert_eq!(split_arg(&"(1]".to_string()), Err(ArgParseError::InvalidClosuresError));
    assert_eq!(split_arg(&"[1..0..2]".to_string()), Err(ArgParseError::InvalidStep));
    assert_eq!(split_arg(&"[1..2..3..4]".to_string()), Err(ArgParseError::InvalidAddressCount));
    assert_eq!(split_arg(&"[1..2..3..x]".to_string()), Err(ArgParseError::InvalidAddressCount));
    assert_eq!(split_arg(&"[1..2..x]".to_string()), Err(ArgParseError::InvalidAddressNumber));
}

#[test]
fn parsing_a_text() {
    assert_eq!(parse_arg(&"[1]".to_string()), Ok(AddressCondition::line_number(1)));
    assert_eq!(parse_arg(&"[11]".to_string()), Ok(AddressCondition::line_number(11)));
    assert_eq!(parse_arg(&"(1)".to_string()), Ok(AddressCondition::line_number(1)));
    assert_eq!(parse_arg(&"1".to_string()), Ok(AddressCondition::line_number(1)));
    assert_eq!(parse_arg(&"".to_string()), Err(ArgParseError::ArgEmpty));
    assert_eq!(parse_arg(&"[]".to_string()), Err(ArgParseError::InvalidAddressNumber));
    assert_eq!(parse_arg(&"()".to_string()), Err(ArgParseError::InvalidAddressNumber));
    assert_eq!(
        parse_arg(&"(3..9]".to_string()).unwrap().values(),
        Values::Range { min: 3, max: 9, min_inclusive: false, max_inclusive: true }
    );
    assert_eq!(
        parse_arg(&"(3..2..9]".to_string()).unwrap().values(),
        Values::StepRange { min: 3, max: 9, min_inclusive: false, max_inclusive: true, step: 2 }
    );
}
