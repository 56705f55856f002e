use binheap::positive::{
    parse_pos_nonzero, CreationError, ParsePosNonzeroError, PositiveNonzeroInteger,
};

#[test]
fn test_parse_error() {
    assert!(matches!(
        parse_pos_nonzero("not a number"),
        Err(ParsePosNonzeroError::ParseInt(_))
    ));
}

#[test]
fn test_negative() {
    assert_eq!(
        parse_pos_nonzero("-555"),
        Err(ParsePosNonzeroError::Creation(CreationError::Negative))
    );
}

#[test]
fn test_zero() {
    assert_eq!(
        parse_pos_nonzero("0"),
        Err(ParsePosNonzeroError::Creation(CreationError::Zero))
    );
}

#[test]
fn test_positive() {
    let x = PositiveNonzeroInteger::new(42).unwrap();
    assert_eq!(parse_pos_nonzero("42"), Ok(x));
}

#[test]
fn positive_new_tells_the_three_cases() {
    assert_eq!(PositiveNonzeroInteger::new(-1), Err(CreationError::Negative));
    assert_eq!(PositiveNonzeroInteger::new(i64::MIN), Err(CreationError::Negative));
    assert_eq!(PositiveNonzeroInteger::new(0), Err(CreationError::Zero));
    assert_eq!(PositiveNonzeroInteger::new(1), Ok(PositiveNonzeroInteger(1)));
    assert_eq!(
        PositiveNonzeroInteger::new(i64::MAX),
        Ok(PositiveNonzeroInteger(9223372036854775807))
    );
}

#[test]
fn parse_pos_nonzero_takes_signs_and_leading_zeros() {
    assert_eq!(parse_pos_nonzero("+17"), Ok(PositiveNonzeroInteger(17)));
    assert_eq!(parse_pos_nonzero("0017"), Ok(PositiveNonzeroInteger(17)));
    assert_eq!(
        parse_pos_nonzero("-0"),
        Err(ParsePosNonzeroError::Creation(CreationError::Zero))
    );
    assert_eq!(
        parse_pos_nonzero("9223372036854775807"),
        Ok(PositiveNonzeroInteger(9223372036854775807))
    );
}

#[test]
fn parse_pos_nonzero_refuses_what_is_no_number() {
    for text in ["", "+", "-", " 5", "5 ", "1_000", "--5", "9223372036854775808", "12a"] {
        assert!(matches!(
            parse_pos_nonzero(text),
            Err(ParsePosNonzeroError::ParseInt(_))
        ));
    }
}

#[test]
fn errors_are_made_from_their_causes() {
    assert_eq!(
        ParsePosNonzeroError::from_creation(CreationError::Zero),
        ParsePosNonzeroError::Creation(CreationError::Zero)
    );
    let cause = "x".parse::<i64>().unwrap_err();
    assert_eq!(
        ParsePosNonzeroError::from_parseint(cause.clone()),
        ParsePosNonzeroError::ParseInt(cause)
    );
}
