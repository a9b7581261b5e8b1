use relative_time::error::Error;
use relative_time::parsing::{Operator, Step, StepIterator, Token, TokenIterator, Unit, Value};

fn parse(input: &str) -> Result<Vec<Token>, Error> {
    let mut tokens = TokenIterator::new(input);
    let mut out = Vec::new();
    loop {
        match tokens.next() {
            None => return Ok(out),
            Some(Ok(tok)) => out.push(tok),
            Some(Err(e)) => return Err(e),
        }
    }
}

fn steps(input: &str) -> Result<Vec<Step>, Error> {
    let mut iter = StepIterator::new(input);
    let mut out = Vec::new();
    loop {
        match iter.next() {
            None => return Ok(out),
            Some(Ok(step)) => out.push(step),
            Some(Err(e)) => return Err(e),
        }
    }
}

#[test]
fn parsing_now_add_year() {
    assert_eq!(
        parse("now+1y").unwrap(),
        vec![
            Token::Value(0, Value::Now),
            Token::Operator(3, Operator::Add),
            Token::Value(4, Value::Number(1)),
            Token::Unit(5, Unit::Year),
        ]
    );
}

#[test]
fn parsing_now_sub_day() {
    assert_eq!(
        parse("now-5d").unwrap(),
        vec![
            Token::Value(0, Value::Now),
            Token::Operator(3, Operator::Sub),
            Token::Value(4, Value::Number(5)),
            Token::Unit(5, Unit::Day),
        ]
    );
}

#[test]
fn parsing_now_floor_week() {
    assert_eq!(
        parse("now/w").unwrap(),
        vec![
            Token::Value(0, Value::Now),
            Token::Operator(3, Operator::Floor),
            Token::Unit(4, Unit::Week),
        ]
    );
}

#[test]
fn parsing_very_large_number() {
    assert_eq!(
        parse("now+4294967295y").unwrap(),
        vec![
            Token::Value(0, Value::Now),
            Token::Operator(3, Operator::Add),
            Token::Value(4, Value::Number(u32::MAX)),
            Token::Unit(14, Unit::Year),
        ]
    );
}

#[test]
fn parsing_large_number_error() {
    let res = parse("now+4294967297y");
    assert!(matches!(res, Err(Error::InvalidNumber(_, _))));
}

#[test]
fn parsing_invalid_input() {
    let res = parse("(´･ω･`)");
    assert!(matches!(res, Err(Error::UnexpectedCharacter(0, '('))));
}

#[test]
fn parsing_no_input() {
    assert_eq!(parse("").unwrap(), vec![]);
}

#[test]
fn steps_of_simple_expression() {
    assert_eq!(
        steps("now y-2d/w").unwrap(),
        vec![
            Step::Add(Value::Now, Unit::Year),
            Step::Sub(Value::Number(2), Unit::Day),
            Step::Floor(Unit::Week),
        ]
    );
}

#[test]
fn steps_reject_leading_floor() {
    assert!(matches!(steps("/w"), Err(Error::InvalidFormat(0, _, _))));
}

#[test]
fn steps_allow_leading_bare_value() {
    assert_eq!(
        steps("5d-1h+now m").unwrap(),
        vec![
            Step::Add(Value::Number(5), Unit::Day),
            Step::Sub(Value::Number(1), Unit::Hour),
            Step::Add(Value::Now, Unit::Minute),
        ]
    );
}
