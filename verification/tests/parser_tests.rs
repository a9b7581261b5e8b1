use relative_time::error::Error;
use relative_time::parser::{Expression, Parser, Unit};

fn parse(input: &str) -> Result<Vec<Expression>, Error> {
    let mut parser = Parser::new(input);
    let mut out = Vec::new();
    loop {
        match parser.next_expression() {
            None => return Ok(out),
            Some(Ok(expr)) => out.push(expr),
            Some(Err(e)) => return Err(e),
        }
    }
}

#[test]
fn now() {
    assert_eq!(parse("now").unwrap(), vec![Expression::Now]);
}

#[test]
fn add_now() {
    assert_eq!(parse("+now").unwrap(), vec![Expression::Now]);
}

#[test]
fn parser_now_add_year() {
    assert_eq!(
        parse("now+1y").unwrap(),
        vec![Expression::Now, Expression::Add(1, Unit::Year)]
    );
}

#[test]
fn add_seconds_now() {
    assert_eq!(
        parse("+1s+now").unwrap(),
        vec![Expression::Add(1, Unit::Second), Expression::Now]
    );
}

#[test]
fn sub_day_now() {
    assert_eq!(
        parse("-5d+now").unwrap(),
        vec![Expression::Sub(5, Unit::Day), Expression::Now]
    );
}

#[test]
fn floor_week() {
    assert_eq!(
        parse("now/w").unwrap(),
        vec![Expression::Now, Expression::Floor(Unit::Week)]
    );
}

#[test]
fn add_zero() {
    assert_eq!(
        parse("now+0y-0m+0s").unwrap(),
        vec![
            Expression::Now,
            Expression::Add(0, Unit::Year),
            Expression::Sub(0, Unit::Minute),
            Expression::Add(0, Unit::Second),
        ]
    );
}

#[test]
fn day_sub_now() {
    assert!(matches!(parse("1d-now"), Err(Error::InvalidFormat(3, _, _))));
}

#[test]
fn parser_no_input() {
    assert_eq!(parse("").unwrap(), vec![]);
}
