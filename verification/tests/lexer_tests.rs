use relative_time::error::Error;
use relative_time::lexer::{Lexer, Token};

fn parse(input: &str) -> Result<Vec<(usize, Token)>, Error> {
    let mut lexer = Lexer::new(input);
    let mut out = Vec::new();
    loop {
        match lexer.next() {
            None => return Ok(out),
            Some(Ok(tok)) => out.push(tok),
            Some(Err(e)) => return Err(e),
        }
    }
}

#[test]
fn lexer_now_add_year() {
    assert_eq!(
        parse("now+1y").unwrap(),
        vec![
            (0, Token::Now),
            (3, Token::Add),
            (4, Token::Value(1)),
            (5, Token::Year),
        ]
    );
}

#[test]
fn lexer_now_sub_day() {
    assert_eq!(
        parse("now-5d").unwrap(),
        vec![
            (0, Token::Now),
            (3, Token::Sub),
            (4, Token::Value(5)),
            (5, Token::Day),
        ]
    );
}

#[test]
fn lexer_now_floor_week() {
    assert_eq!(
        parse("now/w").unwrap(),
        vec![(0, Token::Now), (3, Token::Floor), (4, Token::Week)]
    );
}

#[test]
fn lexer_very_large_number() {
    assert_eq!(
        parse("now+4294967295y").unwrap(),
        vec![
            (0, Token::Now),
            (3, Token::Add),
            (4, Token::Value(u32::MAX)),
            (14, Token::Year),
        ]
    );
}

#[test]
fn lexer_large_number_error() {
    assert!(matches!(
        parse("now+4294967297y"),
        Err(Error::InvalidNumber(_, _))
    ));
}

#[test]
fn lexer_invalid_input() {
    assert!(matches!(
        parse("(´･ω･`)"),
        Err(Error::UnexpectedCharacter(0, '('))
    ));
}

#[test]
fn lexer_no_input() {
    assert_eq!(parse("").unwrap(), vec![]);
}

#[test]
fn now_minus_now() {
    assert_eq!(
        parse("now-now").unwrap(),
        vec![(0, Token::Now), (3, Token::Sub), (4, Token::Now)]
    );
}

#[test]
fn cursed() {
    // The tokenizer aggressively doesn't care about the structure of the
    // input (as it should)
    assert_eq!(
        parse("now+-//nownow1nowmMm").unwrap(),
        vec![
            (0, Token::Now),
            (3, Token::Add),
            (4, Token::Sub),
            (5, Token::Floor),
            (6, Token::Floor),
            (7, Token::Now),
            (10, Token::Now),
            (13, Token::Value(1)),
            (14, Token::Now),
            (17, Token::Minute),
            (18, Token::Month),
            (19, Token::Minute),
        ]
    );
}

#[test]
fn overflow_literal_is_reported_verbatim() {
    match parse("now+99999999999d") {
        Err(Error::InvalidNumber(lit, _)) => assert_eq!(lit, "99999999999"),
        other => panic!("expected a number error, got {:?}", other),
    }
}

#[test]
fn end_of_text_inside_now() {
    assert!(matches!(parse("no"), Err(Error::UnexpectedCharacter(2, '\u{3}'))));
    assert!(matches!(parse("n"), Err(Error::UnexpectedCharacter(1, '\u{3}'))));
    assert!(matches!(parse("nox"), Err(Error::UnexpectedCharacter(2, 'x'))));
}

#[test]
fn multibyte_whitespace_is_skipped() {
    assert_eq!(
        parse("now\u{2003}+\u{2003}1d").unwrap(),
        vec![
            (0, Token::Now),
            (6, Token::Add),
            (10, Token::Value(1)),
            (11, Token::Day),
        ]
    );
}
