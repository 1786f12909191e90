use sql_parser::lexer::{Lexer, Tocken};

#[test]
fn test_regex() {
    // The two token patterns of the lexer: a numeral is a nonzero digit
    // followed by digits or a single `0`; an identifier is
    // `[_a-zA-Z][_a-zA-Z0-9]*`.  Each matches maximally at the start.
    let num = "123";
    let column_name = "_damn";
    let mut lexer = Lexer::new(num.to_string());
    match lexer.next_pop() {
        Ok(Tocken::NumberLiteral(text)) => assert_eq!(text, "123"),
        other => panic!("expected a number literal, got {:?}", other),
    }
    let mut lexer = Lexer::new(column_name.to_string());
    match lexer.next_pop() {
        Ok(Tocken::ColumnName(text)) => assert_eq!(text, "_damn"),
        other => panic!("expected a column name, got {:?}", other),
    }
}

#[test]
fn test_next() {
    let mut lexer = Lexer::new(
        "SELECT age, hobby FROM student WHERE name = \"tom\" AND age = 10".to_string(),
    );
    while let Ok(tocken) = lexer.next_pop() {
        match tocken {
            Tocken::EOF => break,
            _ => (),
        }
        println!("{:?}", tocken)
    }
}

#[test]
fn lexes_a_full_select_line() {
    let mut lexer = Lexer::new(
        "SELECT age, hobby FROM student WHERE name = \"tom\" AND age = 10".to_string(),
    );
    let expected = vec![
        Tocken::SELECT,
        Tocken::ColumnName("age".to_string()),
        Tocken::COMMA,
        Tocken::ColumnName("hobby".to_string()),
        Tocken::FROM,
        Tocken::ColumnName("student".to_string()),
        Tocken::WHERE,
        Tocken::ColumnName("name".to_string()),
        Tocken::EQUAL,
        Tocken::StringLiteral("tom".to_string()),
        Tocken::AND,
        Tocken::ColumnName("age".to_string()),
        Tocken::EQUAL,
        Tocken::NumberLiteral("10".to_string()),
        Tocken::EOF,
    ];
    for want in expected {
        let got = lexer.next_pop().expect("token expected");
        assert_eq!(got, want);
    }
}

#[test]
fn lookahead_does_not_move_the_cursor() {
    let mut lexer = Lexer::new("SELECT age".to_string());
    // k tokens ahead, without consuming; k == 0 is the end marker.
    match lexer.next(0) {
        Ok(Tocken::EOF) => (),
        other => panic!("expected EOF for zero lookahead, got {:?}", other),
    }
    match lexer.next(2) {
        Ok(Tocken::ColumnName(text)) => assert_eq!(text, "age"),
        other => panic!("expected the second token, got {:?}", other),
    }
    // The cursor still rests before the first token.
    match lexer.next_pop() {
        Ok(Tocken::SELECT) => (),
        other => panic!("expected SELECT, got {:?}", other),
    }
}

#[test]
fn lookahead_reports_a_lexical_error_and_stays_put() {
    let mut lexer = Lexer::new("age !".to_string());
    assert!(lexer.next(2).is_err());
    // The cursor did not move: the first token is still there.
    match lexer.next_pop() {
        Ok(Tocken::ColumnName(text)) => assert_eq!(text, "age"),
        other => panic!("expected a column name, got {:?}", other),
    }
}

#[test]
fn lookahead_past_the_end_is_eof() {
    let mut lexer = Lexer::new("age".to_string());
    match lexer.next(5) {
        Ok(Tocken::EOF) => (),
        other => panic!("expected EOF past the end, got {:?}", other),
    }
}

#[test]
fn keywords_are_case_sensitive_in_the_lexer() {
    // Once `S` is seen, `SELECT` must follow; there is no fallback to an
    // identifier, so a word like `Something` is a lexical error.
    let mut lexer = Lexer::new("Something".to_string());
    assert!(lexer.next_pop().is_err());
    // The cursor is left where it was, so the error repeats.
    assert!(lexer.next_pop().is_err());
}

#[test]
fn unterminated_string_is_a_lexical_error() {
    let mut lexer = Lexer::new("\"tom".to_string());
    assert!(lexer.next_pop().is_err());
}

#[test]
fn unrecognized_character_is_a_lexical_error() {
    let mut lexer = Lexer::new("!".to_string());
    let err = lexer.next_pop().unwrap_err();
    assert_eq!(err.pos, 0);
}

#[test]
fn lexical_errors_carry_the_token_start() {
    // The reported position is where the failing token begins, past any
    // spaces.
    let mut lexer = Lexer::new("   !".to_string());
    assert_eq!(lexer.next_pop().unwrap_err().pos, 3);
    // Lookahead reports the start of the first token that fails to scan.
    let mut lexer = Lexer::new("age !".to_string());
    assert_eq!(lexer.next(2).unwrap_err().pos, 4);
}

#[test]
fn zero_starts_no_longer_numeral() {
    // The numeral pattern takes a lone `0` first, so `0123` lexes as two
    // number literals.
    let mut lexer = Lexer::new("0123".to_string());
    match lexer.next_pop() {
        Ok(Tocken::NumberLiteral(text)) => assert_eq!(text, "0"),
        other => panic!("expected a number literal, got {:?}", other),
    }
    match lexer.next_pop() {
        Ok(Tocken::NumberLiteral(text)) => assert_eq!(text, "123"),
        other => panic!("expected a number literal, got {:?}", other),
    }
}

#[test]
fn spaces_are_skipped_between_tokens() {
    let mut lexer = Lexer::new("   ,   =".to_string());
    assert_eq!(lexer.next_pop().unwrap(), Tocken::COMMA);
    assert_eq!(lexer.next_pop().unwrap(), Tocken::EQUAL);
    assert_eq!(lexer.next_pop().unwrap(), Tocken::EOF);
}

#[test]
fn punctuation_is_consumed() {
    let mut lexer = Lexer::new("();".to_string());
    assert_eq!(lexer.next_pop().unwrap(), Tocken::OpenParenthesis);
    assert_eq!(lexer.next_pop().unwrap(), Tocken::CloseParenthesis);
    assert_eq!(lexer.next_pop().unwrap(), Tocken::SEMICON);
    assert_eq!(lexer.next_pop().unwrap(), Tocken::EOF);
}
