use sand::tokenizer::{tokenize_str, GroupType, Token, TokenType};
use sand::FilePos;

#[test]
fn tokenize_string_lit() {
    let tokens = tokenize_str("\"hello\"", FilePos::internal()).unwrap();
    assert!(tokens.len() == 1);
    assert!(tokens.get(0).unwrap().kind == TokenType::StringLit("hello".to_string()))
}

#[test]
fn tokenize_string_lit_newline() {
    let tokens = tokenize_str("\"he\\nllo\"", FilePos::internal()).unwrap();
    assert!(tokens.len() == 1);
    assert!(tokens.get(0).unwrap().kind == TokenType::StringLit("he\nllo".to_string()))
}

#[test]
fn tokenize_string_lit_escaped_quote() {
    let tokens = match tokenize_str("\"he\\\"llo\"", FilePos::internal()) {
        Ok(tokens) => tokens,
        Err(err) => panic!("{}:{}:{}: {}", err.pos.file, err.pos.row, err.pos.col, err.msg),
    };
    assert!(tokens.len() == 1);
    assert!(tokens.get(0).unwrap().kind == TokenType::StringLit("he\"llo".to_string()))
}

#[test]
fn tokenize_char_lit() {
    let tokens = tokenize_str("'c'", FilePos::internal()).unwrap();
    assert!(tokens.len() == 1);
    assert!(tokens.get(0).unwrap().kind == TokenType::CharLit('c'))
}

#[test]
fn tokenize_char_lit_newline() {
    let tokens = match tokenize_str("'\\n'", FilePos::internal()) {
        Ok(tokens) => tokens,
        Err(err) => panic!("{}", err.msg),
    };
    assert!(tokens.len() == 1);
    assert!(tokens.get(0).unwrap().kind == TokenType::CharLit('\n'))
}

#[test]
fn tokenize_char_lit_escaped_quote() {
    let tokens = match tokenize_str("'\\''", FilePos::internal()) {
        Ok(tokens) => tokens,
        Err(err) => panic!("{}", err.msg),
    };
    assert!(tokens.len() == 1);
    assert!(tokens.get(0).unwrap().kind == TokenType::CharLit('\''))
}

#[test]
fn tokenize_number_int() {
    let tokens = tokenize_str("5", FilePos::internal()).unwrap();
    assert!(tokens.len() == 1);
    assert!(tokens.get(0).unwrap().kind == TokenType::Number((5.0f64).to_bits()))
}

#[test]
fn tokenize_number_float() {
    let tokens = tokenize_str("5.0", FilePos::internal()).unwrap();
    println!("Tokens: {:?}", tokens);
    assert!(tokens.len() == 1);
    assert!(tokens.get(0).unwrap().kind == TokenType::Number((5.0f64).to_bits()))
}

#[test]
fn tokenize_number_complex1() {
    let tokens = tokenize_str("5. ", FilePos::internal()).unwrap();
    println!("Tokens: {:?}", tokens);
    assert!(tokens.len() == 2);
    assert!(tokens.get(0).unwrap().kind == TokenType::Number((5.0f64).to_bits()));
    assert!(tokens.get(1).unwrap().kind == TokenType::Char('.'));
}

#[test]
fn tokenize_string() {
    let tokens = tokenize_str("foo", FilePos::internal()).unwrap();
    assert!(tokens.len() == 1);
    assert!(tokens.get(0).unwrap().kind == TokenType::String("foo".to_string()))
}

#[test]
fn tokenize_string_complex() {
    let tokens = tokenize_str("fo_o", FilePos::internal()).unwrap();
    assert!(tokens.len() == 1);
    assert!(tokens.get(0).unwrap().kind == TokenType::String("fo_o".to_string()))
}

#[test]
fn tokenize_char() {
    let tokens = tokenize_str(".", FilePos::internal()).unwrap();
    assert!(tokens.len() == 1);
    assert!(tokens.get(0).unwrap().kind == TokenType::Char('.'))
}

#[test]
fn tokenize_group() {
    let tokens = tokenize_str("()", FilePos::internal()).unwrap();
    assert!(tokens.len() == 1);
    assert!(
        tokens.get(0).unwrap().kind == TokenType::Group {
            gtype: GroupType::Paren,
            tokens: Vec::new(),
        }
    )
}

// A well-formed bracket string keeps its nesting depth and bracket kinds
// through tokenizing: re-rendering the group structure gives the input back.
fn render(tokens: &[Token], out: &mut String) {
    for t in tokens {
        match &t.kind {
            TokenType::Group { gtype, tokens } => {
                let (open, close) = match gtype {
                    GroupType::Paren => ('(', ')'),
                    GroupType::Brack => ('[', ']'),
                    GroupType::Curly => ('{', '}'),
                };
                out.push(open);
                render(tokens, out);
                out.push(close);
            }
            _ => panic!("bracket strings only produce groups"),
        }
    }
}

#[test]
fn tokenize_bracket_round_trip() {
    let src = "([]{()[]}){}[({})]";
    let tokens = tokenize_str(src, FilePos::internal()).unwrap();
    let mut rendered = String::new();
    render(&tokens, &mut rendered);
    assert_eq!(rendered, src);
}

#[test]
fn tokenize_mismatched_bracket_is_error() {
    let err = tokenize_str("(]", FilePos::internal()).unwrap_err();
    assert_eq!(err.msg, "Mismatched parenthesis");
}

#[test]
fn tokenize_unterminated_group_is_error() {
    let err = tokenize_str("(", FilePos::internal()).unwrap_err();
    assert_eq!(err.msg, "Mismatched parenthesis");
}

#[test]
fn tokenize_unterminated_string_is_error() {
    let err = tokenize_str("\"abc", FilePos::internal()).unwrap_err();
    assert_eq!(err.msg, "Mismatched double quotation mark");
}

#[test]
fn tokenize_bad_escape_is_error() {
    let err = tokenize_str("\"a\\qb\"", FilePos::internal()).unwrap_err();
    assert_eq!(err.msg, "Unknown escaped character");
}

#[test]
fn tokenize_comment_is_skipped() {
    let tokens = tokenize_str("foo # rest of line\nbar", FilePos::internal()).unwrap();
    assert!(tokens.len() == 2);
    assert!(tokens.get(0).unwrap().kind == TokenType::String("foo".to_string()));
    assert!(tokens.get(1).unwrap().kind == TokenType::String("bar".to_string()));
}

#[test]
fn tokenize_identifier_with_digits() {
    // identifier continuation takes letters, digits and underscore, so a
    // digit after a letter stays inside the name
    let tokens = tokenize_str("foo1", FilePos::internal()).unwrap();
    assert!(tokens.len() == 1);
    assert!(tokens.get(0).unwrap().kind == TokenType::String("foo1".to_string()));
    let tokens = tokenize_str("a1_b2", FilePos::internal()).unwrap();
    assert!(tokens.len() == 1);
    assert!(tokens.get(0).unwrap().kind == TokenType::String("a1_b2".to_string()));
}
