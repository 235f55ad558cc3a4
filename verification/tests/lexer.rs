use tpbuffers::lexer::{Decimal, Lexer, StringReader, Token};

#[test]
fn string_reader_simple() {
    let mut string_reader = StringReader::new("a");
    assert_eq!(string_reader.current(), Some('a'));
    assert_eq!(string_reader.next(), None);
}

#[test]
fn string_reader_abc123() {
    let mut string_reader = StringReader::new("abc123");
    assert_eq!(string_reader.current(), Some('a'));
    assert_eq!(string_reader.next(), Some('b'));
    assert_eq!(string_reader.next(), Some('c'));
    assert_eq!(string_reader.next(), Some('1'));
    assert_eq!(string_reader.next(), Some('2'));
    assert_eq!(string_reader.next(), Some('3'));
    assert_eq!(string_reader.current(), Some('3'));
    assert_eq!(string_reader.next(), None);
    assert_eq!(string_reader.current(), None);
}

#[test]
fn lex_empty() {
    let mut lexer = Lexer::tokenize("");
    let token = lexer.current_token();
    assert_eq!(token.clone(), Token::EOF);
    let token = lexer.next_token();
    assert_eq!(token.clone(), Token::EOF);
}

#[test]
fn lex_id() {
    let mut lexer = Lexer::tokenize("hello     world123");
    let token = lexer.current_token();
    assert_eq!(
        token.clone(),
        Token::ID {
            name: String::from("hello")
        }
    );
    let token = lexer.next_token();
    assert_eq!(
        token.clone(),
        Token::ID {
            name: String::from("world123")
        }
    );
    let token = lexer.next_token();
    assert_eq!(token.clone(), Token::EOF);
}

#[test]
fn lex_string_literal() {
    let mut lexer = Lexer::tokenize("\"hello     world\"");
    let token = lexer.current_token();
    assert_eq!(
        token.clone(),
        Token::StringLiteral {
            value: String::from("hello     world")
        }
    );
    let token = lexer.next_token();
    assert_eq!(token.clone(), Token::EOF);
}

#[test]
fn lex_int_literal() {
    let mut lexer = Lexer::tokenize("123");
    let token = lexer.current_token();
    assert_eq!(token.clone(), Token::IntLiteral { value: 123 });
    let token = lexer.next_token();
    assert_eq!(token.clone(), Token::EOF);
}

#[test]
fn lex_struct_keyword() {
    let mut lexer = Lexer::tokenize("struct");
    let token = lexer.current_token();
    assert_eq!(token.clone(), Token::Struct);
    let token = lexer.next_token();
    assert_eq!(token.clone(), Token::EOF);
}

fn all_tokens(text: &str) -> Vec<Token> {
    let mut lexer = Lexer::tokenize(text);
    let mut tokens = vec![lexer.current_token().clone()];
    while *lexer.current_token() != Token::EOF {
        tokens.push(lexer.next_token().clone());
    }
    tokens
}

fn number(integer: &str, fraction: &str) -> Token {
    Token::NumberLiteral {
        value: Decimal { negative: false, integer: String::from(integer), fraction: String::from(fraction) },
    }
}

#[test]
fn lex_numbers_in_base_ten_and_sixteen() {
    assert_eq!(all_tokens("0x10"), vec![Token::IntLiteral { value: 16 }, Token::EOF]);
    assert_eq!(all_tokens("0"), vec![Token::IntLiteral { value: 0 }, Token::EOF]);
    assert_eq!(all_tokens("9223372036854775807"), vec![Token::IntLiteral { value: i64::MAX }, Token::EOF]);
}

#[test]
fn lex_numbers_with_a_fraction() {
    assert_eq!(all_tokens("03.001"), vec![number("3", "001"), Token::EOF]);
    assert_eq!(all_tokens("123. 342.230"), vec![number("123", ""), number("342", "23"), Token::EOF]);
}

#[test]
fn lex_symbols_after_identifiers_and_numbers() {
    assert_eq!(
        all_tokens("a: i32"),
        vec![
            Token::ID { name: String::from("a") },
            Token::Symbol { value: ':' },
            Token::ID { name: String::from("i32") },
            Token::EOF
        ]
    );
    assert_eq!(
        all_tokens("{x}"),
        vec![
            Token::Symbol { value: '{' },
            Token::ID { name: String::from("x") },
            Token::Symbol { value: '}' },
            Token::EOF
        ]
    );
    assert_eq!(
        all_tokens("#[1]"),
        vec![
            Token::Symbol { value: '#' },
            Token::Symbol { value: '[' },
            Token::IntLiteral { value: 1 },
            Token::Symbol { value: ']' },
            Token::EOF
        ]
    );
    assert_eq!(
        all_tokens("\"a b\";"),
        vec![Token::StringLiteral { value: String::from("a b") }, Token::Symbol { value: ';' }, Token::EOF]
    );
}

#[test]
fn try_tokenize_refuses_unreadable_texts() {
    assert!(tpbuffers::lexer::Lexer::try_tokenize("\"open").is_none());
    assert!(tpbuffers::lexer::Lexer::try_tokenize("0x").is_none());
    assert!(tpbuffers::lexer::Lexer::try_tokenize("99999999999999999999").is_none());
    let lexer = tpbuffers::lexer::Lexer::try_tokenize("a: \"b\" 0x17 12.50").unwrap();
    assert_eq!(lexer.tokens_len(), 6);
}
