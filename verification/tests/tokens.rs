use rust_scheme::error::TokenError;
use rust_scheme::lexer::{
    read_comment, read_identifier, read_number, read_string, read_until_delimiter, tokenize, Buffer,
    Token, TokenBuffer, TokenKind,
};

fn all(mut tokens: TokenBuffer) -> Vec<Token> {
    let mut list = Vec::new();
    while !tokens.is_empty() {
        list.push(tokens.pop().clone());
    }
    list
}

fn texts(source: &str) -> Vec<String> {
    all(tokenize(source).unwrap())
        .iter()
        .map(|token| token.as_str().to_string())
        .collect()
}

#[test]
fn test_tokenizer() {
    let src = "(define x 4)";
    println!("{:?}", tokenize(src));
    println!("{:?}", tokenize("(+ 1 2)"));
    println!("{:?}", tokenize("; this is a comment"));
    println!("{:?}", tokenize("(define a,b 4)"));
    println!("{:?}", tokenize("`(1 a ,@(maps s d))"));
    println!("{:?}", tokenize("(... 1 2 3)"));
    println!("{:?}", tokenize("(.... 1 2 3)"));
    println!("{:?}", tokenize(".."));
    println!("{:?}", tokenize("(+ +2 3)"));
    println!("{:?}", tokenize("(+ ++2 3)"));
    println!("{:?}", tokenize("(+ #asda #aaa)"));
    println!("{:?}", tokenize("(+ #true )"));
    println!("{:?}", tokenize("\"asdasd\""));
    println!("{:?}", tokenize(r#""asdasd (sdf sdf)\\\a ""#));
    println!("{:?}", tokenize(r#"(define a "asdasd (sdf sdf) ")"#));
    println!("{:?}", tokenize(r#""""#));
    println!("{:?}", tokenize(r#""asdasd"#));
    let src = "asdfvasgdsa df asdfvgwae sdfasdfva 我是大肥猪";
    let mut buffer = Buffer::new(src);
    let mut i = 0;
    while i < buffer.length() {
        let character = buffer.get(i);
        println!("{:?} {} {}", character, i, i + 1);
        i += 1;
    }
    println!("{}", buffer.peek_char(40));
    loop {
        let character = buffer.pop_char(3);
        println!("{}", character);
        if character == "" {
            break;
        }
    }
}

#[test]
fn tokenizes_a_simple_form() {
    let mut tokens = tokenize("(+ 1 2)").unwrap();
    assert_eq!(tokens.len(), 5);
    assert_eq!(*tokens.peek(), Token::OpenParenthesis);
    assert_eq!(*tokens.pop(), Token::OpenParenthesis);
    assert_eq!(*tokens.pop(), Token::Identifier("+".to_string()));
    assert_eq!(*tokens.pop(), Token::Number("1".to_string()));
    assert_eq!(*tokens.pop(), Token::Number("2".to_string()));
    assert_eq!(*tokens.pop(), Token::CloseParenthesis);
    assert!(tokens.is_empty());
}

#[test]
fn a_sign_alone_is_an_identifier_and_keeps_the_parenthesis() {
    assert_eq!(
        all(tokenize("(+)").unwrap()),
        vec![
            Token::OpenParenthesis,
            Token::Identifier("+".to_string()),
            Token::CloseParenthesis
        ]
    );
    assert_eq!(texts("(- 7)"), vec!["(", "-", "7", ")"]);
    assert_eq!(texts("+"), vec!["+"]);
    assert_eq!(texts("..."), vec!["..."]);
    assert_eq!(texts("."), vec!["."]);
}

#[test]
fn a_sign_before_a_digit_or_i_begins_a_number() {
    assert_eq!(
        all(tokenize("-12 +i +2.5-3i").unwrap()),
        vec![
            Token::Number("-12".to_string()),
            Token::Number("+i".to_string()),
            Token::Number("+2.5-3i".to_string())
        ]
    );
}

#[test]
fn a_sign_before_anything_else_is_malformed() {
    assert_eq!(
        tokenize("(+ ++2 3)").unwrap_err(),
        TokenError::InvalidIdentifier("++2".to_string())
    );
    assert_eq!(
        tokenize("-x").unwrap_err(),
        TokenError::InvalidIdentifier("-x".to_string())
    );
}

#[test]
fn punctuation_has_its_fixed_spelling() {
    assert_eq!(
        texts("'a `b ,c ,@d #(1) #u8(2) (x . y)"),
        vec![
            "'", "a", "`", "b", ",", "c", ",@", "d", "#(", "1", ")", "#u8(", "2", ")", "(", "x",
            ".", "y", ")"
        ]
    );
    assert_eq!(Token::VectorOpen.kind(), TokenKind::VectorOpen);
    assert_eq!(Token::CommaAt.to_string(), ",@");
}

#[test]
fn three_dots_are_an_identifier() {
    assert_eq!(
        all(tokenize("(... 1)").unwrap())[1],
        Token::Identifier("...".to_string())
    );
    assert_eq!(
        tokenize("(.... 1 2 3)").unwrap_err(),
        TokenError::InvalidIdentifier("....".to_string())
    );
    assert_eq!(
        tokenize("..").unwrap_err(),
        TokenError::InvalidIdentifier("..".to_string())
    );
}

#[test]
fn booleans_come_in_four_spellings() {
    assert_eq!(
        all(tokenize("#t #f #true #false").unwrap()),
        vec![
            Token::Boolean("#t".to_string()),
            Token::Boolean("#f".to_string()),
            Token::Boolean("#true".to_string()),
            Token::Boolean("#false".to_string())
        ]
    );
    assert_eq!(
        tokenize("(+ #asda #aaa)").unwrap_err(),
        TokenError::InvalidConstant("#asda".to_string())
    );
}

#[test]
fn a_comment_runs_to_the_end_of_the_line() {
    assert_eq!(
        all(tokenize("1 ; one\n2").unwrap()),
        vec![
            Token::Number("1".to_string()),
            Token::Comment("; one".to_string()),
            Token::Number("2".to_string())
        ]
    );
    assert_eq!(
        all(tokenize("; this is a comment").unwrap()),
        vec![Token::Comment("; this is a comment".to_string())]
    );
}

#[test]
fn strings_keep_their_quotes_and_escapes() {
    assert_eq!(
        all(tokenize(r#"(define a "x \"y\" \n")"#).unwrap())[3],
        Token::String(r#""x \"y\" \n""#.to_string())
    );
    assert_eq!(
        all(tokenize(r#""""#).unwrap()),
        vec![Token::String("\"\"".to_string())]
    );
}

#[test]
fn an_unknown_escape_is_reported_with_its_character() {
    assert_eq!(
        tokenize(r#""a\qb""#).unwrap_err(),
        TokenError::InvalidStringEscape("\\q".to_string())
    );
}

#[test]
fn a_string_must_be_closed() {
    assert_eq!(
        tokenize(r#""asdasd"#).unwrap_err(),
        TokenError::MissingCloseQuote
    );
    assert_eq!(tokenize("\"abc\\").unwrap_err(), TokenError::MissingCloseQuote);
}

#[test]
fn a_malformed_identifier_is_reported_up_to_the_next_delimiter() {
    assert_eq!(
        tokenize("(define a,b 4)").unwrap_err(),
        TokenError::InvalidIdentifier("a,b".to_string())
    );
}

#[test]
fn a_malformed_number_is_reported_up_to_the_next_delimiter() {
    assert_eq!(
        tokenize("(+ 12ab 4)").unwrap_err(),
        TokenError::InvalidNumber("12ab".to_string())
    );
}

#[test]
fn a_character_outside_the_classes_is_invalid() {
    assert_eq!(
        tokenize("[1]").unwrap_err(),
        TokenError::InvalidCharacter("[".to_string())
    );
    assert_eq!(
        tokenize("(a 猪)").unwrap_err(),
        TokenError::InvalidCharacter("猪".to_string())
    );
}

#[test]
fn characters_beyond_ascii_are_not_split() {
    let tokens = all(tokenize("\"我是\" x").unwrap());
    assert_eq!(tokens[0], Token::String("\"我是\"".to_string()));
    assert_eq!(tokens[1], Token::Identifier("x".to_string()));
}

#[test]
fn the_buffer_hands_out_characters() {
    let mut buffer = Buffer::new("ab猪c");
    assert_eq!(buffer.length(), 4);
    assert_eq!(buffer.get(2), Some('猪'));
    assert_eq!(buffer.get(4), None);
    assert_eq!(buffer.peek_char(2), "ab");
    assert_eq!(buffer.pop_char(3), "ab猪");
    assert!(!buffer.is_empty());
    assert_eq!(buffer.pop_char(3), "c");
    assert!(buffer.is_empty());
    assert_eq!(buffer.pop_char(3), "");
}

#[test]
fn token_messages() {
    assert_eq!(
        TokenError::InvalidCharacter("[".to_string()).to_string(),
        "invalid character: ["
    );
    assert_eq!(
        TokenError::InvalidIdentifier("a,b".to_string()).to_string(),
        "invalid identifier: a,b"
    );
    assert_eq!(
        TokenError::InvalidNumber("1x".to_string()).to_string(),
        "invalid number literal: 1x"
    );
    assert_eq!(
        TokenError::InvalidConstant("#q".to_string()).to_string(),
        "invalid constant literal: #q"
    );
    assert_eq!(
        TokenError::MissingCloseQuote.to_string(),
        "string missing closing quote"
    );
}

#[test]
fn a_run_keeps_its_first_character_whatever_it_is() {
    let buffer = Buffer::new("ab cd)e");
    assert_eq!(read_until_delimiter(&buffer, 0), ("ab".to_string(), 2));
    assert_eq!(read_until_delimiter(&buffer, 1), ("b".to_string(), 2));
    assert_eq!(read_until_delimiter(&buffer, 2), (" cd".to_string(), 5));
    assert_eq!(read_until_delimiter(&buffer, 5), (")e".to_string(), 7));
    assert_eq!(read_until_delimiter(&buffer, 6), ("e".to_string(), 7));
    assert_eq!(read_until_delimiter(&buffer, 7), (String::new(), 7));
    assert_eq!(read_until_delimiter(&buffer, 40), (String::new(), 7));
    let two = Buffer::new("()");
    assert_eq!(read_until_delimiter(&two, 0), ("(".to_string(), 1));
    assert_eq!(read_until_delimiter(&two, 1), (")".to_string(), 2));
    assert_eq!(read_until_delimiter(&Buffer::new(""), 0), (String::new(), 0));
}

#[test]
fn a_fault_is_reported_with_the_run_after_it() {
    assert_eq!(
        tokenize("(2x)").unwrap_err(),
        TokenError::InvalidNumber("2x)".to_string())
    );
    assert_eq!(
        tokenize("(a,) b").unwrap_err(),
        TokenError::InvalidIdentifier("a,)".to_string())
    );
    assert_eq!(
        tokenize("(a, b)").unwrap_err(),
        TokenError::InvalidIdentifier("a, b".to_string())
    );
    assert_eq!(
        tokenize("# foo bar").unwrap_err(),
        TokenError::InvalidConstant("# foo".to_string())
    );
    assert_eq!(tokenize("#").unwrap_err(), TokenError::InvalidConstant("#".to_string()));
    assert_eq!(
        tokenize("#)t x").unwrap_err(),
        TokenError::InvalidConstant("#)t".to_string())
    );
    assert_eq!(
        tokenize("+a) b").unwrap_err(),
        TokenError::InvalidIdentifier("+a)".to_string())
    );
    assert_eq!(
        tokenize(".a) b").unwrap_err(),
        TokenError::InvalidIdentifier(".a) b".to_string())
    );
}

#[test]
fn a_reader_may_begin_where_its_token_begins() {
    let buffer = Buffer::new("abc 12 \"s\" ; c");
    assert_eq!(
        read_identifier(&buffer, 0, 0),
        Ok((Token::Identifier("abc".to_string()), 3))
    );
    assert_eq!(read_number(&buffer, 4, 4), Ok((Token::Number("12".to_string()), 6)));
    assert_eq!(
        read_string(&buffer, 7, 7),
        Ok((Token::String("\"".to_string()), 8))
    );
    assert_eq!(
        read_comment(&buffer, 11, 11),
        Ok((Token::Comment("; c".to_string()), 14))
    );
    assert_eq!(
        read_identifier(&buffer, 3, 3),
        Ok((Token::Identifier(String::new()), 3))
    );
}
