use treewalk::lexer::{is_letter, lookup_ident, Lexer};
use treewalk::token::{Token, TokenType};

fn token(token_type: TokenType, literal: &str) -> Token {
    Token { token_type, literal: literal.to_string() }
}

fn lex(input: &str) -> Vec<Token> {
    Lexer::new(input.to_string()).collect()
}

#[test]
fn test_next_single_char_tokens() {
    let expected = vec![
        token(TokenType::Assign, "="),
        token(TokenType::Plus, "+"),
        token(TokenType::Lparen, "("),
        token(TokenType::Rparen, ")"),
        token(TokenType::Lbrace, "{"),
        token(TokenType::Rbrace, "}"),
        token(TokenType::Comma, ","),
        token(TokenType::Semicolon, ";"),
    ];
    assert_eq!(lex("=+(){},;"), expected);
}

#[test]
fn next_test_basic_code() {
    let input = "
        let five = 5;
        let ten = 10;

        let add = fn(x, y) {
            x + y;
        };

        let result = add(five, ten);
        ";
    let expected = vec![
        token(TokenType::Let, "let"),
        token(TokenType::Ident, "five"),
        token(TokenType::Assign, "="),
        token(TokenType::Int, "5"),
        token(TokenType::Semicolon, ";"),
        token(TokenType::Let, "let"),
        token(TokenType::Ident, "ten"),
        token(TokenType::Assign, "="),
        token(TokenType::Int, "10"),
        token(TokenType::Semicolon, ";"),
        token(TokenType::Let, "let"),
        token(TokenType::Ident, "add"),
        token(TokenType::Assign, "="),
        token(TokenType::Function, "fn"),
        token(TokenType::Lparen, "("),
        token(TokenType::Ident, "x"),
        token(TokenType::Comma, ","),
        token(TokenType::Ident, "y"),
        token(TokenType::Rparen, ")"),
        token(TokenType::Lbrace, "{"),
        token(TokenType::Ident, "x"),
        token(TokenType::Plus, "+"),
        token(TokenType::Ident, "y"),
        token(TokenType::Semicolon, ";"),
        token(TokenType::Rbrace, "}"),
        token(TokenType::Semicolon, ";"),
        token(TokenType::Let, "let"),
        token(TokenType::Ident, "result"),
        token(TokenType::Assign, "="),
        token(TokenType::Ident, "add"),
        token(TokenType::Lparen, "("),
        token(TokenType::Ident, "five"),
        token(TokenType::Comma, ","),
        token(TokenType::Ident, "ten"),
        token(TokenType::Rparen, ")"),
        token(TokenType::Semicolon, ";"),
    ];
    assert_eq!(lex(input), expected);
}

#[test]
fn next_test_gibberish_code() {
    let input = "
        !-/*5
        5 < 10 > 5

        if (5 < 10) {
            return true;
        } else {
            return false;
        }

        10 != 9
        10 == 10
        ";
    let expected = vec![
        token(TokenType::Bang, "!"),
        token(TokenType::Minus, "-"),
        token(TokenType::Slash, "/"),
        token(TokenType::Asterisk, "*"),
        token(TokenType::Int, "5"),
        token(TokenType::Int, "5"),
        token(TokenType::Lt, "<"),
        token(TokenType::Int, "10"),
        token(TokenType::Gt, ">"),
        token(TokenType::Int, "5"),
        token(TokenType::If, "if"),
        token(TokenType::Lparen, "("),
        token(TokenType::Int, "5"),
        token(TokenType::Lt, "<"),
        token(TokenType::Int, "10"),
        token(TokenType::Rparen, ")"),
        token(TokenType::Lbrace, "{"),
        token(TokenType::Return, "return"),
        token(TokenType::True, "true"),
        token(TokenType::Semicolon, ";"),
        token(TokenType::Rbrace, "}"),
        token(TokenType::Else, "else"),
        token(TokenType::Lbrace, "{"),
        token(TokenType::Return, "return"),
        token(TokenType::False, "false"),
        token(TokenType::Semicolon, ";"),
        token(TokenType::Rbrace, "}"),
        token(TokenType::Int, "10"),
        token(TokenType::Noteq, "!="),
        token(TokenType::Int, "9"),
        token(TokenType::Int, "10"),
        token(TokenType::Eq, "=="),
        token(TokenType::Int, "10"),
    ];
    assert_eq!(lex(input), expected);
}

#[test]
fn lexes_strings_brackets_and_colon() {
    let expected = vec![
        token(TokenType::Lbrace, "{"),
        token(TokenType::String, "name"),
        token(TokenType::Colon, ":"),
        token(TokenType::Lbracket, "["),
        token(TokenType::Int, "1"),
        token(TokenType::Rbracket, "]"),
        token(TokenType::Rbrace, "}"),
    ];
    assert_eq!(lex("{\"name\": [1]}"), expected);
}

#[test]
fn string_literal_keeps_inner_text_and_may_be_empty() {
    assert_eq!(lex("\"hello world\""), vec![token(TokenType::String, "hello world")]);
    assert_eq!(lex("\"\""), vec![token(TokenType::String, "")]);
}

#[test]
fn unterminated_string_runs_to_end_of_input() {
    assert_eq!(lex("\"abc"), vec![token(TokenType::String, "abc")]);
}

#[test]
fn unknown_character_is_illegal_and_lexing_continues() {
    let expected = vec![
        token(TokenType::Int, "1"),
        token(TokenType::Illegal, "@"),
        token(TokenType::Int, "2"),
    ];
    assert_eq!(lex("1 @ 2"), expected);
}

#[test]
fn digits_are_not_part_of_identifiers() {
    let expected = vec![token(TokenType::Ident, "ab"), token(TokenType::Int, "12"), token(TokenType::Ident, "cd")];
    assert_eq!(lex("ab12cd"), expected);
}

#[test]
fn underscore_is_a_letter() {
    assert_eq!(lex("_a_b"), vec![token(TokenType::Ident, "_a_b")]);
    assert!(is_letter('_'));
    assert!(is_letter('z'));
    assert!(!is_letter('1'));
    assert!(!is_letter(' '));
}

#[test]
fn non_ascii_letters_are_letters() {
    assert_eq!(lex("été"), vec![token(TokenType::Ident, "été")]);
}

#[test]
fn whitespace_is_skipped_and_never_emitted() {
    assert_eq!(lex(" \t\r\n "), Vec::<Token>::new());
    assert_eq!(lex(""), Vec::<Token>::new());
    assert_eq!(lex(" \n x \t"), vec![token(TokenType::Ident, "x")]);
}

#[test]
fn next_returns_none_at_the_end_again_and_again() {
    let mut lexer = Lexer::new("a".to_string());
    assert_eq!(lexer.next(), Some(token(TokenType::Ident, "a")));
    assert_eq!(lexer.next(), None);
    assert_eq!(lexer.next(), None);
}

#[test]
fn keywords_are_looked_up() {
    assert_eq!(lookup_ident(&"fn".to_string()), TokenType::Function);
    assert_eq!(lookup_ident(&"let".to_string()), TokenType::Let);
    assert_eq!(lookup_ident(&"if".to_string()), TokenType::If);
    assert_eq!(lookup_ident(&"else".to_string()), TokenType::Else);
    assert_eq!(lookup_ident(&"return".to_string()), TokenType::Return);
    assert_eq!(lookup_ident(&"true".to_string()), TokenType::True);
    assert_eq!(lookup_ident(&"false".to_string()), TokenType::False);
    assert_eq!(lookup_ident(&"lets".to_string()), TokenType::Ident);
}

#[test]
fn two_character_operators_need_one_character_of_lookahead() {
    let expected = vec![
        token(TokenType::Eq, "=="),
        token(TokenType::Assign, "="),
        token(TokenType::Noteq, "!="),
        token(TokenType::Bang, "!"),
    ];
    assert_eq!(lex("=== != !"), expected);
}

#[test]
fn token_names() {
    assert_eq!(TokenType::Semicolon.get_name(), "; Token");
    assert_eq!(TokenType::Ident.get_name(), "Identifier Token");
    assert_eq!(TokenType::Lbracket.get_name(), "[ Token");
    assert_eq!(TokenType::Colon.get_name(), ": Token");
}

#[test]
fn lexing_twice_gives_the_same_tokens() {
    let input = "let x = fn(a) { return a * 2; }; x(21);";
    assert_eq!(lex(input), lex(input));
}
