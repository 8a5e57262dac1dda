use treewalk::ast::{Expression, Node, Program, Statement};
use treewalk::lexer::Lexer;
use treewalk::parser::{get_precedence, parse as parse_source, Parser, ParserError};
use treewalk::token::TokenType;

fn parse(input: &str) -> Program {
    Parser::new(Lexer::new(input.to_string())).parse_program()
}

fn parse_one(input: &str) -> Result<Statement, ParserError> {
    let mut program = parse(input);
    assert_eq!(program.statements.len(), 1, "{:?}", program.statements);
    program.statements.remove(0)
}

fn rendered(input: &str) -> String {
    match parse_one(input) {
        Ok(statement) => statement.string(),
        Err(e) => panic!("{:?}", e),
    }
}

#[test]
fn test_let_statements() {
    let input = "
                let x = 5;
                let y = 10;
                let foobar = 5165157;
        ";
    let l = Lexer::new(input.to_string());
    let p = Parser::new(l);
    let program = p.parse_program();
    let program = program.statements;

    assert_eq!(program.len(), 3);

    let expected = vec![("x", "5"), ("y", "10"), ("foobar", "5165157")];
    let mut i = 0;
    for stmt in program {
        assert_eq!(stmt.token_literal(), "let");
        match stmt {
            Ok(Statement::Let(l)) => {
                assert_eq!(l.name.value, expected[i].0);
                assert_eq!(l.value.string(), expected[i].1);
            }
            other => panic!("{:?}", other),
        }
        i += 1;
    }
}

#[test]
fn product_binds_more_strongly_than_sum() {
    assert_eq!(rendered("a + b * c;"), "(a+(b*c))");
    assert_eq!(rendered("a * b + c;"), "((a*b)+c)");
    assert_eq!(rendered("1 + 2 * 3;"), "(1+(2*3))");
}

#[test]
fn comparison_binds_more_strongly_than_equality() {
    assert_eq!(rendered("a == b < c;"), "(a==(b<c))");
    assert_eq!(rendered("a < b == c;"), "((a<b)==c)");
}

#[test]
fn operators_of_one_level_group_to_the_left() {
    assert_eq!(rendered("a - b - c;"), "((a-b)-c)");
    assert_eq!(rendered("a / b * c;"), "((a/b)*c)");
}

#[test]
fn prefix_binds_more_strongly_than_infix() {
    assert_eq!(rendered("-a * b;"), "((-a)*b)");
    assert_eq!(rendered("!a == b;"), "((!a)==b)");
}

#[test]
fn parentheses_group() {
    assert_eq!(rendered("(a + b) * c;"), "((a+b)*c)");
}

#[test]
fn call_and_index_bind_most_strongly() {
    assert_eq!(rendered("a + f(b);"), "(a+f(b ,))");
    assert_eq!(rendered("a * b[1];"), "(a*b[1])");
    assert_eq!(rendered("f(a)[1];"), "f(a ,)[1]");
}

#[test]
fn precedence_table() {
    assert_eq!(get_precedence(&TokenType::Semicolon), 1);
    assert_eq!(get_precedence(&TokenType::Eq), 2);
    assert_eq!(get_precedence(&TokenType::Noteq), 2);
    assert_eq!(get_precedence(&TokenType::Lt), 3);
    assert_eq!(get_precedence(&TokenType::Gt), 3);
    assert_eq!(get_precedence(&TokenType::Plus), 4);
    assert_eq!(get_precedence(&TokenType::Minus), 4);
    assert_eq!(get_precedence(&TokenType::Asterisk), 5);
    assert_eq!(get_precedence(&TokenType::Slash), 5);
    assert_eq!(get_precedence(&TokenType::Lparen), 7);
    assert_eq!(get_precedence(&TokenType::Lbracket), 8);
}

#[test]
fn return_statement() {
    match parse_one("return 5;") {
        Ok(Statement::Return(r)) => {
            assert_eq!(r.token_literal(), "return");
            assert_eq!(r.string(), "return 5;");
        }
        other => panic!("{:?}", other),
    }
}

#[test]
fn let_statement_renders() {
    assert_eq!(rendered("let x = 1 + 2;"), "let x = (1+2);");
}

#[test]
fn if_with_and_without_else() {
    match parse_one("if (x < y) { x; } else { y; };") {
        Ok(Statement::Expression(s)) => match s.expression {
            Expression::If(n) => {
                assert_eq!(n.condition.string(), "(x<y)");
                assert_eq!(n.consequence.statements.len(), 1);
                assert!(n.alternative.is_some());
            }
            other => panic!("{:?}", other),
        },
        other => panic!("{:?}", other),
    }
    match parse_one("if (x) { 1; };") {
        Ok(Statement::Expression(s)) => match s.expression {
            Expression::If(n) => assert!(n.alternative.is_none()),
            other => panic!("{:?}", other),
        },
        other => panic!("{:?}", other),
    }
}

#[test]
fn function_literal_parameters() {
    for (input, names) in [
        ("fn() { 1; };", vec![]),
        ("fn(x) { 1; };", vec!["x"]),
        ("fn(x, y, z) { 1; };", vec!["x", "y", "z"]),
    ] {
        match parse_one(input) {
            Ok(Statement::Expression(s)) => match s.expression {
                Expression::Function(f) => {
                    let got: Vec<String> = f.params.iter().map(|p| p.value.clone()).collect();
                    assert_eq!(got, names);
                }
                other => panic!("{:?}", other),
            },
            other => panic!("{:?}", other),
        }
    }
}

#[test]
fn parameters_must_be_separated_by_commas() {
    assert!(matches!(parse("fn(x y) { 1; };").statements[0], Err(ParserError::UnexpectedToken(_))));
    assert!(matches!(parse("fn(x,) { 1; };").statements[0], Err(ParserError::UnexpectedToken(_))));
}

#[test]
fn call_arguments() {
    match parse_one("add(1, x, \"s\");") {
        Ok(Statement::Expression(s)) => match s.expression {
            Expression::Call(c) => {
                assert_eq!(c.function.string(), "add");
                assert_eq!(c.args.len(), 3);
            }
            other => panic!("{:?}", other),
        },
        other => panic!("{:?}", other),
    }
    match parse_one("f();") {
        Ok(Statement::Expression(s)) => match s.expression {
            Expression::Call(c) => assert_eq!(c.args.len(), 0),
            other => panic!("{:?}", other),
        },
        other => panic!("{:?}", other),
    }
}

#[test]
fn call_argument_with_an_operator_needs_parentheses() {
    assert!(matches!(parse("f(1 + 2);").statements[0], Err(ParserError::UnhandledError)));
    assert_eq!(rendered("f((1 + 2), a[0]);"), "f((1+2) ,a[0] ,)");
}

#[test]
fn call_arguments_take_no_trailing_comma() {
    assert!(matches!(parse("f(1,);").statements[0], Err(ParserError::NoPrefixParseFn(_))));
}

#[test]
fn array_literals() {
    match parse_one("[1, 2 * 2, x];") {
        Ok(Statement::Expression(s)) => match s.expression {
            Expression::Array(a) => {
                assert_eq!(a.mems.len(), 3);
                assert_eq!(a.mems[1].string(), "(2*2)");
            }
            other => panic!("{:?}", other),
        },
        other => panic!("{:?}", other),
    }
    match parse_one("[];") {
        Ok(Statement::Expression(s)) => match s.expression {
            Expression::Array(a) => assert_eq!(a.mems.len(), 0),
            other => panic!("{:?}", other),
        },
        other => panic!("{:?}", other),
    }
    assert!(matches!(parse("[1,];").statements[0], Err(ParserError::NoPrefixParseFn(_))));
}

#[test]
fn hash_literals() {
    match parse_one("let h = {\"a\": 1, 2: true};") {
        Ok(Statement::Let(l)) => match l.value {
            Expression::Hash(h) => {
                assert_eq!(h.pairs.len(), 2);
                assert_eq!(h.pairs[0].0.string(), "a");
                assert_eq!(h.pairs[1].1.string(), "true");
                assert_eq!(h.string(), "{, a: 1, 2: true}");
            }
            other => panic!("{:?}", other),
        },
        other => panic!("{:?}", other),
    }
    match parse_one("let h = {};") {
        Ok(Statement::Let(l)) => match l.value {
            Expression::Hash(h) => assert_eq!(h.pairs.len(), 0),
            other => panic!("{:?}", other),
        },
        other => panic!("{:?}", other),
    }
}

#[test]
fn index_expression() {
    assert_eq!(rendered("a[1 + 1];"), "a[(1+1)]");
}

#[test]
fn missing_semicolon_is_an_error() {
    let program = parse("let x = 5 let y = 6;");
    assert!(matches!(program.statements[0], Err(ParserError::UnexpectedToken(_))));
}

#[test]
fn expression_at_end_of_input_is_an_error() {
    let program = parse("1 + 2");
    assert_eq!(program.statements.len(), 1);
    assert!(matches!(program.statements[0], Err(ParserError::UnexpectedEOF(_))));
}

#[test]
fn no_prefix_parse_function() {
    match &parse(") 1;").statements[0] {
        Err(ParserError::NoPrefixParseFn(m)) => {
            assert_eq!(m, "no prefix parse function for ) Token")
        }
        other => panic!("{:?}", other),
    }
}

#[test]
fn unexpected_token_message() {
    match &parse("let 5 = 1;").statements[0] {
        Err(e) => assert_eq!(e.get_err_msg(), "Unexpected 5, expected Identifier Token"),
        other => panic!("{:?}", other),
    }
}

#[test]
fn integer_literal_out_of_range() {
    match &parse("9223372036854775808;").statements[0] {
        Err(ParserError::IntParseError(m)) => {
            assert_eq!(m, "Could not parse 9223372036854775808 as integer")
        }
        other => panic!("{:?}", other),
    }
    assert!(parse("9223372036854775807;").statements[0].is_ok());
}

#[test]
fn parser_goes_on_behind_an_error() {
    let program = parse("let = 1; let y = 2;");
    assert!(program.statements[0].is_err());
    let last = program.statements.last().unwrap();
    match last {
        Ok(Statement::Let(l)) => assert_eq!(l.name.value, "y"),
        other => panic!("{:?}", other),
    }
}

#[test]
fn error_inside_a_block_stands_in_the_block() {
    match parse_one("fn() { let = 1; return 2; };") {
        Ok(Statement::Expression(s)) => match s.expression {
            Expression::Function(f) => {
                assert!(f.body.statements[0].is_err());
                assert!(matches!(f.body.statements.last(), Some(Ok(Statement::Return(_)))));
            }
            other => panic!("{:?}", other),
        },
        other => panic!("{:?}", other),
    }
}

#[test]
fn unclosed_block_is_an_error() {
    let program = parse("fn() { 1;");
    assert!(matches!(program.statements[0], Err(ParserError::UnexpectedEOF(_))));
}

#[test]
fn empty_input_is_an_empty_program() {
    assert_eq!(parse("").statements.len(), 0);
    assert_eq!(parse("   \n ").statements.len(), 0);
    assert_eq!(parse("").token_literal(), "");
    assert_eq!(parse("").string(), "");
}

#[test]
fn next_gives_one_statement_at_a_time() {
    let mut parser = Parser::new(Lexer::new("1; 2;".to_string()));
    assert!(matches!(parser.next(), Some(Ok(Statement::Expression(_)))));
    assert!(matches!(parser.next(), Some(Ok(Statement::Expression(_)))));
    assert!(parser.next().is_none());
    assert!(parser.next().is_none());
}

#[test]
fn parsing_twice_gives_the_same_tree() {
    let input = "let f = fn(x) { if (x < 1) { return [x, {\"k\": -x}]; }; }; f(2)[0];";
    assert_eq!(parse(input), parse(input));
}

#[test]
fn program_renders_each_statement_on_a_line() {
    assert_eq!(parse("let x = 1; x;").string(), "\nlet x = 1;\nx");
    assert_eq!(parse("let x = 1; x;").token_literal(), "let");
}

#[test]
fn function_and_if_render() {
    assert_eq!(rendered("fn(x, y) { x; };"), "fn(x,y,)\nx");
    assert_eq!(rendered("if (a) { b; } else { c; };"), "if a \nb\nc");
    assert_eq!(rendered("[1, 2];"), "12");
    assert_eq!(rendered("true;"), "true");
}

#[test]
fn clone_keeps_the_tree() {
    let program = parse("let f = fn(x) { return x + 1; }; f([1, {2: 3}][0]);");
    assert_eq!(program.clone(), program);
}

#[test]
fn parse_error_messages() {
    assert_eq!(ParserError::UnhandledError.get_err_msg(), "Encoutered an unexpected Error");
    assert_eq!(ParserError::UnexpectedEOF("a".to_string()).get_err_msg(), "a");
    assert_eq!(ParserError::UnexpectedToken("b".to_string()).get_err_msg(), "b");
    assert_eq!(ParserError::IntParseError("c".to_string()).get_err_msg(), "c");
    assert_eq!(ParserError::NoPrefixParseFn("d".to_string()).get_err_msg(), "d");
    assert_eq!(ParserError::NoInfixParseFn("e".to_string()).get_err_msg(), "e");
}

#[test]
fn source_text_parses_to_its_program() {
    let input = "let x = [1, 2][0]; return x;";
    assert_eq!(parse_source(input.to_string()), parse(input));
    assert_eq!(parse_source(input.to_string()).statements.len(), 2);
}
