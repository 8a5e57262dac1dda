use treewalk::eval::{EvalError, MAX_CALL_DEPTH};
use treewalk::object::{Env, Value};
use treewalk::repl::{eval_line, render_result};

fn line(env: &mut Env, input: &str) -> Vec<String> {
    eval_line(input.to_string(), env, MAX_CALL_DEPTH)
}

#[test]
fn shows_returned_values_and_errors_only() {
    let mut env = Env::new(None);
    assert_eq!(line(&mut env, "let a = 5; a + 1;"), Vec::<String>::new());
    assert_eq!(line(&mut env, "return a + 1;"), vec!["6"]);
    assert_eq!(line(&mut env, "foo;"), vec!["Undefined: Identifier not defined"]);
    assert_eq!(line(&mut env, ""), Vec::<String>::new());
}

#[test]
fn goes_on_behind_a_return_and_an_error() {
    let mut env = Env::new(None);
    assert_eq!(
        line(&mut env, "return 1; foo; let x = 2; return x;"),
        vec!["1", "Undefined: Identifier not defined", "2"]
    );
}

#[test]
fn environment_lasts_from_line_to_line() {
    let mut env = Env::new(None);
    assert_eq!(line(&mut env, "let add = fn(x, y) { return x + y; };"), Vec::<String>::new());
    assert_eq!(line(&mut env, "return add(3, 4);"), vec!["7"]);
    assert_eq!(line(&mut env, "return [add(1, 1), \"s\"];"), vec!["[2, s]"]);
}

#[test]
fn parse_errors_are_shown_with_their_kind() {
    let mut env = Env::new(None);
    assert_eq!(
        line(&mut env, "let = 1;"),
        vec!["ParserError: Unexpected =, expected Identifier Token"]
    );
}

#[test]
fn every_parse_error_of_a_line_is_shown() {
    let mut env = Env::new(None);
    assert_eq!(
        line(&mut env, ") ]"),
        vec![
            "ParserError: no prefix parse function for ) Token",
            "ParserError: no prefix parse function for ] Token"
        ]
    );
}

#[test]
fn render_result_of_each_kind() {
    assert_eq!(render_result(&Ok(Value::integer(1))), None);
    assert_eq!(
        render_result(&Err(EvalError::OutOfBounds("gone".to_string()))),
        Some("OutOfBounds: gone".to_string())
    );
}
