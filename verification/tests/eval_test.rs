use treewalk::ast::Program;
use treewalk::eval::{
    bang_op, get_indexed_array, infix_eval_bool, infix_eval_int, infix_eval_str, minus_op, wrap_eval_node, Eval,
    EvalError, EvalNode, MAX_CALL_DEPTH,
};
use treewalk::lexer::Lexer;
use treewalk::object::{Env, Obj, ObjType, Value};
use treewalk::parser::Parser;

fn parse(input: &str) -> Program {
    Parser::new(Lexer::new(input.to_string())).parse_program()
}

/// The value of the program.
fn run(input: &str) -> Result<Value, EvalError> {
    let mut env = Env::new(None);
    parse(input).eval(&mut env, MAX_CALL_DEPTH)
}

/// The value of the last statement, the statements before it evaluated in
/// order in one environment.
fn last(input: &str) -> Result<Value, EvalError> {
    let mut env = Env::new(None);
    let program = parse(input);
    let mut result = Ok(Value::null());
    for statement in &program.statements {
        result = match statement {
            Ok(s) => s.eval(&mut env, MAX_CALL_DEPTH),
            Err(e) => Err(EvalError::ParserError(e.clone())),
        };
    }
    result
}

fn array(items: &[i64]) -> Value {
    Value::array(items.iter().map(|n| Value::integer(*n)).collect())
}

#[test]
fn scenario_bindings_and_precedence() {
    assert_eq!(last("let a = 5; let b = 10; a + b * 2;"), Ok(Value::integer(25)));
    assert_eq!(run("let a = 5; let b = 10; return a + b * 2;"), Ok(Value::integer(25)));
}

#[test]
fn program_without_return_is_null() {
    assert_eq!(run("let a = 5; let b = 10; a + b * 2;"), Ok(Value::null()));
    assert_eq!(run(""), Ok(Value::null()));
}

#[test]
fn scenario_function_call() {
    assert_eq!(
        last("let add = fn(x, y) { return x + y; }; add(3, 4);"),
        Ok(Value::integer(7))
    );
}

#[test]
fn block_without_return_is_null() {
    assert_eq!(last("let add = fn(x, y) { x + y; }; add(3, 4);"), Ok(Value::null()));
    assert_eq!(last("if (true) { 1; };"), Ok(Value::null()));
}

#[test]
fn scenario_closure() {
    assert_eq!(
        last(
            "let newAdder = fn(x) { return fn(y) { return x + y; }; }; \
             let addTwo = newAdder(2); addTwo(5);"
        ),
        Ok(Value::integer(7))
    );
}

#[test]
fn scenario_if_with_return() {
    assert_eq!(run("if (1 < 2) { return 10; } else { return 20; };"), Ok(Value::integer(10)));
    assert_eq!(run("if (2 < 1) { return 10; } else { return 20; };"), Ok(Value::integer(20)));
}

#[test]
fn scenario_push_makes_a_new_array() {
    assert_eq!(last("let a = [1, 2, 3]; push(a, 4);"), Ok(array(&[1, 2, 3, 4])));
    assert_eq!(last("let a = [1, 2, 3]; push(a, 4); a;"), Ok(array(&[1, 2, 3])));
}

#[test]
fn scenario_hash_lookup() {
    let h = "let h = {\"name\": \"x\", 1: true}; ";
    assert_eq!(last(&format!("{}h[\"name\"];", h)), Ok(Value::string("x".to_string())));
    assert_eq!(last(&format!("{}h[1];", h)), Ok(Value::boolean(true)));
    assert!(matches!(last(&format!("{}h[2];", h)), Err(EvalError::OutOfBounds(_))));
}

#[test]
fn scenario_len() {
    assert_eq!(last("len(\"hello\");"), Ok(Value::integer(5)));
    assert_eq!(last("len([1,2,3]);"), Ok(Value::integer(3)));
    assert!(matches!(last("len(1);"), Err(EvalError::UnexpectedNode(_))));
}

#[test]
fn scenario_unbound_identifier() {
    assert!(matches!(last("foo;"), Err(EvalError::Undefined(_))));
    assert!(matches!(run("foo;"), Err(EvalError::Undefined(_))));
}

#[test]
fn division_by_zero_is_an_error() {
    assert!(matches!(last("1 / 0;"), Err(EvalError::UnexpectedNode(_))));
    assert!(matches!(last("0 / 0;"), Err(EvalError::UnexpectedNode(_))));
}

#[test]
fn division_truncates_toward_zero() {
    assert_eq!(last("7 / 2;"), Ok(Value::integer(3)));
    assert_eq!(last("-7 / 2;"), Ok(Value::integer(-3)));
    assert_eq!(last("7 / -2;"), Ok(Value::integer(-3)));
    assert_eq!(last("-7 / -2;"), Ok(Value::integer(3)));
    assert_eq!(last("0 / 5;"), Ok(Value::integer(0)));
}

#[test]
fn integer_overflow_wraps() {
    assert_eq!(last("9223372036854775807 + 1;"), Ok(Value::integer(i64::MIN)));
    assert_eq!(last("-9223372036854775807 - 2;"), Ok(Value::integer(i64::MAX)));
    assert_eq!(last("9223372036854775807 * 2;"), Ok(Value::integer(-2)));
    assert_eq!(last("(-9223372036854775807 - 1) / -1;"), Ok(Value::integer(i64::MIN)));
    assert_eq!(last("-(-9223372036854775807 - 1);"), Ok(Value::integer(i64::MIN)));
}

#[test]
fn indexing_an_empty_array() {
    assert!(matches!(last("[][0];"), Err(EvalError::OutOfBounds(_))));
    assert!(matches!(last("rest([1])[0];"), Err(EvalError::OutOfBounds(_))));
}

#[test]
fn array_index_bounds() {
    assert_eq!(last("[1, 2, 3][0];"), Ok(Value::integer(1)));
    assert_eq!(last("[1, 2, 3][2];"), Ok(Value::integer(3)));
    assert!(matches!(last("[1, 2, 3][3];"), Err(EvalError::OutOfBounds(_))));
    assert!(matches!(last("[1, 2, 3][-1];"), Err(EvalError::OutOfBounds(_))));
    assert!(matches!(last("[1, 2, 3][true];"), Err(EvalError::UnexpectedNode(_))));
    assert!(matches!(last("1[0];"), Err(EvalError::UnexpectedNode(_))));
}

#[test]
fn hash_lookup_of_absent_key() {
    assert!(matches!(last("{}[1];"), Err(EvalError::OutOfBounds(_))));
    assert!(matches!(last("{1: 2}[\"1\"];"), Err(EvalError::OutOfBounds(_))));
}

#[test]
fn hash_literal_with_duplicate_key() {
    assert_eq!(last("{1: 2, 1: 3}[1];"), Ok(Value::integer(3)));
    assert_eq!(last("{\"a\": 1, \"b\": 2, \"a\": 3}[\"a\"];"), Ok(Value::integer(3)));
    assert_eq!(last("len([{1: 2, 1: 3}]);"), Ok(Value::integer(1)));
    assert_eq!(last("{1: 2, 1: 3};").unwrap().inspect_obj(), "[1 : 3]");
}

#[test]
fn boolean_and_integer_keys_do_not_collide() {
    let h = "let h = {1: \"one\", true: \"yes\", 0: \"zero\", false: \"no\"}; ";
    assert_eq!(last(&format!("{}h[1];", h)), Ok(Value::string("one".to_string())));
    assert_eq!(last(&format!("{}h[true];", h)), Ok(Value::string("yes".to_string())));
    assert_eq!(last(&format!("{}h[0];", h)), Ok(Value::string("zero".to_string())));
    assert_eq!(last(&format!("{}h[false];", h)), Ok(Value::string("no".to_string())));
}

#[test]
fn negative_integers_are_keys() {
    assert_eq!(last("{-1: 5, 1: 6}[-1];"), Ok(Value::integer(5)));
}

#[test]
fn unhashable_keys() {
    assert!(matches!(last("{[1]: 2};"), Err(EvalError::Unhashable(_))));
    assert!(matches!(last("{fn() { 1; }: 2};"), Err(EvalError::Unhashable(_))));
    assert!(matches!(last("{1: 2}[[1]];"), Err(EvalError::UnexpectedNode(_))));
}

#[test]
fn all_pairs_are_evaluated_before_keys_are_hashed() {
    assert!(matches!(last("{[1]: 2, foo: 3};"), Err(EvalError::Undefined(_))));
}

#[test]
fn precedence_in_values() {
    assert_eq!(last("1 + 2 * 3;"), Ok(Value::integer(7)));
    assert_eq!(last("2 * 3 + 1;"), Ok(Value::integer(7)));
    assert_eq!(last("true == 1 < 2;"), Ok(Value::boolean(true)));
    assert_eq!(last("false == 2 < 1;"), Ok(Value::boolean(true)));
}

#[test]
fn closure_uses_the_bindings_of_its_literal() {
    assert_eq!(
        last("let x = 1; let f = fn() { return x; }; let x = 2; f();"),
        Ok(Value::integer(1))
    );
    assert_eq!(
        last(
            "let x = 1; let f = fn() { return x; }; \
             let g = fn(x) { return f(); }; g(100);"
        ),
        Ok(Value::integer(1))
    );
}

#[test]
fn function_does_not_see_itself() {
    assert!(matches!(
        last("let f = fn(n) { return f(n); }; f(1);"),
        Err(EvalError::Undefined(_))
    ));
}

#[test]
fn return_leaves_nested_blocks() {
    assert_eq!(
        last("let f = fn(x) { if (x) { if (x) { return 1; }; return 2; }; return 3; }; f(true);"),
        Ok(Value::integer(1))
    );
    assert_eq!(
        last("let f = fn(x) { if (x) { if (x) { return 1; }; return 2; }; return 3; }; f(false);"),
        Ok(Value::integer(3))
    );
    assert_eq!(run("if (true) { if (true) { return 5; }; }; return 6;"), Ok(Value::integer(5)));
    assert_eq!(run("return 1; return 2;"), Ok(Value::integer(1)));
}

#[test]
fn block_keeps_the_return_marker() {
    let body = parse("if (true) { return 5; };");
    let mut env = Env::new(None);
    let r = match &body.statements[0] {
        Ok(s) => s.eval(&mut env, MAX_CALL_DEPTH),
        Err(e) => panic!("{:?}", e),
    };
    assert_eq!(r.get_type(), ObjType::ReturnValue);
    assert_eq!(r.inspect_obj(), "5");
}

#[test]
fn error_ends_a_sequence() {
    assert!(matches!(last("[1, foo, 1 / 0];"), Err(EvalError::Undefined(_))));
    assert!(matches!(last("[1, 1 / 0, foo];"), Err(EvalError::UnexpectedNode(_))));
    assert!(matches!(last("len(foo, (1 / 0));"), Err(EvalError::Undefined(_))));
    assert!(matches!(last("{1: foo, 2: 1 / 0};"), Err(EvalError::Undefined(_))));
    assert!(matches!(last("{foo: 1 / 0};"), Err(EvalError::Undefined(_))));
    assert!(matches!(run("foo; return 1;"), Err(EvalError::Undefined(_))));
}

#[test]
fn statement_behind_an_error_is_not_evaluated() {
    let mut env = Env::new(None);
    let program = parse("foo; let x = 1;");
    assert!(program.eval(&mut env, MAX_CALL_DEPTH).is_err());
    assert!(env.get("x".to_string()).is_err());
    let mut env = Env::new(None);
    let program = parse("let f = fn() { foo; let y = 1; }; [f(), bar];");
    assert!(program.eval(&mut env, MAX_CALL_DEPTH).is_err());
}

#[test]
fn parse_error_is_raised_when_its_statement_is_reached() {
    assert!(matches!(run("let = 1;"), Err(EvalError::ParserError(_))));
    assert_eq!(run("return 1; let = 2;"), Ok(Value::integer(1)));
    let r = run("let = 1;");
    assert_eq!(r.get_type(), ObjType::Error);
    match r {
        Err(e) => {
            assert_eq!(e.get_err_type(), "ParserError");
            assert_eq!(e.get_err_msg(), "Unexpected =, expected Identifier Token");
        }
        Ok(v) => panic!("{:?}", v),
    }
}

#[test]
fn if_needs_a_boolean() {
    assert!(matches!(last("if (1) { 1; };"), Err(EvalError::UnexpectedNode(_))));
    assert!(matches!(last("if (\"\") { 1; };"), Err(EvalError::UnexpectedNode(_))));
    assert_eq!(last("if (false) { return 1; };"), Ok(Value::null()));
}

#[test]
fn if_blocks_share_the_environment() {
    assert_eq!(last("if (true) { let x = 5; }; x;"), Ok(Value::integer(5)));
}

#[test]
fn function_body_has_a_frame_of_its_own() {
    assert!(matches!(
        last("let f = fn() { let inner = 1; return inner; }; f(); inner;"),
        Err(EvalError::Undefined(_))
    ));
}

#[test]
fn prefix_operators() {
    assert_eq!(last("!true;"), Ok(Value::boolean(false)));
    assert_eq!(last("!false;"), Ok(Value::boolean(true)));
    assert_eq!(last("!5;"), Ok(Value::boolean(false)));
    assert_eq!(last("!\"false\";"), Ok(Value::boolean(false)));
    assert_eq!(last("!!true;"), Ok(Value::boolean(true)));
    assert_eq!(last("let n = if (false) { 1; }; !n;"), Ok(Value::boolean(true)));
    assert_eq!(last("-5;"), Ok(Value::integer(-5)));
    assert_eq!(last("--5;"), Ok(Value::integer(5)));
    assert!(matches!(last("-true;"), Err(EvalError::UnexpectedNode(_))));
}

#[test]
fn infix_operators() {
    assert_eq!(last("5 - 7;"), Ok(Value::integer(-2)));
    assert_eq!(last("5 < 7;"), Ok(Value::boolean(true)));
    assert_eq!(last("5 > 7;"), Ok(Value::boolean(false)));
    assert_eq!(last("5 == 5;"), Ok(Value::boolean(true)));
    assert_eq!(last("5 != 5;"), Ok(Value::boolean(false)));
    assert_eq!(last("true == true;"), Ok(Value::boolean(true)));
    assert_eq!(last("true != false;"), Ok(Value::boolean(true)));
    assert_eq!(last("\"ab\" + \"cd\";"), Ok(Value::string("abcd".to_string())));
    assert!(matches!(last("true + true;"), Err(EvalError::UnexpectedNode(_))));
    assert!(matches!(last("\"a\" - \"b\";"), Err(EvalError::Undefined(_))));
    assert!(matches!(last("\"a\" == \"a\";"), Err(EvalError::Undefined(_))));
}

#[test]
fn mixed_operands() {
    match last("1 + true;") {
        Err(EvalError::UnexpectedNode(m)) => {
            assert_eq!(m, "Integer + Boolean :Infix operation undefined")
        }
        other => panic!("{:?}", other),
    }
    match last("[1] == [1];") {
        Err(EvalError::UnexpectedNode(m)) => {
            assert_eq!(m, "Array == Array :Infix operation undefined")
        }
        other => panic!("{:?}", other),
    }
}

#[test]
fn operand_functions() {
    let op = |s: &str| s.to_string();
    assert_eq!(infix_eval_int(op("+"), Value::integer(3), Value::integer(4)), Ok(Value::integer(7)));
    assert_eq!(infix_eval_int(op("*"), Value::integer(3), Value::integer(4)), Ok(Value::integer(12)));
    assert!(matches!(
        infix_eval_int(op("%"), Value::integer(3), Value::integer(4)),
        Err(EvalError::UnexpectedNode(_))
    ));
    assert_eq!(
        infix_eval_int(op("+"), Value::boolean(true), Value::integer(4)),
        Err(EvalError::UnexpectedNode("+ must operate on an integer to the left".to_string()))
    );
    assert_eq!(
        infix_eval_int(op("+"), Value::integer(4), Value::null()),
        Err(EvalError::UnexpectedNode("+ must operate on an integer to the right".to_string()))
    );
    assert_eq!(
        infix_eval_bool(op("=="), Value::boolean(true), Value::boolean(false)),
        Ok(Value::boolean(false))
    );
    assert!(matches!(
        infix_eval_bool(op("<"), Value::boolean(true), Value::boolean(false)),
        Err(EvalError::UnexpectedNode(_))
    ));
    assert_eq!(
        infix_eval_str(op("-"), Value::string(op("a")), Value::string(op("b"))),
        Err(EvalError::Undefined("String - String Undefined".to_string()))
    );
    assert_eq!(bang_op(Value::null()), Ok(Value::boolean(true)));
    assert_eq!(bang_op(Value::integer(0)), Ok(Value::boolean(false)));
    assert_eq!(minus_op(Value::integer(i64::MIN)), Ok(Value::integer(i64::MIN)));
    assert_eq!(get_indexed_array(array(&[7, 8]), Value::integer(1)), Ok(Value::integer(8)));
}

#[test]
fn calling_what_is_no_function() {
    assert!(matches!(last("1(2);"), Err(EvalError::UnexpectedNode(_))));
    assert!(matches!(last("let x = \"f\"; x();"), Err(EvalError::UnexpectedNode(_))));
}

#[test]
fn arguments_and_parameters_are_zipped() {
    assert_eq!(last("let f = fn(x) { return x; }; f(1, 2);"), Ok(Value::integer(1)));
    assert!(matches!(
        last("let f = fn(x, y) { return y; }; f(1);"),
        Err(EvalError::Undefined(_))
    ));
    assert_eq!(last("let f = fn(x, x) { return x; }; f(1, 2);"), Ok(Value::integer(2)));
}

#[test]
fn builtins_come_before_bindings() {
    assert_eq!(last("let len = 5; len([1]);"), Ok(Value::integer(1)));
    assert_eq!(last("let f = fn(first) { return first([9]); }; f(0);"), Ok(Value::integer(9)));
}

#[test]
fn first_last_rest() {
    assert_eq!(last("first([1, 2, 3]);"), Ok(Value::integer(1)));
    assert_eq!(last("last([1, 2, 3]);"), Ok(Value::integer(3)));
    assert_eq!(last("rest([1, 2, 3]);"), Ok(array(&[2, 3])));
    assert_eq!(last("rest([1]);"), Ok(array(&[])));
    assert!(matches!(last("first([]);"), Err(EvalError::IncorrectArgs(_))));
    assert!(matches!(last("last([]);"), Err(EvalError::IncorrectArgs(_))));
    assert!(matches!(last("rest([]);"), Err(EvalError::IncorrectArgs(_))));
    assert!(matches!(last("first(1);"), Err(EvalError::IncorrectArgs(_))));
    assert!(matches!(last("first([1], [2]);"), Err(EvalError::IncorrectArgs(_))));
    assert!(matches!(last("push([1]);"), Err(EvalError::IncorrectArgs(_))));
    assert!(matches!(last("push(1, 1);"), Err(EvalError::IncorrectArgs(_))));
    assert!(matches!(last("len();"), Err(EvalError::IncorrectArgs(_))));
}

#[test]
fn len_counts_bytes() {
    assert_eq!(last("len(\"\");"), Ok(Value::integer(0)));
    assert_eq!(last("len(\"é\");"), Ok(Value::integer(2)));
    assert_eq!(last("len([]);"), Ok(Value::integer(0)));
}

#[test]
fn call_depth_is_bounded() {
    let program = parse(
        "let down = fn(f, n) { if (n == 0) { return 0; }; return f(f, (n - 1)); }; \
         return down(down, 3);",
    );
    let mut env = Env::new(None);
    assert_eq!(program.eval(&mut env, 4), Ok(Value::integer(0)));
    let mut env = Env::new(None);
    assert_eq!(
        program.eval(&mut env, 3),
        Err(EvalError::IncorrectArgs("call depth limit exceeded".to_string()))
    );
    let mut env = Env::new(None);
    assert!(matches!(
        parse("let w = fn(f) { return f(f); }; w(w);").eval(&mut env, MAX_CALL_DEPTH),
        Err(EvalError::IncorrectArgs(_))
    ));
    let mut env = Env::new(None);
    assert!(matches!(
        parse("fn() { 1; }();").eval(&mut env, 0),
        Err(EvalError::IncorrectArgs(_))
    ));
}

#[test]
fn builtin_needs_no_depth() {
    let mut env = Env::new(None);
    assert_eq!(parse("return len([1]);").eval(&mut env, 0), Ok(Value::integer(1)));
}

#[test]
fn evaluation_is_deterministic() {
    let input = "let h = {\"a\": [1, 2], 3: fn(x) { return x * 2; }}; return h[3](h[\"a\"][1]);";
    assert_eq!(run(input), run(input));
    assert_eq!(run(input), Ok(Value::integer(4)));
}

#[test]
fn let_is_null_and_binds() {
    assert_eq!(last("let x = 1;"), Ok(Value::null()));
    assert_eq!(last("let x = 1; let x = x + 1; x;"), Ok(Value::integer(2)));
}

#[test]
fn eval_wrapper_evaluates_its_node() {
    let mut env = Env::new(None);
    let wrapped = Eval { node: parse("return 3;") };
    assert_eq!(wrapped.eval(&mut env, MAX_CALL_DEPTH), Ok(Value::integer(3)));
    let wrapped = wrap_eval_node(parse("return 4;"));
    assert_eq!(wrapped.eval(&mut env, MAX_CALL_DEPTH), Ok(Value::integer(4)));
}

#[test]
fn index_is_evaluated_before_the_indexed_expression() {
    assert!(matches!(last("foo[1 / 0];"), Err(EvalError::UnexpectedNode(_))));
}

#[test]
fn error_kinds_and_messages() {
    let e = EvalError::OutOfBounds("m".to_string());
    assert_eq!(e.get_err_type(), "OutOfBounds");
    assert_eq!(e.get_err_msg(), "m");
    assert_eq!(EvalError::Unhashable("u".to_string()).get_err_type(), "Unhashable");
    assert_eq!(EvalError::Unhashable("u".to_string()).get_err_msg(), "u");
    assert_eq!(EvalError::Undefined("u".to_string()).get_err_type(), "Undefined");
    assert_eq!(EvalError::IncorrectArgs("u".to_string()).get_err_type(), "IncorrectArgs");
    assert_eq!(EvalError::UnexpectedNode("u".to_string()).get_err_type(), "UnexpectedNode");
}
