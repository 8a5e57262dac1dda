use treewalk::builtins::{find_builtin, first_fn, get_builtins, last_fn, len_fn, push_fn, rest_fn};
use treewalk::eval::{EvalError, EvalNode, MAX_CALL_DEPTH};
use treewalk::lexer::Lexer;
use treewalk::object::{
    Boolean, BuiltinFn, Env, HashKey, HashPair, Hashable, Integer, Obj, ObjType, StringObj, Value,
};
use treewalk::parser::Parser;
use treewalk::text::{int_to_string, parse_decimal};

fn last(input: &str) -> Result<Value, EvalError> {
    let mut env = Env::new(None);
    let program = Parser::new(Lexer::new(input.to_string())).parse_program();
    let mut result = Ok(Value::null());
    for statement in &program.statements {
        result = match statement {
            Ok(s) => s.eval(&mut env, MAX_CALL_DEPTH),
            Err(e) => Err(EvalError::ParserError(e.clone())),
        };
    }
    result
}

#[test]
fn inspect_scalars() {
    assert_eq!(Value::integer(42).inspect_obj(), "42");
    assert_eq!(Value::integer(-42).inspect_obj(), "-42");
    assert_eq!(Value::integer(0).inspect_obj(), "0");
    assert_eq!(Value::integer(i64::MIN).inspect_obj(), "-9223372036854775808");
    assert_eq!(Value::integer(i64::MAX).inspect_obj(), "9223372036854775807");
    assert_eq!(Value::boolean(true).inspect_obj(), "true");
    assert_eq!(Value::boolean(false).inspect_obj(), "false");
    assert_eq!(Value::string("a b".to_string()).inspect_obj(), "a b");
    assert_eq!(Value::null().inspect_obj(), "null");
}

#[test]
fn inspect_containers() {
    assert_eq!(last("[1, \"two\", [true]];").unwrap().inspect_obj(), "[1, two, [true]]");
    assert_eq!(last("[];").unwrap().inspect_obj(), "[]");
    assert_eq!(last("{\"a\": 1, 2: false};").unwrap().inspect_obj(), "[a : 1, 2 : false]");
    assert_eq!(last("{};").unwrap().inspect_obj(), "[]");
}

#[test]
fn inspect_functions() {
    assert_eq!(last("fn(x, y) { return x; };").unwrap().inspect_obj(), "fn(x,y)\n\nreturn x;\n");
    assert_eq!(last("fn() { 1; };").unwrap().inspect_obj(), "fn()\n\n1\n");
    assert_eq!(last("len;").unwrap().inspect_obj(), "Builtin Function");
}

#[test]
fn inspect_results() {
    let ok: Result<Value, EvalError> = Ok(Value::integer(1));
    let err: Result<Value, EvalError> = Err(EvalError::Undefined("gone".to_string()));
    assert_eq!(ok.inspect_obj(), "1");
    assert_eq!(ok.get_type(), ObjType::Integer);
    assert_eq!(err.inspect_obj(), "gone");
    assert_eq!(err.get_type(), ObjType::Error);
}

#[test]
fn kinds() {
    assert_eq!(Value::integer(1).get_type(), ObjType::Integer);
    assert_eq!(Value::boolean(true).get_type(), ObjType::Boolean);
    assert_eq!(Value::string(String::new()).get_type(), ObjType::String);
    assert_eq!(Value::null().get_type(), ObjType::Null);
    assert_eq!(Value::array(vec![]).get_type(), ObjType::Array);
    assert_eq!(last("{};").unwrap().get_type(), ObjType::Hash);
    assert_eq!(last("fn() { 1; };").unwrap().get_type(), ObjType::Function);
    assert_eq!(last("push;").unwrap().get_type(), ObjType::BuiltinFunction);
}

#[test]
fn kind_names() {
    assert_eq!(ObjType::ReturnValue.string(), "Return Value");
    assert_eq!(ObjType::Integer.string(), "Integer");
    assert_eq!(ObjType::Boolean.string(), "Boolean");
    assert_eq!(ObjType::String.string(), "String");
    assert_eq!(ObjType::Null.string(), "Null");
    assert_eq!(ObjType::ObjVec.string(), "ObjVec");
    assert_eq!(ObjType::Error.string(), "Error");
    assert_eq!(ObjType::Function.string(), "Function");
    assert_eq!(ObjType::BuiltinFunction.string(), "Builtin Function");
    assert_eq!(ObjType::Array.string(), "Array");
    assert_eq!(ObjType::Hash.string(), "Hash");
}

#[test]
fn hash_keys_carry_the_kind() {
    let one = Integer { val: 1 }.hash_key();
    let yes = Boolean { val: true }.hash_key();
    assert_eq!(one, HashKey { t: ObjType::Integer, val: 1 });
    assert_eq!(yes, HashKey { t: ObjType::Boolean, val: 1 });
    assert_ne!(one, yes);
    assert_eq!(Boolean { val: false }.hash_key(), HashKey { t: ObjType::Boolean, val: 0 });
    assert_eq!(Integer { val: -1 }.hash_key(), HashKey { t: ObjType::Integer, val: u64::MAX });
    assert_eq!(
        Integer { val: i64::MIN }.hash_key(),
        HashKey { t: ObjType::Integer, val: 1u64 << 63 }
    );
}

#[test]
fn string_hash_keys() {
    let a = StringObj { val: "name".to_string() }.hash_key();
    let b = StringObj { val: "name".to_string() }.hash_key();
    let c = StringObj { val: "other".to_string() }.hash_key();
    assert_eq!(a, b);
    assert_eq!(a.t, ObjType::String);
    assert_ne!(a, c);
    assert_ne!(StringObj { val: "1".to_string() }.hash_key(), Integer { val: 1 }.hash_key());
}

#[test]
fn hash_insert_replaces_in_place() {
    let mut hash = match last("{1: 10, 2: 20};").unwrap() {
        Value::Hash(h) => h,
        other => panic!("{:?}", other),
    };
    let key = Integer { val: 1 }.hash_key();
    assert_eq!(hash.find(key), Some(0));
    hash.insert(key, HashPair(Value::integer(1), Value::integer(11)));
    assert_eq!(hash.pairs.len(), 2);
    assert_eq!(hash.pairs[0].1, HashPair(Value::integer(1), Value::integer(11)));
    let other = Integer { val: 3 }.hash_key();
    assert_eq!(hash.find(other), None);
    hash.insert(other, HashPair(Value::integer(3), Value::integer(30)));
    assert_eq!(hash.find(other), Some(2));
}

#[test]
fn environment_lookup_order() {
    let mut outer = Env::new(None);
    outer.set("x".to_string(), Value::integer(1));
    outer.set("y".to_string(), Value::integer(2));
    let mut inner = Env::new(Some(Box::new(outer)));
    inner.set("x".to_string(), Value::integer(10));
    inner.set("len".to_string(), Value::integer(99));
    assert_eq!(inner.get("x".to_string()), Ok(Value::integer(10)));
    assert_eq!(inner.get("y".to_string()), Ok(Value::integer(2)));
    assert_eq!(inner.get("len".to_string()).get_type(), ObjType::BuiltinFunction);
    assert_eq!(inner.get_desc("len".to_string()), Ok(Value::integer(99)));
    assert_eq!(
        inner.get("z".to_string()),
        Err(EvalError::Undefined("Identifier not defined".to_string()))
    );
}

#[test]
fn set_binds_in_the_local_frame_only() {
    let mut outer = Env::new(None);
    outer.set("x".to_string(), Value::integer(1));
    let mut inner = Env::new(Some(Box::new(outer.clone())));
    inner.set("x".to_string(), Value::integer(2));
    inner.set("x".to_string(), Value::integer(3));
    assert_eq!(inner.get("x".to_string()), Ok(Value::integer(3)));
    assert_eq!(outer.get("x".to_string()), Ok(Value::integer(1)));
}

#[test]
fn builtin_table() {
    let table = get_builtins();
    let names: Vec<&str> = table.iter().map(|(n, _)| n.as_str()).collect();
    assert_eq!(names, vec!["len", "first", "last", "rest", "push"]);
    for (name, value) in &table {
        assert_eq!(value.get_type(), ObjType::BuiltinFunction);
        assert!(find_builtin(name).is_some());
    }
    assert_eq!(find_builtin("len"), Some(BuiltinFn::Len));
    assert_eq!(find_builtin("first"), Some(BuiltinFn::First));
    assert_eq!(find_builtin("last"), Some(BuiltinFn::Last));
    assert_eq!(find_builtin("rest"), Some(BuiltinFn::Rest));
    assert_eq!(find_builtin("push"), Some(BuiltinFn::Push));
    assert_eq!(find_builtin("pop"), None);
}

#[test]
fn builtin_functions_directly() {
    let arr = || Value::array(vec![Value::integer(1), Value::integer(2)]);
    assert_eq!(len_fn(vec![arr()]), Ok(Value::integer(2)));
    assert_eq!(len_fn(vec![Value::string("abc".to_string())]), Ok(Value::integer(3)));
    assert_eq!(
        len_fn(vec![]),
        Err(EvalError::IncorrectArgs("Len requires one arg".to_string()))
    );
    assert_eq!(
        len_fn(vec![Value::null()]),
        Err(EvalError::UnexpectedNode("Argument is not of the correct type".to_string()))
    );
    assert_eq!(first_fn(vec![arr()]), Ok(Value::integer(1)));
    assert_eq!(last_fn(vec![arr()]), Ok(Value::integer(2)));
    assert_eq!(rest_fn(vec![arr()]), Ok(Value::array(vec![Value::integer(2)])));
    assert_eq!(
        push_fn(vec![arr(), Value::null()]),
        Ok(Value::array(vec![Value::integer(1), Value::integer(2), Value::null()]))
    );
    assert_eq!(
        first_fn(vec![Value::integer(1)]),
        Err(EvalError::IncorrectArgs("first requires array argument".to_string()))
    );
    assert_eq!(
        rest_fn(vec![Value::array(vec![])]),
        Err(EvalError::IncorrectArgs("array requires atleast one argument".to_string()))
    );
}

#[test]
fn clone_of_a_value_is_equal() {
    let v = last("[1, {\"k\": fn(x) { return x; }}, \"s\", true];").unwrap();
    assert_eq!(v.clone(), v);
}

#[test]
fn decimal_notation() {
    assert_eq!(int_to_string(0), "0");
    assert_eq!(int_to_string(7), "7");
    assert_eq!(int_to_string(10), "10");
    assert_eq!(int_to_string(-10), "-10");
    assert_eq!(int_to_string(1234567890), "1234567890");
    assert_eq!(parse_decimal("0"), Some(0));
    assert_eq!(parse_decimal("007"), Some(7));
    assert_eq!(parse_decimal("5165157"), Some(5165157));
    assert_eq!(parse_decimal("9223372036854775807"), Some(i64::MAX));
    assert_eq!(parse_decimal("9223372036854775808"), None);
    assert_eq!(parse_decimal("99999999999999999999999"), None);
    assert_eq!(parse_decimal(""), None);
    assert_eq!(parse_decimal("-1"), None);
    assert_eq!(parse_decimal("+1"), None);
    assert_eq!(parse_decimal("1a"), None);
}
