//! The built-in functions and the table that names them.

use vstd::prelude::*;
use vstd::string::StringExecFns;
use vstd::utf8::encode_utf8;
use crate::eval::{EvalError, EvalErrorView};
use crate::object::{
    Array, Builtin, BuiltinFn, Integer, StringObj, Value, ValueView, lemma_view_value,
    value_result_view, values_view,
};
use crate::text::same_text;

verus! {

/// The built-in function of a given name, if there is one.
pub open spec fn builtin_named(name: Seq<char>) -> Option<BuiltinFn> {
    if name == "len"@ {
        Some(BuiltinFn::Len)
    } else if name == "first"@ {
        Some(BuiltinFn::First)
    } else if name == "last"@ {
        Some(BuiltinFn::Last)
    } else if name == "rest"@ {
        Some(BuiltinFn::Rest)
    } else if name == "push"@ {
        Some(BuiltinFn::Push)
    } else {
        None
    }
}

/// Looks a name up in the table of built-in functions.
pub fn find_builtin(name: &str) -> (r: Option<BuiltinFn>)
    ensures
        r == builtin_named(name@),
{
    if same_text(name, "len") {
        Some(BuiltinFn::Len)
    } else if same_text(name, "first") {
        Some(BuiltinFn::First)
    } else if same_text(name, "last") {
        Some(BuiltinFn::Last)
    } else if same_text(name, "rest") {
        Some(BuiltinFn::Rest)
    } else if same_text(name, "push") {
        Some(BuiltinFn::Push)
    } else {
        None
    }
}


/// A length as an integer of the language; a length beyond the integers
/// counts as the greatest of them.
pub open spec fn length_value(n: nat) -> i64 {
    if n <= i64::MAX {
        n as i64
    } else {
        i64::MAX
    }
}

/// The error for a wrong number of arguments.
pub open spec fn wrong_arity() -> EvalErrorView {
    EvalErrorView::IncorrectArgs("Len requires one arg"@)
}

/// The error for a first argument that is no array.
pub open spec fn not_an_array() -> EvalErrorView {
    EvalErrorView::IncorrectArgs("first requires array argument"@)
}

/// The error for an array without elements.
pub open spec fn empty_array() -> EvalErrorView {
    EvalErrorView::IncorrectArgs("array requires atleast one argument"@)
}

/// `len`: the number of bytes of a string, or of elements of an array.
pub open spec fn len_value(args: Seq<ValueView>) -> Result<ValueView, EvalErrorView> {
    if args.len() != 1 {
        Err(wrong_arity())
    } else {
        match args[0] {
            ValueView::Str(s) => Ok(ValueView::Integer(length_value(encode_utf8(s).len()))),
            ValueView::Array(items) => Ok(ValueView::Integer(length_value(items.len()))),
            _ => Err(EvalErrorView::UnexpectedNode("Argument is not of the correct type"@)),
        }
    }
}

/// The one argument of a built-in function that takes one array.
pub open spec fn array_argument(args: Seq<ValueView>) -> Result<Seq<ValueView>, EvalErrorView> {
    if args.len() != 1 {
        Err(wrong_arity())
    } else {
        match args[0] {
            ValueView::Array(items) => Ok(items),
            _ => Err(not_an_array()),
        }
    }
}

/// `first`: the first element of an array that has one.
pub open spec fn first_value(args: Seq<ValueView>) -> Result<ValueView, EvalErrorView> {
    match array_argument(args) {
        Err(e) => Err(e),
        Ok(items) => if items.len() == 0 {
            Err(empty_array())
        } else {
            Ok(items[0])
        },
    }
}

/// `last`: the last element of an array that has one.
pub open spec fn last_value(args: Seq<ValueView>) -> Result<ValueView, EvalErrorView> {
    match array_argument(args) {
        Err(e) => Err(e),
        Ok(items) => if items.len() == 0 {
            Err(empty_array())
        } else {
            Ok(items.last())
        },
    }
}

/// `rest`: a new array of all the elements but the first, of an array that
/// has one.
pub open spec fn rest_value(args: Seq<ValueView>) -> Result<ValueView, EvalErrorView> {
    match array_argument(args) {
        Err(e) => Err(e),
        Ok(items) => if items.len() == 0 {
            Err(empty_array())
        } else {
            Ok(ValueView::Array(items.skip(1)))
        },
    }
}

/// `push`: a new array with the second argument behind the elements of the
/// first.
pub open spec fn push_value(args: Seq<ValueView>) -> Result<ValueView, EvalErrorView> {
    if args.len() != 2 {
        Err(wrong_arity())
    } else {
        match args[0] {
            ValueView::Array(items) => Ok(ValueView::Array(items.push(args[1]))),
            _ => Err(not_an_array()),
        }
    }
}

/// What a built-in function returns for given arguments.
pub open spec fn apply_builtin(f: BuiltinFn, args: Seq<ValueView>) -> Result<
    ValueView,
    EvalErrorView,
> {
    match f {
        BuiltinFn::Len => len_value(args),
        BuiltinFn::First => first_value(args),
        BuiltinFn::Last => last_value(args),
        BuiltinFn::Rest => rest_value(args),
        BuiltinFn::Push => push_value(args),
    }
}

/// The table of built-in functions, as a value.
pub open spec fn builtins_table() -> Seq<(Seq<char>, BuiltinFn)> {
    seq![
        ("len"@, BuiltinFn::Len),
        ("first"@, BuiltinFn::First),
        ("last"@, BuiltinFn::Last),
        ("rest"@, BuiltinFn::Rest),
        ("push"@, BuiltinFn::Push),
    ]
}

/// The table of built-in functions: each name with the function it stands for.
pub fn get_builtins() -> (r: Vec<(String, Value)>)
    ensures
        r@.len() == builtins_table().len(),
        forall|i: int|
            0 <= i < r@.len() ==> (#[trigger] r@[i]).0@ == builtins_table()[i].0 && r@[i].1@
                == ValueView::Builtin(builtins_table()[i].1),
        forall|i: int|
            0 <= i < r@.len() ==> builtin_named((#[trigger] r@[i]).0@) == Some(
                builtins_table()[i].1,
            ),
{
    let mut hm: Vec<(String, Value)> = Vec::new();
    let len = Value::Builtin(Builtin { func: BuiltinFn::Len });
    let first = Value::Builtin(Builtin { func: BuiltinFn::First });
    let last = Value::Builtin(Builtin { func: BuiltinFn::Last });
    let rest = Value::Builtin(Builtin { func: BuiltinFn::Rest });
    let push = Value::Builtin(Builtin { func: BuiltinFn::Push });
    proof {
        lemma_view_value(len);
        lemma_view_value(first);
        lemma_view_value(last);
        lemma_view_value(rest);
        lemma_view_value(push);
        reveal_strlit("len");
        reveal_strlit("first");
        reveal_strlit("last");
        reveal_strlit("rest");
        reveal_strlit("push");
    }
    hm.push((String::from_str("len"), len));
    hm.push((String::from_str("first"), first));
    hm.push((String::from_str("last"), last));
    hm.push((String::from_str("rest"), rest));
    hm.push((String::from_str("push"), push));
    proof {
        assert("len"@.len() == 3 && "first"@.len() == 5 && "last"@.len() == 4 && "rest"@.len() == 4
            && "push"@.len() == 4);
        assert("last"@[0] == 'l' && "rest"@[0] == 'r' && "push"@[0] == 'p');
        assert(builtin_named("len"@) == Some(BuiltinFn::Len));
        assert(builtin_named("first"@) == Some(BuiltinFn::First));
        assert(builtin_named("last"@) == Some(BuiltinFn::Last));
        assert(builtin_named("rest"@) == Some(BuiltinFn::Rest));
        assert(builtin_named("push"@) == Some(BuiltinFn::Push));
    }
    hm
}

/// The integer of the language for a length.
pub fn length_integer(n: usize) -> (r: Value)
    ensures
        r@ == ValueView::Integer(length_value(n as nat)),
{
    let m: u64 = n as u64;
    let val: i64 = if m <= 0x7fff_ffff_ffff_ffff {
        m as i64
    } else {
        i64::MAX
    };
    let r = Value::Integer(Integer { val });
    proof {
        lemma_view_value(r);
    }
    r
}

pub fn len_str(input: &StringObj) -> (r: Result<Value, EvalError>)
    ensures
        value_result_view(r) == Ok::<ValueView, EvalErrorView>(
            ValueView::Integer(length_value(encode_utf8(input.val@).len())),
        ),
{
    Ok(length_integer(input.val.as_str().as_bytes().len()))
}

pub fn len_arr(input: &Array) -> (r: Result<Value, EvalError>)
    ensures
        value_result_view(r) == Ok::<ValueView, EvalErrorView>(
            ValueView::Integer(length_value(input.mems@.len())),
        ),
{
    Ok(length_integer(input.mems.len()))
}

pub fn len_fn(input: Vec<Value>) -> (r: Result<Value, EvalError>)
    ensures
        value_result_view(r) == len_value(values_view(input@)),
{
    if input.len() != 1 {
        return Err(EvalError::IncorrectArgs(String::from_str("Len requires one arg")));
    }
    proof {
        lemma_view_value(input@[0]);
    }
    match &input[0] {
        Value::String(s) => len_str(s),
        Value::Array(a) => len_arr(a),
        _ => Err(EvalError::UnexpectedNode(String::from_str("Argument is not of the correct type"))),
    }
}

pub fn first_fn(input: Vec<Value>) -> (r: Result<Value, EvalError>)
    ensures
        value_result_view(r) == first_value(values_view(input@)),
{
    if input.len() != 1 {
        return Err(EvalError::IncorrectArgs(String::from_str("Len requires one arg")));
    }
    proof {
        lemma_view_value(input@[0]);
    }
    match &input[0] {
        Value::Array(a) => {
            if a.mems.len() == 0 {
                Err(EvalError::IncorrectArgs(String::from_str("array requires atleast one argument")))
            } else {
                Ok(a.mems[0].clone())
            }
        },
        _ => Err(EvalError::IncorrectArgs(String::from_str("first requires array argument"))),
    }
}

pub fn last_fn(input: Vec<Value>) -> (r: Result<Value, EvalError>)
    ensures
        value_result_view(r) == last_value(values_view(input@)),
{
    if input.len() != 1 {
        return Err(EvalError::IncorrectArgs(String::from_str("Len requires one arg")));
    }
    proof {
        lemma_view_value(input@[0]);
    }
    match &input[0] {
        Value::Array(a) => {
            if a.mems.len() == 0 {
                Err(EvalError::IncorrectArgs(String::from_str("array requires atleast one argument")))
            } else {
                Ok(a.mems[a.mems.len() - 1].clone())
            }
        },
        _ => Err(EvalError::IncorrectArgs(String::from_str("first requires array argument"))),
    }
}

pub fn rest_fn(input: Vec<Value>) -> (r: Result<Value, EvalError>)
    ensures
        value_result_view(r) == rest_value(values_view(input@)),
{
    if input.len() != 1 {
        return Err(EvalError::IncorrectArgs(String::from_str("Len requires one arg")));
    }
    proof {
        lemma_view_value(input@[0]);
    }
    match &input[0] {
        Value::Array(a) => {
            if a.mems.len() == 0 {
                Err(EvalError::IncorrectArgs(String::from_str("array requires atleast one argument")))
            } else {
                let mut mems: Vec<Value> = Vec::new();
                let mut i: usize = 1;
                while i < a.mems.len()
                    invariant
                        1 <= i <= a.mems.len(),
                        mems@.len() == i - 1,
                        forall|j: int| 0 <= j < i - 1 ==> (#[trigger] mems@[j])@ == a.mems@[j + 1]@,
                    decreases a.mems.len() - i,
                {
                    mems.push(a.mems[i].clone());
                    i = i + 1;
                }
                let r = Value::Array(Array { mems });
                proof {
                    lemma_view_value(r);
                    assert(values_view(mems@) =~= values_view(a.mems@).skip(1));
                }
                Ok(r)
            }
        },
        _ => Err(EvalError::IncorrectArgs(String::from_str("first requires array argument"))),
    }
}

pub fn push_fn(input: Vec<Value>) -> (r: Result<Value, EvalError>)
    ensures
        value_result_view(r) == push_value(values_view(input@)),
{
    if input.len() != 2 {
        return Err(EvalError::IncorrectArgs(String::from_str("Len requires one arg")));
    }
    proof {
        lemma_view_value(input@[0]);
    }
    match &input[0] {
        Value::Array(a) => {
            let mut mems: Vec<Value> = Vec::new();
            let mut i: usize = 0;
            while i < a.mems.len()
                invariant
                    i <= a.mems.len(),
                    mems@.len() == i,
                    forall|j: int| 0 <= j < i ==> (#[trigger] mems@[j])@ == a.mems@[j]@,
                decreases a.mems.len() - i,
            {
                mems.push(a.mems[i].clone());
                i = i + 1;
            }
            mems.push(input[1].clone());
            let r = Value::Array(Array { mems });
            proof {
                lemma_view_value(r);
                assert(values_view(mems@) =~= values_view(a.mems@).push(input@[1]@));
            }
            Ok(r)
        },
        _ => Err(EvalError::IncorrectArgs(String::from_str("first requires array argument"))),
    }
}

impl Builtin {
    /// Calls the built-in function with the given arguments.
    pub fn call(&self, args: Vec<Value>) -> (r: Result<Value, EvalError>)
        ensures
            value_result_view(r) == apply_builtin(self.func, values_view(args@)),
    {
        match self.func {
            BuiltinFn::Len => len_fn(args),
            BuiltinFn::First => first_fn(args),
            BuiltinFn::Last => last_fn(args),
            BuiltinFn::Rest => rest_fn(args),
            BuiltinFn::Push => push_fn(args),
        }
    }
}

} // verus!
