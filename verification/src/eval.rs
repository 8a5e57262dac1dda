//! The evaluator: from a syntax tree and an environment to a value or an
//! error.

use vstd::prelude::*;
use vstd::string::StringExecFns;
use crate::ast::{ArrayLiteral, BlockStatement, BooleanLiteral, CallExpression, ExprView, Expression, ExpressionStatement, FunctionLiteral, HashLiteral, Identifier, IfExpression, IndexExpression, InfixExpression, IntegerLiteral, LetStatement, Node, PrefixExpression, Program, ReturnStatement, Statement, StringLiteral, clone_identifiers, entries_view, entry_view, exprs_view, idents_view, lemma_view_block_statement, lemma_view_entry, lemma_view_identifier, pairs_view};
use crate::object::{Array, Boolean, Builtin, Env, EnvView, Function, HashKey, HashPair, Hashable, Integer, Obj, ObjType, ReturnValue, StringObj, Value, ValueView, hash_key_of, hash_pairs_view, lemma_view_value, value_result_view, values_view};
use crate::parser::{ParserError, ParserErrorView};
use crate::semantics;
use crate::semantics::Outcome;
use crate::text::same_text;

verus! {

/// What went wrong while evaluating, as a value.
pub enum EvalErrorView {
    ParserError(ParserErrorView),
    UnexpectedNode(Seq<char>),
    Undefined(Seq<char>),
    IncorrectArgs(Seq<char>),
    OutOfBounds(Seq<char>),
    Unhashable(Seq<char>),
}

impl EvalErrorView {
    /// The name of the kind of error.
    pub open spec fn kind_name(self) -> Seq<char> {
        match self {
            EvalErrorView::ParserError(_) => "ParserError"@,
            EvalErrorView::UnexpectedNode(_) => "UnexpectedNode"@,
            EvalErrorView::Undefined(_) => "Undefined"@,
            EvalErrorView::IncorrectArgs(_) => "IncorrectArgs"@,
            EvalErrorView::OutOfBounds(_) => "OutOfBounds"@,
            EvalErrorView::Unhashable(_) => "Unhashable"@,
        }
    }

    /// The message that the error carries.
    pub open spec fn message(self) -> Seq<char> {
        match self {
            EvalErrorView::ParserError(e) => e.message(),
            EvalErrorView::UnexpectedNode(m) => m,
            EvalErrorView::Undefined(m) => m,
            EvalErrorView::IncorrectArgs(m) => m,
            EvalErrorView::OutOfBounds(m) => m,
            EvalErrorView::Unhashable(m) => m,
        }
    }
}

/// What went wrong while evaluating.
#[derive(Debug, PartialEq)]
pub enum EvalError {
    ParserError(ParserError),
    UnexpectedNode(String),
    Undefined(String),
    IncorrectArgs(String),
    OutOfBounds(String),
    Unhashable(String),
}

impl View for EvalError {
    type V = EvalErrorView;

    open spec fn view(&self) -> EvalErrorView {
        match self {
            EvalError::ParserError(e) => EvalErrorView::ParserError(e@),
            EvalError::UnexpectedNode(m) => EvalErrorView::UnexpectedNode(m@),
            EvalError::Undefined(m) => EvalErrorView::Undefined(m@),
            EvalError::IncorrectArgs(m) => EvalErrorView::IncorrectArgs(m@),
            EvalError::OutOfBounds(m) => EvalErrorView::OutOfBounds(m@),
            EvalError::Unhashable(m) => EvalErrorView::Unhashable(m@),
        }
    }
}

impl Clone for EvalError {
    fn clone(&self) -> (r: Self)
        ensures
            r@ == self@,
    {
        match self {
            EvalError::ParserError(e) => EvalError::ParserError(e.clone()),
            EvalError::UnexpectedNode(m) => EvalError::UnexpectedNode(m.clone()),
            EvalError::Undefined(m) => EvalError::Undefined(m.clone()),
            EvalError::IncorrectArgs(m) => EvalError::IncorrectArgs(m.clone()),
            EvalError::OutOfBounds(m) => EvalError::OutOfBounds(m.clone()),
            EvalError::Unhashable(m) => EvalError::Unhashable(m.clone()),
        }
    }
}

impl EvalError {
    pub fn get_err_type(&self) -> (r: String)
        ensures
            r@ == self@.kind_name(),
    {
        match self {
            EvalError::ParserError(_) => String::from_str("ParserError"),
            EvalError::UnexpectedNode(_) => String::from_str("UnexpectedNode"),
            EvalError::Undefined(_) => String::from_str("Undefined"),
            EvalError::IncorrectArgs(_) => String::from_str("IncorrectArgs"),
            EvalError::OutOfBounds(_) => String::from_str("OutOfBounds"),
            EvalError::Unhashable(_) => String::from_str("Unhashable"),
        }
    }

    pub fn get_err_msg(&self) -> (r: String)
        ensures
            r@ == self@.message(),
    {
        match self {
            EvalError::ParserError(e) => e.get_err_msg(),
            EvalError::UnexpectedNode(m) => m.clone(),
            EvalError::Undefined(m) => m.clone(),
            EvalError::IncorrectArgs(m) => m.clone(),
            EvalError::OutOfBounds(m) => m.clone(),
            EvalError::Unhashable(m) => m.clone(),
        }
    }
}


/// The bound on the depth of calls that an evaluation starts with where the
/// caller has no other in mind.
pub const MAX_CALL_DEPTH: usize = 128;

/// A node that can be evaluated.
pub trait EvalNode {
    /// What the node evaluates to in `env`, with `depth` as the bound on the
    /// depth of calls, and the environment afterwards.
    spec fn meaning(&self, env: EnvView, depth: nat) -> Outcome;

    fn eval(&self, env: &mut Env, depth: usize) -> (r: Result<Value, EvalError>)
        ensures
            value_result_view(r) == self.meaning(old(env)@, depth as nat).0,
            final(env)@ == self.meaning(old(env)@, depth as nat).1,
    ;
}

/// A node ready for evaluation.
pub struct Eval<N: Node> {
    pub node: N,
}

impl<N: Node + EvalNode> EvalNode for Eval<N> {
    open spec fn meaning(&self, env: EnvView, depth: nat) -> Outcome {
        self.node.meaning(env, depth)
    }

    fn eval(&self, env: &mut Env, depth: usize) -> (r: Result<Value, EvalError>) {
        self.node.eval(env, depth)
    }
}

/// Makes a node ready for evaluation.
pub fn wrap_eval_node<T: Node>(n: T) -> (r: Eval<T>)
    ensures
        r.node == n,
{
    Eval { node: n }
}

/// The view of a list of values, or of the error in its place.
pub open spec fn values_result_view(r: Result<Vec<Value>, EvalError>) -> Result<
    Seq<ValueView>,
    EvalErrorView,
> {
    match r {
        Ok(v) => Ok(values_view(v@)),
        Err(e) => Err(e@),
    }
}

/// The views of evaluated pairs.
pub open spec fn value_pairs_view(s: Seq<HashPair>) -> Seq<(ValueView, ValueView)> {
    Seq::new(s.len(), |i: int| (s[i].0@, s[i].1@))
}

/// The view of a list of evaluated pairs, or of the error in its place.
pub open spec fn pairs_result_view(r: Result<Vec<HashPair>, EvalError>) -> Result<
    Seq<(ValueView, ValueView)>,
    EvalErrorView,
> {
    match r {
        Ok(v) => Ok(value_pairs_view(v@)),
        Err(e) => Err(e@),
    }
}

/// The view of a hash key, or of the error in its place.
pub open spec fn key_result_view(r: Result<HashKey, EvalError>) -> Result<HashKey, EvalErrorView> {
    match r {
        Ok(k) => Ok(k),
        Err(e) => Err(e@),
    }
}

/// The hash key of a key of a hash literal.
pub fn try_hash(o: &Value) -> (r: Result<HashKey, EvalError>)
    ensures
        key_result_view(r) == semantics::hashed(o@, semantics::unhashable()),
{
    proof {
        lemma_view_value(*o);
    }
    match o {
        Value::String(s) => Ok(s.hash_key()),
        Value::Integer(i) => Ok(i.hash_key()),
        Value::Boolean(b) => Ok(b.hash_key()),
        _ => Err(
            EvalError::Unhashable(
                String::from_str("Cannot hash key value must be string, integer or boolean"),
            ),
        ),
    }
}

pub fn get_hashkey_integer(i: &Integer) -> (r: Result<HashKey, EvalError>)
    ensures
        key_result_view(r) == Ok::<HashKey, EvalErrorView>(i.key()),
{
    Ok(i.hash_key())
}

pub fn get_hashkey_string(i: &StringObj) -> (r: Result<HashKey, EvalError>)
    ensures
        key_result_view(r) == Ok::<HashKey, EvalErrorView>(i.key()),
{
    Ok(i.hash_key())
}

pub fn get_hashkey_boolean(i: &Boolean) -> (r: Result<HashKey, EvalError>)
    ensures
        key_result_view(r) == Ok::<HashKey, EvalErrorView>(i.key()),
{
    Ok(i.hash_key())
}

/// The hash key of a value with which a hash is indexed.
pub fn get_hash_key(i: &Value) -> (r: Result<HashKey, EvalError>)
    ensures
        key_result_view(r) == semantics::hashed(
            i@,
            EvalErrorView::UnexpectedNode("Expected Index Obj"@),
        ),
{
    proof {
        lemma_view_value(*i);
    }
    match i {
        Value::Integer(n) => get_hashkey_integer(n),
        Value::String(n) => get_hashkey_string(n),
        Value::Boolean(n) => get_hashkey_boolean(n),
        _ => Err(EvalError::UnexpectedNode(String::from_str("Expected Index Obj"))),
    }
}

pub fn get_indexed_array(a: Value, i: Value) -> (r: Result<Value, EvalError>)
    ensures
        value_result_view(r) == semantics::indexed_array(a@, i@),
{
    proof {
        lemma_view_value(a);
        lemma_view_value(i);
    }
    let n = match &i {
        Value::Integer(n) => n.val,
        _ => {
            return Err(EvalError::UnexpectedNode(String::from_str("Expected Integer Object")));
        },
    };
    let array = match &a {
        Value::Array(array) => array,
        _ => {
            return Err(EvalError::UnexpectedNode(String::from_str("Expected Array Object")));
        },
    };
    if n < 0 {
        return Err(EvalError::OutOfBounds(String::from_str("Invalid Integer for Index")));
    }
    if n as u64 >= array.mems.len() as u64 {
        return Err(EvalError::OutOfBounds(String::from_str("Index is out of bounds")));
    }
    Ok(array.mems[n as usize].clone())
}

pub fn get_indexed_hash(h: Value, i: Value) -> (r: Result<Value, EvalError>)
    ensures
        value_result_view(r) == semantics::indexed_hash(h@, i@),
{
    proof {
        lemma_view_value(h);
    }
    let hash = match &h {
        Value::Hash(hash) => hash,
        _ => {
            return Err(EvalError::UnexpectedNode(String::from_str("Expected Hash Object")));
        },
    };
    let key = get_hash_key(&i)?;
    match hash.find(key) {
        Some(place) => Ok(hash.pairs[place].1.1.clone()),
        None => Err(EvalError::OutOfBounds(String::from_str("Invalid Index for hash map"))),
    }
}

/// Calls a built-in function.
pub fn apply_function_builtin(function: &Builtin, args: Vec<Value>) -> (r: Result<
    Value,
    EvalError,
>)
    ensures
        value_result_view(r) == crate::builtins::apply_builtin(function.func, values_view(args@)),
{
    function.call(args)
}

/// A result without the marker that `return` put around it.
pub fn unwrap_return_value(r: Result<Value, EvalError>) -> (out: Result<Value, EvalError>)
    ensures
        value_result_view(out) == semantics::unwrap_return(value_result_view(r)),
{
    match r {
        Ok(v) => {
            proof {
                lemma_view_value(v);
            }
            match v {
                Value::ReturnValue(marked) => Ok(*marked.val),
                other => Ok(other),
            }
        },
        Err(e) => Err(e),
    }
}

/// Whether a result ends the evaluation of a statement list.
pub fn ends_evaluation(r: &Result<Value, EvalError>) -> (b: bool)
    ensures
        b == semantics::stops(value_result_view(*r)),
{
    match r {
        Ok(v) => {
            proof {
                lemma_view_value(*v);
            }
            match v {
                Value::ReturnValue(_) => true,
                _ => false,
            }
        },
        Err(_) => true,
    }
}

/// Calls a function value: its body is evaluated in a fresh frame inside
/// the environment that the function captured.
pub fn apply_function_native(function: &Function, args: Vec<Value>, depth: usize) -> (r: Result<
    Value,
    EvalError,
>)
    ensures
        value_result_view(r) == semantics::call_function(
            idents_view(function.params@),
            function.body@,
            function.env@,
            values_view(args@),
            depth as nat,
        ),
    decreases depth, 0nat, function,
{
    if depth == 0 {
        return Err(EvalError::IncorrectArgs(String::from_str("call depth limit exceeded")));
    }
    let ghost params = idents_view(function.params@);
    let ghost values = values_view(args@);
    let mut env = Env::new(Some(Box::new(function.env.clone())));
    let count = if function.params.len() <= args.len() {
        function.params.len()
    } else {
        args.len()
    };
    let mut i: usize = 0;
    while i < count
        invariant
            i <= count,
            count == semantics::bound_count(params, values),
            params == idents_view(function.params@),
            values == values_view(args@),
            env@ == (EnvView {
                store: semantics::bind_params(params, values, i as nat),
                outer: Some(Box::new(function.env@)),
            }),
        decreases count - i,
    {
        env.set(function.params[i].value.clone(), args[i].clone());
        i = i + 1;
    }
    let r = function.body.eval(&mut env, depth - 1);
    unwrap_return_value(r)
}

/// One place of a statement list: the statement is evaluated, and a parse
/// error in its place is the error.
pub fn scan_node(env: &mut Env, node: &Result<Statement, ParserError>, depth: usize) -> (r: Option<
    Result<Value, EvalError>,
>)
    ensures
        r is Some,
        value_result_view(r->0) == semantics::eval_entry(
            entry_view(*node),
            old(env)@,
            depth as nat,
        ).0,
        final(env)@ == semantics::eval_entry(entry_view(*node), old(env)@, depth as nat).1,
    decreases depth, 1nat, node,
{
    proof {
        lemma_view_entry(*node);
    }
    let res = match node {
        Err(e) => Err(EvalError::ParserError(e.clone())),
        Ok(o) => {
            proof {
                assert(decreases_to!(node => o));
            }
            o.eval(env, depth)
        },
    };
    Some(res)
}

/// Evaluates the statements of a list one after another, up to the first
/// error or `return`.
pub fn eval_statements(v: &Vec<Result<Statement, ParserError>>, env: &mut Env, depth: usize) -> (r:
    Result<Value, EvalError>)
    ensures
        value_result_view(r) == semantics::eval_block(
            entries_view(v@),
            0,
            old(env)@,
            depth as nat,
        ).0,
        final(env)@ == semantics::eval_block(entries_view(v@), 0, old(env)@, depth as nat).1,
    decreases depth, 1nat, v,
{
    let ghost stmts = entries_view(v@);
    let ghost start = env@;
    let mut i: usize = 0;
    while i < v.len()
        invariant
            i <= v.len(),
            stmts == entries_view(v@),
            start == old(env)@,
            semantics::eval_block(stmts, 0, start, depth as nat) == semantics::eval_block(
                stmts,
                i as nat,
                env@,
                depth as nat,
            ),
        decreases v.len() - i,
    {
        proof {
            reveal(semantics::eval_block);
            reveal(semantics::eval_stmt);
            assert(decreases_to!(v => v@));
            assert(decreases_to!(v@ => v@[i as int]));
            lemma_view_entry(v@[i as int]);
        }
        let r = match scan_node(env, &v[i], depth) {
            Some(r) => r,
            None => Ok(Value::null()),
        };
        if ends_evaluation(&r) {
            return r;
        }
        i = i + 1;
    }
    proof {
        reveal(semantics::eval_block);
    }
    Ok(Value::null())
}

/// Evaluates expressions from left to right, up to the first error.
pub fn eval_expressions(v: &Vec<Expression>, env: &mut Env, depth: usize) -> (r: Result<
    Vec<Value>,
    EvalError,
>)
    ensures
        values_result_view(r) == semantics::eval_exprs(
            exprs_view(v@),
            0,
            Seq::empty(),
            old(env)@,
            depth as nat,
        ).0,
        final(env)@ == semantics::eval_exprs(
            exprs_view(v@),
            0,
            Seq::empty(),
            old(env)@,
            depth as nat,
        ).1,
    decreases depth, 1nat, v,
{
    let ghost es = exprs_view(v@);
    let ghost start = env@;
    let mut out: Vec<Value> = Vec::new();
    let mut i: usize = 0;
    assert(values_view(out@) =~= Seq::<ValueView>::empty());
    while i < v.len()
        invariant
            i <= v.len(),
            es == exprs_view(v@),
            start == old(env)@,
            semantics::eval_exprs(es, 0, Seq::empty(), start, depth as nat)
                == semantics::eval_exprs(es, i as nat, values_view(out@), env@, depth as nat),
        decreases v.len() - i,
    {
        proof {
            reveal(semantics::eval_exprs);
            reveal(semantics::eval_expr);
            assert(decreases_to!(v => v@));
            assert(decreases_to!(v@ => v@[i as int]));
        }
        let ghost acc = values_view(out@);
        let value = match v[i].eval(env, depth) {
            Ok(x) => x,
            Err(e) => {
                return Err(e);
            },
        };
        out.push(value);
        proof {
            assert(values_view(out@) =~= acc.push(value@));
        }
        i = i + 1;
    }
    proof {
        reveal(semantics::eval_exprs);
    }
    Ok(out)
}

/// Evaluates the pairs of a hash literal from left to right, key before
/// value, up to the first error.
pub fn eval_pair_expressions(v: &Vec<(Expression, Expression)>, env: &mut Env, depth: usize) -> (r:
    Result<Vec<HashPair>, EvalError>)
    ensures
        pairs_result_view(r) == semantics::eval_pairs(
            pairs_view(v@),
            0,
            Seq::empty(),
            old(env)@,
            depth as nat,
        ).0,
        final(env)@ == semantics::eval_pairs(
            pairs_view(v@),
            0,
            Seq::empty(),
            old(env)@,
            depth as nat,
        ).1,
    decreases depth, 1nat, v,
{
    let ghost ps = pairs_view(v@);
    let ghost start = env@;
    let mut out: Vec<HashPair> = Vec::new();
    let mut i: usize = 0;
    assert(value_pairs_view(out@) =~= Seq::<(ValueView, ValueView)>::empty());
    while i < v.len()
        invariant
            i <= v.len(),
            ps == pairs_view(v@),
            start == old(env)@,
            semantics::eval_pairs(ps, 0, Seq::empty(), start, depth as nat)
                == semantics::eval_pairs(ps, i as nat, value_pairs_view(out@), env@, depth as nat),
        decreases v.len() - i,
    {
        proof {
            reveal(semantics::eval_pairs);
            reveal(semantics::eval_expr);
            assert(decreases_to!(v => v@));
            assert(decreases_to!(v@ => v@[i as int]));
            assert(decreases_to!(v@[i as int] => v@[i as int].0));
            assert(decreases_to!(v@[i as int] => v@[i as int].1));
        }
        let ghost acc = value_pairs_view(out@);
        let key = match v[i].0.eval(env, depth) {
            Ok(x) => x,
            Err(e) => {
                return Err(e);
            },
        };
        let value = match v[i].1.eval(env, depth) {
            Ok(x) => x,
            Err(e) => {
                return Err(e);
            },
        };
        let ghost pair = (key@, value@);
        out.push(HashPair(key, value));
        proof {
            assert(value_pairs_view(out@) =~= acc.push(pair));
        }
        i = i + 1;
    }
    proof {
        reveal(semantics::eval_pairs);
    }
    Ok(out)
}

/// Stores evaluated pairs one after another, each under the hash key of its
/// key.
pub fn build_hash(pairs: Vec<HashPair>) -> (r: Result<Value, EvalError>)
    ensures
        value_result_view(r) == semantics::build_hash(value_pairs_view(pairs@)),
{
    let ghost ps = value_pairs_view(pairs@);
    let mut hash = crate::object::Hash::new();
    let mut i: usize = 0;
    while i < pairs.len()
        invariant
            i <= pairs.len(),
            ps == value_pairs_view(pairs@),
            semantics::hash_of(ps, i as nat) == Ok::<
                Seq<(HashKey, ValueView, ValueView)>,
                EvalErrorView,
            >(hash_pairs_view(hash.pairs@)),
        decreases pairs.len() - i,
    {
        let key = match try_hash(&pairs[i].0) {
            Ok(k) => k,
            Err(e) => {
                proof {
                    lemma_hash_of_error_at(ps, i as nat);
                }
                return Err(e);
            },
        };
        hash.insert(key, pairs[i].clone());
        i = i + 1;
    }
    let r = Value::Hash(hash);
    proof {
        lemma_view_value(r);
    }
    Ok(r)
}

/// A key without a hash key makes the error of the whole literal.
pub proof fn lemma_hash_of_error_at(ps: Seq<(ValueView, ValueView)>, i: nat)
    requires
        i < ps.len(),
        semantics::hash_of(ps, i) is Ok,
        hash_key_of(ps[i as int].0) is None,
    ensures
        semantics::hash_of(ps, ps.len()) == Err::<
            Seq<(HashKey, ValueView, ValueView)>,
            EvalErrorView,
        >(semantics::unhashable()),
{
    assert(semantics::hash_of(ps, i + 1) == Err::<
        Seq<(HashKey, ValueView, ValueView)>,
        EvalErrorView,
    >(semantics::unhashable()));
    semantics::lemma_hash_of_error(ps, i + 1, ps.len());
}

pub fn bang_op(right: Value) -> (r: Result<Value, EvalError>)
    ensures
        value_result_view(r) == Ok::<ValueView, EvalErrorView>(
            ValueView::Boolean(!semantics::truthy(right@)),
        ),
{
    proof {
        lemma_view_value(right);
    }
    match right {
        Value::Boolean(b) => Ok(Value::boolean(!b.val)),
        Value::Null(_) => Ok(Value::boolean(true)),
        _ => Ok(Value::boolean(false)),
    }
}

pub fn minus_op(right: Value) -> (r: Result<Value, EvalError>)
    ensures
        value_result_view(r) == semantics::prefix_value("-"@, right@),
{
    proof {
        lemma_view_value(right);
        reveal_strlit("-");
        reveal_strlit("!");
        assert("-"@[0] == '-' && "!"@[0] == '!');
    }
    match right {
        Value::Integer(n) => Ok(Value::integer((0i64).wrapping_sub(n.val))),
        _ => Err(EvalError::UnexpectedNode(String::from_str("- Must be followed by an integer"))),
    }
}

/// The message for an operand of the wrong kind.
fn operand_message(operator: &String, side: &str) -> (r: String)
    ensures
        r@ == operator@ + side@,
{
    let mut message = operator.clone();
    message.append(side);
    message
}

pub fn infix_eval_str(operator: String, left: Value, right: Value) -> (r: Result<Value, EvalError>)
    ensures
        value_result_view(r) == semantics::string_operands(operator@, left@, right@),
{
    proof {
        lemma_view_value(left);
        lemma_view_value(right);
    }
    let l = match &left {
        Value::String(s) => s,
        _ => {
            return Err(
                EvalError::UnexpectedNode(
                    operand_message(&operator, " must operate on an integer to the left"),
                ),
            );
        },
    };
    let r = match &right {
        Value::String(s) => s,
        _ => {
            return Err(
                EvalError::UnexpectedNode(
                    operand_message(&operator, " must operate on an integer to the right"),
                ),
            );
        },
    };
    if same_text(operator.as_str(), "+") {
        let mut val = l.val.clone();
        val.append(r.val.as_str());
        Ok(Value::string(val))
    } else {
        let mut message = String::from_str("String ");
        message.append(operator.as_str());
        message.append(" String Undefined");
        Err(EvalError::Undefined(message))
    }
}

pub fn infix_eval_bool(operator: String, left: Value, right: Value) -> (r: Result<
    Value,
    EvalError,
>)
    ensures
        value_result_view(r) == semantics::boolean_operands(operator@, left@, right@),
{
    proof {
        lemma_view_value(left);
        lemma_view_value(right);
    }
    let l = match &left {
        Value::Boolean(b) => b.val,
        _ => {
            return Err(
                EvalError::UnexpectedNode(
                    operand_message(&operator, " must operate on an integer to the left"),
                ),
            );
        },
    };
    let r = match &right {
        Value::Boolean(b) => b.val,
        _ => {
            return Err(
                EvalError::UnexpectedNode(
                    operand_message(&operator, " must operate on an integer to the right"),
                ),
            );
        },
    };
    let op = operator.as_str();
    if same_text(op, "==") {
        Ok(Value::boolean(l == r))
    } else if same_text(op, "!=") {
        Ok(Value::boolean(l != r))
    } else {
        Err(
            EvalError::UnexpectedNode(
                String::from_str("operator is not recognised as an infix expression"),
            ),
        )
    }
}

/// Divides, rounding toward zero; the one quotient that does not fit wraps
/// around.
fn divide(left: i64, right: i64) -> (r: i64)
    requires
        right != 0,
    ensures
        r == semantics::wrapping_quotient(left, right),
{
    match left.checked_div(right) {
        Some(q) => q,
        None => i64::MIN,
    }
}

pub fn infix_eval_int(operator: String, left: Value, right: Value) -> (r: Result<Value, EvalError>)
    ensures
        value_result_view(r) == semantics::integer_operands(operator@, left@, right@),
{
    proof {
        lemma_view_value(left);
        lemma_view_value(right);
    }
    let l = match &left {
        Value::Integer(n) => n.val,
        _ => {
            return Err(
                EvalError::UnexpectedNode(
                    operand_message(&operator, " must operate on an integer to the left"),
                ),
            );
        },
    };
    let r = match &right {
        Value::Integer(n) => n.val,
        _ => {
            return Err(
                EvalError::UnexpectedNode(
                    operand_message(&operator, " must operate on an integer to the right"),
                ),
            );
        },
    };
    let op = operator.as_str();
    if same_text(op, "+") {
        Ok(Value::integer(l.wrapping_add(r)))
    } else if same_text(op, "-") {
        Ok(Value::integer(l.wrapping_sub(r)))
    } else if same_text(op, "*") {
        Ok(Value::integer(l.wrapping_mul(r)))
    } else if same_text(op, "/") {
        if r == 0 {
            Err(EvalError::UnexpectedNode(String::from_str("division by zero")))
        } else {
            Ok(Value::integer(divide(l, r)))
        }
    } else if same_text(op, "<") {
        Ok(Value::boolean(l < r))
    } else if same_text(op, ">") {
        Ok(Value::boolean(l > r))
    } else if same_text(op, "==") {
        Ok(Value::boolean(l == r))
    } else if same_text(op, "!=") {
        Ok(Value::boolean(l != r))
    } else {
        Err(
            EvalError::UnexpectedNode(
                String::from_str("operator is not recognised as an infix expression"),
            ),
        )
    }
}

impl EvalNode for Identifier {
    open spec fn meaning(&self, env: EnvView, depth: nat) -> Outcome {
        semantics::eval_expr(ExprView::Identifier(self@), env, depth)
    }

    fn eval(&self, env: &mut Env, depth: usize) -> (r: Result<Value, EvalError>)
    {
        proof {
            reveal(semantics::eval_expr);
        }
        env.get(self.value.clone())
    }
}

impl EvalNode for IntegerLiteral {
    open spec fn meaning(&self, env: EnvView, depth: nat) -> Outcome {
        semantics::eval_expr(self@, env, depth)
    }

    fn eval(&self, env: &mut Env, depth: usize) -> (r: Result<Value, EvalError>)
    {
        proof {
            self.lemma_view();
            reveal(semantics::eval_expr);
        }
        Ok(Value::integer(self.value))
    }
}

impl EvalNode for BooleanLiteral {
    open spec fn meaning(&self, env: EnvView, depth: nat) -> Outcome {
        semantics::eval_expr(self@, env, depth)
    }

    fn eval(&self, env: &mut Env, depth: usize) -> (r: Result<Value, EvalError>)
    {
        proof {
            self.lemma_view();
            reveal(semantics::eval_expr);
        }
        Ok(Value::boolean(self.value))
    }
}

impl EvalNode for StringLiteral {
    open spec fn meaning(&self, env: EnvView, depth: nat) -> Outcome {
        semantics::eval_expr(self@, env, depth)
    }

    fn eval(&self, env: &mut Env, depth: usize) -> (r: Result<Value, EvalError>)
    {
        proof {
            self.lemma_view();
            reveal(semantics::eval_expr);
        }
        Ok(Value::string(self.val.clone()))
    }
}

impl EvalNode for ArrayLiteral {
    open spec fn meaning(&self, env: EnvView, depth: nat) -> Outcome {
        semantics::eval_expr(self@, env, depth)
    }

    fn eval(&self, env: &mut Env, depth: usize) -> (r: Result<Value, EvalError>)
        decreases depth, 1nat, self,
    {
        proof {
            self.lemma_view();
            reveal(semantics::eval_expr);
            reveal(semantics::eval_array);
            reveal(semantics::eval_exprs);
            assert(decreases_to!(self => self.mems));
        }
        let mems = eval_expressions(&self.mems, env, depth)?;
        Ok(Value::array(mems))
    }
}

impl EvalNode for HashLiteral {
    open spec fn meaning(&self, env: EnvView, depth: nat) -> Outcome {
        semantics::eval_expr(self@, env, depth)
    }

    fn eval(&self, env: &mut Env, depth: usize) -> (r: Result<Value, EvalError>)
        decreases depth, 1nat, self,
    {
        proof {
            self.lemma_view();
            reveal(semantics::eval_expr);
            reveal(semantics::eval_hash);
            reveal(semantics::eval_pairs);
            assert(decreases_to!(self => self.pairs));
        }
        let pairs = eval_pair_expressions(&self.pairs, env, depth)?;
        build_hash(pairs)
    }
}

impl EvalNode for PrefixExpression {
    open spec fn meaning(&self, env: EnvView, depth: nat) -> Outcome {
        semantics::eval_expr(self@, env, depth)
    }

    fn eval(&self, env: &mut Env, depth: usize) -> (r: Result<Value, EvalError>)
        decreases depth, 1nat, self,
    {
        proof {
            self.lemma_view();
            reveal(semantics::eval_expr);
            reveal(semantics::eval_prefix);
            assert(decreases_to!(self => self.right));
        }
        let right = self.right.eval(env, depth)?;
        let op = self.operator.as_str();
        if same_text(op, "!") {
            bang_op(right)
        } else if same_text(op, "-") {
            minus_op(right)
        } else {
            Err(
                EvalError::UnexpectedNode(
                    String::from_str("operator is not recognised as a prefix expression"),
                ),
            )
        }
    }
}

impl EvalNode for InfixExpression {
    open spec fn meaning(&self, env: EnvView, depth: nat) -> Outcome {
        semantics::eval_expr(self@, env, depth)
    }

    fn eval(&self, env: &mut Env, depth: usize) -> (r: Result<Value, EvalError>)
        decreases depth, 1nat, self,
    {
        proof {
            self.lemma_view();
            reveal(semantics::eval_expr);
            reveal(semantics::eval_infix);
            assert(decreases_to!(self => self.left));
            assert(decreases_to!(self => self.right));
        }
        let left = self.left.eval(env, depth)?;
        let right = self.right.eval(env, depth)?;
        match (left.get_type(), right.get_type()) {
            (ObjType::Integer, ObjType::Integer) => infix_eval_int(
                self.operator.clone(),
                left,
                right,
            ),
            (ObjType::Boolean, ObjType::Boolean) => infix_eval_bool(
                self.operator.clone(),
                left,
                right,
            ),
            (ObjType::String, ObjType::String) => infix_eval_str(
                self.operator.clone(),
                left,
                right,
            ),
            (l, r) => {
                let mut message = l.string();
                message.append(" ");
                message.append(self.operator.as_str());
                message.append(" ");
                message.append(r.string().as_str());
                message.append(" :Infix operation undefined");
                Err(EvalError::UnexpectedNode(message))
            },
        }
    }
}

impl EvalNode for IfExpression {
    open spec fn meaning(&self, env: EnvView, depth: nat) -> Outcome {
        semantics::eval_expr(self@, env, depth)
    }

    fn eval(&self, env: &mut Env, depth: usize) -> (r: Result<Value, EvalError>)
        decreases depth, 1nat, self,
    {
        proof {
            self.lemma_view();
            reveal(semantics::eval_expr);
            reveal(semantics::eval_if);
            reveal(semantics::eval_block);
            assert(decreases_to!(self => self.condition));
            assert(decreases_to!(self => self.consequence));
            assert(decreases_to!(self => self.alternative));
        }
        let condition = self.condition.eval(env, depth)?;
        proof {
            lemma_view_value(condition);
        }
        let condition = match condition {
            Value::Boolean(b) => b.val,
            _ => {
                return Err(
                    EvalError::UnexpectedNode(
                        String::from_str("Condition musst evaluate to a boolean value"),
                    ),
                );
            },
        };
        if condition {
            return self.consequence.eval(env, depth);
        }
        match &self.alternative {
            Some(n) => {
                proof {
                    assert(decreases_to!(self.alternative => n));
                }
                n.eval(env, depth)
            },
            None => Ok(Value::null()),
        }
    }
}

impl EvalNode for FunctionLiteral {
    open spec fn meaning(&self, env: EnvView, depth: nat) -> Outcome {
        semantics::eval_expr(self@, env, depth)
    }

    fn eval(&self, env: &mut Env, depth: usize) -> (r: Result<Value, EvalError>)
    {
        proof {
            self.lemma_view();
            reveal(semantics::eval_expr);
        }
        let r = Value::Function(
            Function {
                params: clone_identifiers(&self.params),
                body: self.body.clone(),
                env: env.clone(),
            },
        );
        proof {
            lemma_view_value(r);
        }
        Ok(r)
    }
}

impl EvalNode for CallExpression {
    open spec fn meaning(&self, env: EnvView, depth: nat) -> Outcome {
        semantics::eval_expr(self@, env, depth)
    }

    fn eval(&self, env: &mut Env, depth: usize) -> (r: Result<Value, EvalError>)
        decreases depth, 1nat, self,
    {
        proof {
            self.lemma_view();
            reveal(semantics::eval_expr);
            reveal(semantics::eval_call);
            reveal(semantics::eval_exprs);
            reveal(semantics::eval_block);
            assert(decreases_to!(self => self.function));
            assert(decreases_to!(self => self.args));
        }
        let function = self.function.eval(env, depth)?;
        let args = eval_expressions(&self.args, env, depth)?;
        proof {
            lemma_view_value(function);
        }
        match &function {
            Value::Function(f) => apply_function_native(f, args, depth),
            Value::Builtin(b) => apply_function_builtin(b, args),
            _ => Err(EvalError::UnexpectedNode(String::from_str("Expected Function Identifier"))),
        }
    }
}

impl EvalNode for IndexExpression {
    open spec fn meaning(&self, env: EnvView, depth: nat) -> Outcome {
        semantics::eval_expr(self@, env, depth)
    }

    fn eval(&self, env: &mut Env, depth: usize) -> (r: Result<Value, EvalError>)
        decreases depth, 1nat, self,
    {
        proof {
            self.lemma_view();
            reveal(semantics::eval_expr);
            reveal(semantics::eval_index);
            assert(decreases_to!(self => self.left));
            assert(decreases_to!(self => self.index));
        }
        let index = self.index.eval(env, depth)?;
        let left = self.left.eval(env, depth)?;
        match left.get_type() {
            ObjType::Array => get_indexed_array(left, index),
            ObjType::Hash => get_indexed_hash(left, index),
            _ => Err(EvalError::UnexpectedNode(String::from_str("Expected Array Object"))),
        }
    }
}

impl EvalNode for Expression {
    open spec fn meaning(&self, env: EnvView, depth: nat) -> Outcome {
        semantics::eval_expr(self@, env, depth)
    }

    fn eval(&self, env: &mut Env, depth: usize) -> (r: Result<Value, EvalError>)
        decreases depth, 1nat, self,
    {
        match self {
            Expression::Identifier(n) => {
                proof {
                    lemma_view_identifier(*n);
                }
                n.eval(env, depth)
            },
            Expression::Integer(n) => n.eval(env, depth),
            Expression::Boolean(n) => n.eval(env, depth),
            Expression::Str(n) => n.eval(env, depth),
            Expression::Array(n) => {
                proof {
                    assert(decreases_to!(self => n));
                }
                n.eval(env, depth)
            },
            Expression::Hash(n) => {
                proof {
                    assert(decreases_to!(self => n));
                }
                n.eval(env, depth)
            },
            Expression::Prefix(n) => {
                proof {
                    assert(decreases_to!(self => n));
                }
                n.eval(env, depth)
            },
            Expression::Infix(n) => {
                proof {
                    assert(decreases_to!(self => n));
                }
                n.eval(env, depth)
            },
            Expression::If(n) => {
                proof {
                    assert(decreases_to!(self => n));
                }
                n.eval(env, depth)
            },
            Expression::Function(n) => n.eval(env, depth),
            Expression::Call(n) => {
                proof {
                    assert(decreases_to!(self => n));
                }
                n.eval(env, depth)
            },
            Expression::Index(n) => {
                proof {
                    assert(decreases_to!(self => n));
                }
                n.eval(env, depth)
            },
        }
    }
}

impl EvalNode for LetStatement {
    open spec fn meaning(&self, env: EnvView, depth: nat) -> Outcome {
        semantics::eval_stmt(self@, env, depth)
    }

    fn eval(&self, env: &mut Env, depth: usize) -> (r: Result<Value, EvalError>)
        decreases depth, 1nat, self,
    {
        proof {
            self.lemma_view();
            reveal(semantics::eval_stmt);
            reveal(semantics::eval_expr);
            assert(decreases_to!(self => self.value));
        }
        let value = self.value.eval(env, depth)?;
        env.set(self.name.value.clone(), value);
        Ok(Value::null())
    }
}

impl EvalNode for ReturnStatement {
    open spec fn meaning(&self, env: EnvView, depth: nat) -> Outcome {
        semantics::eval_stmt(self@, env, depth)
    }

    fn eval(&self, env: &mut Env, depth: usize) -> (r: Result<Value, EvalError>)
        decreases depth, 1nat, self,
    {
        proof {
            self.lemma_view();
            reveal(semantics::eval_stmt);
            reveal(semantics::eval_expr);
            assert(decreases_to!(self => self.value));
        }
        let value = self.value.eval(env, depth)?;
        let r = Value::ReturnValue(ReturnValue { val: Box::new(value) });
        proof {
            lemma_view_value(r);
        }
        Ok(r)
    }
}

impl EvalNode for ExpressionStatement {
    open spec fn meaning(&self, env: EnvView, depth: nat) -> Outcome {
        semantics::eval_stmt(self@, env, depth)
    }

    fn eval(&self, env: &mut Env, depth: usize) -> (r: Result<Value, EvalError>)
        decreases depth, 1nat, self,
    {
        proof {
            self.lemma_view();
            reveal(semantics::eval_stmt);
            reveal(semantics::eval_expr);
            assert(decreases_to!(self => self.expression));
        }
        self.expression.eval(env, depth)
    }
}

impl EvalNode for BlockStatement {
    open spec fn meaning(&self, env: EnvView, depth: nat) -> Outcome {
        semantics::eval_block(self@.statements, 0, env, depth)
    }

    fn eval(&self, env: &mut Env, depth: usize) -> (r: Result<Value, EvalError>)
        decreases depth, 1nat, self,
    {
        proof {
            self.lemma_view();
            assert(decreases_to!(self => self.statements));
        }
        eval_statements(&self.statements, env, depth)
    }
}

impl EvalNode for Statement {
    open spec fn meaning(&self, env: EnvView, depth: nat) -> Outcome {
        semantics::eval_stmt(self@, env, depth)
    }

    fn eval(&self, env: &mut Env, depth: usize) -> (r: Result<Value, EvalError>)
        decreases depth, 1nat, self,
    {
        match self {
            Statement::Let(n) => {
                proof {
                    assert(decreases_to!(self => n));
                }
                n.eval(env, depth)
            },
            Statement::Return(n) => {
                proof {
                    assert(decreases_to!(self => n));
                }
                n.eval(env, depth)
            },
            Statement::Expression(n) => {
                proof {
                    assert(decreases_to!(self => n));
                }
                n.eval(env, depth)
            },
            Statement::Block(n) => {
                proof {
                    assert(decreases_to!(self => n));
                    lemma_view_block_statement(*n);
                    reveal(semantics::eval_stmt);
                    reveal(semantics::eval_block);
                }
                n.eval(env, depth)
            },
        }
    }
}

impl EvalNode for Program {
    open spec fn meaning(&self, env: EnvView, depth: nat) -> Outcome {
        semantics::eval_program(self@, env, depth)
    }

    fn eval(&self, env: &mut Env, depth: usize) -> (r: Result<Value, EvalError>) {
        let r = eval_statements(&self.statements, env, depth);
        unwrap_return_value(r)
    }
}

} // verus!
