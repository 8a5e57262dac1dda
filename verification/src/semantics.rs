//! What programs mean: evaluation as a function from a syntax tree, an
//! environment and a bound on the depth of calls to a result and the
//! environment afterwards.
//!
//! The bound is what makes evaluation a total function: a call of a function
//! value is evaluated with a bound that is one less, and fails where the
//! bound is zero.

use vstd::prelude::*;
use vstd::wrapping::i64_specs;
use crate::ast::{BlockView, ExprView, IdentView, StmtView};
use crate::builtins::apply_builtin;
use crate::eval::EvalErrorView;
use crate::object::{EnvView, HashKey, ValueView, hash_key_of, kind_of, lookup, lookup_result};
use crate::parser::ParserErrorView;

verus! {

/// A result and the environment that evaluation leaves behind.
pub type Outcome = (Result<ValueView, EvalErrorView>, EnvView);

/// Everything is truthy but `null` and `false`.
pub open spec fn truthy(v: ValueView) -> bool {
    !(v is Null || v == ValueView::Boolean(false))
}

/// The quotient rounded toward zero.
pub open spec fn truncated_quotient(x: int, d: int) -> int
    recommends
        d != 0,
{
    if x == 0 {
        0
    } else if x > 0 && d > 0 {
        x / d
    } else if x < 0 && d < 0 {
        ((x * -1) / (d * -1))
    } else if x < 0 {
        ((x * -1) / d) * -1
    } else {
        (x / (d * -1)) * -1
    }
}

/// Division of 64-bit integers: the quotient rounded toward zero; a
/// quotient that does not fit wraps around to the least integer.
pub open spec fn wrapping_quotient(x: i64, d: i64) -> i64
    recommends
        d != 0,
{
    let q = truncated_quotient(x as int, d as int);
    if q < i64::MIN || q > i64::MAX {
        i64::MIN
    } else {
        q as i64
    }
}

/// The error for an operator that the operand kind does not have.
pub open spec fn unknown_operator() -> EvalErrorView {
    EvalErrorView::UnexpectedNode("operator is not recognised as an infix expression"@)
}

/// An infix operator between two integers. Sums, differences and products
/// wrap around; a division by zero is an error.
pub open spec fn integer_infix(op: Seq<char>, l: i64, r: i64) -> Result<ValueView, EvalErrorView> {
    if op == "+"@ {
        Ok(ValueView::Integer(i64_specs::wrapping_add(l, r)))
    } else if op == "-"@ {
        Ok(ValueView::Integer(i64_specs::wrapping_sub(l, r)))
    } else if op == "*"@ {
        Ok(ValueView::Integer(i64_specs::wrapping_mul(l, r)))
    } else if op == "/"@ {
        if r == 0 {
            Err(EvalErrorView::UnexpectedNode("division by zero"@))
        } else {
            Ok(ValueView::Integer(wrapping_quotient(l, r)))
        }
    } else if op == "<"@ {
        Ok(ValueView::Boolean(l < r))
    } else if op == ">"@ {
        Ok(ValueView::Boolean(l > r))
    } else if op == "=="@ {
        Ok(ValueView::Boolean(l == r))
    } else if op == "!="@ {
        Ok(ValueView::Boolean(l != r))
    } else {
        Err(unknown_operator())
    }
}

/// An infix operator between two booleans.
pub open spec fn boolean_infix(op: Seq<char>, l: bool, r: bool) -> Result<
    ValueView,
    EvalErrorView,
> {
    if op == "=="@ {
        Ok(ValueView::Boolean(l == r))
    } else if op == "!="@ {
        Ok(ValueView::Boolean(l != r))
    } else {
        Err(unknown_operator())
    }
}

/// An infix operator between two strings.
pub open spec fn string_infix(op: Seq<char>, l: Seq<char>, r: Seq<char>) -> Result<
    ValueView,
    EvalErrorView,
> {
    if op == "+"@ {
        Ok(ValueView::Str(l + r))
    } else {
        Err(EvalErrorView::Undefined("String "@ + op + " String Undefined"@))
    }
}

/// An infix operator between two values: both integers, both booleans or
/// both strings.
pub open spec fn infix_value(op: Seq<char>, l: ValueView, r: ValueView) -> Result<
    ValueView,
    EvalErrorView,
> {
    match (l, r) {
        (ValueView::Integer(a), ValueView::Integer(b)) => integer_infix(op, a, b),
        (ValueView::Boolean(a), ValueView::Boolean(b)) => boolean_infix(op, a, b),
        (ValueView::Str(a), ValueView::Str(b)) => string_infix(op, a, b),
        _ => Err(
            EvalErrorView::UnexpectedNode(
                kind_of(l).name() + " "@ + op + " "@ + kind_of(r).name()
                    + " :Infix operation undefined"@,
            ),
        ),
    }
}

/// A prefix operator before a value.
pub open spec fn prefix_value(op: Seq<char>, v: ValueView) -> Result<ValueView, EvalErrorView> {
    if op == "!"@ {
        Ok(ValueView::Boolean(!truthy(v)))
    } else if op == "-"@ {
        match v {
            ValueView::Integer(n) => Ok(ValueView::Integer(i64_specs::wrapping_sub(0, n))),
            _ => Err(EvalErrorView::UnexpectedNode("- Must be followed by an integer"@)),
        }
    } else {
        Err(EvalErrorView::UnexpectedNode("operator is not recognised as a prefix expression"@))
    }
}

/// The place of the first pair of a hash that is stored under `key`.
pub open spec fn hash_find(pairs: Seq<(HashKey, ValueView, ValueView)>, key: HashKey) -> Option<
    int,
>
    decreases pairs.len(),
{
    if pairs.len() == 0 {
        None
    } else {
        match hash_find(pairs.drop_last(), key) {
            Some(i) => Some(i),
            None => if pairs.last().0 == key {
                Some(pairs.len() - 1)
            } else {
                None
            },
        }
    }
}

/// The pairs with `k` and `v` stored under `key`: in the place of the pair
/// that was stored under it, or at the end.
pub open spec fn hash_insert(
    pairs: Seq<(HashKey, ValueView, ValueView)>,
    key: HashKey,
    k: ValueView,
    v: ValueView,
) -> Seq<(HashKey, ValueView, ValueView)> {
    match hash_find(pairs, key) {
        Some(i) => pairs.update(i, (key, k, v)),
        None => pairs.push((key, k, v)),
    }
}

/// The key value and the value that a hash stores under a key.
pub open spec fn stored_under(
    pairs: Seq<(HashKey, ValueView, ValueView)>,
    key: HashKey,
) -> Option<(ValueView, ValueView)> {
    match hash_find(pairs, key) {
        Some(i) => Some((pairs[i].1, pairs[i].2)),
        None => None,
    }
}

/// Two hashes are equal where they store the same under every key, in
/// whatever order their pairs stand.
pub open spec fn same_hash(
    a: Seq<(HashKey, ValueView, ValueView)>,
    b: Seq<(HashKey, ValueView, ValueView)>,
) -> bool {
    forall|key: HashKey| #[trigger] stored_under(a, key) == stored_under(b, key)
}

/// The error for a key of a hash literal that cannot be hashed.
pub open spec fn unhashable() -> EvalErrorView {
    EvalErrorView::Unhashable("Cannot hash key value must be string, integer or boolean"@)
}

/// The first `n` pairs stored one after another, each under the hash key of
/// its key; the error where one of these keys has no hash key.
pub open spec fn hash_of(pairs: Seq<(ValueView, ValueView)>, n: nat) -> Result<
    Seq<(HashKey, ValueView, ValueView)>,
    EvalErrorView,
>
    decreases n,
{
    if n == 0 || n > pairs.len() {
        Ok(Seq::empty())
    } else {
        match hash_of(pairs, (n - 1) as nat) {
            Err(e) => Err(e),
            Ok(stored) => match hash_key_of(pairs[n - 1].0) {
                None => Err(unhashable()),
                Some(key) => Ok(hash_insert(stored, key, pairs[n - 1].0, pairs[n - 1].1)),
            },
        }
    }
}

/// The hash that a hash literal makes of its evaluated pairs.
pub open spec fn build_hash(pairs: Seq<(ValueView, ValueView)>) -> Result<
    ValueView,
    EvalErrorView,
> {
    match hash_of(pairs, pairs.len()) {
        Ok(stored) => Ok(ValueView::Hash(stored)),
        Err(e) => Err(e),
    }
}

/// An element of an array by its index, which must be an integer within
/// the array.
pub open spec fn indexed_array(a: ValueView, i: ValueView) -> Result<ValueView, EvalErrorView> {
    match i {
        ValueView::Integer(n) => match a {
            ValueView::Array(items) => if n < 0 {
                Err(EvalErrorView::OutOfBounds("Invalid Integer for Index"@))
            } else if n >= items.len() {
                Err(EvalErrorView::OutOfBounds("Index is out of bounds"@))
            } else {
                Ok(items[n as int])
            },
            _ => Err(EvalErrorView::UnexpectedNode("Expected Array Object"@)),
        },
        _ => Err(EvalErrorView::UnexpectedNode("Expected Integer Object"@)),
    }
}

/// The value that a hash stores under a key, which must have a hash key
/// that the hash holds.
pub open spec fn indexed_hash(h: ValueView, i: ValueView) -> Result<ValueView, EvalErrorView> {
    match h {
        ValueView::Hash(pairs) => match hash_key_of(i) {
            None => Err(EvalErrorView::UnexpectedNode("Expected Index Obj"@)),
            Some(key) => match hash_find(pairs, key) {
                Some(place) => Ok(pairs[place].2),
                None => Err(EvalErrorView::OutOfBounds("Invalid Index for hash map"@)),
            },
        },
        _ => Err(EvalErrorView::UnexpectedNode("Expected Hash Object"@)),
    }
}

/// What indexing `left` with `index` gives.
pub open spec fn index_value(left: ValueView, index: ValueView) -> Result<
    ValueView,
    EvalErrorView,
> {
    match left {
        ValueView::Array(_) => indexed_array(left, index),
        ValueView::Hash(_) => indexed_hash(left, index),
        _ => Err(EvalErrorView::UnexpectedNode("Expected Array Object"@)),
    }
}

/// An infix operator between two values that must be integers.
pub open spec fn integer_operands(op: Seq<char>, l: ValueView, r: ValueView) -> Result<
    ValueView,
    EvalErrorView,
> {
    match l {
        ValueView::Integer(a) => match r {
            ValueView::Integer(b) => integer_infix(op, a, b),
            _ => Err(EvalErrorView::UnexpectedNode(op + " must operate on an integer to the right"@)),
        },
        _ => Err(EvalErrorView::UnexpectedNode(op + " must operate on an integer to the left"@)),
    }
}

/// An infix operator between two values that must be booleans.
pub open spec fn boolean_operands(op: Seq<char>, l: ValueView, r: ValueView) -> Result<
    ValueView,
    EvalErrorView,
> {
    match l {
        ValueView::Boolean(a) => match r {
            ValueView::Boolean(b) => boolean_infix(op, a, b),
            _ => Err(EvalErrorView::UnexpectedNode(op + " must operate on an integer to the right"@)),
        },
        _ => Err(EvalErrorView::UnexpectedNode(op + " must operate on an integer to the left"@)),
    }
}

/// An infix operator between two values that must be strings.
pub open spec fn string_operands(op: Seq<char>, l: ValueView, r: ValueView) -> Result<
    ValueView,
    EvalErrorView,
> {
    match l {
        ValueView::Str(a) => match r {
            ValueView::Str(b) => string_infix(op, a, b),
            _ => Err(EvalErrorView::UnexpectedNode(op + " must operate on an integer to the right"@)),
        },
        _ => Err(EvalErrorView::UnexpectedNode(op + " must operate on an integer to the left"@)),
    }
}

/// The hash key of a value, or the given error where it has none.
pub open spec fn hashed(v: ValueView, err: EvalErrorView) -> Result<HashKey, EvalErrorView> {
    match hash_key_of(v) {
        Some(key) => Ok(key),
        None => Err(err),
    }
}

/// A stored error stays the error when more pairs are stored.
pub proof fn lemma_hash_of_error(pairs: Seq<(ValueView, ValueView)>, i: nat, n: nat)
    requires
        i <= n <= pairs.len(),
        hash_of(pairs, i) is Err,
    ensures
        hash_of(pairs, n) == hash_of(pairs, i),
    decreases n - i,
{
    if i < n {
        lemma_hash_of_error(pairs, i, (n - 1) as nat);
    }
}

/// The bindings of the first `n` parameters to the arguments in their
/// places. A parameter without an argument stays unbound, and an argument
/// without a parameter is dropped.
pub open spec fn bind_params(params: Seq<IdentView>, args: Seq<ValueView>, n: nat) -> Map<
    Seq<char>,
    ValueView,
>
    decreases n,
{
    if n == 0 || n > params.len() || n > args.len() {
        Map::empty()
    } else {
        bind_params(params, args, (n - 1) as nat).insert(params[n - 1].value, args[n - 1])
    }
}

/// The number of parameters that get an argument.
pub open spec fn bound_count(params: Seq<IdentView>, args: Seq<ValueView>) -> nat {
    if params.len() <= args.len() {
        params.len()
    } else {
        args.len()
    }
}

/// The environment in which the body of a called function is evaluated: a
/// fresh frame with the parameters, inside the environment that the function
/// captured.
pub open spec fn call_env(params: Seq<IdentView>, args: Seq<ValueView>, closure: EnvView) -> EnvView {
    EnvView {
        store: bind_params(params, args, bound_count(params, args)),
        outer: Some(Box::new(closure)),
    }
}

/// A result without the marker that `return` put around it.
pub open spec fn unwrap_return(r: Result<ValueView, EvalErrorView>) -> Result<
    ValueView,
    EvalErrorView,
> {
    match r {
        Ok(ValueView::ReturnValue(v)) => Ok(*v),
        _ => r,
    }
}

/// Whether a result ends the evaluation of a statement list: an error, or
/// a value with the marker of `return`.
pub open spec fn stops(r: Result<ValueView, EvalErrorView>) -> bool {
    match r {
        Ok(ValueView::ReturnValue(_)) => true,
        Ok(_) => false,
        Err(_) => true,
    }
}

/// The error for a call that is nested too deeply.
pub open spec fn too_deep() -> EvalErrorView {
    EvalErrorView::IncorrectArgs("call depth limit exceeded"@)
}

/// An environment with one more binding in its local frame.
pub open spec fn bind(env: EnvView, name: Seq<char>, v: ValueView) -> EnvView {
    EnvView { store: env.store.insert(name, v), outer: env.outer }
}

/// The value of an expression.
#[verifier::opaque]
pub open spec fn eval_expr(e: ExprView, env: EnvView, fuel: nat) -> Outcome
    decreases fuel, e, 1nat,
{
    match e {
        ExprView::Identifier(n) => (lookup_result(lookup(env, n.value)), env),
        ExprView::Integer { token, value } => (Ok(ValueView::Integer(value)), env),
        ExprView::Boolean { token, value } => (Ok(ValueView::Boolean(value)), env),
        ExprView::Str { token, val } => (Ok(ValueView::Str(val)), env),
        ExprView::Array { tok, mems } => eval_array(e, env, fuel),
        ExprView::Hash { tok, pairs } => eval_hash(e, env, fuel),
        ExprView::Prefix { token, operator, right } => eval_prefix(e, env, fuel),
        ExprView::Infix { token, left, operator, right } => eval_infix(e, env, fuel),
        ExprView::If { token, condition, consequence, alternative } => eval_if(e, env, fuel),
        ExprView::Function { token, params, body } => (
            Ok(ValueView::Function { params, body, env: Box::new(env) }),
            env,
        ),
        ExprView::Call { token, function, args } => eval_call(e, env, fuel),
        ExprView::Index { tok, left, index } => eval_index(e, env, fuel),
    }
}

/// The value of an array literal: the array of the values of its elements,
/// evaluated from left to right.
#[verifier::opaque]
pub open spec fn eval_array(e: ExprView, env: EnvView, fuel: nat) -> Outcome
    decreases fuel, e, 0nat,
{
    match e {
        ExprView::Array { tok, mems } => {
            let (r, env1) = eval_exprs(mems, 0, Seq::empty(), env, fuel);
            match r {
                Ok(vs) => (Ok(ValueView::Array(vs)), env1),
                Err(err) => (Err(err), env1),
            }
        },
        _ => (Ok(ValueView::Null), env),
    }
}

/// The value of a hash literal: its pairs are evaluated from left to right,
/// then stored one after another.
#[verifier::opaque]
pub open spec fn eval_hash(e: ExprView, env: EnvView, fuel: nat) -> Outcome
    decreases fuel, e, 0nat,
{
    match e {
        ExprView::Hash { tok, pairs } => {
            let (r, env1) = eval_pairs(pairs, 0, Seq::empty(), env, fuel);
            match r {
                Ok(ps) => (build_hash(ps), env1),
                Err(err) => (Err(err), env1),
            }
        },
        _ => (Ok(ValueView::Null), env),
    }
}

/// The value of a prefix expression.
#[verifier::opaque]
pub open spec fn eval_prefix(e: ExprView, env: EnvView, fuel: nat) -> Outcome
    decreases fuel, e, 0nat,
{
    match e {
        ExprView::Prefix { token, operator, right } => {
            let (r, env1) = eval_expr(*right, env, fuel);
            match r {
                Ok(v) => (prefix_value(operator, v), env1),
                Err(err) => (Err(err), env1),
            }
        },
        _ => (Ok(ValueView::Null), env),
    }
}

/// The value of an infix expression: the left operand is evaluated before
/// the right one.
#[verifier::opaque]
pub open spec fn eval_infix(e: ExprView, env: EnvView, fuel: nat) -> Outcome
    decreases fuel, e, 0nat,
{
    match e {
        ExprView::Infix { token, left, operator, right } => {
            let (l, env1) = eval_expr(*left, env, fuel);
            match l {
                Err(err) => (Err(err), env1),
                Ok(lv) => {
                    let (r, env2) = eval_expr(*right, env1, fuel);
                    match r {
                        Err(err) => (Err(err), env2),
                        Ok(rv) => (infix_value(operator, lv, rv), env2),
                    }
                },
            }
        },
        _ => (Ok(ValueView::Null), env),
    }
}

/// The error for a condition that is no boolean.
pub open spec fn not_a_condition() -> EvalErrorView {
    EvalErrorView::UnexpectedNode("Condition musst evaluate to a boolean value"@)
}

/// The value of an `if` expression: that of the block that the condition
/// selects, in the environment of the `if` itself; `null` where the
/// condition is false and there is no `else`.
#[verifier::opaque]
pub open spec fn eval_if(e: ExprView, env: EnvView, fuel: nat) -> Outcome
    decreases fuel, e, 0nat,
{
    match e {
        ExprView::If { token, condition, consequence, alternative } => {
            let (c, env1) = eval_expr(*condition, env, fuel);
            match c {
                Err(err) => (Err(err), env1),
                Ok(ValueView::Boolean(true)) => eval_block(consequence.statements, 0, env1, fuel),
                Ok(ValueView::Boolean(false)) => match alternative {
                    Some(b) => eval_block(b.statements, 0, env1, fuel),
                    None => (Ok(ValueView::Null), env1),
                },
                Ok(_) => (Err(not_a_condition()), env1),
            }
        },
        _ => (Ok(ValueView::Null), env),
    }
}

/// The error for a callee that is no function.
pub open spec fn not_a_function() -> EvalErrorView {
    EvalErrorView::UnexpectedNode("Expected Function Identifier"@)
}

/// The value of a call: the callee is evaluated, then the arguments from
/// left to right. The body of a function value is evaluated in a fresh frame
/// inside the environment that the function captured, whatever the
/// environment of the call, and the marker of `return` is taken off its
/// result.
#[verifier::opaque]
pub open spec fn eval_call(e: ExprView, env: EnvView, fuel: nat) -> Outcome
    decreases fuel, e, 0nat,
{
    match e {
        ExprView::Call { token, function, args } => {
            let (f, env1) = eval_expr(*function, env, fuel);
            match f {
                Err(err) => (Err(err), env1),
                Ok(callee) => {
                    let (a, env2) = eval_exprs(args, 0, Seq::empty(), env1, fuel);
                    match a {
                        Err(err) => (Err(err), env2),
                        Ok(values) => match callee {
                            ValueView::Function { params, body, env: closure } => if fuel == 0 {
                                (Err(too_deep()), env2)
                            } else {
                                (
                                    unwrap_return(
                                        eval_block(
                                            body.statements,
                                            0,
                                            call_env(params, values, *closure),
                                            (fuel - 1) as nat,
                                        ).0,
                                    ),
                                    env2,
                                )
                            },
                            ValueView::Builtin(b) => (apply_builtin(b, values), env2),
                            _ => (Err(not_a_function()), env2),
                        },
                    }
                },
            }
        },
        _ => (Ok(ValueView::Null), env),
    }
}

/// The value of an index expression: the index is evaluated before the
/// expression that is indexed.
#[verifier::opaque]
pub open spec fn eval_index(e: ExprView, env: EnvView, fuel: nat) -> Outcome
    decreases fuel, e, 0nat,
{
    match e {
        ExprView::Index { tok, left, index } => {
            let (i, env1) = eval_expr(*index, env, fuel);
            match i {
                Err(err) => (Err(err), env1),
                Ok(iv) => {
                    let (l, env2) = eval_expr(*left, env1, fuel);
                    match l {
                        Err(err) => (Err(err), env2),
                        Ok(lv) => (index_value(lv, iv), env2),
                    }
                },
            }
        },
        _ => (Ok(ValueView::Null), env),
    }
}

/// What calling a function value with given arguments returns, with `fuel`
/// as the bound at the call.
pub open spec fn call_function(
    params: Seq<IdentView>,
    body: BlockView,
    closure: EnvView,
    args: Seq<ValueView>,
    fuel: nat,
) -> Result<ValueView, EvalErrorView> {
    if fuel == 0 {
        Err(too_deep())
    } else {
        unwrap_return(
            eval_block(body.statements, 0, call_env(params, args, closure), (fuel - 1) as nat).0,
        )
    }
}

/// The values of the expressions from place `i` on, behind the values `acc`
/// of those before; the first error ends the evaluation.
#[verifier::opaque]
pub open spec fn eval_exprs(
    es: Seq<ExprView>,
    i: nat,
    acc: Seq<ValueView>,
    env: EnvView,
    fuel: nat,
) -> (Result<Seq<ValueView>, EvalErrorView>, EnvView)
    decreases fuel, es, es.len() - i,
{
    if i >= es.len() {
        (Ok(acc), env)
    } else {
        let (r, env1) = eval_expr(es[i as int], env, fuel);
        match r {
            Err(err) => (Err(err), env1),
            Ok(v) => eval_exprs(es, i + 1, acc.push(v), env1, fuel),
        }
    }
}

/// The values of the pairs from place `i` on, key before value, behind the
/// values `acc` of those before; the first error ends the evaluation.
#[verifier::opaque]
pub open spec fn eval_pairs(
    ps: Seq<(ExprView, ExprView)>,
    i: nat,
    acc: Seq<(ValueView, ValueView)>,
    env: EnvView,
    fuel: nat,
) -> (Result<Seq<(ValueView, ValueView)>, EvalErrorView>, EnvView)
    decreases fuel, ps, ps.len() - i,
{
    if i >= ps.len() {
        (Ok(acc), env)
    } else {
        let (k, env1) = eval_expr(ps[i as int].0, env, fuel);
        match k {
            Err(err) => (Err(err), env1),
            Ok(kv) => {
                let (v, env2) = eval_expr(ps[i as int].1, env1, fuel);
                match v {
                    Err(err) => (Err(err), env2),
                    Ok(vv) => eval_pairs(ps, i + 1, acc.push((kv, vv)), env2, fuel),
                }
            },
        }
    }
}

/// The statements from place `i` on, one after another: the first error or
/// value with the marker of `return` is the result, marker included; without
/// one the result is `null`. A parse error in the place of a statement is
/// the error of that place.
#[verifier::opaque]
pub open spec fn eval_block(
    stmts: Seq<Result<StmtView, ParserErrorView>>,
    i: nat,
    env: EnvView,
    fuel: nat,
) -> Outcome
    decreases fuel, stmts, stmts.len() - i,
{
    if i >= stmts.len() {
        (Ok(ValueView::Null), env)
    } else {
        match stmts[i as int] {
            Err(pe) => (Err(EvalErrorView::ParserError(pe)), env),
            Ok(s) => {
                let (r, env1) = eval_stmt(s, env, fuel);
                if stops(r) {
                    (r, env1)
                } else {
                    eval_block(stmts, i + 1, env1, fuel)
                }
            },
        }
    }
}

/// The value of a statement.
#[verifier::opaque]
pub open spec fn eval_stmt(s: StmtView, env: EnvView, fuel: nat) -> Outcome
    decreases fuel, s, 1nat,
{
    match s {
        StmtView::Let { token, name, value } => {
            let (r, env1) = eval_expr(value, env, fuel);
            match r {
                Err(err) => (Err(err), env1),
                Ok(v) => (Ok(ValueView::Null), bind(env1, name.value, v)),
            }
        },
        StmtView::Return { token, value } => {
            let (r, env1) = eval_expr(value, env, fuel);
            match r {
                Err(err) => (Err(err), env1),
                Ok(v) => (Ok(ValueView::ReturnValue(Box::new(v))), env1),
            }
        },
        StmtView::Expression { token, expression } => eval_expr(expression, env, fuel),
        StmtView::Block(b) => eval_block(b.statements, 0, env, fuel),
    }
}

/// One place of a statement list: the statement's value, or the parse error
/// that stands in its place.
pub open spec fn eval_entry(r: Result<StmtView, ParserErrorView>, env: EnvView, fuel: nat) -> Outcome {
    match r {
        Ok(s) => eval_stmt(s, env, fuel),
        Err(pe) => (Err(EvalErrorView::ParserError(pe)), env),
    }
}

/// The value of a program: that of its statements as a list, without the
/// marker of `return`.
pub open spec fn eval_program(
    stmts: Seq<Result<StmtView, ParserErrorView>>,
    env: EnvView,
    fuel: nat,
) -> Outcome {
    let (r, env1) = eval_block(stmts, 0, env, fuel);
    (unwrap_return(r), env1)
}

} // verus!
