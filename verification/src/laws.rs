//! Laws of the language, proved from the definitions of the grammar and of
//! evaluation.

use vstd::prelude::*;
use crate::ast::{BlockView, ExprView, IdentView, StmtView};
use crate::eval::EvalErrorView;
use crate::builtins::builtin_named;
use crate::object::{EnvView, HashKey, ValueView, hash_key_of, lookup};
use crate::semantics::bind;
use crate::parser::ParserErrorView;
use crate::semantics::{call_function, eval_array, eval_block, eval_call, eval_entry, eval_expr, eval_exprs, eval_if, eval_pairs, eval_program, eval_stmt, hash_find, hash_insert, index_value, integer_infix, same_hash, stops, stored_under};
use crate::grammar::{InfixHandler, LOWEST, infix_handler, parse_expression, parse_expression_infix, parse_infix, parse_infix_expression, parse_prefix, precedence_of};
use crate::text::parse_decimal_spec;
use crate::token::{TokenType, TokenView};

verus! {

/// The expressions before place `k` evaluate as a list of their own does;
/// evaluation of the whole list goes on from there.
pub proof fn lemma_exprs_prefix(
    es: Seq<ExprView>,
    k: nat,
    i: nat,
    acc: Seq<ValueView>,
    env: EnvView,
    fuel: nat,
)
    requires
        i <= k <= es.len(),
        eval_exprs(es.take(k as int), i, acc, env, fuel).0 is Ok,
    ensures
        eval_exprs(es, i, acc, env, fuel) == eval_exprs(
            es,
            k,
            eval_exprs(es.take(k as int), i, acc, env, fuel).0->Ok_0,
            eval_exprs(es.take(k as int), i, acc, env, fuel).1,
            fuel,
        ),
    decreases k - i,
{
    reveal(eval_exprs);
    reveal(eval_expr);
    if i < k {
        assert(es.take(k as int)[i as int] == es[i as int]);
        let (r, env1) = eval_expr(es[i as int], env, fuel);
        lemma_exprs_prefix(es, k, i + 1, acc.push(r->Ok_0), env1, fuel);
    }
}

/// An error ends a list of expressions: where the expressions before place
/// `k` evaluate to values and the one at `k` to an error, the list evaluates
/// to that error and leaves the environment as that expression left it,
/// whatever stands behind place `k`.
pub proof fn law_error_ends_expressions(es: Seq<ExprView>, k: nat, env: EnvView, fuel: nat)
    requires
        k < es.len(),
        eval_exprs(es.take(k as int), 0, Seq::empty(), env, fuel).0 is Ok,
        eval_expr(
            es[k as int],
            eval_exprs(es.take(k as int), 0, Seq::empty(), env, fuel).1,
            fuel,
        ).0 is Err,
    ensures
        eval_exprs(es, 0, Seq::empty(), env, fuel) == (
            Err::<Seq<ValueView>, EvalErrorView>(
                eval_expr(
                    es[k as int],
                    eval_exprs(es.take(k as int), 0, Seq::empty(), env, fuel).1,
                    fuel,
                ).0->Err_0,
            ),
            eval_expr(
                es[k as int],
                eval_exprs(es.take(k as int), 0, Seq::empty(), env, fuel).1,
                fuel,
            ).1,
        ),
{
    lemma_exprs_prefix(es, k, 0, Seq::empty(), env, fuel);
    reveal(eval_exprs);
    reveal(eval_expr);
}

/// An error among the elements of an array literal is the value of the
/// literal.
pub proof fn law_error_ends_array(e: ExprView, k: nat, env: EnvView, fuel: nat)
    requires
        e is Array,
        k < e->mems.len(),
        eval_exprs(e->mems.take(k as int), 0, Seq::empty(), env, fuel).0 is Ok,
        eval_expr(
            e->mems[k as int],
            eval_exprs(e->mems.take(k as int), 0, Seq::empty(), env, fuel).1,
            fuel,
        ).0 is Err,
    ensures
        eval_expr(e, env, fuel) == (
            Err::<ValueView, EvalErrorView>(
                eval_expr(
                    e->mems[k as int],
                    eval_exprs(e->mems.take(k as int), 0, Seq::empty(), env, fuel).1,
                    fuel,
                ).0->Err_0,
            ),
            eval_expr(
                e->mems[k as int],
                eval_exprs(e->mems.take(k as int), 0, Seq::empty(), env, fuel).1,
                fuel,
            ).1,
        ),
{
    law_error_ends_expressions(e->mems, k, env, fuel);
    reveal(eval_expr);
    reveal(eval_array);
    reveal(eval_exprs);
}

/// An error among the arguments of a call is the value of the call: the
/// callee is not called.
pub proof fn law_error_ends_arguments(e: ExprView, k: nat, env: EnvView, fuel: nat)
    requires
        e is Call,
        k < e->args.len(),
        eval_expr(*e->function, env, fuel).0 is Ok,
        eval_exprs(
            e->args.take(k as int),
            0,
            Seq::empty(),
            eval_expr(*e->function, env, fuel).1,
            fuel,
        ).0 is Ok,
        eval_expr(
            e->args[k as int],
            eval_exprs(
                e->args.take(k as int),
                0,
                Seq::empty(),
                eval_expr(*e->function, env, fuel).1,
                fuel,
            ).1,
            fuel,
        ).0 is Err,
    ensures
        eval_expr(e, env, fuel) == (
            Err::<ValueView, EvalErrorView>(
                eval_expr(
                    e->args[k as int],
                    eval_exprs(
                        e->args.take(k as int),
                        0,
                        Seq::empty(),
                        eval_expr(*e->function, env, fuel).1,
                        fuel,
                    ).1,
                    fuel,
                ).0->Err_0,
            ),
            eval_expr(
                e->args[k as int],
                eval_exprs(
                    e->args.take(k as int),
                    0,
                    Seq::empty(),
                    eval_expr(*e->function, env, fuel).1,
                    fuel,
                ).1,
                fuel,
            ).1,
        ),
{
    law_error_ends_expressions(e->args, k, eval_expr(*e->function, env, fuel).1, fuel);
    reveal(eval_expr);
    reveal(eval_call);
    reveal(eval_exprs);
}

/// The pairs before place `k` evaluate as a list of their own does;
/// evaluation of the whole list goes on from there.
pub proof fn lemma_pairs_prefix(
    ps: Seq<(ExprView, ExprView)>,
    k: nat,
    i: nat,
    acc: Seq<(ValueView, ValueView)>,
    env: EnvView,
    fuel: nat,
)
    requires
        i <= k <= ps.len(),
        eval_pairs(ps.take(k as int), i, acc, env, fuel).0 is Ok,
    ensures
        eval_pairs(ps, i, acc, env, fuel) == eval_pairs(
            ps,
            k,
            eval_pairs(ps.take(k as int), i, acc, env, fuel).0->Ok_0,
            eval_pairs(ps.take(k as int), i, acc, env, fuel).1,
            fuel,
        ),
    decreases k - i,
{
    reveal(eval_pairs);
    reveal(eval_expr);
    if i < k {
        assert(ps.take(k as int)[i as int] == ps[i as int]);
        let (kr, env1) = eval_expr(ps[i as int].0, env, fuel);
        let (vr, env2) = eval_expr(ps[i as int].1, env1, fuel);
        lemma_pairs_prefix(ps, k, i + 1, acc.push((kr->Ok_0, vr->Ok_0)), env2, fuel);
    }
}

/// An error ends the pairs of a hash literal: where the pairs before place
/// `k` evaluate to values and the key at `k` to an error, the list evaluates
/// to that error, and neither the value at `k` nor a later pair counts.
pub proof fn law_error_ends_pairs(ps: Seq<(ExprView, ExprView)>, k: nat, env: EnvView, fuel: nat)
    requires
        k < ps.len(),
        eval_pairs(ps.take(k as int), 0, Seq::empty(), env, fuel).0 is Ok,
        eval_expr(
            ps[k as int].0,
            eval_pairs(ps.take(k as int), 0, Seq::empty(), env, fuel).1,
            fuel,
        ).0 is Err,
    ensures
        eval_pairs(ps, 0, Seq::empty(), env, fuel) == (
            Err::<Seq<(ValueView, ValueView)>, EvalErrorView>(
                eval_expr(
                    ps[k as int].0,
                    eval_pairs(ps.take(k as int), 0, Seq::empty(), env, fuel).1,
                    fuel,
                ).0->Err_0,
            ),
            eval_expr(
                ps[k as int].0,
                eval_pairs(ps.take(k as int), 0, Seq::empty(), env, fuel).1,
                fuel,
            ).1,
        ),
{
    lemma_pairs_prefix(ps, k, 0, Seq::empty(), env, fuel);
    reveal(eval_pairs);
    reveal(eval_expr);
}

/// An error in the value of a pair ends the pairs of a hash literal as one
/// in its key does: no later pair counts.
pub proof fn law_value_error_ends_pairs(
    ps: Seq<(ExprView, ExprView)>,
    k: nat,
    env: EnvView,
    fuel: nat,
)
    requires
        k < ps.len(),
        eval_pairs(ps.take(k as int), 0, Seq::empty(), env, fuel).0 is Ok,
        eval_expr(
            ps[k as int].0,
            eval_pairs(ps.take(k as int), 0, Seq::empty(), env, fuel).1,
            fuel,
        ).0 is Ok,
        eval_expr(
            ps[k as int].1,
            eval_expr(
                ps[k as int].0,
                eval_pairs(ps.take(k as int), 0, Seq::empty(), env, fuel).1,
                fuel,
            ).1,
            fuel,
        ).0 is Err,
    ensures
        eval_pairs(ps, 0, Seq::empty(), env, fuel) == (
            Err::<Seq<(ValueView, ValueView)>, EvalErrorView>(
                eval_expr(
                    ps[k as int].1,
                    eval_expr(
                        ps[k as int].0,
                        eval_pairs(ps.take(k as int), 0, Seq::empty(), env, fuel).1,
                        fuel,
                    ).1,
                    fuel,
                ).0->Err_0,
            ),
            eval_expr(
                ps[k as int].1,
                eval_expr(
                    ps[k as int].0,
                    eval_pairs(ps.take(k as int), 0, Seq::empty(), env, fuel).1,
                    fuel,
                ).1,
                fuel,
            ).1,
        ),
{
    lemma_pairs_prefix(ps, k, 0, Seq::empty(), env, fuel);
    reveal(eval_pairs);
    reveal(eval_expr);
}

/// The statements before place `k`, where they run to their end, leave the
/// environment in which the statement at `k` is evaluated.
pub proof fn lemma_block_prefix(
    stmts: Seq<Result<StmtView, ParserErrorView>>,
    k: nat,
    i: nat,
    env: EnvView,
    fuel: nat,
)
    requires
        i <= k <= stmts.len(),
        !stops(eval_block(stmts.take(k as int), i, env, fuel).0),
    ensures
        eval_block(stmts, i, env, fuel) == eval_block(
            stmts,
            k,
            eval_block(stmts.take(k as int), i, env, fuel).1,
            fuel,
        ),
    decreases k - i,
{
    reveal(eval_block);
    reveal(eval_stmt);
    if i < k {
        assert(stmts.take(k as int)[i as int] == stmts[i as int]);
        let (r, env1) = eval_entry(stmts[i as int], env, fuel);
        lemma_block_prefix(stmts, k, i + 1, env1, fuel);
    }
}

/// An error or a `return` ends a statement list: where the statements
/// before place `k` run to their end and the one at `k` gives an error or a
/// value with the marker of `return`, that is the result of the list, marker
/// included, whatever stands behind place `k`.
pub proof fn law_stop_ends_statements(
    stmts: Seq<Result<StmtView, ParserErrorView>>,
    k: nat,
    env: EnvView,
    fuel: nat,
)
    requires
        k < stmts.len(),
        !stops(eval_block(stmts.take(k as int), 0, env, fuel).0),
        stops(
            eval_entry(stmts[k as int], eval_block(stmts.take(k as int), 0, env, fuel).1, fuel).0,
        ),
    ensures
        eval_block(stmts, 0, env, fuel) == eval_entry(
            stmts[k as int],
            eval_block(stmts.take(k as int), 0, env, fuel).1,
            fuel,
        ),
{
    lemma_block_prefix(stmts, k, 0, env, fuel);
    reveal(eval_block);
    reveal(eval_stmt);
}

/// `return` marks the value of its expression.
pub proof fn law_return_marks(s: StmtView, env: EnvView, fuel: nat)
    requires
        s is Return,
        eval_expr(s->Return_value, env, fuel).0 is Ok,
    ensures
        eval_stmt(s, env, fuel).0 == Ok::<ValueView, EvalErrorView>(
            ValueView::ReturnValue(Box::new(eval_expr(s->Return_value, env, fuel).0->Ok_0)),
        ),
{
    reveal(eval_stmt);
    reveal(eval_expr);
}

/// An `if` hands on what the block it selects gives, the marker of `return`
/// included.
pub proof fn law_if_hands_on(e: ExprView, env: EnvView, fuel: nat)
    requires
        e is If,
        eval_expr(*e->condition, env, fuel).0 == Ok::<ValueView, EvalErrorView>(
            ValueView::Boolean(true),
        ),
    ensures
        eval_expr(e, env, fuel) == eval_block(
            e->consequence.statements,
            0,
            eval_expr(*e->condition, env, fuel).1,
            fuel,
        ),
{
    reveal(eval_expr);
    reveal(eval_if);
    reveal(eval_block);
}

/// A call takes the marker of `return` off the value of the function's
/// body: what is returned inside the body, at any depth of blocks, is the
/// value of the call.
pub proof fn law_call_unwraps(
    params: Seq<IdentView>,
    body: BlockView,
    closure: EnvView,
    args: Seq<ValueView>,
    fuel: nat,
    v: ValueView,
)
    requires
        fuel > 0,
        eval_block(
            body.statements,
            0,
            crate::semantics::call_env(params, args, closure),
            (fuel - 1) as nat,
        ).0 == Ok::<ValueView, EvalErrorView>(ValueView::ReturnValue(Box::new(v))),
    ensures
        call_function(params, body, closure, args, fuel) == Ok::<ValueView, EvalErrorView>(v),
{
}

/// A program takes the marker of `return` off the value of its statements:
/// what a top-level `return` returns is the value of the program.
pub proof fn law_program_unwraps(
    stmts: Seq<Result<StmtView, ParserErrorView>>,
    env: EnvView,
    fuel: nat,
    v: ValueView,
)
    requires
        eval_block(stmts, 0, env, fuel).0 == Ok::<ValueView, EvalErrorView>(
            ValueView::ReturnValue(Box::new(v)),
        ),
    ensures
        eval_program(stmts, env, fuel).0 == Ok::<ValueView, EvalErrorView>(v),
{
}

/// A function value is called in the environment that it captured. Where
/// the callee of a call evaluates to the function value that a function
/// literal made in `captured`, the call returns what the body gives in a
/// fresh frame inside `captured`: the environment of the call has no part
/// in it.
pub proof fn law_closure_capture(
    literal: ExprView,
    captured: EnvView,
    call: ExprView,
    env: EnvView,
    fuel: nat,
)
    requires
        literal is Function,
        call is Call,
        eval_expr(*call->function, env, fuel).0 == eval_expr(literal, captured, fuel).0,
        eval_exprs(
            call->args,
            0,
            Seq::empty(),
            eval_expr(*call->function, env, fuel).1,
            fuel,
        ).0 is Ok,
    ensures
        eval_expr(literal, captured, fuel).0 == Ok::<ValueView, EvalErrorView>(
            ValueView::Function {
                params: literal->params,
                body: literal->Function_body,
                env: Box::new(captured),
            },
        ),
        eval_expr(call, env, fuel).0 == call_function(
            literal->params,
            literal->Function_body,
            captured,
            eval_exprs(
                call->args,
                0,
                Seq::empty(),
                eval_expr(*call->function, env, fuel).1,
                fuel,
            ).0->Ok_0,
            fuel,
        ),
{
    reveal(eval_expr);
    reveal(eval_call);
    reveal(eval_exprs);
    reveal(eval_block);
}

/// What is stored under a key is found under it: the last write is the one
/// that is visible.
pub proof fn law_last_write_wins(
    pairs: Seq<(HashKey, ValueView, ValueView)>,
    key: HashKey,
    k: ValueView,
    v: ValueView,
)
    ensures
        hash_find(hash_insert(pairs, key, k, v), key) is Some,
        0 <= hash_find(hash_insert(pairs, key, k, v), key)->0 < hash_insert(pairs, key, k, v).len(),
        hash_insert(pairs, key, k, v)[hash_find(hash_insert(pairs, key, k, v), key)->0] == (
            key,
            k,
            v,
        ),
{
    lemma_hash_find(pairs, key);
    let stored = hash_insert(pairs, key, k, v);
    lemma_hash_find(stored, key);
    match hash_find(pairs, key) {
        Some(i) => {
            assert(stored[i].0 == key);
            assert forall|j: int| 0 <= j < i implies (#[trigger] stored[j]).0 != key by {
                assert(stored[j] == pairs[j]);
            }
        },
        None => {
            assert(stored.last().0 == key);
            assert forall|j: int| 0 <= j < pairs.len() implies (#[trigger] stored[j]).0 != key by {
                assert(stored[j] == pairs[j]);
            }
        },
    }
}

/// What `hash_find` finds: the first place that holds the key, or nothing
/// where no place holds it.
pub proof fn lemma_hash_find(pairs: Seq<(HashKey, ValueView, ValueView)>, key: HashKey)
    ensures
        match hash_find(pairs, key) {
            Some(i) => {
                &&& 0 <= i < pairs.len()
                &&& pairs[i].0 == key
                &&& forall|j: int| 0 <= j < i ==> (#[trigger] pairs[j]).0 != key
            },
            None => forall|j: int| 0 <= j < pairs.len() ==> (#[trigger] pairs[j]).0 != key,
        },
    decreases pairs.len(),
{
    if pairs.len() > 0 {
        let front = pairs.drop_last();
        lemma_hash_find(front, key);
        match hash_find(front, key) {
            Some(i) => {
                assert forall|j: int| 0 <= j < i implies (#[trigger] pairs[j]).0 != key by {
                    assert(pairs[j] == front[j]);
                }
                assert(pairs[i] == front[i]);
            },
            None => {
                assert forall|j: int| 0 <= j < pairs.len() - 1 implies (#[trigger] pairs[j]).0
                    != key by {
                    assert(pairs[j] == front[j]);
                }
            },
        }
    }
}

/// A pair stored under one key leaves what is stored under another key as
/// it was.
pub proof fn law_other_keys_stay(
    pairs: Seq<(HashKey, ValueView, ValueView)>,
    key: HashKey,
    k: ValueView,
    v: ValueView,
    other: HashKey,
)
    requires
        other != key,
    ensures
        hash_find(hash_insert(pairs, key, k, v), other) == hash_find(pairs, other),
        hash_find(pairs, other) is Some ==> hash_insert(pairs, key, k, v)[hash_find(
            pairs,
            other,
        )->0] == pairs[hash_find(pairs, other)->0],
{
    let stored = hash_insert(pairs, key, k, v);
    lemma_hash_find(pairs, key);
    lemma_hash_find(pairs, other);
    lemma_hash_find(stored, other);
    match hash_find(pairs, key) {
        Some(i) => {
            assert forall|j: int| 0 <= j < pairs.len() && j != i implies #[trigger] stored[j]
                == pairs[j] by {}
            assert(stored[i].0 == key);
        },
        None => {
            assert forall|j: int| 0 <= j < pairs.len() implies #[trigger] stored[j]
                == pairs[j] by {}
            assert(stored.last().0 == key);
        },
    }
    match (hash_find(pairs, other), hash_find(stored, other)) {
        (Some(a), Some(b)) => {
            if a < b {
                assert(stored[a].0 == pairs[a].0);
            } else if b < a {
                assert(stored[b].0 == pairs[b].0);
            }
        },
        (Some(a), None) => {
            assert(stored[a].0 == pairs[a].0);
        },
        (None, Some(b)) => {
            if b < pairs.len() {
                assert(stored[b].0 == pairs[b].0);
            }
        },
        (None, None) => {},
    }
}

/// What a hash stores after a pair was stored in it: that pair under its
/// key, and under every other key what it stored before.
pub proof fn law_stored_after_insert(
    pairs: Seq<(HashKey, ValueView, ValueView)>,
    key: HashKey,
    k: ValueView,
    v: ValueView,
    other: HashKey,
)
    ensures
        stored_under(hash_insert(pairs, key, k, v), other) == (if other == key {
            Some((k, v))
        } else {
            stored_under(pairs, other)
        }),
{
    if other == key {
        law_last_write_wins(pairs, key, k, v);
    } else {
        law_other_keys_stay(pairs, key, k, v, other);
        lemma_hash_find(pairs, other);
    }
}

/// The order in which pairs with different keys are stored does not matter
/// to what the hash is.
pub proof fn law_insertion_order(
    pairs: Seq<(HashKey, ValueView, ValueView)>,
    key1: HashKey,
    k1: ValueView,
    v1: ValueView,
    key2: HashKey,
    k2: ValueView,
    v2: ValueView,
)
    requires
        key1 != key2,
    ensures
        same_hash(
            hash_insert(hash_insert(pairs, key1, k1, v1), key2, k2, v2),
            hash_insert(hash_insert(pairs, key2, k2, v2), key1, k1, v1),
        ),
{
    let first = hash_insert(pairs, key1, k1, v1);
    let second = hash_insert(pairs, key2, k2, v2);
    assert forall|key: HashKey| #[trigger]
        stored_under(hash_insert(first, key2, k2, v2), key) == stored_under(
            hash_insert(second, key1, k1, v1),
            key,
        ) by {
        law_stored_after_insert(first, key2, k2, v2, key);
        law_stored_after_insert(pairs, key1, k1, v1, key);
        law_stored_after_insert(second, key1, k1, v1, key);
        law_stored_after_insert(pairs, key2, k2, v2, key);
    }
}

/// No key occurs twice among the pairs.
pub open spec fn distinct_keys(pairs: Seq<(HashKey, ValueView, ValueView)>) -> bool {
    forall|i: int, j: int|
        0 <= i < j < pairs.len() ==> (#[trigger] pairs[i]).0 != (#[trigger] pairs[j]).0
}

/// Storing a pair keeps the keys of a hash distinct.
pub proof fn law_insert_keeps_keys_distinct(
    pairs: Seq<(HashKey, ValueView, ValueView)>,
    key: HashKey,
    k: ValueView,
    v: ValueView,
)
    requires
        distinct_keys(pairs),
    ensures
        distinct_keys(hash_insert(pairs, key, k, v)),
{
    lemma_hash_find(pairs, key);
    let stored = hash_insert(pairs, key, k, v);
    match hash_find(pairs, key) {
        Some(place) => {
            assert forall|i: int, j: int| 0 <= i < j < stored.len() implies (#[trigger] stored[i]).0
                != (#[trigger] stored[j]).0 by {
                assert(stored[i].0 == pairs[i].0);
                assert(stored[j].0 == pairs[j].0);
            }
        },
        None => {
            assert forall|i: int, j: int| 0 <= i < j < stored.len() implies (#[trigger] stored[i]).0
                != (#[trigger] stored[j]).0 by {
                if j < pairs.len() {
                    assert(stored[i] == pairs[i]);
                    assert(stored[j] == pairs[j]);
                } else {
                    assert(stored[i] == pairs[i]);
                }
            }
        },
    }
}

/// Dividing by zero is an error, whatever is divided.
pub proof fn law_division_by_zero(l: i64)
    ensures
        integer_infix("/"@, l, 0) == Err::<ValueView, EvalErrorView>(
            EvalErrorView::UnexpectedNode("division by zero"@),
        ),
{
    reveal_strlit("/");
    reveal_strlit("+");
    reveal_strlit("-");
    reveal_strlit("*");
    assert("/"@[0] == '/' && "+"@[0] == '+' && "-"@[0] == '-' && "*"@[0] == '*');
}

/// No index is within an empty array.
pub proof fn law_empty_array_has_no_element(n: i64)
    ensures
        index_value(ValueView::Array(Seq::empty()), ValueView::Integer(n)) is Err,
        index_value(ValueView::Array(Seq::empty()), ValueView::Integer(n))->Err_0 is OutOfBounds,
{
}

/// A negative index is outside every array.
pub proof fn law_negative_index(items: Seq<ValueView>, n: i64)
    requires
        n < 0,
    ensures
        index_value(ValueView::Array(items), ValueView::Integer(n)) is Err,
        index_value(ValueView::Array(items), ValueView::Integer(n))->Err_0 is OutOfBounds,
{
}

/// A key that a hash does not hold is out of its bounds.
pub proof fn law_absent_key(pairs: Seq<(HashKey, ValueView, ValueView)>, index: ValueView)
    requires
        hash_key_of(index) is Some,
        forall|j: int| 0 <= j < pairs.len() ==> (#[trigger] pairs[j]).0 != hash_key_of(index)->0,
    ensures
        index_value(ValueView::Hash(pairs), index) is Err,
        index_value(ValueView::Hash(pairs), index)->Err_0 is OutOfBounds,
{
    lemma_hash_find(pairs, hash_key_of(index)->0);
}


/// Whether a token is an integer literal that denotes an integer of the
/// language.
pub open spec fn integer_operand(t: TokenView) -> bool {
    t.token_type == TokenType::Int && parse_decimal_spec(t.literal) is Some
}

/// The expression that an integer literal is.
pub open spec fn operand(t: TokenView) -> ExprView {
    ExprView::Integer { token: t, value: parse_decimal_spec(t.literal)->0 }
}

/// Whether a token is one of the binary operators.
pub open spec fn binary_operator(t: TokenView) -> bool {
    infix_handler(t.token_type) == Some(InfixHandler::Binary)
}

/// The expression of a binary operator between two operands.
pub open spec fn binary(op: TokenView, left: ExprView, right: ExprView) -> ExprView {
    ExprView::Infix { token: op, left: Box::new(left), operator: op.literal, right: Box::new(right) }
}

/// Whether an expression that is parsed at `precedence` ends before the
/// token `t`.
pub open spec fn ends_before(precedence: u8, t: TokenView) -> bool {
    t.token_type == TokenType::Semicolon || precedence >= precedence_of(t.token_type)
}

/// Behind its left operand an expression ends where the next token does not
/// bind more strongly than the expression is parsed at.
pub proof fn lemma_expression_ends(left: ExprView, ts: Seq<TokenView>, precedence: u8)
    requires
        ts.len() > 0,
        ends_before(precedence, ts[0]),
    ensures
        parse_expression_infix(left, ts, precedence) == (
            Ok::<ExprView, ParserErrorView>(left),
            ts,
        ),
{
    reveal(parse_expression_infix);
}

/// An integer literal before a token at which the expression ends is the
/// whole expression.
pub proof fn lemma_single_operand(x: TokenView, rest: Seq<TokenView>, precedence: u8)
    requires
        integer_operand(x),
        rest.len() > 0,
        ends_before(precedence, rest[0]),
    ensures
        parse_expression(seq![x] + rest, precedence) == (
            Ok::<ExprView, ParserErrorView>(operand(x)),
            rest,
        ),
{
    let ts = seq![x] + rest;
    reveal(parse_expression);
    reveal(parse_prefix);
    reveal(parse_expression_infix);
    assert(ts[0] == x);
    assert(ts.skip(1) =~= rest);
    assert(parse_prefix(ts, crate::grammar::PrefixHandler::Integer) == (
        Ok::<ExprView, ParserErrorView>(operand(x)),
        rest,
    ));
    lemma_expression_ends(operand(x), rest, precedence);
}

/// A binary operator that binds more strongly than the expression is parsed
/// at takes what stands before it as its left operand and the integer
/// literal behind it as its right operand, where the token behind that does
/// not bind more strongly than the operator.
pub proof fn lemma_operator_step(
    left: ExprView,
    op: TokenView,
    x: TokenView,
    rest: Seq<TokenView>,
    precedence: u8,
)
    requires
        binary_operator(op),
        precedence < precedence_of(op.token_type),
        integer_operand(x),
        rest.len() > 0,
        ends_before(precedence_of(op.token_type), rest[0]),
    ensures
        parse_expression_infix(left, seq![op, x] + rest, precedence) == parse_expression_infix(
            binary(op, left, operand(x)),
            rest,
            precedence,
        ),
{
    let ts = seq![op, x] + rest;
    reveal(parse_expression_infix);
    reveal(parse_infix);
    reveal(parse_infix_expression);
    reveal(parse_expression);
    assert(ts[0] == op);
    assert(ts.skip(1) =~= seq![x] + rest);
    lemma_single_operand(x, rest, precedence_of(op.token_type));
    assert(parse_infix_expression(left, ts) == (
        Ok::<ExprView, ParserErrorView>(binary(op, left, operand(x))),
        rest,
    ));
    assert(parse_infix(left, ts, InfixHandler::Binary) == parse_infix_expression(left, ts));
}

/// Of two binary operators the second binds its operands first where it
/// binds more strongly than the first: `a o1 b o2 c` is `a o1 (b o2 c)`.
pub proof fn law_stronger_operator_binds_first(
    a: TokenView,
    o1: TokenView,
    b: TokenView,
    o2: TokenView,
    c: TokenView,
    end: TokenView,
    rest: Seq<TokenView>,
)
    requires
        integer_operand(a),
        integer_operand(b),
        integer_operand(c),
        binary_operator(o1),
        binary_operator(o2),
        precedence_of(o1.token_type) < precedence_of(o2.token_type),
        end.token_type == TokenType::Semicolon,
    ensures
        parse_expression(seq![a, o1, b, o2, c, end] + rest, LOWEST) == (
            Ok::<ExprView, ParserErrorView>(
                binary(o1, operand(a), binary(o2, operand(b), operand(c))),
            ),
            seq![end] + rest,
        ),
{
    let ts = seq![a, o1, b, o2, c, end] + rest;
    let after_a = seq![o1, b, o2, c, end] + rest;
    let after_o1 = seq![b, o2, c, end] + rest;
    let after_b = seq![o2, c, end] + rest;
    let tail = seq![end] + rest;
    let inner = binary(o2, operand(b), operand(c));
    // The right operand of the first operator: `b o2 c`.
    assert(parse_expression(after_o1, precedence_of(o1.token_type)) == (
        Ok::<ExprView, ParserErrorView>(inner),
        tail,
    )) by {
        reveal(parse_expression);
        reveal(parse_prefix);
        reveal(parse_expression_infix);
        assert(after_o1[0] == b);
        assert(after_o1.skip(1) =~= after_b);
        assert(after_b =~= seq![o2, c] + tail);
        assert(parse_prefix(after_o1, crate::grammar::PrefixHandler::Integer) == (
            Ok::<ExprView, ParserErrorView>(operand(b)),
            after_b,
        ));
        lemma_operator_step(operand(b), o2, c, tail, precedence_of(o1.token_type));
        lemma_expression_ends(inner, tail, precedence_of(o1.token_type));
    }
    // The first operator between `a` and that operand.
    assert(parse_expression_infix(operand(a), after_a, LOWEST) == (
        Ok::<ExprView, ParserErrorView>(binary(o1, operand(a), inner)),
        tail,
    )) by {
        reveal(parse_expression_infix);
        reveal(parse_infix);
        reveal(parse_infix_expression);
        reveal(parse_expression);
        assert(after_a[0] == o1);
        assert(after_a.skip(1) =~= after_o1);
        assert(parse_infix_expression(operand(a), after_a) == (
            Ok::<ExprView, ParserErrorView>(binary(o1, operand(a), inner)),
            tail,
        ));
        assert(parse_infix(operand(a), after_a, InfixHandler::Binary) == parse_infix_expression(
            operand(a),
            after_a,
        ));
        lemma_expression_ends(binary(o1, operand(a), inner), tail, LOWEST);
    }
    reveal(parse_expression);
    reveal(parse_prefix);
    reveal(parse_expression_infix);
    assert(ts[0] == a);
    assert(ts.skip(1) =~= after_a);
    assert(parse_prefix(ts, crate::grammar::PrefixHandler::Integer) == (
        Ok::<ExprView, ParserErrorView>(operand(a)),
        after_a,
    ));
}

/// Of two binary operators the first binds its operands first where the
/// second does not bind more strongly: `a o1 b o2 c` is `(a o1 b) o2 c`.
pub proof fn law_operators_group_to_the_left(
    a: TokenView,
    o1: TokenView,
    b: TokenView,
    o2: TokenView,
    c: TokenView,
    end: TokenView,
    rest: Seq<TokenView>,
)
    requires
        integer_operand(a),
        integer_operand(b),
        integer_operand(c),
        binary_operator(o1),
        binary_operator(o2),
        precedence_of(o1.token_type) >= precedence_of(o2.token_type),
        end.token_type == TokenType::Semicolon,
    ensures
        parse_expression(seq![a, o1, b, o2, c, end] + rest, LOWEST) == (
            Ok::<ExprView, ParserErrorView>(
                binary(o2, binary(o1, operand(a), operand(b)), operand(c)),
            ),
            seq![end] + rest,
        ),
{
    let ts = seq![a, o1, b, o2, c, end] + rest;
    let after_a = seq![o1, b, o2, c, end] + rest;
    let after_b = seq![o2, c, end] + rest;
    let tail = seq![end] + rest;
    let first = binary(o1, operand(a), operand(b));
    assert(after_a =~= seq![o1, b] + after_b);
    assert(after_b =~= seq![o2, c] + tail);
    lemma_operator_step(operand(a), o1, b, after_b, LOWEST);
    lemma_operator_step(first, o2, c, tail, LOWEST);
    lemma_expression_ends(binary(o2, first, operand(c)), tail, LOWEST);
    reveal(parse_expression);
    reveal(parse_prefix);
    reveal(parse_expression_infix);
    assert(ts[0] == a);
    assert(ts.skip(1) =~= after_a);
    assert(parse_prefix(ts, crate::grammar::PrefixHandler::Integer) == (
        Ok::<ExprView, ParserErrorView>(operand(a)),
        after_a,
    ));
}

/// A product binds more strongly than a sum: `a + b * c` is `a + (b * c)`.
pub proof fn law_product_before_sum(
    a: TokenView,
    plus: TokenView,
    b: TokenView,
    times: TokenView,
    c: TokenView,
    end: TokenView,
    rest: Seq<TokenView>,
)
    requires
        integer_operand(a),
        integer_operand(b),
        integer_operand(c),
        plus.token_type == TokenType::Plus,
        times.token_type == TokenType::Asterisk,
        end.token_type == TokenType::Semicolon,
    ensures
        parse_expression(seq![a, plus, b, times, c, end] + rest, LOWEST) == (
            Ok::<ExprView, ParserErrorView>(
                binary(plus, operand(a), binary(times, operand(b), operand(c))),
            ),
            seq![end] + rest,
        ),
{
    law_stronger_operator_binds_first(a, plus, b, times, c, end, rest);
}

/// A comparison binds more strongly than an equality: `a == b < c` is
/// `a == (b < c)`.
pub proof fn law_comparison_before_equality(
    a: TokenView,
    equals: TokenView,
    b: TokenView,
    less: TokenView,
    c: TokenView,
    end: TokenView,
    rest: Seq<TokenView>,
)
    requires
        integer_operand(a),
        integer_operand(b),
        integer_operand(c),
        equals.token_type == TokenType::Eq,
        less.token_type == TokenType::Lt,
        end.token_type == TokenType::Semicolon,
    ensures
        parse_expression(seq![a, equals, b, less, c, end] + rest, LOWEST) == (
            Ok::<ExprView, ParserErrorView>(
                binary(equals, operand(a), binary(less, operand(b), operand(c))),
            ),
            seq![end] + rest,
        ),
{
    law_stronger_operator_binds_first(a, equals, b, less, c, end, rest);
}

/// The value of `a + b * c` is the sum of `a` and the product of `b` and
/// `c`, each wrapped around.
pub proof fn law_sum_of_product_value(
    a: TokenView,
    plus: TokenView,
    b: TokenView,
    times: TokenView,
    c: TokenView,
    env: EnvView,
    fuel: nat,
)
    requires
        integer_operand(a),
        integer_operand(b),
        integer_operand(c),
        plus.literal == "+"@,
        times.literal == "*"@,
    ensures
        eval_expr(
            binary(plus, operand(a), binary(times, operand(b), operand(c))),
            env,
            fuel,
        ) == (
            Ok::<ValueView, EvalErrorView>(
                ValueView::Integer(
                    vstd::wrapping::i64_specs::wrapping_add(
                        parse_decimal_spec(a.literal)->0,
                        vstd::wrapping::i64_specs::wrapping_mul(
                            parse_decimal_spec(b.literal)->0,
                            parse_decimal_spec(c.literal)->0,
                        ),
                    ),
                ),
            ),
            env,
        ),
{
    reveal(eval_expr);
    reveal(crate::semantics::eval_infix);
    reveal_strlit("+");
    reveal_strlit("-");
    reveal_strlit("*");
    assert("+"@[0] == '+' && "-"@[0] == '-' && "*"@[0] == '*');
    let product = binary(times, operand(b), operand(c));
    let sum = binary(plus, operand(a), product);
    assert(eval_expr(operand(a), env, fuel).0 is Ok);
    assert(eval_expr(operand(b), env, fuel).0 is Ok);
    assert(eval_expr(operand(c), env, fuel).0 is Ok);
    assert(crate::semantics::eval_infix(product, env, fuel) == (
        Ok::<ValueView, EvalErrorView>(
            ValueView::Integer(
                vstd::wrapping::i64_specs::wrapping_mul(
                    parse_decimal_spec(b.literal)->0,
                    parse_decimal_spec(c.literal)->0,
                ),
            ),
        ),
        env,
    ));
    assert(eval_expr(product, env, fuel) == (
        Ok::<ValueView, EvalErrorView>(
            ValueView::Integer(
                vstd::wrapping::i64_specs::wrapping_mul(
                    parse_decimal_spec(b.literal)->0,
                    parse_decimal_spec(c.literal)->0,
                ),
            ),
        ),
        env,
    ));
    assert(crate::semantics::eval_infix(sum, env, fuel).0 is Ok);
}

/// The statement list that holds `statement` inside `depth` blocks, each
/// the block of an `if` whose condition is `condition`.
pub open spec fn nested(
    depth: nat,
    token: TokenView,
    condition: ExprView,
    statement: StmtView,
) -> Seq<Result<StmtView, ParserErrorView>>
    decreases depth,
{
    if depth == 0 {
        seq![Ok(statement)]
    } else {
        seq![
            Ok(
                StmtView::Expression {
                    token,
                    expression: ExprView::If {
                        token,
                        condition: Box::new(condition),
                        consequence: BlockView {
                            token,
                            statements: nested((depth - 1) as nat, token, condition, statement),
                        },
                        alternative: None,
                    },
                },
            ),
        ]
    }
}

/// A `return` inside blocks of any depth comes out of all of them: where
/// the conditions on the way hold and change nothing, the statement list
/// gives the marked value of the `return`.
pub proof fn law_return_from_any_depth(
    depth: nat,
    token: TokenView,
    condition: ExprView,
    statement: StmtView,
    env: EnvView,
    fuel: nat,
)
    requires
        statement is Return,
        eval_expr(condition, env, fuel) == (
            Ok::<ValueView, EvalErrorView>(ValueView::Boolean(true)),
            env,
        ),
        eval_expr(statement->Return_value, env, fuel).0 is Ok,
    ensures
        eval_block(nested(depth, token, condition, statement), 0, env, fuel) == (
            Ok::<ValueView, EvalErrorView>(
                ValueView::ReturnValue(
                    Box::new(eval_expr(statement->Return_value, env, fuel).0->Ok_0),
                ),
            ),
            eval_expr(statement->Return_value, env, fuel).1,
        ),
    decreases depth,
{
    reveal(eval_block);
    reveal(eval_stmt);
    reveal(eval_expr);
    reveal(eval_if);
    let stmts = nested(depth, token, condition, statement);
    let inner = eval_expr(statement->Return_value, env, fuel);
    let marked = Ok::<ValueView, EvalErrorView>(ValueView::ReturnValue(Box::new(inner.0->Ok_0)));
    if depth == 0 {
        assert(eval_stmt(statement, env, fuel) == (marked, inner.1));
    } else {
        let below = nested((depth - 1) as nat, token, condition, statement);
        law_return_from_any_depth((depth - 1) as nat, token, condition, statement, env, fuel);
        let branch = stmts[0]->Ok_0->Expression_expression;
        assert(eval_block(below, 0, env, fuel) == (marked, inner.1));
        assert(eval_if(branch, env, fuel) == (marked, inner.1));
        assert(eval_expr(branch, env, fuel) == (marked, inner.1));
        assert(eval_stmt(stmts[0]->Ok_0, env, fuel) == (marked, inner.1));
    }
    assert(eval_block(stmts, 0, env, fuel) == (marked, inner.1));
}


/// The pairs that a hash literal stores have distinct keys.
pub proof fn law_hash_literal_keys_distinct(pairs: Seq<(ValueView, ValueView)>, n: nat)
    requires
        crate::semantics::hash_of(pairs, n) is Ok,
    ensures
        distinct_keys(crate::semantics::hash_of(pairs, n)->Ok_0),
    decreases n,
{
    if n != 0 && n <= pairs.len() {
        law_hash_literal_keys_distinct(pairs, (n - 1) as nat);
        let stored = crate::semantics::hash_of(pairs, (n - 1) as nat)->Ok_0;
        law_insert_keeps_keys_distinct(
            stored,
            hash_key_of(pairs[n - 1].0)->0,
            pairs[n - 1].0,
            pairs[n - 1].1,
        );
    }
}


/// The name of a built-in function stands for that function in every
/// environment, whatever the environment binds.
pub proof fn law_builtins_come_first(env: EnvView, name: Seq<char>)
    requires
        builtin_named(name) is Some,
    ensures
        lookup(env, name) == Some(ValueView::Builtin(builtin_named(name)->0)),
{
}

/// A binding is visible under its name, unless the name is that of a
/// built-in function, and changes what no other name stands for.
pub proof fn law_binding_is_visible(env: EnvView, name: Seq<char>, v: ValueView, other: Seq<char>)
    ensures
        builtin_named(name) is None ==> lookup(bind(env, name, v), name) == Some(v),
        other != name ==> lookup(bind(env, name, v), other) == lookup(env, other),
{
}

/// A name that the local frame does not bind stands for what it stands for
/// in the enclosing environment.
pub proof fn law_enclosing_environment(store: Map<Seq<char>, ValueView>, outer: EnvView, name: Seq<char>)
    requires
        !store.contains_key(name),
    ensures
        lookup(EnvView { store, outer: Some(Box::new(outer)) }, name) == lookup(outer, name),
{
}

/// A name that no frame binds and no built-in function has stands for
/// nothing.
pub proof fn law_unbound_name(name: Seq<char>)
    requires
        builtin_named(name) is None,
    ensures
        lookup(EnvView { store: Map::empty(), outer: None }, name) is None,
{
}

} // verus!
