//! What a read-eval-print loop shows: the part of the loop that decides.

use vstd::prelude::*;
use vstd::string::StringExecFns;
use crate::eval::{EvalError, EvalErrorView, scan_node};
use crate::grammar::parse_statement;
use crate::lexer::{Lexer, tokens};
use crate::object::{Env, EnvView, Obj, Value, ValueView, inspect, lemma_view_value, value_result_view};
use crate::parser::Parser;
use crate::semantics::eval_entry;
use crate::token::TokenView;

verus! {

/// What the loop shows of a result: a returned value as the user sees it,
/// an error as its kind and message, and nothing of any other value.
pub open spec fn shown(r: Result<ValueView, EvalErrorView>) -> Option<Seq<char>> {
    match r {
        Ok(ValueView::ReturnValue(v)) => Some(inspect(*v)),
        Ok(_) => None,
        Err(e) => Some(e.kind_name() + ": "@ + e.message()),
    }
}

/// What the loop shows for the statements that the tokens make, behind what
/// it has shown already, and the environment afterwards: the statements are
/// evaluated one after another in one environment, and evaluation goes on
/// behind a returned value and behind an error.
pub open spec fn line_output(
    ts: Seq<TokenView>,
    env: EnvView,
    fuel: nat,
    acc: Seq<Seq<char>>,
) -> (Seq<Seq<char>>, EnvView)
    decreases ts.len(),
{
    if ts.len() == 0 {
        (acc, env)
    } else {
        let (statement, rest) = parse_statement(ts);
        let (r, env1) = eval_entry(statement, env, fuel);
        let out = match shown(r) {
            Some(m) => acc.push(m),
            None => acc,
        };
        if rest.len() < ts.len() {
            line_output(rest, env1, fuel, out)
        } else {
            (out, env1)
        }
    }
}

/// The views of strings.
pub open spec fn strings_view(v: Seq<String>) -> Seq<Seq<char>> {
    Seq::new(v.len(), |i: int| v[i]@)
}

/// What the loop shows of a result.
pub fn render_result(r: &Result<Value, EvalError>) -> (out: Option<String>)
    ensures
        match shown(value_result_view(*r)) {
            Some(m) => out is Some && out->0@ == m,
            None => out is None,
        },
{
    match r {
        Ok(v) => {
            proof {
                lemma_view_value(*v);
                reveal(inspect);
            }
            match v {
                Value::ReturnValue(marked) => Some(marked.val.inspect_obj()),
                _ => None,
            }
        },
        Err(e) => {
            let mut message = e.get_err_type();
            message.append(": ");
            message.append(e.get_err_msg().as_str());
            Some(message)
        },
    }
}

/// Evaluates the statements of one line of input in `env` and returns what
/// is to be shown for it.
pub fn eval_line(line: String, env: &mut Env, depth: usize) -> (r: Vec<String>)
    ensures
        strings_view(r@) == line_output(tokens(line@), old(env)@, depth as nat, Seq::empty()).0,
        final(env)@ == line_output(tokens(line@), old(env)@, depth as nat, Seq::empty()).1,
{
    let ghost all = line_output(tokens(line@), env@, depth as nat, Seq::empty());
    let mut parser = Parser::new(Lexer::new(line));
    let mut out: Vec<String> = Vec::new();
    assert(strings_view(out@) =~= Seq::<Seq<char>>::empty());
    loop
        invariant
            all == line_output(tokens(line@), old(env)@, depth as nat, Seq::empty()),
            all == line_output(parser.remaining(), env@, depth as nat, strings_view(out@)),
        decreases parser.remaining().len(),
    {
        let ghost shown_before = strings_view(out@);
        let statement = match parser.next() {
            Some(s) => s,
            None => {
                return out;
            },
        };
        proof {
            crate::ast::lemma_view_entry(statement);
        }
        let result = match scan_node(env, &statement, depth) {
            Some(r) => r,
            None => Ok(Value::null()),
        };
        match render_result(&result) {
            Some(message) => {
                out.push(message);
                proof {
                    assert(strings_view(out@) =~= shown_before.push(message@));
                }
            },
            None => {},
        }
    }
}

} // verus!
