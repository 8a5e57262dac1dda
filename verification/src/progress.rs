//! Every step of the grammar leaves no more tokens than it found, and the
//! steps that read a token leave fewer: the tests that guard the recursive
//! calls of the grammar never fail.

use vstd::prelude::*;
use crate::ast::{ExprView, IdentView, StmtView};
use crate::grammar::{
    CALL, InfixHandler, LOWEST, PREFIX, PrefixHandler, collect_statements, expect_token,
    infix_handler, parse_array_infix, parse_array_literal, parse_block_statement,
    parse_call_args, parse_call_expression, parse_else_block, parse_expression,
    parse_expression_infix, parse_expression_list, parse_expression_statement,
    parse_function_literal, parse_function_parameters, parse_grouped_expression,
    parse_hash_literal, parse_hash_mems, parse_if_statement, parse_infix,
    parse_infix_expression, parse_let_statement, parse_more_call_args, parse_more_parameters,
    parse_prefix, parse_prefix_expression, parse_program, parse_return_statement,
    parse_statement, precedence_of, prefix_handler,
};
use crate::parser::ParserErrorView;
use crate::token::{TokenType, TokenView};

verus! {

/// No more tokens are left than were found.
pub open spec fn no_longer(before: Seq<TokenView>, after: Seq<TokenView>) -> bool {
    after.len() <= before.len()
}

/// No more tokens are left than were found, and fewer where there were any.
pub open spec fn advances(before: Seq<TokenView>, after: Seq<TokenView>) -> bool {
    after.len() <= before.len() && (before.len() > 0 ==> after.len() < before.len())
}

/// `parse_more_parameters` leaves no more tokens than it found.
pub proof fn lemma_more_parameters(ts: Seq<TokenView>, acc: Seq<IdentView>)
    ensures
        no_longer(ts, parse_more_parameters(ts, acc).1),
    decreases ts.len(),
{
    let (tok, r1) = expect_token(ts, TokenType::Ident);
    if tok is Ok && r1.len() > 0 && r1[0].token_type == TokenType::Comma {
        lemma_more_parameters(r1.skip(1), acc.push(crate::grammar::ident_of(tok->Ok_0)));
    }
}

/// `parse_function_parameters` leaves no more tokens than it found.
pub proof fn lemma_function_parameters(ts: Seq<TokenView>)
    ensures
        no_longer(ts, parse_function_parameters(ts).1),
{
    lemma_more_parameters(ts, Seq::empty());
}

/// `parse_expression` reads at least one token where there is one.
pub proof fn lemma_expression(ts: Seq<TokenView>, precedence: u8)
    ensures
        advances(ts, parse_expression(ts, precedence).1),
    decreases ts.len(), 3nat,
{
    reveal(parse_expression);
    reveal(parse_prefix);
    reveal(parse_expression_infix);
    if ts.len() > 0 {
        match prefix_handler(ts[0].token_type) {
            Some(h) => {
                lemma_prefix(ts, h);
                let (left, rest) = parse_prefix(ts, h);
                if left is Ok && rest.len() < ts.len() {
                    lemma_expression_infix(left->Ok_0, rest, precedence);
                }
            },
            None => {},
        }
    }
}

/// `parse_prefix` reads at least one token where there is one.
pub proof fn lemma_prefix(ts: Seq<TokenView>, h: PrefixHandler)
    ensures
        advances(ts, parse_prefix(ts, h).1),
    decreases ts.len(), 2nat,
{
    reveal(parse_prefix);
    reveal(parse_prefix_expression);
    reveal(parse_grouped_expression);
    reveal(parse_if_statement);
    reveal(parse_function_literal);
    reveal(parse_array_literal);
    reveal(parse_hash_literal);
    match h {
        PrefixHandler::Prefix => lemma_prefix_expression(ts),
        PrefixHandler::Grouped => lemma_grouped_expression(ts),
        PrefixHandler::If => lemma_if_statement(ts),
        PrefixHandler::Function => lemma_function_literal(ts),
        PrefixHandler::Array => lemma_array_literal(ts),
        PrefixHandler::Hash => lemma_hash_literal(ts),
        _ => {},
    }
}

/// `parse_expression_infix` leaves no more tokens than it found.
pub proof fn lemma_expression_infix(left: ExprView, ts: Seq<TokenView>, precedence: u8)
    ensures
        no_longer(ts, parse_expression_infix(left, ts, precedence).1),
    decreases ts.len(), 2nat,
{
    reveal(parse_expression_infix);
    reveal(parse_infix);
    if ts.len() > 0 && ts[0].token_type != TokenType::Semicolon && precedence < precedence_of(
        ts[0].token_type,
    ) {
        match infix_handler(ts[0].token_type) {
            Some(h) => {
                lemma_infix(left, ts, h);
                let (next, rest) = parse_infix(left, ts, h);
                if next is Ok && rest.len() < ts.len() {
                    lemma_expression_infix(next->Ok_0, rest, precedence);
                }
            },
            None => {},
        }
    }
}

/// `parse_infix` reads at least one token where there is one.
pub proof fn lemma_infix(left: ExprView, ts: Seq<TokenView>, h: InfixHandler)
    ensures
        advances(ts, parse_infix(left, ts, h).1),
    decreases ts.len(), 1nat,
{
    reveal(parse_infix);
    reveal(parse_infix_expression);
    reveal(parse_call_expression);
    reveal(parse_array_infix);
    match h {
        InfixHandler::Binary => lemma_infix_expression(left, ts),
        InfixHandler::Call => lemma_call_expression(left, ts),
        InfixHandler::Index => lemma_array_infix(left, ts),
    }
}

/// `parse_infix_expression` reads at least one token where there is one.
pub proof fn lemma_infix_expression(left: ExprView, ts: Seq<TokenView>)
    ensures
        advances(ts, parse_infix_expression(left, ts).1),
    decreases ts.len(), 0nat,
{
    reveal(parse_infix_expression);
    reveal(parse_expression);
    if ts.len() > 0 {
        lemma_expression(ts.skip(1), precedence_of(ts[0].token_type));
    }
}

/// `parse_prefix_expression` reads at least one token where there is one.
pub proof fn lemma_prefix_expression(ts: Seq<TokenView>)
    ensures
        advances(ts, parse_prefix_expression(ts).1),
    decreases ts.len(), 0nat,
{
    reveal(parse_prefix_expression);
    reveal(parse_expression);
    if ts.len() > 0 {
        lemma_expression(ts.skip(1), PREFIX);
    }
}

/// `parse_grouped_expression` reads at least one token where there is one.
pub proof fn lemma_grouped_expression(ts: Seq<TokenView>)
    ensures
        advances(ts, parse_grouped_expression(ts).1),
    decreases ts.len(), 0nat,
{
    reveal(parse_grouped_expression);
    reveal(parse_expression);
    let (open, r1) = expect_token(ts, TokenType::Lparen);
    if open is Ok {
        lemma_expression(r1, LOWEST);
    }
}

/// `parse_if_statement` reads at least one token where there is one.
pub proof fn lemma_if_statement(ts: Seq<TokenView>)
    ensures
        advances(ts, parse_if_statement(ts).1),
    decreases ts.len(), 0nat,
{
    reveal(parse_if_statement);
    reveal(parse_expression);
    reveal(parse_block_statement);
    reveal(parse_else_block);
    if ts.len() > 0 {
        let (open, r1) = expect_token(ts.skip(1), TokenType::Lparen);
        if open is Ok {
            lemma_expression(r1, LOWEST);
            let (condition, r2) = parse_expression(r1, LOWEST);
            if condition is Ok {
                let (close, r3) = expect_token(r2, TokenType::Rparen);
                if close is Ok {
                    lemma_block_statement(r3);
                    let (consequence, r4) = parse_block_statement(r3);
                    if consequence is Ok {
                        lemma_else_block(r4);
                    }
                }
            }
        }
    }
}

/// `parse_else_block` leaves no more tokens than it found.
pub proof fn lemma_else_block(ts: Seq<TokenView>)
    ensures
        no_longer(ts, parse_else_block(ts).1),
    decreases ts.len(), 1nat,
{
    reveal(parse_else_block);
    reveal(parse_block_statement);
    if ts.len() > 0 && ts[0].token_type == TokenType::Else {
        lemma_block_statement(ts.skip(1));
    }
}

/// `parse_block_statement` reads at least one token where there is one.
pub proof fn lemma_block_statement(ts: Seq<TokenView>)
    ensures
        advances(ts, parse_block_statement(ts).1),
    decreases ts.len(), 0nat,
{
    reveal(parse_block_statement);
    reveal(collect_statements);
    let (open, r1) = expect_token(ts, TokenType::Lbrace);
    if open is Ok {
        lemma_collect_statements(r1, Seq::empty(), TokenType::Rbrace);
    }
}

/// `collect_statements` leaves no more tokens than it found.
pub proof fn lemma_collect_statements(
    ts: Seq<TokenView>,
    acc: Seq<Result<StmtView, ParserErrorView>>,
    end: TokenType,
)
    ensures
        no_longer(ts, collect_statements(ts, acc, end).1),
    decreases ts.len(), 6nat,
{
    reveal(collect_statements);
    reveal(parse_statement);
    if ts.len() > 0 && ts[0].token_type != end {
        lemma_statement(ts);
        let (statement, rest) = parse_statement(ts);
        lemma_collect_statements(rest, acc.push(statement), end);
    }
}

/// A statement takes at least one token, also where it fails to parse.
pub proof fn lemma_statement(ts: Seq<TokenView>)
    ensures
        advances(ts, parse_statement(ts).1),
    decreases ts.len(), 5nat,
{
    reveal(parse_statement);
    reveal(parse_let_statement);
    reveal(parse_return_statement);
    reveal(parse_expression_statement);
    if ts.len() > 0 && ts[0].token_type == TokenType::Let {
        lemma_let_statement(ts);
    } else if ts.len() > 0 && ts[0].token_type == TokenType::Return {
        lemma_return_statement(ts);
    } else {
        lemma_expression_statement(ts);
    }
}

/// `parse_let_statement` reads at least one token where there is one.
pub proof fn lemma_let_statement(ts: Seq<TokenView>)
    ensures
        advances(ts, parse_let_statement(ts).1),
    decreases ts.len(), 4nat,
{
    reveal(parse_let_statement);
    reveal(parse_expression);
    let (tok, r1) = expect_token(ts, TokenType::Let);
    if tok is Ok {
        let (name, r2) = crate::grammar::parse_identifier(r1);
        if name is Ok {
            let (assign, r3) = expect_token(r2, TokenType::Assign);
            if assign is Ok {
                lemma_expression(r3, LOWEST);
            }
        }
    }
}

/// `parse_return_statement` reads at least one token where there is one.
pub proof fn lemma_return_statement(ts: Seq<TokenView>)
    ensures
        advances(ts, parse_return_statement(ts).1),
    decreases ts.len(), 4nat,
{
    reveal(parse_return_statement);
    reveal(parse_expression);
    let (tok, r1) = expect_token(ts, TokenType::Return);
    if tok is Ok {
        lemma_expression(r1, LOWEST);
    }
}

/// `parse_expression_statement` reads at least one token where there is one.
pub proof fn lemma_expression_statement(ts: Seq<TokenView>)
    ensures
        advances(ts, parse_expression_statement(ts).1),
    decreases ts.len(), 4nat,
{
    reveal(parse_expression_statement);
    reveal(parse_expression);
    if ts.len() > 0 {
        lemma_expression(ts, LOWEST);
    }
}

/// `parse_function_literal` reads at least one token where there is one.
pub proof fn lemma_function_literal(ts: Seq<TokenView>)
    ensures
        advances(ts, parse_function_literal(ts).1),
    decreases ts.len(), 0nat,
{
    reveal(parse_function_literal);
    reveal(parse_block_statement);
    let (tok, r1) = expect_token(ts, TokenType::Function);
    if tok is Ok {
        let (open, r2) = expect_token(r1, TokenType::Lparen);
        if open is Ok {
            lemma_function_parameters(r2);
            let (params, r3) = parse_function_parameters(r2);
            if params is Ok {
                lemma_block_statement(r3);
            }
        }
    }
}

/// `parse_call_expression` reads at least one token where there is one.
pub proof fn lemma_call_expression(function: ExprView, ts: Seq<TokenView>)
    ensures
        advances(ts, parse_call_expression(function, ts).1),
    decreases ts.len(), 0nat,
{
    reveal(parse_call_expression);
    reveal(parse_call_args);
    let (tok, r1) = expect_token(ts, TokenType::Lparen);
    if tok is Ok {
        lemma_call_args(r1);
    }
}

/// `parse_call_args` leaves no more tokens than it found.
pub proof fn lemma_call_args(ts: Seq<TokenView>)
    ensures
        no_longer(ts, parse_call_args(ts).1),
    decreases ts.len(), 5nat,
{
    reveal(parse_call_args);
    reveal(parse_more_call_args);
    if ts.len() > 0 && ts[0].token_type != TokenType::Rparen {
        lemma_more_call_args(ts, Seq::empty());
    }
}

/// `parse_more_call_args` leaves no more tokens than it found.
pub proof fn lemma_more_call_args(ts: Seq<TokenView>, acc: Seq<ExprView>)
    ensures
        no_longer(ts, parse_more_call_args(ts, acc).1),
    decreases ts.len(), 4nat,
{
    reveal(parse_more_call_args);
    reveal(parse_expression);
    lemma_expression(ts, CALL);
    let (arg, r1) = parse_expression(ts, CALL);
    if arg is Ok && r1.len() > 0 && r1[0].token_type == TokenType::Comma {
        lemma_more_call_args(r1.skip(1), acc.push(arg->Ok_0));
    }
}

/// `parse_array_literal` reads at least one token where there is one.
pub proof fn lemma_array_literal(ts: Seq<TokenView>)
    ensures
        advances(ts, parse_array_literal(ts).1),
    decreases ts.len(), 0nat,
{
    reveal(parse_array_literal);
    reveal(parse_expression_list);
    let (open, r1) = expect_token(ts, TokenType::Lbracket);
    if open is Ok && r1.len() > 0 && r1[0].token_type != TokenType::Rbracket {
        lemma_expression_list(r1, Seq::empty());
    }
}

/// `parse_expression_list` leaves no more tokens than it found.
pub proof fn lemma_expression_list(ts: Seq<TokenView>, acc: Seq<ExprView>)
    ensures
        no_longer(ts, parse_expression_list(ts, acc).1),
    decreases ts.len(), 4nat,
{
    reveal(parse_expression_list);
    reveal(parse_expression);
    lemma_expression(ts, LOWEST);
    let (item, r1) = parse_expression(ts, LOWEST);
    if item is Ok && r1.len() > 0 && r1[0].token_type == TokenType::Comma {
        lemma_expression_list(r1.skip(1), acc.push(item->Ok_0));
    }
}

/// `parse_hash_literal` reads at least one token where there is one.
pub proof fn lemma_hash_literal(ts: Seq<TokenView>)
    ensures
        advances(ts, parse_hash_literal(ts).1),
    decreases ts.len(), 0nat,
{
    reveal(parse_hash_literal);
    reveal(parse_hash_mems);
    let (open, r1) = expect_token(ts, TokenType::Lbrace);
    if open is Ok && r1.len() > 0 && r1[0].token_type != TokenType::Rbrace {
        lemma_hash_mems(r1, Seq::empty());
    }
}

/// `parse_hash_mems` leaves no more tokens than it found.
pub proof fn lemma_hash_mems(ts: Seq<TokenView>, acc: Seq<(ExprView, ExprView)>)
    ensures
        no_longer(ts, parse_hash_mems(ts, acc).1),
    decreases ts.len(), 4nat,
{
    reveal(parse_hash_mems);
    reveal(parse_expression);
    lemma_expression(ts, LOWEST);
    let (key, r1) = parse_expression(ts, LOWEST);
    if key is Ok {
        let (colon, r2) = expect_token(r1, TokenType::Colon);
        if colon is Ok {
            lemma_expression(r2, LOWEST);
            let (value, r3) = parse_expression(r2, LOWEST);
            if value is Ok && r3.len() > 0 && r3[0].token_type == TokenType::Comma {
                lemma_hash_mems(r3.skip(1), acc.push((key->Ok_0, value->Ok_0)));
            }
        }
    }
}

/// `parse_array_infix` reads at least one token where there is one.
pub proof fn lemma_array_infix(left: ExprView, ts: Seq<TokenView>)
    ensures
        advances(ts, parse_array_infix(left, ts).1),
    decreases ts.len(), 0nat,
{
    reveal(parse_array_infix);
    reveal(parse_expression);
    let (open, r1) = expect_token(ts, TokenType::Lbracket);
    if open is Ok {
        lemma_expression(r1, LOWEST);
    }
}

/// A program is its first statement and the program of the tokens behind
/// it.
pub proof fn law_program_unfolds(ts: Seq<TokenView>)
    requires
        ts.len() > 0,
    ensures
        parse_program(ts) == seq![parse_statement(ts).0] + parse_program(parse_statement(ts).1),
        parse_statement(ts).1.len() < ts.len(),
{
    lemma_statement(ts);
}

/// A program has no more statements than tokens.
pub proof fn law_program_length(ts: Seq<TokenView>)
    ensures
        parse_program(ts).len() <= ts.len(),
    decreases ts.len(),
{
    if ts.len() > 0 {
        law_program_unfolds(ts);
        law_program_length(parse_statement(ts).1);
    }
}

} // verus!
