//! The grammar, as functions from the tokens that remain to what is parsed
//! and the tokens left behind it.
//!
//! Every function returns its result together with the tokens that follow
//! what it has read, also when the result is an error: the parser goes on
//! from there. A recursive call on what an earlier call left over is guarded
//! by a test that the earlier call has read something; the module `progress`
//! proves that these tests never fail.

use vstd::prelude::*;
use crate::ast::{BlockView, ExprView, IdentView, StmtView};
use crate::parser::ParserErrorView;
use crate::text::parse_decimal_spec;
use crate::token::{TokenType, TokenView};

verus! {

/// A result with the tokens left behind it.
pub type Parsed<T> = (Result<T, ParserErrorView>, Seq<TokenView>);

pub const LOWEST: u8 = 1;

pub const EQUALS: u8 = 2;

pub const LESSGREATER: u8 = 3;

pub const SUM: u8 = 4;

pub const PRODUCT: u8 = 5;

pub const PREFIX: u8 = 6;

pub const CALL: u8 = 7;

pub const INDEX: u8 = 8;

/// How strongly a token binds as an infix operator.
pub open spec fn precedence_of(t: TokenType) -> u8 {
    match t {
        TokenType::Plus | TokenType::Minus => SUM,
        TokenType::Asterisk | TokenType::Slash => PRODUCT,
        TokenType::Lt | TokenType::Gt => LESSGREATER,
        TokenType::Eq | TokenType::Noteq => EQUALS,
        TokenType::Lparen => CALL,
        TokenType::Lbracket => INDEX,
        _ => LOWEST,
    }
}

/// The ways in which an expression can begin.
#[derive(Clone, Copy, PartialEq, Eq, Structural)]
pub enum PrefixHandler {
    Identifier,
    Integer,
    Boolean,
    Str,
    Prefix,
    Grouped,
    If,
    Function,
    Array,
    Hash,
}

/// The ways in which an expression can go on behind its left operand.
#[derive(Clone, Copy, PartialEq, Eq, Structural)]
pub enum InfixHandler {
    Binary,
    Call,
    Index,
}

/// The table of prefix handlers.
pub open spec fn prefix_handler(t: TokenType) -> Option<PrefixHandler> {
    match t {
        TokenType::Ident => Some(PrefixHandler::Identifier),
        TokenType::Int => Some(PrefixHandler::Integer),
        TokenType::Bang | TokenType::Minus => Some(PrefixHandler::Prefix),
        TokenType::True | TokenType::False => Some(PrefixHandler::Boolean),
        TokenType::Lparen => Some(PrefixHandler::Grouped),
        TokenType::If => Some(PrefixHandler::If),
        TokenType::Function => Some(PrefixHandler::Function),
        TokenType::String => Some(PrefixHandler::Str),
        TokenType::Lbracket => Some(PrefixHandler::Array),
        TokenType::Lbrace => Some(PrefixHandler::Hash),
        _ => None,
    }
}

/// The table of infix handlers.
pub open spec fn infix_handler(t: TokenType) -> Option<InfixHandler> {
    match t {
        TokenType::Plus
        | TokenType::Minus
        | TokenType::Slash
        | TokenType::Asterisk
        | TokenType::Eq
        | TokenType::Noteq
        | TokenType::Lt
        | TokenType::Gt => Some(InfixHandler::Binary),
        TokenType::Lparen => Some(InfixHandler::Call),
        TokenType::Lbracket => Some(InfixHandler::Index),
        _ => None,
    }
}

/// The message for a token of another kind than the expected one.
pub open spec fn unexpected_message(found: TokenView, expected: TokenType) -> Seq<char> {
    "Unexpected "@ + found.literal + ", expected "@ + expected.name()
}

/// Takes the next token, which must be of the expected kind. A token of
/// another kind is taken too.
pub open spec fn expect_token(ts: Seq<TokenView>, expected: TokenType) -> Parsed<TokenView> {
    if ts.len() == 0 {
        (Err(ParserErrorView::UnexpectedEOF("Expected token none found"@)), ts)
    } else if ts[0].token_type == expected {
        (Ok(ts[0]), ts.skip(1))
    } else {
        (Err(ParserErrorView::UnexpectedToken(unexpected_message(ts[0], expected))), ts.skip(1))
    }
}

/// The next token, which is not taken.
pub open spec fn peek(ts: Seq<TokenView>) -> Result<TokenView, ParserErrorView> {
    if ts.len() == 0 {
        Err(ParserErrorView::UnexpectedEOF("Unexpected EOF"@))
    } else {
        Ok(ts[0])
    }
}

/// Whether the next token is of the expected kind.
pub open spec fn peek_is(ts: Seq<TokenView>, expected: TokenType) -> Result<
    bool,
    ParserErrorView,
> {
    if ts.len() == 0 {
        Err(ParserErrorView::UnexpectedEOF("expected "@ + expected.name() + " found EOF"@))
    } else {
        Ok(ts[0].token_type == expected)
    }
}

/// The identifier that an identifier token names.
pub open spec fn ident_of(t: TokenView) -> IdentView {
    IdentView { token: t, value: t.literal }
}

pub open spec fn parse_identifier(ts: Seq<TokenView>) -> Parsed<IdentView> {
    let (tok, rest) = expect_token(ts, TokenType::Ident);
    match tok {
        Ok(t) => (Ok(ident_of(t)), rest),
        Err(e) => (Err(e), rest),
    }
}

pub open spec fn parse_identifier_expression(ts: Seq<TokenView>) -> Parsed<ExprView> {
    let (tok, rest) = expect_token(ts, TokenType::Ident);
    match tok {
        Ok(t) => (Ok(ExprView::Identifier(ident_of(t))), rest),
        Err(e) => (Err(e), rest),
    }
}

pub open spec fn parse_integer_literal(ts: Seq<TokenView>) -> Parsed<ExprView> {
    let (tok, rest) = expect_token(ts, TokenType::Int);
    match tok {
        Ok(t) => match parse_decimal_spec(t.literal) {
            Some(value) => (Ok(ExprView::Integer { token: t, value }), rest),
            None => (
                Err(
                    ParserErrorView::IntParseError(
                        "Could not parse "@ + t.literal + " as integer"@,
                    ),
                ),
                rest,
            ),
        },
        Err(e) => (Err(e), rest),
    }
}

pub open spec fn parse_boolean(ts: Seq<TokenView>) -> Parsed<ExprView> {
    match peek_is(ts, TokenType::True) {
        Ok(value) => (Ok(ExprView::Boolean { token: ts[0], value }), ts.skip(1)),
        Err(e) => (Err(e), ts),
    }
}

pub open spec fn parse_string_literal(ts: Seq<TokenView>) -> Parsed<ExprView> {
    let (tok, rest) = expect_token(ts, TokenType::String);
    match tok {
        Ok(t) => (Ok(ExprView::Str { token: t, val: t.literal }), rest),
        Err(e) => (Err(e), rest),
    }
}

/// The parameters behind the first one: names separated by commas, up to
/// the closing parenthesis.
pub open spec fn parse_more_parameters(ts: Seq<TokenView>, acc: Seq<IdentView>) -> Parsed<
    Seq<IdentView>,
>
    decreases ts.len(),
{
    let (tok, r1) = expect_token(ts, TokenType::Ident);
    match tok {
        Err(e) => (Err(e), r1),
        Ok(t) => {
            let params = acc.push(ident_of(t));
            if r1.len() == 0 {
                (Err(ParserErrorView::UnexpectedEOF("Unexpected EOF"@)), r1)
            } else if r1[0].token_type == TokenType::Comma {
                parse_more_parameters(r1.skip(1), params)
            } else {
                let (close, r2) = expect_token(r1, TokenType::Rparen);
                match close {
                    Ok(_) => (Ok(params), r2),
                    Err(e) => (Err(e), r2),
                }
            }
        },
    }
}

/// A parameter list behind its opening parenthesis: empty, or names
/// separated by commas.
pub open spec fn parse_function_parameters(ts: Seq<TokenView>) -> Parsed<Seq<IdentView>> {
    if ts.len() == 0 {
        (Err(ParserErrorView::UnexpectedEOF("Unexpected EOF"@)), ts)
    } else if ts[0].token_type == TokenType::Rparen {
        (Ok(Seq::empty()), ts.skip(1))
    } else {
        parse_more_parameters(ts, Seq::empty())
    }
}

/// An expression whose operators bind more strongly than `precedence`.
#[verifier::opaque]
pub open spec fn parse_expression(ts: Seq<TokenView>, precedence: u8) -> Parsed<ExprView>
    decreases ts.len(), 3nat,
{
    if ts.len() == 0 {
        (Err(ParserErrorView::UnexpectedEOF("Unexpected EOF"@)), ts)
    } else {
        match prefix_handler(ts[0].token_type) {
            None => (
                Err(
                    ParserErrorView::NoPrefixParseFn(
                        "no prefix parse function for "@ + ts[0].token_type.name(),
                    ),
                ),
                ts.skip(1),
            ),
            Some(h) => {
                let (left, rest) = parse_prefix(ts, h);
                match left {
                    Err(e) => (Err(e), rest),
                    Ok(l) => if rest.len() < ts.len() {
                        parse_expression_infix(l, rest, precedence)
                    } else {
                        (Err(ParserErrorView::UnhandledError), rest)
                    },
                }
            },
        }
    }
}

/// The start of an expression, by the handler that the table gives for its
/// first token.
#[verifier::opaque]
pub open spec fn parse_prefix(ts: Seq<TokenView>, h: PrefixHandler) -> Parsed<ExprView>
    decreases ts.len(), 2nat,
{
    match h {
        PrefixHandler::Identifier => parse_identifier_expression(ts),
        PrefixHandler::Integer => parse_integer_literal(ts),
        PrefixHandler::Boolean => parse_boolean(ts),
        PrefixHandler::Str => parse_string_literal(ts),
        PrefixHandler::Prefix => parse_prefix_expression(ts),
        PrefixHandler::Grouped => parse_grouped_expression(ts),
        PrefixHandler::If => parse_if_statement(ts),
        PrefixHandler::Function => parse_function_literal(ts),
        PrefixHandler::Array => parse_array_literal(ts),
        PrefixHandler::Hash => parse_hash_literal(ts),
    }
}

/// What follows a left operand: as long as the next token is an operator
/// that binds more strongly than `precedence`, it takes `left` as its left
/// operand.
#[verifier::opaque]
pub open spec fn parse_expression_infix(left: ExprView, ts: Seq<TokenView>, precedence: u8) -> Parsed<
    ExprView,
>
    decreases ts.len(), 2nat,
{
    match peek_is(ts, TokenType::Semicolon) {
        Err(e) => (Err(e), ts),
        Ok(semicolon) => if semicolon || precedence >= precedence_of(ts[0].token_type) {
            (Ok(left), ts)
        } else {
            match infix_handler(ts[0].token_type) {
                None => (
                    Err(
                        ParserErrorView::NoInfixParseFn(
                            "no infix parse function for "@ + ts[0].token_type.name(),
                        ),
                    ),
                    ts.skip(1),
                ),
                Some(h) => {
                    let (next, rest) = parse_infix(left, ts, h);
                    match next {
                        Err(e) => (Err(e), rest),
                        Ok(l) => if rest.len() < ts.len() {
                            parse_expression_infix(l, rest, precedence)
                        } else {
                            (Err(ParserErrorView::UnhandledError), rest)
                        },
                    }
                },
            }
        },
    }
}

/// One operator behind a left operand, by the handler that the table gives
/// for it.
#[verifier::opaque]
pub open spec fn parse_infix(left: ExprView, ts: Seq<TokenView>, h: InfixHandler) -> Parsed<
    ExprView,
>
    decreases ts.len(), 1nat,
{
    match h {
        InfixHandler::Binary => parse_infix_expression(left, ts),
        InfixHandler::Call => parse_call_expression(left, ts),
        InfixHandler::Index => parse_array_infix(left, ts),
    }
}

/// A binary operator and its right operand, which holds the operators that
/// bind more strongly than this one.
#[verifier::opaque]
pub open spec fn parse_infix_expression(left: ExprView, ts: Seq<TokenView>) -> Parsed<ExprView>
    decreases ts.len(), 0nat,
{
    if ts.len() == 0 {
        (Err(ParserErrorView::UnhandledError), ts)
    } else {
        let token = ts[0];
        let (right, rest) = parse_expression(ts.skip(1), precedence_of(token.token_type));
        match right {
            Err(e) => (Err(e), rest),
            Ok(r) => (
                Ok(
                    ExprView::Infix {
                        token,
                        left: Box::new(left),
                        operator: token.literal,
                        right: Box::new(r),
                    },
                ),
                rest,
            ),
        }
    }
}

/// A prefix operator and its operand.
#[verifier::opaque]
pub open spec fn parse_prefix_expression(ts: Seq<TokenView>) -> Parsed<ExprView>
    decreases ts.len(), 0nat,
{
    if ts.len() == 0 {
        (Err(ParserErrorView::UnhandledError), ts)
    } else {
        let token = ts[0];
        let (right, rest) = parse_expression(ts.skip(1), PREFIX);
        match right {
            Err(e) => (Err(e), rest),
            Ok(r) => (
                Ok(ExprView::Prefix { token, operator: token.literal, right: Box::new(r) }),
                rest,
            ),
        }
    }
}

/// An expression in parentheses. The closing parenthesis is looked for also
/// behind an expression that failed, and its absence is then the error.
#[verifier::opaque]
pub open spec fn parse_grouped_expression(ts: Seq<TokenView>) -> Parsed<ExprView>
    decreases ts.len(), 0nat,
{
    let (open, r1) = expect_token(ts, TokenType::Lparen);
    match open {
        Err(e) => (Err(e), r1),
        Ok(_) => {
            let (expression, r2) = parse_expression(r1, LOWEST);
            let (close, r3) = expect_token(r2, TokenType::Rparen);
            match close {
                Err(e) => (Err(e), r3),
                Ok(_) => (expression, r3),
            }
        },
    }
}

/// `if (<condition>) <block>`, with `else <block>` behind it or not.
#[verifier::opaque]
pub open spec fn parse_if_statement(ts: Seq<TokenView>) -> Parsed<ExprView>
    decreases ts.len(), 0nat,
{
    if ts.len() == 0 {
        (Err(ParserErrorView::UnexpectedEOF("Expected If Statement found EOF"@)), ts)
    } else {
        let token = ts[0];
        let (open, r1) = expect_token(ts.skip(1), TokenType::Lparen);
        match open {
            Err(e) => (Err(e), r1),
            Ok(_) => {
                let (condition, r2) = parse_expression(r1, LOWEST);
                match condition {
                    Err(e) => (Err(e), r2),
                    Ok(c) => {
                        let (close, r3) = expect_token(r2, TokenType::Rparen);
                        match close {
                            Err(e) => (Err(e), r3),
                            Ok(_) => if r3.len() < ts.len() {
                                let (consequence, r4) = parse_block_statement(r3);
                                match consequence {
                                    Err(e) => (Err(e), r4),
                                    Ok(b) => if r4.len() < ts.len() {
                                        let (alternative, r5) = parse_else_block(r4);
                                        match alternative {
                                            Err(e) => (Err(e), r5),
                                            Ok(a) => (
                                                Ok(
                                                    ExprView::If {
                                                        token,
                                                        condition: Box::new(c),
                                                        consequence: b,
                                                        alternative: a,
                                                    },
                                                ),
                                                r5,
                                            ),
                                        }
                                    } else {
                                        (Err(ParserErrorView::UnhandledError), r4)
                                    },
                                }
                            } else {
                                (Err(ParserErrorView::UnhandledError), r3)
                            },
                        }
                    },
                }
            },
        }
    }
}

/// `else <block>`, or nothing where the next token is not `else`.
#[verifier::opaque]
pub open spec fn parse_else_block(ts: Seq<TokenView>) -> Parsed<Option<BlockView>>
    decreases ts.len(), 1nat,
{
    match peek_is(ts, TokenType::Else) {
        Err(e) => (Err(e), ts),
        Ok(false) => (Ok(None), ts),
        Ok(true) => {
            let (block, rest) = parse_block_statement(ts.skip(1));
            match block {
                Err(e) => (Err(e), rest),
                Ok(b) => (Ok(Some(b)), rest),
            }
        },
    }
}

/// `{`, statements, `}`.
#[verifier::opaque]
pub open spec fn parse_block_statement(ts: Seq<TokenView>) -> Parsed<BlockView>
    decreases ts.len(), 0nat,
{
    let (open, r1) = expect_token(ts, TokenType::Lbrace);
    match open {
        Err(e) => (Err(e), r1),
        Ok(token) => {
            let (statements, r2) = collect_statements(r1, Seq::empty(), TokenType::Rbrace);
            match statements {
                Err(e) => (Err(e), r2),
                Ok(s) => (Ok(BlockView { token, statements: s }), r2),
            }
        },
    }
}

/// Statements up to the token `end`, which is taken; a statement that fails
/// to parse stands in the list as its error.
#[verifier::opaque]
pub open spec fn collect_statements(
    ts: Seq<TokenView>,
    acc: Seq<Result<StmtView, ParserErrorView>>,
    end: TokenType,
) -> Parsed<Seq<Result<StmtView, ParserErrorView>>>
    decreases ts.len(), 6nat,
{
    if ts.len() == 0 {
        (Err(ParserErrorView::UnexpectedEOF("Unexpected EOF"@)), ts)
    } else if ts[0].token_type == end {
        (Ok(acc), ts.skip(1))
    } else {
        let (statement, rest) = parse_statement(ts);
        if rest.len() < ts.len() {
            collect_statements(rest, acc.push(statement), end)
        } else {
            (Err(ParserErrorView::UnhandledError), rest)
        }
    }
}

/// One statement: `let`, `return`, or an expression.
#[verifier::opaque]
pub open spec fn parse_statement(ts: Seq<TokenView>) -> Parsed<StmtView>
    decreases ts.len(), 5nat,
{
    if ts.len() > 0 && ts[0].token_type == TokenType::Let {
        parse_let_statement(ts)
    } else if ts.len() > 0 && ts[0].token_type == TokenType::Return {
        parse_return_statement(ts)
    } else {
        parse_expression_statement(ts)
    }
}

/// `let <name> = <expression>;`
#[verifier::opaque]
pub open spec fn parse_let_statement(ts: Seq<TokenView>) -> Parsed<StmtView>
    decreases ts.len(), 4nat,
{
    let (tok, r1) = expect_token(ts, TokenType::Let);
    match tok {
        Err(e) => (Err(e), r1),
        Ok(token) => {
            let (name, r2) = parse_identifier(r1);
            match name {
                Err(e) => (Err(e), r2),
                Ok(n) => {
                    let (assign, r3) = expect_token(r2, TokenType::Assign);
                    match assign {
                        Err(e) => (Err(e), r3),
                        Ok(_) => {
                            let (value, r4) = parse_expression(r3, LOWEST);
                            match value {
                                Err(e) => (Err(e), r4),
                                Ok(v) => {
                                    let (semicolon, r5) = expect_token(r4, TokenType::Semicolon);
                                    match semicolon {
                                        Err(e) => (Err(e), r5),
                                        Ok(_) => (
                                            Ok(StmtView::Let { token, name: n, value: v }),
                                            r5,
                                        ),
                                    }
                                },
                            }
                        },
                    }
                },
            }
        },
    }
}

/// `return <expression>;`
#[verifier::opaque]
pub open spec fn parse_return_statement(ts: Seq<TokenView>) -> Parsed<StmtView>
    decreases ts.len(), 4nat,
{
    let (tok, r1) = expect_token(ts, TokenType::Return);
    match tok {
        Err(e) => (Err(e), r1),
        Ok(token) => {
            let (value, r2) = parse_expression(r1, LOWEST);
            match value {
                Err(e) => (Err(e), r2),
                Ok(v) => {
                    let (semicolon, r3) = expect_token(r2, TokenType::Semicolon);
                    match semicolon {
                        Err(e) => (Err(e), r3),
                        Ok(_) => (Ok(StmtView::Return { token, value: v }), r3),
                    }
                },
            }
        },
    }
}

/// `<expression>;`
#[verifier::opaque]
pub open spec fn parse_expression_statement(ts: Seq<TokenView>) -> Parsed<StmtView>
    decreases ts.len(), 4nat,
{
    if ts.len() == 0 {
        (Err(ParserErrorView::UnhandledError), ts)
    } else {
        let token = ts[0];
        let (expression, r1) = parse_expression(ts, LOWEST);
        match expression {
            Err(e) => (Err(e), r1),
            Ok(x) => {
                let (semicolon, r2) = expect_token(r1, TokenType::Semicolon);
                match semicolon {
                    Err(e) => (Err(e), r2),
                    Ok(_) => (Ok(StmtView::Expression { token, expression: x }), r2),
                }
            },
        }
    }
}

/// `fn (<parameters>) <block>`
#[verifier::opaque]
pub open spec fn parse_function_literal(ts: Seq<TokenView>) -> Parsed<ExprView>
    decreases ts.len(), 0nat,
{
    let (tok, r1) = expect_token(ts, TokenType::Function);
    match tok {
        Err(e) => (Err(e), r1),
        Ok(token) => {
            let (open, r2) = expect_token(r1, TokenType::Lparen);
            match open {
                Err(e) => (Err(e), r2),
                Ok(_) => {
                    let (params, r3) = parse_function_parameters(r2);
                    match params {
                        Err(e) => (Err(e), r3),
                        Ok(p) => if r3.len() < ts.len() {
                            let (body, r4) = parse_block_statement(r3);
                            match body {
                                Err(e) => (Err(e), r4),
                                Ok(b) => (Ok(ExprView::Function { token, params: p, body: b }), r4),
                            }
                        } else {
                            (Err(ParserErrorView::UnhandledError), r3)
                        },
                    }
                },
            }
        },
    }
}

/// The arguments of a call, behind the callee.
#[verifier::opaque]
pub open spec fn parse_call_expression(function: ExprView, ts: Seq<TokenView>) -> Parsed<ExprView>
    decreases ts.len(), 0nat,
{
    let (tok, r1) = expect_token(ts, TokenType::Lparen);
    match tok {
        Err(e) => (Err(e), r1),
        Ok(token) => {
            let (args, r2) = parse_call_args(r1);
            match args {
                Err(e) => (Err(e), r2),
                Ok(a) => (Ok(ExprView::Call { token, function: Box::new(function), args: a }), r2),
            }
        },
    }
}

/// An argument list behind its opening parenthesis: empty, or expressions
/// separated by commas.
#[verifier::opaque]
pub open spec fn parse_call_args(ts: Seq<TokenView>) -> Parsed<Seq<ExprView>>
    decreases ts.len(), 5nat,
{
    if ts.len() == 0 {
        (Err(ParserErrorView::UnexpectedEOF("Unexpected EOF"@)), ts)
    } else if ts[0].token_type == TokenType::Rparen {
        (Ok(Seq::empty()), ts.skip(1))
    } else {
        parse_more_call_args(ts, Seq::empty())
    }
}

/// The arguments from one on, up to the closing parenthesis.
#[verifier::opaque]
pub open spec fn parse_more_call_args(ts: Seq<TokenView>, acc: Seq<ExprView>) -> Parsed<
    Seq<ExprView>,
>
    decreases ts.len(), 4nat,
{
    let (arg, r1) = parse_expression(ts, CALL);
    match arg {
        Err(e) => (Err(e), r1),
        Ok(a) => {
            let args = acc.push(a);
            if r1.len() == 0 {
                (Err(ParserErrorView::UnexpectedEOF("Unexpected EOF"@)), r1)
            } else if r1[0].token_type == TokenType::Comma {
                if r1.len() <= ts.len() {
                    parse_more_call_args(r1.skip(1), args)
                } else {
                    (Err(ParserErrorView::UnhandledError), r1)
                }
            } else if r1[0].token_type == TokenType::Rparen {
                (Ok(args), r1.skip(1))
            } else {
                (Err(ParserErrorView::UnhandledError), r1)
            }
        },
    }
}

/// `[`, elements separated by commas, `]`.
#[verifier::opaque]
pub open spec fn parse_array_literal(ts: Seq<TokenView>) -> Parsed<ExprView>
    decreases ts.len(), 0nat,
{
    let (open, r1) = expect_token(ts, TokenType::Lbracket);
    match open {
        Err(e) => (Err(e), r1),
        Ok(tok) => if r1.len() == 0 {
            (Err(ParserErrorView::UnexpectedEOF("Unexpected EOF"@)), r1)
        } else if r1[0].token_type == TokenType::Rbracket {
            (Ok(ExprView::Array { tok, mems: Seq::empty() }), r1.skip(1))
        } else {
            let (mems, r2) = parse_expression_list(r1, Seq::empty());
            match mems {
                Err(e) => (Err(e), r2),
                Ok(m) => (Ok(ExprView::Array { tok, mems: m }), r2),
            }
        },
    }
}

/// The elements of an array literal from one on, up to the closing bracket.
#[verifier::opaque]
pub open spec fn parse_expression_list(ts: Seq<TokenView>, acc: Seq<ExprView>) -> Parsed<
    Seq<ExprView>,
>
    decreases ts.len(), 4nat,
{
    let (item, r1) = parse_expression(ts, LOWEST);
    match item {
        Err(e) => (Err(e), r1),
        Ok(x) => {
            let items = acc.push(x);
            if r1.len() == 0 {
                (Err(ParserErrorView::UnexpectedEOF("Unexpected EOF"@)), r1)
            } else if r1[0].token_type == TokenType::Comma {
                if r1.len() <= ts.len() {
                    parse_expression_list(r1.skip(1), items)
                } else {
                    (Err(ParserErrorView::UnhandledError), r1)
                }
            } else if r1[0].token_type == TokenType::Rbracket {
                (Ok(items), r1.skip(1))
            } else {
                (
                    Err(
                        ParserErrorView::UnexpectedToken(
                            r1[0].token_type.name() + " Unexpected token"@,
                        ),
                    ),
                    r1.skip(1),
                )
            }
        },
    }
}

/// `{`, pairs `key: value` separated by commas, `}`.
#[verifier::opaque]
pub open spec fn parse_hash_literal(ts: Seq<TokenView>) -> Parsed<ExprView>
    decreases ts.len(), 0nat,
{
    let (open, r1) = expect_token(ts, TokenType::Lbrace);
    match open {
        Err(e) => (Err(e), r1),
        Ok(tok) => if r1.len() == 0 {
            (Err(ParserErrorView::UnexpectedEOF("Unexpected EOF"@)), r1)
        } else if r1[0].token_type == TokenType::Rbrace {
            (Ok(ExprView::Hash { tok, pairs: Seq::empty() }), r1.skip(1))
        } else {
            let (pairs, r2) = parse_hash_mems(r1, Seq::empty());
            match pairs {
                Err(e) => (Err(e), r2),
                Ok(p) => (Ok(ExprView::Hash { tok, pairs: p }), r2),
            }
        },
    }
}

/// The pairs of a hash literal from one on, up to the closing brace.
#[verifier::opaque]
pub open spec fn parse_hash_mems(ts: Seq<TokenView>, acc: Seq<(ExprView, ExprView)>) -> Parsed<
    Seq<(ExprView, ExprView)>,
>
    decreases ts.len(), 4nat,
{
    let (key, r1) = parse_expression(ts, LOWEST);
    match key {
        Err(e) => (Err(e), r1),
        Ok(k) => {
            let (colon, r2) = expect_token(r1, TokenType::Colon);
            match colon {
                Err(e) => (Err(e), r2),
                Ok(_) => if r2.len() < ts.len() {
                    let (value, r3) = parse_expression(r2, LOWEST);
                    match value {
                        Err(e) => (Err(e), r3),
                        Ok(v) => {
                            let pairs = acc.push((k, v));
                            if r3.len() == 0 {
                                (Err(ParserErrorView::UnexpectedEOF("UnexpectedEOF"@)), r3)
                            } else if r3[0].token_type == TokenType::Comma {
                                if r3.len() <= ts.len() {
                                    parse_hash_mems(r3.skip(1), pairs)
                                } else {
                                    (Err(ParserErrorView::UnhandledError), r3)
                                }
                            } else if r3[0].token_type == TokenType::Rbrace {
                                (Ok(pairs), r3.skip(1))
                            } else {
                                (
                                    Err(ParserErrorView::UnexpectedToken("Expected : or }"@)),
                                    r3.skip(1),
                                )
                            }
                        },
                    }
                } else {
                    (Err(ParserErrorView::UnhandledError), r2)
                },
            }
        },
    }
}

/// `[`, an index, `]` behind the expression that is indexed.
#[verifier::opaque]
pub open spec fn parse_array_infix(left: ExprView, ts: Seq<TokenView>) -> Parsed<ExprView>
    decreases ts.len(), 0nat,
{
    let (open, r1) = expect_token(ts, TokenType::Lbracket);
    match open {
        Err(e) => (Err(e), r1),
        Ok(tok) => {
            let (index, r2) = parse_expression(r1, LOWEST);
            match index {
                Err(e) => (Err(e), r2),
                Ok(i) => {
                    let (close, r3) = expect_token(r2, TokenType::Rbracket);
                    match close {
                        Err(e) => (Err(e), r3),
                        Ok(_) => (
                            Ok(ExprView::Index { tok, left: Box::new(left), index: Box::new(i) }),
                            r3,
                        ),
                    }
                },
            }
        },
    }
}

/// The statements of a program: one result for each top-level statement,
/// up to the end of the tokens.
pub open spec fn parse_program(ts: Seq<TokenView>) -> Seq<Result<StmtView, ParserErrorView>>
    decreases ts.len(),
{
    if ts.len() == 0 {
        Seq::empty()
    } else {
        let (statement, rest) = parse_statement(ts);
        if rest.len() < ts.len() {
            seq![statement] + parse_program(rest)
        } else {
            seq![statement]
        }
    }
}

} // verus!
