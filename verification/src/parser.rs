//! The parser: from tokens to statements, by operator precedence.

use vstd::prelude::*;
use vstd::string::StringExecFns;
use crate::ast::{ArrayLiteral, BlockStatement, BlockView, BooleanLiteral, CallExpression, ExprView, Expression, ExpressionStatement, FunctionLiteral, HashLiteral, IdentView, Identifier, IfExpression, IndexExpression, InfixExpression, IntegerLiteral, LetStatement, PrefixExpression, Program, ReturnStatement, Statement, StmtView, StringLiteral, block_option_view, entries_view, entry_view, exprs_view, idents_view, lemma_view_entry, lemma_view_identifier, pairs_view};
use crate::grammar;
use crate::grammar::{CALL, EQUALS, INDEX, InfixHandler, LESSGREATER, LOWEST, PREFIX, PRODUCT, PrefixHandler, SUM};
use crate::lexer::{Lexer, tokens};
use crate::text::parse_decimal;
use crate::token::{Token, TokenType, TokenView};

verus! {

/// What went wrong while parsing one statement, as a value.
pub enum ParserErrorView {
    UnexpectedEOF(Seq<char>),
    UnexpectedToken(Seq<char>),
    IntParseError(Seq<char>),
    NoPrefixParseFn(Seq<char>),
    NoInfixParseFn(Seq<char>),
    UnhandledError,
}

impl ParserErrorView {
    /// The message that the error carries.
    pub open spec fn message(self) -> Seq<char> {
        match self {
            ParserErrorView::UnexpectedEOF(m) => m,
            ParserErrorView::UnexpectedToken(m) => m,
            ParserErrorView::IntParseError(m) => m,
            ParserErrorView::NoPrefixParseFn(m) => m,
            ParserErrorView::NoInfixParseFn(m) => m,
            ParserErrorView::UnhandledError => "Encoutered an unexpected Error"@,
        }
    }
}

/// What went wrong while parsing one statement.
#[derive(Debug, PartialEq)]
pub enum ParserError {
    UnexpectedEOF(String),
    UnexpectedToken(String),
    IntParseError(String),
    NoPrefixParseFn(String),
    NoInfixParseFn(String),
    UnhandledError,
}

impl View for ParserError {
    type V = ParserErrorView;

    open spec fn view(&self) -> ParserErrorView {
        match self {
            ParserError::UnexpectedEOF(m) => ParserErrorView::UnexpectedEOF(m@),
            ParserError::UnexpectedToken(m) => ParserErrorView::UnexpectedToken(m@),
            ParserError::IntParseError(m) => ParserErrorView::IntParseError(m@),
            ParserError::NoPrefixParseFn(m) => ParserErrorView::NoPrefixParseFn(m@),
            ParserError::NoInfixParseFn(m) => ParserErrorView::NoInfixParseFn(m@),
            ParserError::UnhandledError => ParserErrorView::UnhandledError,
        }
    }
}

impl Clone for ParserError {
    fn clone(&self) -> (r: Self)
        ensures
            r@ == self@,
    {
        match self {
            ParserError::UnexpectedEOF(m) => ParserError::UnexpectedEOF(m.clone()),
            ParserError::UnexpectedToken(m) => ParserError::UnexpectedToken(m.clone()),
            ParserError::IntParseError(m) => ParserError::IntParseError(m.clone()),
            ParserError::NoPrefixParseFn(m) => ParserError::NoPrefixParseFn(m.clone()),
            ParserError::NoInfixParseFn(m) => ParserError::NoInfixParseFn(m.clone()),
            ParserError::UnhandledError => ParserError::UnhandledError,
        }
    }
}

impl ParserError {
    pub fn get_err_msg(&self) -> (r: String)
        ensures
            r@ == self@.message(),
    {
        match self {
            ParserError::UnexpectedEOF(m) => m.clone(),
            ParserError::UnexpectedToken(m) => m.clone(),
            ParserError::IntParseError(m) => m.clone(),
            ParserError::NoPrefixParseFn(m) => m.clone(),
            ParserError::NoInfixParseFn(m) => m.clone(),
            ParserError::UnhandledError => String::from_str("Encoutered an unexpected Error"),
        }
    }
}


pub fn get_precedence(token_type: &TokenType) -> (r: u8)
    ensures
        r == grammar::precedence_of(*token_type),
{
    match token_type {
        TokenType::Plus | TokenType::Minus => SUM,
        TokenType::Asterisk | TokenType::Slash => PRODUCT,
        TokenType::Lt | TokenType::Gt => LESSGREATER,
        TokenType::Eq | TokenType::Noteq => EQUALS,
        TokenType::Lparen => CALL,
        TokenType::Lbracket => INDEX,
        _ => LOWEST,
    }
}

/// The handler with which an expression that starts with a token of this
/// kind is parsed.
pub fn prefix_parse_fn(token_type: &TokenType) -> (r: Option<PrefixHandler>)
    ensures
        r == grammar::prefix_handler(*token_type),
{
    match token_type {
        TokenType::Ident => Some(PrefixHandler::Identifier),
        TokenType::Int => Some(PrefixHandler::Integer),
        TokenType::Bang | TokenType::Minus => Some(PrefixHandler::Prefix),
        TokenType::True | TokenType::False => Some(PrefixHandler::Boolean),
        TokenType::Lparen => Some(PrefixHandler::Grouped),
        TokenType::If => Some(PrefixHandler::If),
        TokenType::Function => Some(PrefixHandler::Function),
        TokenType::String => Some(PrefixHandler::Str),
        TokenType::Lbracket => Some(PrefixHandler::Array),
        TokenType::Lbrace => Some(PrefixHandler::Hash),
        _ => None,
    }
}

/// The handler with which an expression goes on behind its left operand at
/// a token of this kind.
pub fn infix_parse_fn(token_type: &TokenType) -> (r: Option<InfixHandler>)
    ensures
        r == grammar::infix_handler(*token_type),
{
    match token_type {
        TokenType::Plus
        | TokenType::Minus
        | TokenType::Slash
        | TokenType::Asterisk
        | TokenType::Eq
        | TokenType::Noteq
        | TokenType::Lt
        | TokenType::Gt => Some(InfixHandler::Binary),
        TokenType::Lparen => Some(InfixHandler::Call),
        TokenType::Lbracket => Some(InfixHandler::Index),
        _ => None,
    }
}

/// The view of what a parsing step returns.
pub open spec fn result_view<T: View>(r: Result<T, ParserError>) -> Result<T::V, ParserErrorView> {
    match r {
        Ok(x) => Ok(x@),
        Err(e) => Err(e@),
    }
}

/// The view of a list of expressions, or of the error in its place.
pub open spec fn exprs_result_view(r: Result<Vec<Expression>, ParserError>) -> Result<
    Seq<ExprView>,
    ParserErrorView,
> {
    match r {
        Ok(x) => Ok(exprs_view(x@)),
        Err(e) => Err(e@),
    }
}

/// The view of a list of pairs, or of the error in its place.
pub open spec fn pairs_result_view(
    r: Result<Vec<(Expression, Expression)>, ParserError>,
) -> Result<Seq<(ExprView, ExprView)>, ParserErrorView> {
    match r {
        Ok(x) => Ok(pairs_view(x@)),
        Err(e) => Err(e@),
    }
}

/// The view of a parameter list, or of the error in its place.
pub open spec fn idents_result_view(r: Result<Vec<Identifier>, ParserError>) -> Result<
    Seq<IdentView>,
    ParserErrorView,
> {
    match r {
        Ok(x) => Ok(idents_view(x@)),
        Err(e) => Err(e@),
    }
}

/// The view of a statement list, or of the error in its place.
pub open spec fn entries_result_view(
    r: Result<Vec<Result<Statement, ParserError>>, ParserError>,
) -> Result<Seq<Result<StmtView, ParserErrorView>>, ParserErrorView> {
    match r {
        Ok(x) => Ok(entries_view(x@)),
        Err(e) => Err(e@),
    }
}

/// The view of an `else` block or its absence, or of the error in its place.
pub open spec fn else_result_view(r: Result<Option<BlockStatement>, ParserError>) -> Result<
    Option<BlockView>,
    ParserErrorView,
> {
    match r {
        Ok(x) => Ok(block_option_view(x)),
        Err(e) => Err(e@),
    }
}

/// The parser: a lexer and the one token that has been looked at ahead of
/// its turn.
pub struct Parser {
    lexer: Lexer,
    peeked: Option<Token>,
}

impl Parser {
    /// The tokens that have not been parsed yet.
    pub closed spec fn remaining(&self) -> Seq<TokenView> {
        match self.peeked {
            Some(t) => seq![t@] + tokens(self.lexer.remaining()),
            None => tokens(self.lexer.remaining()),
        }
    }

    pub fn new(lexer: Lexer) -> (r: Parser)
        ensures
            r.remaining() == tokens(lexer.remaining()),
    {
        Parser { lexer, peeked: None }
    }

    /// Reads the next token from the lexer, unless it has been read already.
    fn fill(&mut self)
        ensures
            final(self).remaining() == old(self).remaining(),
            final(self).peeked is Some <==> old(self).remaining().len() > 0,
            final(self).peeked is Some ==> final(self).peeked->0@ == old(self).remaining()[0],
    {
        if self.peeked.is_none() {
            let ghost before = self.lexer.remaining();
            let next = self.lexer.next();
            proof {
                if next is Some {
                    assert(tokens(before) =~= seq![next->0@] + tokens(self.lexer.remaining()));
                } else {
                    assert(tokens(before) =~= Seq::<TokenView>::empty());
                    assert(tokens(self.lexer.remaining()) =~= Seq::<TokenView>::empty());
                }
            }
            self.peeked = next;
        }
    }

    /// The kind of the next token, which is not taken.
    fn peek_type(&mut self) -> (r: Option<TokenType>)
        ensures
            final(self).remaining() == old(self).remaining(),
            r == (if old(self).remaining().len() > 0 {
                Some(old(self).remaining()[0].token_type)
            } else {
                None
            }),
    {
        self.fill();
        match &self.peeked {
            Some(t) => Some(t.token_type),
            None => None,
        }
    }

    /// Takes the next token.
    fn next_token(&mut self) -> (r: Option<Token>)
        ensures
            old(self).remaining().len() == 0 ==> r is None && final(self).remaining() == old(
                self,
            ).remaining(),
            old(self).remaining().len() > 0 ==> r is Some && r->0@ == old(self).remaining()[0]
                && final(self).remaining() == old(self).remaining().skip(1),
    {
        self.fill();
        let ghost before = self.remaining();
        let r = self.peeked.take();
        proof {
            if r is Some {
                assert(self.remaining() =~= before.skip(1));
            }
        }
        r
    }

    fn peek_precedence(&mut self) -> (r: u8)
        requires
            old(self).remaining().len() > 0,
        ensures
            final(self).remaining() == old(self).remaining(),
            r == grammar::precedence_of(old(self).remaining()[0].token_type),
    {
        match self.peek_type() {
            Some(t) => get_precedence(&t),
            None => LOWEST,
        }
    }

    fn expect_next_token(&mut self, expected: TokenType) -> (r: Result<Token, ParserError>)
        ensures
            result_view(r) == grammar::expect_token(old(self).remaining(), expected).0,
            final(self).remaining() == grammar::expect_token(old(self).remaining(), expected).1,
            r is Ok ==> r->Ok_0.token_type == expected,
            final(self).remaining().len() <= old(self).remaining().len(),
            old(self).remaining().len() > 0 ==> final(self).remaining().len() < old(
                self,
            ).remaining().len(),
    {
        match self.next_token() {
            Some(token) => {
                if token.token_type == expected {
                    Ok(token)
                } else {
                    let mut message = String::from_str("Unexpected ");
                    message.append(token.literal.as_str());
                    message.append(", expected ");
                    message.append(expected.get_name().as_str());
                    Err(ParserError::UnexpectedToken(message))
                }
            },
            None => Err(ParserError::UnexpectedEOF(String::from_str("Expected token none found"))),
        }
    }

    fn peek_token(&mut self) -> (r: Result<Token, ParserError>)
        ensures
            result_view(r) == grammar::peek(old(self).remaining()),
            final(self).remaining() == old(self).remaining(),
    {
        self.fill();
        match &self.peeked {
            Some(t) => Ok(t.clone()),
            None => Err(ParserError::UnexpectedEOF(String::from_str("Unexpected EOF"))),
        }
    }

    fn peek_token_is_type(&mut self, expected: TokenType) -> (r: Result<bool, ParserError>)
        ensures
            final(self).remaining() == old(self).remaining(),
            match grammar::peek_is(old(self).remaining(), expected) {
                Ok(b) => r == Ok::<bool, ParserError>(b),
                Err(e) => r is Err && r->Err_0@ == e,
            },
    {
        match self.peek_type() {
            Some(t) => Ok(t == expected),
            None => {
                let mut message = String::from_str("expected ");
                message.append(expected.get_name().as_str());
                message.append(" found EOF");
                Err(ParserError::UnexpectedEOF(message))
            },
        }
    }

    fn parse_identifier(&mut self) -> (r: Result<Identifier, ParserError>)
        ensures
            result_view(r) == grammar::parse_identifier(old(self).remaining()).0,
            final(self).remaining() == grammar::parse_identifier(old(self).remaining()).1,
            final(self).remaining().len() <= old(self).remaining().len(),
    {
        let token = self.expect_next_token(TokenType::Ident)?;
        let value = token.literal.clone();
        Ok(Identifier { token, value })
    }

    fn parse_identifier_expression(&mut self) -> (r: Result<Expression, ParserError>)
        ensures
            result_view(r) == grammar::parse_identifier_expression(old(self).remaining()).0,
            final(self).remaining() == grammar::parse_identifier_expression(
                old(self).remaining(),
            ).1,
            final(self).remaining().len() <= old(self).remaining().len(),
            old(self).remaining().len() > 0 ==> final(self).remaining().len() < old(
                self,
            ).remaining().len(),
    {
        let token = self.expect_next_token(TokenType::Ident)?;
        let value = token.literal.clone();
        let node = Identifier { token, value };
        proof {
            lemma_view_identifier(node);
        }
        Ok(Expression::Identifier(node))
    }

    fn parse_integer_literal(&mut self) -> (r: Result<Expression, ParserError>)
        ensures
            result_view(r) == grammar::parse_integer_literal(old(self).remaining()).0,
            final(self).remaining() == grammar::parse_integer_literal(old(self).remaining()).1,
            final(self).remaining().len() <= old(self).remaining().len(),
            old(self).remaining().len() > 0 ==> final(self).remaining().len() < old(
                self,
            ).remaining().len(),
    {
        let token = self.expect_next_token(TokenType::Int)?;
        match parse_decimal(token.literal.as_str()) {
            Some(value) => {
                let node = IntegerLiteral { token, value };
                proof {
                    node.lemma_view();
                }
                Ok(Expression::Integer(node))
            },
            None => {
                let mut message = String::from_str("Could not parse ");
                message.append(token.literal.as_str());
                message.append(" as integer");
                Err(ParserError::IntParseError(message))
            },
        }
    }

    fn parse_boolean(&mut self) -> (r: Result<Expression, ParserError>)
        ensures
            result_view(r) == grammar::parse_boolean(old(self).remaining()).0,
            final(self).remaining() == grammar::parse_boolean(old(self).remaining()).1,
            final(self).remaining().len() <= old(self).remaining().len(),
            old(self).remaining().len() > 0 ==> final(self).remaining().len() < old(
                self,
            ).remaining().len(),
    {
        let value = self.peek_token_is_type(TokenType::True)?;
        match self.next_token() {
            Some(token) => {
                let node = BooleanLiteral { token, value };
                proof {
                    node.lemma_view();
                }
                Ok(Expression::Boolean(node))
            },
            None => Err(
                ParserError::UnexpectedEOF(String::from_str("expected Boolean token found EOF")),
            ),
        }
    }

    fn parse_string_literal(&mut self) -> (r: Result<Expression, ParserError>)
        ensures
            result_view(r) == grammar::parse_string_literal(old(self).remaining()).0,
            final(self).remaining() == grammar::parse_string_literal(old(self).remaining()).1,
            final(self).remaining().len() <= old(self).remaining().len(),
            old(self).remaining().len() > 0 ==> final(self).remaining().len() < old(
                self,
            ).remaining().len(),
    {
        let token = self.expect_next_token(TokenType::String)?;
        let val = token.literal.clone();
        let node = StringLiteral { token, val };
        proof {
            node.lemma_view();
        }
        Ok(Expression::Str(node))
    }

    /// A parameter list behind its opening parenthesis.
    fn parse_funcion_parameters(&mut self) -> (r: Result<Vec<Identifier>, ParserError>)
        ensures
            idents_result_view(r) == grammar::parse_function_parameters(old(self).remaining()).0,
            final(self).remaining() == grammar::parse_function_parameters(
                old(self).remaining(),
            ).1,
            final(self).remaining().len() <= old(self).remaining().len(),
    {
        match self.peek_type() {
            None => Err(ParserError::UnexpectedEOF(String::from_str("Unexpected EOF"))),
            Some(TokenType::Rparen) => {
                self.next_token();
                let params: Vec<Identifier> = Vec::new();
                assert(idents_view(params@) =~= Seq::<IdentView>::empty());
                Ok(params)
            },
            Some(_) => {
                let params: Vec<Identifier> = Vec::new();
                assert(idents_view(params@) =~= Seq::<IdentView>::empty());
                self.parse_more_parameters(params)
            },
        }
    }

    /// The parameters from one on, up to the closing parenthesis.
    fn parse_more_parameters(&mut self, acc: Vec<Identifier>) -> (r: Result<
        Vec<Identifier>,
        ParserError,
    >)
        ensures
            idents_result_view(r) == grammar::parse_more_parameters(
                old(self).remaining(),
                idents_view(acc@),
            ).0,
            final(self).remaining() == grammar::parse_more_parameters(
                old(self).remaining(),
                idents_view(acc@),
            ).1,
            final(self).remaining().len() <= old(self).remaining().len(),
        decreases old(self).remaining().len(),
    {
        let mut params = acc;
        let token = self.expect_next_token(TokenType::Ident)?;
        let value = token.literal.clone();
        let ident = Identifier { token, value };
        params.push(ident);
        proof {
            assert(idents_view(params@) =~= idents_view(acc@).push(ident@));
        }
        match self.peek_type() {
            None => Err(ParserError::UnexpectedEOF(String::from_str("Unexpected EOF"))),
            Some(TokenType::Comma) => {
                self.next_token();
                self.parse_more_parameters(params)
            },
            Some(_) => {
                self.expect_next_token(TokenType::Rparen)?;
                Ok(params)
            },
        }
    }

    fn parse_expression(&mut self, precedence: u8) -> (r: Result<Expression, ParserError>)
        ensures
            result_view(r) == grammar::parse_expression(old(self).remaining(), precedence).0,
            final(self).remaining() == grammar::parse_expression(
                old(self).remaining(),
                precedence,
            ).1,
            final(self).remaining().len() <= old(self).remaining().len(),
            old(self).remaining().len() > 0 ==> final(self).remaining().len() < old(
                self,
            ).remaining().len(),
        decreases old(self).remaining().len(), 3nat,
    {
        proof {
            reveal(grammar::parse_expression);
            reveal(grammar::parse_prefix);
            reveal(grammar::parse_expression_infix);
        }
        let token_type = match self.peek_type() {
            Some(t) => t,
            None => {
                return Err(ParserError::UnexpectedEOF(String::from_str("Unexpected EOF")));
            },
        };
        let handler = match prefix_parse_fn(&token_type) {
            Some(h) => h,
            None => {
                self.next_token();
                let mut message = String::from_str("no prefix parse function for ");
                message.append(token_type.get_name().as_str());
                return Err(ParserError::NoPrefixParseFn(message));
            },
        };
        let left = self.parse_prefix(handler)?;
        self.parse_expression_infix(left, precedence)
    }

    /// The start of an expression, by its handler.
    fn parse_prefix(&mut self, handler: PrefixHandler) -> (r: Result<Expression, ParserError>)
        ensures
            result_view(r) == grammar::parse_prefix(old(self).remaining(), handler).0,
            final(self).remaining() == grammar::parse_prefix(old(self).remaining(), handler).1,
            final(self).remaining().len() <= old(self).remaining().len(),
            old(self).remaining().len() > 0 ==> final(self).remaining().len() < old(
                self,
            ).remaining().len(),
        decreases old(self).remaining().len(), 2nat,
    {
        proof {
            reveal(grammar::parse_prefix);
            reveal(grammar::parse_prefix_expression);
            reveal(grammar::parse_grouped_expression);
            reveal(grammar::parse_if_statement);
            reveal(grammar::parse_function_literal);
            reveal(grammar::parse_array_literal);
            reveal(grammar::parse_hash_literal);
        }
        match handler {
            PrefixHandler::Identifier => self.parse_identifier_expression(),
            PrefixHandler::Integer => self.parse_integer_literal(),
            PrefixHandler::Boolean => self.parse_boolean(),
            PrefixHandler::Str => self.parse_string_literal(),
            PrefixHandler::Prefix => self.parse_prefix_expression(),
            PrefixHandler::Grouped => self.parse_grouped_expression(),
            PrefixHandler::If => self.parse_if_statement(),
            PrefixHandler::Function => self.parse_function_literal(),
            PrefixHandler::Array => self.parse_array_literal(),
            PrefixHandler::Hash => self.parse_hash_literal(),
        }
    }

    fn parse_expression_infix(&mut self, left_exp: Expression, precedence: u8) -> (r: Result<
        Expression,
        ParserError,
    >)
        ensures
            result_view(r) == grammar::parse_expression_infix(
                left_exp@,
                old(self).remaining(),
                precedence,
            ).0,
            final(self).remaining() == grammar::parse_expression_infix(
                left_exp@,
                old(self).remaining(),
                precedence,
            ).1,
            final(self).remaining().len() <= old(self).remaining().len(),
        decreases old(self).remaining().len(), 2nat,
    {
        proof {
            reveal(grammar::parse_expression_infix);
            reveal(grammar::parse_infix);
        }
        if self.peek_token_is_type(TokenType::Semicolon)? || precedence >= self.peek_precedence() {
            return Ok(left_exp);
        }
        let token_type = match self.peek_type() {
            Some(t) => t,
            None => {
                return Err(ParserError::UnhandledError);
            },
        };
        let handler = match infix_parse_fn(&token_type) {
            Some(h) => h,
            None => {
                self.next_token();
                let mut message = String::from_str("no infix parse function for ");
                message.append(token_type.get_name().as_str());
                return Err(ParserError::NoInfixParseFn(message));
            },
        };
        let next = self.parse_infix(left_exp, handler)?;
        self.parse_expression_infix(next, precedence)
    }

    /// One operator behind a left operand, by its handler.
    fn parse_infix(&mut self, left: Expression, handler: InfixHandler) -> (r: Result<
        Expression,
        ParserError,
    >)
        ensures
            result_view(r) == grammar::parse_infix(left@, old(self).remaining(), handler).0,
            final(self).remaining() == grammar::parse_infix(
                left@,
                old(self).remaining(),
                handler,
            ).1,
            final(self).remaining().len() <= old(self).remaining().len(),
            old(self).remaining().len() > 0 ==> final(self).remaining().len() < old(
                self,
            ).remaining().len(),
        decreases old(self).remaining().len(), 1nat,
    {
        proof {
            reveal(grammar::parse_infix);
            reveal(grammar::parse_infix_expression);
            reveal(grammar::parse_call_expression);
            reveal(grammar::parse_array_infix);
        }
        match handler {
            InfixHandler::Binary => self.parse_infix_expression(left),
            InfixHandler::Call => self.parse_call_expression(left),
            InfixHandler::Index => self.parse_array_infix(left),
        }
    }

    fn parse_infix_expression(&mut self, left: Expression) -> (r: Result<Expression, ParserError>)
        ensures
            result_view(r) == grammar::parse_infix_expression(left@, old(self).remaining()).0,
            final(self).remaining() == grammar::parse_infix_expression(
                left@,
                old(self).remaining(),
            ).1,
            final(self).remaining().len() <= old(self).remaining().len(),
            old(self).remaining().len() > 0 ==> final(self).remaining().len() < old(
                self,
            ).remaining().len(),
        decreases old(self).remaining().len(), 0nat,
    {
        proof {
            reveal(grammar::parse_infix_expression);
            reveal(grammar::parse_expression);
        }
        let token = match self.next_token() {
            Some(t) => t,
            None => {
                return Err(ParserError::UnhandledError);
            },
        };
        let precedence = get_precedence(&token.token_type);
        let right = self.parse_expression(precedence)?;
        let operator = token.literal.clone();
        let node = InfixExpression { token, left: Box::new(left), operator, right: Box::new(right) };
        proof {
            node.lemma_view();
        }
        Ok(Expression::Infix(node))
    }

    fn parse_prefix_expression(&mut self) -> (r: Result<Expression, ParserError>)
        ensures
            result_view(r) == grammar::parse_prefix_expression(old(self).remaining()).0,
            final(self).remaining() == grammar::parse_prefix_expression(old(self).remaining()).1,
            final(self).remaining().len() <= old(self).remaining().len(),
            old(self).remaining().len() > 0 ==> final(self).remaining().len() < old(
                self,
            ).remaining().len(),
        decreases old(self).remaining().len(), 0nat,
    {
        proof {
            reveal(grammar::parse_prefix_expression);
            reveal(grammar::parse_expression);
        }
        let token = match self.next_token() {
            Some(t) => t,
            None => {
                return Err(ParserError::UnhandledError);
            },
        };
        let operator = token.literal.clone();
        let right = self.parse_expression(PREFIX)?;
        let node = PrefixExpression { token, operator, right: Box::new(right) };
        proof {
            node.lemma_view();
        }
        Ok(Expression::Prefix(node))
    }

    fn parse_grouped_expression(&mut self) -> (r: Result<Expression, ParserError>)
        ensures
            result_view(r) == grammar::parse_grouped_expression(old(self).remaining()).0,
            final(self).remaining() == grammar::parse_grouped_expression(
                old(self).remaining(),
            ).1,
            final(self).remaining().len() <= old(self).remaining().len(),
            old(self).remaining().len() > 0 ==> final(self).remaining().len() < old(
                self,
            ).remaining().len(),
        decreases old(self).remaining().len(), 0nat,
    {
        proof {
            reveal(grammar::parse_grouped_expression);
            reveal(grammar::parse_expression);
        }
        self.expect_next_token(TokenType::Lparen)?;
        let expression = self.parse_expression(LOWEST);
        self.expect_next_token(TokenType::Rparen)?;
        expression
    }

    fn parse_if_statement(&mut self) -> (r: Result<Expression, ParserError>)
        ensures
            result_view(r) == grammar::parse_if_statement(old(self).remaining()).0,
            final(self).remaining() == grammar::parse_if_statement(old(self).remaining()).1,
            final(self).remaining().len() <= old(self).remaining().len(),
            old(self).remaining().len() > 0 ==> final(self).remaining().len() < old(
                self,
            ).remaining().len(),
        decreases old(self).remaining().len(), 0nat,
    {
        proof {
            reveal(grammar::parse_if_statement);
            reveal(grammar::parse_expression);
            reveal(grammar::parse_block_statement);
            reveal(grammar::parse_else_block);
        }
        let token = match self.next_token() {
            Some(t) => t,
            None => {
                return Err(
                    ParserError::UnexpectedEOF(String::from_str("Expected If Statement found EOF")),
                );
            },
        };
        self.expect_next_token(TokenType::Lparen)?;
        let condition = self.parse_expression(LOWEST)?;
        self.expect_next_token(TokenType::Rparen)?;
        let consequence = self.parse_block_statement()?;
        let alternative = self.parse_else_block()?;
        let node = IfExpression { token, condition: Box::new(condition), consequence, alternative };
        proof {
            node.lemma_view();
        }
        Ok(Expression::If(node))
    }

    fn parse_else_block(&mut self) -> (r: Result<Option<BlockStatement>, ParserError>)
        ensures
            else_result_view(r) == grammar::parse_else_block(old(self).remaining()).0,
            final(self).remaining() == grammar::parse_else_block(old(self).remaining()).1,
            final(self).remaining().len() <= old(self).remaining().len(),
        decreases old(self).remaining().len(), 1nat,
    {
        proof {
            reveal(grammar::parse_else_block);
            reveal(grammar::parse_block_statement);
        }
        if !self.peek_token_is_type(TokenType::Else)? {
            return Ok(None);
        }
        self.next_token();
        let block = self.parse_block_statement()?;
        Ok(Some(block))
    }

    fn parse_block_statement(&mut self) -> (r: Result<BlockStatement, ParserError>)
        ensures
            result_view(r) == grammar::parse_block_statement(old(self).remaining()).0,
            final(self).remaining() == grammar::parse_block_statement(old(self).remaining()).1,
            final(self).remaining().len() <= old(self).remaining().len(),
            old(self).remaining().len() > 0 ==> final(self).remaining().len() < old(
                self,
            ).remaining().len(),
        decreases old(self).remaining().len(), 0nat,
    {
        proof {
            reveal(grammar::parse_block_statement);
            reveal(grammar::collect_statements);
        }
        let token = self.expect_next_token(TokenType::Lbrace)?;
        let acc: Vec<Result<Statement, ParserError>> = Vec::new();
        assert(entries_view(acc@) =~= Seq::<Result<StmtView, ParserErrorView>>::empty());
        let statements = self.collect_statements(acc, TokenType::Rbrace)?;
        let node = BlockStatement { token, statements };
        proof {
            node.lemma_view();
        }
        Ok(node)
    }

    fn collect_statements(
        &mut self,
        acc: Vec<Result<Statement, ParserError>>,
        end_token: TokenType,
    ) -> (r: Result<Vec<Result<Statement, ParserError>>, ParserError>)
        ensures
            entries_result_view(r) == grammar::collect_statements(
                old(self).remaining(),
                entries_view(acc@),
                end_token,
            ).0,
            final(self).remaining() == grammar::collect_statements(
                old(self).remaining(),
                entries_view(acc@),
                end_token,
            ).1,
            final(self).remaining().len() <= old(self).remaining().len(),
        decreases old(self).remaining().len(), 6nat,
    {
        proof {
            reveal(grammar::collect_statements);
            reveal(grammar::parse_statement);
        }
        let mut statements = acc;
        let token_type = match self.peek_type() {
            Some(t) => t,
            None => {
                return Err(ParserError::UnexpectedEOF(String::from_str("Unexpected EOF")));
            },
        };
        if token_type == end_token {
            self.next_token();
            return Ok(statements);
        }
        let statement = self.parse_statement();
        proof {
            lemma_view_entry(statement);
        }
        statements.push(statement);
        proof {
            assert(entries_view(statements@) =~= entries_view(acc@).push(entry_view(statement)));
        }
        self.collect_statements(statements, end_token)
    }

    /// One statement.
    fn parse_statement(&mut self) -> (r: Result<Statement, ParserError>)
        ensures
            result_view(r) == grammar::parse_statement(old(self).remaining()).0,
            final(self).remaining() == grammar::parse_statement(old(self).remaining()).1,
            final(self).remaining().len() <= old(self).remaining().len(),
            old(self).remaining().len() > 0 ==> final(self).remaining().len() < old(
                self,
            ).remaining().len(),
        decreases old(self).remaining().len(), 5nat,
    {
        proof {
            reveal(grammar::parse_statement);
            reveal(grammar::parse_let_statement);
            reveal(grammar::parse_return_statement);
            reveal(grammar::parse_expression_statement);
        }
        match self.peek_type() {
            Some(TokenType::Let) => self.parse_let_statement(),
            Some(TokenType::Return) => self.parse_return_statement(),
            _ => self.parse_expression_statement(),
        }
    }

    fn parse_let_statement(&mut self) -> (r: Result<Statement, ParserError>)
        ensures
            result_view(r) == grammar::parse_let_statement(old(self).remaining()).0,
            final(self).remaining() == grammar::parse_let_statement(old(self).remaining()).1,
            final(self).remaining().len() <= old(self).remaining().len(),
            old(self).remaining().len() > 0 ==> final(self).remaining().len() < old(
                self,
            ).remaining().len(),
        decreases old(self).remaining().len(), 4nat,
    {
        proof {
            reveal(grammar::parse_let_statement);
            reveal(grammar::parse_expression);
        }
        let token = self.expect_next_token(TokenType::Let)?;
        let name = self.parse_identifier()?;
        self.expect_next_token(TokenType::Assign)?;
        let value = self.parse_expression(LOWEST)?;
        self.expect_next_token(TokenType::Semicolon)?;
        let node = LetStatement { token, name, value };
        proof {
            node.lemma_view();
        }
        Ok(Statement::Let(node))
    }

    fn parse_return_statement(&mut self) -> (r: Result<Statement, ParserError>)
        ensures
            result_view(r) == grammar::parse_return_statement(old(self).remaining()).0,
            final(self).remaining() == grammar::parse_return_statement(old(self).remaining()).1,
            final(self).remaining().len() <= old(self).remaining().len(),
            old(self).remaining().len() > 0 ==> final(self).remaining().len() < old(
                self,
            ).remaining().len(),
        decreases old(self).remaining().len(), 4nat,
    {
        proof {
            reveal(grammar::parse_return_statement);
            reveal(grammar::parse_expression);
        }
        let token = self.expect_next_token(TokenType::Return)?;
        let value = self.parse_expression(LOWEST)?;
        self.expect_next_token(TokenType::Semicolon)?;
        let node = ReturnStatement { token, value };
        proof {
            node.lemma_view();
        }
        Ok(Statement::Return(node))
    }

    fn parse_expression_statement(&mut self) -> (r: Result<Statement, ParserError>)
        ensures
            result_view(r) == grammar::parse_expression_statement(old(self).remaining()).0,
            final(self).remaining() == grammar::parse_expression_statement(
                old(self).remaining(),
            ).1,
            final(self).remaining().len() <= old(self).remaining().len(),
            old(self).remaining().len() > 0 ==> final(self).remaining().len() < old(
                self,
            ).remaining().len(),
        decreases old(self).remaining().len(), 4nat,
    {
        proof {
            reveal(grammar::parse_expression_statement);
            reveal(grammar::parse_expression);
        }
        let token = match self.peek_token() {
            Ok(t) => t,
            Err(_) => {
                return Err(ParserError::UnhandledError);
            },
        };
        let expression = self.parse_expression(LOWEST)?;
        self.expect_next_token(TokenType::Semicolon)?;
        let node = ExpressionStatement { token, expression };
        proof {
            node.lemma_view();
        }
        Ok(Statement::Expression(node))
    }

    fn parse_function_literal(&mut self) -> (r: Result<Expression, ParserError>)
        ensures
            result_view(r) == grammar::parse_function_literal(old(self).remaining()).0,
            final(self).remaining() == grammar::parse_function_literal(old(self).remaining()).1,
            final(self).remaining().len() <= old(self).remaining().len(),
            old(self).remaining().len() > 0 ==> final(self).remaining().len() < old(
                self,
            ).remaining().len(),
        decreases old(self).remaining().len(), 0nat,
    {
        proof {
            reveal(grammar::parse_function_literal);
            reveal(grammar::parse_block_statement);
        }
        let token = self.expect_next_token(TokenType::Function)?;
        self.expect_next_token(TokenType::Lparen)?;
        let params = self.parse_funcion_parameters()?;
        let body = self.parse_block_statement()?;
        let node = FunctionLiteral { token, params, body };
        proof {
            node.lemma_view();
        }
        Ok(Expression::Function(node))
    }

    fn parse_call_expression(&mut self, function: Expression) -> (r: Result<
        Expression,
        ParserError,
    >)
        ensures
            result_view(r) == grammar::parse_call_expression(function@, old(self).remaining()).0,
            final(self).remaining() == grammar::parse_call_expression(
                function@,
                old(self).remaining(),
            ).1,
            final(self).remaining().len() <= old(self).remaining().len(),
            old(self).remaining().len() > 0 ==> final(self).remaining().len() < old(
                self,
            ).remaining().len(),
        decreases old(self).remaining().len(), 0nat,
    {
        proof {
            reveal(grammar::parse_call_expression);
            reveal(grammar::parse_call_args);
        }
        let token = self.expect_next_token(TokenType::Lparen)?;
        let args = self.parse_call_args()?;
        let node = CallExpression { token, function: Box::new(function), args };
        proof {
            node.lemma_view();
        }
        Ok(Expression::Call(node))
    }

    fn parse_call_args(&mut self) -> (r: Result<Vec<Expression>, ParserError>)
        ensures
            exprs_result_view(r) == grammar::parse_call_args(old(self).remaining()).0,
            final(self).remaining() == grammar::parse_call_args(old(self).remaining()).1,
            final(self).remaining().len() <= old(self).remaining().len(),
        decreases old(self).remaining().len(), 5nat,
    {
        proof {
            reveal(grammar::parse_call_args);
            reveal(grammar::parse_more_call_args);
        }
        let args: Vec<Expression> = Vec::new();
        assert(exprs_view(args@) =~= Seq::<ExprView>::empty());
        match self.peek_type() {
            None => Err(ParserError::UnexpectedEOF(String::from_str("Unexpected EOF"))),
            Some(TokenType::Rparen) => {
                self.next_token();
                Ok(args)
            },
            Some(_) => self.parse_more_call_args(args),
        }
    }

    /// The arguments of a call from one on, up to the closing parenthesis.
    fn parse_more_call_args(&mut self, acc: Vec<Expression>) -> (r: Result<
        Vec<Expression>,
        ParserError,
    >)
        ensures
            exprs_result_view(r) == grammar::parse_more_call_args(
                old(self).remaining(),
                exprs_view(acc@),
            ).0,
            final(self).remaining() == grammar::parse_more_call_args(
                old(self).remaining(),
                exprs_view(acc@),
            ).1,
            final(self).remaining().len() <= old(self).remaining().len(),
        decreases old(self).remaining().len(), 4nat,
    {
        proof {
            reveal(grammar::parse_more_call_args);
            reveal(grammar::parse_expression);
        }
        let mut args = acc;
        let arg = self.parse_expression(CALL)?;
        args.push(arg);
        proof {
            assert(exprs_view(args@) =~= exprs_view(acc@).push(arg@));
        }
        match self.peek_type() {
            None => Err(ParserError::UnexpectedEOF(String::from_str("Unexpected EOF"))),
            Some(TokenType::Comma) => {
                self.next_token();
                self.parse_more_call_args(args)
            },
            Some(TokenType::Rparen) => {
                self.next_token();
                Ok(args)
            },
            Some(_) => Err(ParserError::UnhandledError),
        }
    }

    fn parse_array_literal(&mut self) -> (r: Result<Expression, ParserError>)
        ensures
            result_view(r) == grammar::parse_array_literal(old(self).remaining()).0,
            final(self).remaining() == grammar::parse_array_literal(old(self).remaining()).1,
            final(self).remaining().len() <= old(self).remaining().len(),
            old(self).remaining().len() > 0 ==> final(self).remaining().len() < old(
                self,
            ).remaining().len(),
        decreases old(self).remaining().len(), 0nat,
    {
        proof {
            reveal(grammar::parse_array_literal);
            reveal(grammar::parse_expression_list);
        }
        let tok = self.expect_next_token(TokenType::Lbracket)?;
        let empty: Vec<Expression> = Vec::new();
        assert(exprs_view(empty@) =~= Seq::<ExprView>::empty());
        let mems = match self.peek_type() {
            None => {
                return Err(ParserError::UnexpectedEOF(String::from_str("Unexpected EOF")));
            },
            Some(TokenType::Rbracket) => {
                self.next_token();
                empty
            },
            Some(_) => self.parse_expression_list(empty)?,
        };
        let node = ArrayLiteral { tok, mems };
        proof {
            node.lemma_view();
        }
        Ok(Expression::Array(node))
    }

    /// The elements of an array literal from one on, up to the closing bracket.
    fn parse_expression_list(&mut self, left: Vec<Expression>) -> (r: Result<
        Vec<Expression>,
        ParserError,
    >)
        ensures
            exprs_result_view(r) == grammar::parse_expression_list(
                old(self).remaining(),
                exprs_view(left@),
            ).0,
            final(self).remaining() == grammar::parse_expression_list(
                old(self).remaining(),
                exprs_view(left@),
            ).1,
            final(self).remaining().len() <= old(self).remaining().len(),
        decreases old(self).remaining().len(), 4nat,
    {
        proof {
            reveal(grammar::parse_expression_list);
            reveal(grammar::parse_expression);
        }
        let mut items = left;
        let item = self.parse_expression(LOWEST)?;
        items.push(item);
        proof {
            assert(exprs_view(items@) =~= exprs_view(left@).push(item@));
        }
        match self.next_token() {
            None => Err(ParserError::UnexpectedEOF(String::from_str("Unexpected EOF"))),
            Some(token) => match token.token_type {
                TokenType::Comma => self.parse_expression_list(items),
                TokenType::Rbracket => Ok(items),
                tt => {
                    let mut message = tt.get_name();
                    message.append(" Unexpected token");
                    Err(ParserError::UnexpectedToken(message))
                },
            },
        }
    }

    fn parse_hash_literal(&mut self) -> (r: Result<Expression, ParserError>)
        ensures
            result_view(r) == grammar::parse_hash_literal(old(self).remaining()).0,
            final(self).remaining() == grammar::parse_hash_literal(old(self).remaining()).1,
            final(self).remaining().len() <= old(self).remaining().len(),
            old(self).remaining().len() > 0 ==> final(self).remaining().len() < old(
                self,
            ).remaining().len(),
        decreases old(self).remaining().len(), 0nat,
    {
        proof {
            reveal(grammar::parse_hash_literal);
            reveal(grammar::parse_hash_mems);
        }
        let tok = self.expect_next_token(TokenType::Lbrace)?;
        let empty: Vec<(Expression, Expression)> = Vec::new();
        assert(pairs_view(empty@) =~= Seq::<(ExprView, ExprView)>::empty());
        let pairs = match self.peek_type() {
            None => {
                return Err(ParserError::UnexpectedEOF(String::from_str("Unexpected EOF")));
            },
            Some(TokenType::Rbrace) => {
                self.next_token();
                empty
            },
            Some(_) => self.parse_hash_mems(empty)?,
        };
        let node = HashLiteral { tok, pairs };
        proof {
            node.lemma_view();
        }
        Ok(Expression::Hash(node))
    }

    /// The pairs of a hash literal from one on, up to the closing brace.
    fn parse_hash_mems(&mut self, hm: Vec<(Expression, Expression)>) -> (r: Result<
        Vec<(Expression, Expression)>,
        ParserError,
    >)
        ensures
            pairs_result_view(r) == grammar::parse_hash_mems(
                old(self).remaining(),
                pairs_view(hm@),
            ).0,
            final(self).remaining() == grammar::parse_hash_mems(
                old(self).remaining(),
                pairs_view(hm@),
            ).1,
            final(self).remaining().len() <= old(self).remaining().len(),
        decreases old(self).remaining().len(), 4nat,
    {
        proof {
            reveal(grammar::parse_hash_mems);
            reveal(grammar::parse_expression);
        }
        let mut pairs = hm;
        let k = self.parse_expression(LOWEST)?;
        self.expect_next_token(TokenType::Colon)?;
        let v = self.parse_expression(LOWEST)?;
        let ghost pair = (k@, v@);
        pairs.push((k, v));
        proof {
            assert(pairs_view(pairs@) =~= pairs_view(hm@).push(pair));
        }
        match self.next_token() {
            None => Err(ParserError::UnexpectedEOF(String::from_str("UnexpectedEOF"))),
            Some(token) => match token.token_type {
                TokenType::Comma => self.parse_hash_mems(pairs),
                TokenType::Rbrace => Ok(pairs),
                _ => Err(ParserError::UnexpectedToken(String::from_str("Expected : or }"))),
            },
        }
    }

    fn parse_array_infix(&mut self, left: Expression) -> (r: Result<Expression, ParserError>)
        ensures
            result_view(r) == grammar::parse_array_infix(left@, old(self).remaining()).0,
            final(self).remaining() == grammar::parse_array_infix(left@, old(self).remaining()).1,
            final(self).remaining().len() <= old(self).remaining().len(),
            old(self).remaining().len() > 0 ==> final(self).remaining().len() < old(
                self,
            ).remaining().len(),
        decreases old(self).remaining().len(), 0nat,
    {
        proof {
            reveal(grammar::parse_array_infix);
            reveal(grammar::parse_expression);
        }
        let tok = self.expect_next_token(TokenType::Lbracket)?;
        let index = self.parse_expression(LOWEST)?;
        self.expect_next_token(TokenType::Rbracket)?;
        let node = IndexExpression { tok, left: Box::new(left), index: Box::new(index) };
        proof {
            node.lemma_view();
        }
        Ok(Expression::Index(node))
    }

    /// The next top-level statement, or the error in its place; `None` at
    /// the end of the tokens.
    pub fn next(&mut self) -> (r: Option<Result<Statement, ParserError>>)
        ensures
            old(self).remaining().len() == 0 ==> r is None && final(self).remaining() == old(
                self,
            ).remaining(),
            old(self).remaining().len() > 0 ==> {
                &&& r is Some
                &&& result_view(r->0) == grammar::parse_statement(old(self).remaining()).0
                &&& final(self).remaining() == grammar::parse_statement(old(self).remaining()).1
                &&& final(self).remaining().len() < old(self).remaining().len()
            },
    {
        match self.peek_type() {
            None => None,
            Some(_) => Some(self.parse_statement()),
        }
    }

    /// Parses the tokens to their end.
    pub fn parse_program(self) -> (r: Program)
        ensures
            r@ == grammar::parse_program(self.remaining()),
    {
        let ghost all = grammar::parse_program(self.remaining());
        let mut parser = self;
        let mut statements: Vec<Result<Statement, ParserError>> = Vec::new();
        assert(entries_view(statements@) + all =~= all);
        loop
            invariant
                entries_view(statements@) + grammar::parse_program(parser.remaining()) == all,
                all == grammar::parse_program(self.remaining()),
            decreases parser.remaining().len(),
        {
            let ghost before = parser.remaining();
            let ghost done = entries_view(statements@);
            match parser.next() {
                Some(statement) => {
                    proof {
                        lemma_view_entry(statement);
                    }
                    statements.push(statement);
                    proof {
                        assert(entries_view(statements@) =~= done + seq![entry_view(statement)]);
                        assert(entries_view(statements@) + grammar::parse_program(
                            parser.remaining(),
                        ) =~= done + grammar::parse_program(before));
                    }
                },
                None => {
                    proof {
                        assert(done + grammar::parse_program(before) =~= done);
                    }
                    return Program { statements };
                },
            }
        }
    }
}


/// Parses a source text: the statements of the program that its tokens
/// make. The result is a function of the text alone.
pub fn parse(source: String) -> (r: Program)
    ensures
        r@ == grammar::parse_program(tokens(source@)),
{
    Parser::new(Lexer::new(source)).parse_program()
}

} // verus!
