//! Tokens: the closed set of kinds and the lexeme that each token carries.

use vstd::prelude::*;
use vstd::string::StringExecFns;

verus! {

/// The kind of a token.
#[derive(Debug, Clone, Copy, PartialEq, Eq, Hash, Structural)]
pub enum TokenType {
    Illegal,
    Ident,
    Int,
    String,
    // Operators
    Assign,
    Plus,
    Minus,
    Bang,
    Asterisk,
    Slash,
    Lt,
    Gt,
    Eq,
    Noteq,
    // Punctuation
    Comma,
    Semicolon,
    Colon,
    Lparen,
    Rparen,
    Lbrace,
    Rbrace,
    Lbracket,
    Rbracket,
    // Keywords
    Function,
    Let,
    True,
    False,
    If,
    Else,
    Return,
}

impl TokenType {
    /// The name under which diagnostics mention a token kind.
    pub open spec fn name(self) -> Seq<char> {
        match self {
            TokenType::Illegal => "Illegal Token"@,
            TokenType::Ident => "Identifier Token"@,
            TokenType::Int => "Integer Token"@,
            TokenType::String => "String Token"@,
            TokenType::Assign => "Assign = Token"@,
            TokenType::Plus => "+ Token"@,
            TokenType::Minus => "- Token"@,
            TokenType::Bang => "! Token"@,
            TokenType::Asterisk => "* Token"@,
            TokenType::Slash => "/ Token"@,
            TokenType::Lt => "< Token"@,
            TokenType::Gt => "> Token"@,
            TokenType::Eq => "= Token"@,
            TokenType::Noteq => "!= Token"@,
            TokenType::Comma => ", Token"@,
            TokenType::Semicolon => "; Token"@,
            TokenType::Colon => ": Token"@,
            TokenType::Lparen => "( Token"@,
            TokenType::Rparen => ") Token"@,
            TokenType::Lbrace => "{ Token"@,
            TokenType::Rbrace => "} Token"@,
            TokenType::Lbracket => "[ Token"@,
            TokenType::Rbracket => "] Token"@,
            TokenType::Function => "Function Token"@,
            TokenType::Let => "Let Token"@,
            TokenType::True => "True Token"@,
            TokenType::False => "False Token"@,
            TokenType::If => "If Token"@,
            TokenType::Else => "Else Token"@,
            TokenType::Return => "Return Token"@,
        }
    }

    pub fn get_name(&self) -> (r: String)
        ensures
            r@ == self.name(),
    {
        match self {
            TokenType::Illegal => String::from_str("Illegal Token"),
            TokenType::Ident => String::from_str("Identifier Token"),
            TokenType::Int => String::from_str("Integer Token"),
            TokenType::String => String::from_str("String Token"),
            TokenType::Assign => String::from_str("Assign = Token"),
            TokenType::Plus => String::from_str("+ Token"),
            TokenType::Minus => String::from_str("- Token"),
            TokenType::Bang => String::from_str("! Token"),
            TokenType::Asterisk => String::from_str("* Token"),
            TokenType::Slash => String::from_str("/ Token"),
            TokenType::Lt => String::from_str("< Token"),
            TokenType::Gt => String::from_str("> Token"),
            TokenType::Eq => String::from_str("= Token"),
            TokenType::Noteq => String::from_str("!= Token"),
            TokenType::Comma => String::from_str(", Token"),
            TokenType::Semicolon => String::from_str("; Token"),
            TokenType::Colon => String::from_str(": Token"),
            TokenType::Lparen => String::from_str("( Token"),
            TokenType::Rparen => String::from_str(") Token"),
            TokenType::Lbrace => String::from_str("{ Token"),
            TokenType::Rbrace => String::from_str("} Token"),
            TokenType::Lbracket => String::from_str("[ Token"),
            TokenType::Rbracket => String::from_str("] Token"),
            TokenType::Function => String::from_str("Function Token"),
            TokenType::Let => String::from_str("Let Token"),
            TokenType::True => String::from_str("True Token"),
            TokenType::False => String::from_str("False Token"),
            TokenType::If => String::from_str("If Token"),
            TokenType::Else => String::from_str("Else Token"),
            TokenType::Return => String::from_str("Return Token"),
        }
    }
}

/// What a token is, as a value: its kind and the characters of its lexeme.
pub struct TokenView {
    pub token_type: TokenType,
    pub literal: Seq<char>,
}

/// A token: its kind and the literal source lexeme.
#[derive(Debug, PartialEq)]
pub struct Token {
    pub token_type: TokenType,
    pub literal: String,
}

impl View for Token {
    type V = TokenView;

    open spec fn view(&self) -> TokenView {
        TokenView { token_type: self.token_type, literal: self.literal@ }
    }
}

impl Clone for Token {
    fn clone(&self) -> (r: Self)
        ensures
            r@ == self@,
    {
        Token { token_type: self.token_type, literal: self.literal.clone() }
    }
}

} // verus!
