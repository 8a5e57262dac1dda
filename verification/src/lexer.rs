//! The lexer: from characters to tokens, one token at a time.

use vstd::prelude::*;
use crate::text::{alphabetic, char_string, from_chars, is_ascii_digit, is_digit, same_text, to_chars};
use crate::token::{Token, TokenType, TokenView};

verus! {

/// Letters are the alphabetic characters and the underscore.
pub open spec fn letter(c: char) -> bool {
    alphabetic(c) || c == '_'
}

/// The characters that separate tokens and are never part of one.
pub open spec fn whitespace(c: char) -> bool {
    c == ' ' || c == '\t' || c == '\n' || c == '\r'
}

/// The number of leading characters of `s` that satisfy `p`.
pub open spec fn run_length(s: Seq<char>, p: spec_fn(char) -> bool) -> nat
    decreases s.len(),
{
    if s.len() > 0 && p(s[0]) {
        1 + run_length(s.skip(1), p)
    } else {
        0
    }
}

/// The kind of a word: a keyword where it is one, an identifier otherwise.
pub open spec fn word_kind(word: Seq<char>) -> TokenType {
    if word == "fn"@ {
        TokenType::Function
    } else if word == "let"@ {
        TokenType::Let
    } else if word == "if"@ {
        TokenType::If
    } else if word == "else"@ {
        TokenType::Else
    } else if word == "return"@ {
        TokenType::Return
    } else if word == "true"@ {
        TokenType::True
    } else if word == "false"@ {
        TokenType::False
    } else {
        TokenType::Ident
    }
}

/// The kind of the operator or punctuation mark that the single character
/// `c` writes, if it writes one.
pub open spec fn symbol_kind(c: char) -> Option<TokenType> {
    if c == '=' {
        Some(TokenType::Assign)
    } else if c == '+' {
        Some(TokenType::Plus)
    } else if c == '-' {
        Some(TokenType::Minus)
    } else if c == '!' {
        Some(TokenType::Bang)
    } else if c == '/' {
        Some(TokenType::Slash)
    } else if c == '*' {
        Some(TokenType::Asterisk)
    } else if c == '<' {
        Some(TokenType::Lt)
    } else if c == '>' {
        Some(TokenType::Gt)
    } else if c == ';' {
        Some(TokenType::Semicolon)
    } else if c == ':' {
        Some(TokenType::Colon)
    } else if c == '(' {
        Some(TokenType::Lparen)
    } else if c == ')' {
        Some(TokenType::Rparen)
    } else if c == ',' {
        Some(TokenType::Comma)
    } else if c == '{' {
        Some(TokenType::Lbrace)
    } else if c == '}' {
        Some(TokenType::Rbrace)
    } else if c == '[' {
        Some(TokenType::Lbracket)
    } else if c == ']' {
        Some(TokenType::Rbracket)
    } else {
        None
    }
}

/// The operator or punctuation token at the head of `s`, with the number of
/// characters it takes: `==` and `!=` take two, every other one takes one.
pub open spec fn symbol_token(s: Seq<char>) -> Option<(TokenView, nat)>
    recommends
        s.len() > 0,
{
    let c = s[0];
    if (c == '=' || c == '!') && s.len() > 1 && s[1] == '=' {
        let kind = if c == '=' {
            TokenType::Eq
        } else {
            TokenType::Noteq
        };
        Some((TokenView { token_type: kind, literal: seq![c, '='] }, 2))
    } else {
        match symbol_kind(c) {
            Some(kind) => Some((TokenView { token_type: kind, literal: seq![c] }, 1)),
            None => None,
        }
    }
}

/// The token at the head of `s`, which starts with no whitespace and is not
/// empty, and the number of characters it takes.
pub open spec fn head_token(s: Seq<char>) -> (TokenView, nat)
    recommends
        s.len() > 0,
{
    let c = s[0];
    if let Some(found) = symbol_token(s) {
        found
    } else if c == '"' {
        let n = run_length(s.skip(1), |d: char| d != '"');
        let closed: nat = if 1 + n < s.len() {
            1
        } else {
            0
        };
        (TokenView { token_type: TokenType::String, literal: s.subrange(1, (1 + n) as int) }, 1 + n + closed)
    } else if letter(c) {
        let n = run_length(s, |d: char| letter(d));
        (TokenView { token_type: word_kind(s.take(n as int)), literal: s.take(n as int) }, n)
    } else if is_digit(c) {
        let n = run_length(s, |d: char| is_digit(d));
        (TokenView { token_type: TokenType::Int, literal: s.take(n as int) }, n)
    } else {
        (TokenView { token_type: TokenType::Illegal, literal: seq![c] }, 1)
    }
}

/// The next token of `s` and the characters left behind it; `None` with
/// nothing left when only whitespace remains.
pub open spec fn next_token(s: Seq<char>) -> (Option<TokenView>, Seq<char>) {
    let t = s.skip(run_length(s, |d: char| whitespace(d)) as int);
    if t.len() == 0 {
        (None, t)
    } else {
        let (tok, n) = head_token(t);
        (Some(tok), t.skip(n as int))
    }
}

/// All the tokens of `s`, in order.
pub open spec fn tokens(s: Seq<char>) -> Seq<TokenView>
    decreases s.len(),
{
    let (tok, rest) = next_token(s);
    match tok {
        Some(t) if rest.len() < s.len() => seq![t] + tokens(rest),
        _ => Seq::empty(),
    }
}

/// A run is no longer than the text it is taken from.
pub proof fn lemma_run_length_bound(s: Seq<char>, p: spec_fn(char) -> bool)
    ensures
        run_length(s, p) <= s.len(),
        forall|i: int| 0 <= i < run_length(s, p) ==> p(#[trigger] s[i]),
        run_length(s, p) < s.len() ==> !p(s[run_length(s, p) as int]),
    decreases s.len(),
{
    if s.len() > 0 && p(s[0]) {
        let t = s.skip(1);
        lemma_run_length_bound(t, p);
        assert forall|i: int| 0 <= i < run_length(s, p) implies p(#[trigger] s[i]) by {
            if i > 0 {
                assert(s[i] == t[i - 1]);
            }
        }
        if run_length(s, p) < s.len() {
            assert(s[run_length(s, p) as int] == t[run_length(t, p) as int]);
        }
    }
}

/// The run of `p` at the head of `s` has length `n` when the first `n`
/// characters satisfy `p` and the next one, if any, does not.
pub proof fn lemma_run_length_is(s: Seq<char>, p: spec_fn(char) -> bool, n: nat)
    requires
        n <= s.len(),
        forall|i: int| 0 <= i < n ==> p(#[trigger] s[i]),
        n < s.len() ==> !p(s[n as int]),
    ensures
        run_length(s, p) == n,
    decreases n,
{
    if n > 0 {
        let t = s.skip(1);
        assert(p(s[0]));
        assert forall|i: int| 0 <= i < n - 1 implies p(#[trigger] t[i]) by {
            assert(t[i] == s[i + 1]);
        }
        if n - 1 < t.len() {
            assert(t[n - 1] == s[n as int]);
        }
        lemma_run_length_is(t, p, (n - 1) as nat);
    }
}

/// Every token takes at least one character, so the text behind a token is
/// shorter than the text before it.
pub proof fn lemma_next_token_progress(s: Seq<char>)
    ensures
        next_token(s).1.len() <= s.len(),
        next_token(s).0 is Some ==> next_token(s).1.len() < s.len(),
        next_token(s).0 is None ==> next_token(s).1.len() == 0,
{
    let ws = |d: char| whitespace(d);
    lemma_run_length_bound(s, ws);
    let t = s.skip(run_length(s, ws) as int);
    if t.len() > 0 {
        let c = t[0];
        lemma_run_length_bound(t.skip(1), |d: char| d != '"');
        lemma_run_length_bound(t, |d: char| letter(d));
        lemma_run_length_bound(t, |d: char| is_digit(d));
        let (tok, n) = head_token(t);
        if symbol_token(t) is None && c != '"' {
            if letter(c) {
                assert(run_length(t, |d: char| letter(d)) >= 1);
            } else if is_digit(c) {
                assert(run_length(t, |d: char| is_digit(d)) >= 1);
            }
        }
        assert(1 <= n <= t.len());
    }
}

/// The lexer: the input and how far it has been read.
pub struct Lexer {
    input: Vec<char>,
    position: usize,
}

pub fn is_letter(ch: char) -> (r: bool)
    ensures
        r == letter(ch),
{
    ch.is_alphabetic() || ch == '_'
}

pub fn lookup_ident(ident: &String) -> (r: TokenType)
    ensures
        r == word_kind(ident@),
{
    let word = ident.as_str();
    if same_text(word, "fn") {
        TokenType::Function
    } else if same_text(word, "let") {
        TokenType::Let
    } else if same_text(word, "if") {
        TokenType::If
    } else if same_text(word, "else") {
        TokenType::Else
    } else if same_text(word, "return") {
        TokenType::Return
    } else if same_text(word, "true") {
        TokenType::True
    } else if same_text(word, "false") {
        TokenType::False
    } else {
        TokenType::Ident
    }
}

fn symbol_of(ch: char) -> (r: Option<TokenType>)
    ensures
        r == symbol_kind(ch),
{
    if ch == '=' {
        Some(TokenType::Assign)
    } else if ch == '+' {
        Some(TokenType::Plus)
    } else if ch == '-' {
        Some(TokenType::Minus)
    } else if ch == '!' {
        Some(TokenType::Bang)
    } else if ch == '/' {
        Some(TokenType::Slash)
    } else if ch == '*' {
        Some(TokenType::Asterisk)
    } else if ch == '<' {
        Some(TokenType::Lt)
    } else if ch == '>' {
        Some(TokenType::Gt)
    } else if ch == ';' {
        Some(TokenType::Semicolon)
    } else if ch == ':' {
        Some(TokenType::Colon)
    } else if ch == '(' {
        Some(TokenType::Lparen)
    } else if ch == ')' {
        Some(TokenType::Rparen)
    } else if ch == ',' {
        Some(TokenType::Comma)
    } else if ch == '{' {
        Some(TokenType::Lbrace)
    } else if ch == '}' {
        Some(TokenType::Rbrace)
    } else if ch == '[' {
        Some(TokenType::Lbracket)
    } else if ch == ']' {
        Some(TokenType::Rbracket)
    } else {
        None
    }
}

/// The views of the tokens of a vector, in order.
pub open spec fn token_views(v: Seq<Token>) -> Seq<TokenView> {
    Seq::new(v.len(), |i: int| v[i]@)
}

/// The view of a token that may be absent.
pub open spec fn token_option_view(t: Option<Token>) -> Option<TokenView> {
    match t {
        Some(tok) => Some(tok@),
        None => None,
    }
}

impl Lexer {
    /// The characters that have not been read yet.
    pub closed spec fn remaining(&self) -> Seq<char> {
        if self.position <= self.input@.len() {
            self.input@.skip(self.position as int)
        } else {
            Seq::empty()
        }
    }

    pub fn new(input: String) -> (r: Lexer)
        ensures
            r.remaining() == input@,
    {
        let chars = to_chars(input.as_str());
        let r = Lexer { input: chars, position: 0 };
        assert(r.remaining() =~= input@);
        r
    }

    /// The character under the cursor.
    fn current(&self) -> (r: Option<char>)
        ensures
            r == (if self.remaining().len() > 0 {
                Some(self.remaining()[0])
            } else {
                None
            }),
    {
        if self.position < self.input.len() {
            Some(self.input[self.position])
        } else {
            None
        }
    }

    /// Moves the cursor one character on, if there is one.
    fn read_char(&mut self)
        ensures
            final(self).remaining() == (if old(self).remaining().len() > 0 {
                old(self).remaining().skip(1)
            } else {
                old(self).remaining()
            }),
    {
        if self.position < self.input.len() {
            self.position = self.position + 1;
            assert(final(self).remaining() =~= old(self).remaining().skip(1));
        }
    }

    /// The character behind the one under the cursor.
    fn peek_char(&self) -> (r: Option<char>)
        ensures
            r == (if self.remaining().len() > 1 {
                Some(self.remaining()[1])
            } else {
                None
            }),
    {
        if self.position < self.input.len() && self.position + 1 < self.input.len() {
            Some(self.input[self.position + 1])
        } else {
            None
        }
    }

    /// Reads the letters at the cursor.
    fn read_identifier(&mut self) -> (r: String)
        ensures
            r@ == old(self).remaining().take(run_length(old(self).remaining(), |d: char| letter(d)) as int),
            final(self).remaining() == old(self).remaining().skip(
                run_length(old(self).remaining(), |d: char| letter(d)) as int,
            ),
    {
        let start = self.position;
        let ghost s = self.remaining();
        let ghost p = |d: char| letter(d);
        if start >= self.input.len() {
            proof {
                assert(run_length(s, p) == 0);
                assert(s.take(0) =~= Seq::<char>::empty());
                assert(s.skip(0) =~= s);
            }
            return String::new();
        }
        let mut end = start;
        while end < self.input.len() && is_letter(self.input[end])
            invariant
                start <= end <= self.input@.len(),
                self.position == start,
                *self == *old(self),
                s == self.input@.skip(start as int),
                forall|i: int| 0 <= i < end - start ==> letter(#[trigger] s[i]),
            decreases self.input@.len() - end,
        {
            assert(s[end - start] == self.input@[end as int]);
            end = end + 1;
        }
        proof {
            if end < self.input@.len() {
                assert(s[end - start] == self.input@[end as int]);
            }
            lemma_run_length_is(s, p, (end - start) as nat);
        }
        let r = from_chars(&self.input, start, end);
        self.position = end;
        proof {
            assert(r@ =~= s.take(end - start));
            assert(self.remaining() =~= s.skip(end - start));
        }
        r
    }

    /// Reads the digits at the cursor.
    fn read_number(&mut self) -> (r: String)
        ensures
            r@ == old(self).remaining().take(run_length(old(self).remaining(), |d: char| is_digit(d)) as int),
            final(self).remaining() == old(self).remaining().skip(
                run_length(old(self).remaining(), |d: char| is_digit(d)) as int,
            ),
    {
        let start = self.position;
        let ghost s = self.remaining();
        let ghost p = |d: char| is_digit(d);
        if start >= self.input.len() {
            proof {
                assert(run_length(s, p) == 0);
                assert(s.take(0) =~= Seq::<char>::empty());
                assert(s.skip(0) =~= s);
            }
            return String::new();
        }
        let mut end = start;
        while end < self.input.len() && is_ascii_digit(self.input[end])
            invariant
                start <= end <= self.input@.len(),
                self.position == start,
                *self == *old(self),
                s == self.input@.skip(start as int),
                forall|i: int| 0 <= i < end - start ==> is_digit(#[trigger] s[i]),
            decreases self.input@.len() - end,
        {
            assert(s[end - start] == self.input@[end as int]);
            end = end + 1;
        }
        proof {
            if end < self.input@.len() {
                assert(s[end - start] == self.input@[end as int]);
            }
            lemma_run_length_is(s, p, (end - start) as nat);
        }
        let r = from_chars(&self.input, start, end);
        self.position = end;
        proof {
            assert(r@ =~= s.take(end - start));
            assert(self.remaining() =~= s.skip(end - start));
        }
        r
    }

    /// Reads a string literal whose opening quote is under the cursor, and
    /// stops behind the closing quote or at the end of the input.
    fn read_string(&mut self) -> (r: String)
        requires
            old(self).remaining().len() > 0,
        ensures
            ({
                let s = old(self).remaining();
                let n = run_length(s.skip(1), |d: char| d != '"');
                let closed: nat = if 1 + n < s.len() {
                    1
                } else {
                    0
                };
                &&& r@ == s.subrange(1, (1 + n) as int)
                &&& 1 + n + closed <= s.len()
                &&& final(self).remaining() == s.skip((1 + n + closed) as int)
            }),
    {
        let ghost s = self.remaining();
        let ghost t = s.skip(1);
        let ghost p = |d: char| d != '"';
        assert(self.position < self.input.len());
        let start = self.position + 1;
        let mut end = start;
        while end < self.input.len() && self.input[end] != '"'
            invariant
                start <= end <= self.input@.len(),
                self.position + 1 == start,
                *self == *old(self),
                s == self.input@.skip(start - 1),
                t == s.skip(1),
                forall|i: int| 0 <= i < end - start ==> #[trigger] t[i] != '"',
            decreases self.input@.len() - end,
        {
            assert(t[end - start] == self.input@[end as int]);
            end = end + 1;
        }
        proof {
            if end < self.input@.len() {
                assert(t[end - start] == self.input@[end as int]);
            }
            lemma_run_length_is(t, p, (end - start) as nat);
        }
        let r = from_chars(&self.input, start, end);
        if end < self.input.len() {
            self.position = end + 1;
        } else {
            self.position = end;
        }
        proof {
            let n = (end - start) as nat;
            assert(r@ =~= s.subrange(1, (1 + n) as int));
            let closed: nat = if 1 + n < s.len() {
                1
            } else {
                0
            };
            assert(self.remaining() =~= s.skip((1 + n + closed) as int));
        }
        r
    }

    /// Reads the operator or punctuation mark under the cursor, if there is
    /// one, and leaves the cursor on its last character.
    fn read_single_char_token(&mut self) -> (r: Option<Token>)
        requires
            old(self).remaining().len() > 0,
        ensures
            match symbol_token(old(self).remaining()) {
                Some((tok, n)) => {
                    &&& r is Some
                    &&& r->0@ == tok
                    &&& 1 <= n <= old(self).remaining().len()
                    &&& final(self).remaining() == old(self).remaining().skip(n - 1)
                },
                None => r is None && final(self).remaining() == old(self).remaining(),
            },
    {
        let ghost s = self.remaining();
        let ch = self.input[self.position];
        assert(s.skip(0) =~= s);
        if ch == '=' || ch == '!' {
            let ch_next = self.peek_char();
            if ch_next == Some('=') {
                self.read_char();
                let mut literal = char_string(ch);
                literal.push('=');
                assert(literal@ =~= seq![ch, '=']);
                let kind = if ch == '=' {
                    TokenType::Eq
                } else {
                    TokenType::Noteq
                };
                return Some(Token { token_type: kind, literal });
            }
        }
        match symbol_of(ch) {
            Some(kind) => Some(Token { token_type: kind, literal: char_string(ch) }),
            None => None,
        }
    }

    /// Moves the cursor over whitespace.
    fn skip_whitespace(&mut self)
        ensures
            final(self).remaining() == old(self).remaining().skip(
                run_length(old(self).remaining(), |d: char| whitespace(d)) as int,
            ),
    {
        let ghost s = self.remaining();
        let ghost p = |d: char| whitespace(d);
        let start = self.position;
        if start >= self.input.len() {
            proof {
                assert(run_length(s, p) == 0);
                assert(s.skip(0) =~= s);
            }
            return ;
        }
        let mut end = start;
        while end < self.input.len() && (self.input[end] == ' ' || self.input[end] == '\t'
            || self.input[end] == '\n' || self.input[end] == '\r')
            invariant
                start <= end <= self.input@.len(),
                self.position == start,
                *self == *old(self),
                s == self.input@.skip(start as int),
                forall|i: int| 0 <= i < end - start ==> whitespace(#[trigger] s[i]),
            decreases self.input@.len() - end,
        {
            assert(s[end - start] == self.input@[end as int]);
            end = end + 1;
        }
        proof {
            if end < self.input@.len() {
                assert(s[end - start] == self.input@[end as int]);
            }
            lemma_run_length_is(s, p, (end - start) as nat);
        }
        self.position = end;
        proof {
            assert(self.remaining() =~= s.skip(end - start));
        }
    }

    /// The next token, or `None` at the end of the input.
    pub fn next(&mut self) -> (r: Option<Token>)
        ensures
            token_option_view(r) == next_token(old(self).remaining()).0,
            final(self).remaining() == next_token(old(self).remaining()).1,
            final(self).remaining().len() <= old(self).remaining().len(),
            r is Some ==> final(self).remaining().len() < old(self).remaining().len(),
            r is None ==> final(self).remaining().len() == 0,
    {
        proof {
            lemma_next_token_progress(self.remaining());
        }
        self.skip_whitespace();
        let ghost t = self.remaining();
        let ch = match self.current() {
            Some(ch) => ch,
            None => {
                return None;
            },
        };
        if let Some(token) = self.read_single_char_token() {
            self.read_char();
            assert(self.remaining() =~= t.skip(symbol_token(t).unwrap().1 as int));
            return Some(token);
        }
        if ch == '"' {
            let literal = self.read_string();
            Some(Token { token_type: TokenType::String, literal })
        } else if is_letter(ch) {
            let ident = self.read_identifier();
            Some(Token { token_type: lookup_ident(&ident), literal: ident })
        } else if is_ascii_digit(ch) {
            Some(Token { token_type: TokenType::Int, literal: self.read_number() })
        } else {
            self.read_char();
            Some(Token { token_type: TokenType::Illegal, literal: char_string(ch) })
        }
    }

    /// Reads the input to its end and returns all the tokens.
    pub fn collect(self) -> (r: Vec<Token>)
        ensures
            token_views(r@) == tokens(self.remaining()),
    {
        let ghost all = tokens(self.remaining());
        let mut lexer = self;
        let mut out: Vec<Token> = Vec::new();
        assert(token_views(out@) + all =~= all);
        loop
            invariant
                all == tokens(self.remaining()),
                token_views(out@) + tokens(lexer.remaining()) == all,
            decreases lexer.remaining().len(),
        {
            let ghost before = lexer.remaining();
            let ghost done = token_views(out@);
            match lexer.next() {
                Some(tok) => {
                    out.push(tok);
                    proof {
                        assert(token_views(out@) =~= done + seq![tok@]);
                        assert(tokens(before) == seq![tok@] + tokens(lexer.remaining()));
                        assert(token_views(out@) + tokens(lexer.remaining()) =~= done + tokens(before));
                    }
                },
                None => {
                    proof {
                        assert(tokens(before) =~= Seq::<TokenView>::empty());
                        assert(token_views(out@) + tokens(before) =~= token_views(out@));
                    }
                    return out;
                },
            }
        }
    }
}

} // verus!
