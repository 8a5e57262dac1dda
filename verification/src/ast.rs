//! The abstract syntax tree: statements and expressions, each with the token
//! it came from.

use vstd::prelude::*;
use vstd::string::StringExecFns;
use crate::parser::{ParserError, ParserErrorView};
use crate::token::{Token, TokenView};

verus! {

/// An identifier, as a value.
pub struct IdentView {
    pub token: TokenView,
    pub value: Seq<char>,
}

/// A block of statements, as a value.
pub struct BlockView {
    pub token: TokenView,
    pub statements: Seq<Result<StmtView, ParserErrorView>>,
}

/// An expression, as a value.
#[allow(inconsistent_fields)]
pub enum ExprView {
    Identifier(IdentView),
    Integer { token: TokenView, value: i64 },
    Boolean { token: TokenView, value: bool },
    Str { token: TokenView, val: Seq<char> },
    Array { tok: TokenView, mems: Seq<ExprView> },
    Hash { tok: TokenView, pairs: Seq<(ExprView, ExprView)> },
    Prefix { token: TokenView, operator: Seq<char>, right: Box<ExprView> },
    Infix { token: TokenView, left: Box<ExprView>, operator: Seq<char>, right: Box<ExprView> },
    If {
        token: TokenView,
        condition: Box<ExprView>,
        consequence: BlockView,
        alternative: Option<BlockView>,
    },
    Function { token: TokenView, params: Seq<IdentView>, body: BlockView },
    Call { token: TokenView, function: Box<ExprView>, args: Seq<ExprView> },
    Index { tok: TokenView, left: Box<ExprView>, index: Box<ExprView> },
}

/// A statement, as a value.
pub enum StmtView {
    Let { token: TokenView, name: IdentView, value: ExprView },
    Return { token: TokenView, value: ExprView },
    Expression { token: TokenView, expression: ExprView },
    Block(BlockView),
}

#[derive(Debug, PartialEq)]
pub struct Identifier {
    pub token: Token,
    pub value: String,
}

#[derive(Debug, PartialEq)]
pub struct IntegerLiteral {
    pub token: Token,
    pub value: i64,
}

#[derive(Debug, PartialEq)]
pub struct BooleanLiteral {
    pub token: Token,
    pub value: bool,
}

#[derive(Debug, PartialEq)]
pub struct StringLiteral {
    pub token: Token,
    pub val: String,
}

#[derive(Debug, PartialEq)]
pub struct ArrayLiteral {
    pub tok: Token,
    pub mems: Vec<Expression>,
}

#[derive(Debug, PartialEq)]
pub struct HashLiteral {
    pub tok: Token,
    pub pairs: Vec<(Expression, Expression)>,
}

#[derive(Debug, PartialEq)]
pub struct PrefixExpression {
    pub token: Token,
    pub operator: String,
    pub right: Box<Expression>,
}

#[derive(Debug, PartialEq)]
pub struct InfixExpression {
    pub token: Token,
    pub left: Box<Expression>,
    pub operator: String,
    pub right: Box<Expression>,
}

#[derive(Debug, PartialEq)]
pub struct IfExpression {
    pub token: Token,
    pub condition: Box<Expression>,
    pub consequence: BlockStatement,
    pub alternative: Option<BlockStatement>,
}

#[derive(Debug, PartialEq)]
pub struct FunctionLiteral {
    pub token: Token,
    pub params: Vec<Identifier>,
    pub body: BlockStatement,
}

#[derive(Debug, PartialEq)]
pub struct CallExpression {
    pub token: Token,
    pub function: Box<Expression>,
    pub args: Vec<Expression>,
}

#[derive(Debug, PartialEq)]
pub struct IndexExpression {
    pub tok: Token,
    pub left: Box<Expression>,
    pub index: Box<Expression>,
}

/// An expression: one variant for each kind of node.
#[derive(Debug, PartialEq)]
pub enum Expression {
    Identifier(Identifier),
    Integer(IntegerLiteral),
    Boolean(BooleanLiteral),
    Str(StringLiteral),
    Array(ArrayLiteral),
    Hash(HashLiteral),
    Prefix(PrefixExpression),
    Infix(InfixExpression),
    If(IfExpression),
    Function(FunctionLiteral),
    Call(CallExpression),
    Index(IndexExpression),
}

#[derive(Debug, PartialEq)]
pub struct LetStatement {
    pub token: Token,
    pub name: Identifier,
    pub value: Expression,
}

#[derive(Debug, PartialEq)]
pub struct ReturnStatement {
    pub token: Token,
    pub value: Expression,
}

#[derive(Debug, PartialEq)]
pub struct ExpressionStatement {
    pub token: Token,
    pub expression: Expression,
}

/// The statements between `{` and `}`; a statement that failed to parse
/// stands in its place as the error.
#[derive(Debug, PartialEq)]
pub struct BlockStatement {
    pub token: Token,
    pub statements: Vec<Result<Statement, ParserError>>,
}

/// A statement: one variant for each kind of node.
#[derive(Debug, PartialEq)]
pub enum Statement {
    Let(LetStatement),
    Return(ReturnStatement),
    Expression(ExpressionStatement),
    Block(BlockStatement),
}

/// A program: its top-level statements in order; a statement that failed to
/// parse stands in its place as the error.
#[derive(Debug, PartialEq)]
pub struct Program {
    pub statements: Vec<Result<Statement, ParserError>>,
}

impl View for Identifier {
    type V = IdentView;

    open spec fn view(&self) -> IdentView {
        IdentView { token: self.token@, value: self.value@ }
    }
}

/// The views of a sequence of identifiers.
pub open spec fn idents_view(s: Seq<Identifier>) -> Seq<IdentView> {
    Seq::new(s.len(), |i: int| s[i]@)
}

/// The view of an expression.
#[verifier::opaque]
pub open spec fn expr_view(e: Expression) -> ExprView
    decreases e,
{
    match e {
        Expression::Identifier(n) => ExprView::Identifier(n@),
        Expression::Integer(n) => ExprView::Integer { token: n.token@, value: n.value },
        Expression::Boolean(n) => ExprView::Boolean { token: n.token@, value: n.value },
        Expression::Str(n) => ExprView::Str { token: n.token@, val: n.val@ },
        Expression::Array(n) => ExprView::Array {
            tok: n.tok@,
            mems: Seq::new(
                n.mems@.len(),
                |i: int|
                    if 0 <= i < n.mems@.len() {
                        expr_view(n.mems@[i])
                    } else {
                        arbitrary()
                    },
            ),
        },
        Expression::Hash(n) => ExprView::Hash {
            tok: n.tok@,
            pairs: Seq::new(
                n.pairs@.len(),
                |i: int|
                    if 0 <= i < n.pairs@.len() {
                        (expr_view(n.pairs@[i].0), expr_view(n.pairs@[i].1))
                    } else {
                        arbitrary()
                    },
            ),
        },
        Expression::Prefix(n) => ExprView::Prefix {
            token: n.token@,
            operator: n.operator@,
            right: Box::new(expr_view(*n.right)),
        },
        Expression::Infix(n) => ExprView::Infix {
            token: n.token@,
            left: Box::new(expr_view(*n.left)),
            operator: n.operator@,
            right: Box::new(expr_view(*n.right)),
        },
        Expression::If(n) => ExprView::If {
            token: n.token@,
            condition: Box::new(expr_view(*n.condition)),
            consequence: block_view(n.consequence),
            alternative: match n.alternative {
                Some(b) => Some(block_view(b)),
                None => None,
            },
        },
        Expression::Function(n) => ExprView::Function {
            token: n.token@,
            params: idents_view(n.params@),
            body: block_view(n.body),
        },
        Expression::Call(n) => ExprView::Call {
            token: n.token@,
            function: Box::new(expr_view(*n.function)),
            args: Seq::new(
                n.args@.len(),
                |i: int|
                    if 0 <= i < n.args@.len() {
                        expr_view(n.args@[i])
                    } else {
                        arbitrary()
                    },
            ),
        },
        Expression::Index(n) => ExprView::Index {
            tok: n.tok@,
            left: Box::new(expr_view(*n.left)),
            index: Box::new(expr_view(*n.index)),
        },
    }
}

/// The view of a block.
#[verifier::opaque]
pub open spec fn block_view(b: BlockStatement) -> BlockView
    decreases b,
{
    BlockView {
        token: b.token@,
        statements: Seq::new(
            b.statements@.len(),
            |i: int|
                if 0 <= i < b.statements@.len() {
                    entry_view(b.statements@[i])
                } else {
                    arbitrary()
                },
        ),
    }
}

/// The view of one place in a statement list.
#[verifier::opaque]
pub open spec fn entry_view(r: Result<Statement, ParserError>) -> Result<StmtView, ParserErrorView>
    decreases r,
{
    match r {
        Ok(s) => Ok(stmt_view(s)),
        Err(e) => Err(e@),
    }
}

/// The view of a statement.
#[verifier::opaque]
pub open spec fn stmt_view(s: Statement) -> StmtView
    decreases s,
{
    match s {
        Statement::Let(n) => StmtView::Let { token: n.token@, name: n.name@, value: expr_view(n.value) },
        Statement::Return(n) => StmtView::Return { token: n.token@, value: expr_view(n.value) },
        Statement::Expression(n) => StmtView::Expression {
            token: n.token@,
            expression: expr_view(n.expression),
        },
        Statement::Block(b) => StmtView::Block(block_view(b)),
    }
}

/// The views of a statement list.
pub open spec fn entries_view(s: Seq<Result<Statement, ParserError>>) -> Seq<
    Result<StmtView, ParserErrorView>,
> {
    Seq::new(s.len(), |i: int| entry_view(s[i]))
}

/// The views of a sequence of expressions.
pub open spec fn exprs_view(s: Seq<Expression>) -> Seq<ExprView> {
    Seq::new(s.len(), |i: int| expr_view(s[i]))
}

/// The views of a sequence of pairs of expressions.
pub open spec fn pairs_view(s: Seq<(Expression, Expression)>) -> Seq<(ExprView, ExprView)> {
    Seq::new(s.len(), |i: int| (expr_view(s[i].0), expr_view(s[i].1)))
}

impl View for Expression {
    type V = ExprView;

    open spec fn view(&self) -> ExprView {
        expr_view(*self)
    }
}

impl View for Statement {
    type V = StmtView;

    open spec fn view(&self) -> StmtView {
        stmt_view(*self)
    }
}

impl View for BlockStatement {
    type V = BlockView;

    open spec fn view(&self) -> BlockView {
        block_view(*self)
    }
}

impl View for Program {
    type V = Seq<Result<StmtView, ParserErrorView>>;

    open spec fn view(&self) -> Seq<Result<StmtView, ParserErrorView>> {
        entries_view(self.statements@)
    }
}

impl View for IntegerLiteral {
    type V = ExprView;

    open spec fn view(&self) -> ExprView {
        expr_view(Expression::Integer(*self))
    }
}

impl View for BooleanLiteral {
    type V = ExprView;

    open spec fn view(&self) -> ExprView {
        expr_view(Expression::Boolean(*self))
    }
}

impl View for StringLiteral {
    type V = ExprView;

    open spec fn view(&self) -> ExprView {
        expr_view(Expression::Str(*self))
    }
}

impl View for ArrayLiteral {
    type V = ExprView;

    open spec fn view(&self) -> ExprView {
        expr_view(Expression::Array(*self))
    }
}

impl View for HashLiteral {
    type V = ExprView;

    open spec fn view(&self) -> ExprView {
        expr_view(Expression::Hash(*self))
    }
}

impl View for PrefixExpression {
    type V = ExprView;

    open spec fn view(&self) -> ExprView {
        expr_view(Expression::Prefix(*self))
    }
}

impl View for InfixExpression {
    type V = ExprView;

    open spec fn view(&self) -> ExprView {
        expr_view(Expression::Infix(*self))
    }
}

impl View for IfExpression {
    type V = ExprView;

    open spec fn view(&self) -> ExprView {
        expr_view(Expression::If(*self))
    }
}

impl View for FunctionLiteral {
    type V = ExprView;

    open spec fn view(&self) -> ExprView {
        expr_view(Expression::Function(*self))
    }
}

impl View for CallExpression {
    type V = ExprView;

    open spec fn view(&self) -> ExprView {
        expr_view(Expression::Call(*self))
    }
}

impl View for IndexExpression {
    type V = ExprView;

    open spec fn view(&self) -> ExprView {
        expr_view(Expression::Index(*self))
    }
}

impl View for LetStatement {
    type V = StmtView;

    open spec fn view(&self) -> StmtView {
        stmt_view(Statement::Let(*self))
    }
}

impl View for ReturnStatement {
    type V = StmtView;

    open spec fn view(&self) -> StmtView {
        stmt_view(Statement::Return(*self))
    }
}

impl View for ExpressionStatement {
    type V = StmtView;

    open spec fn view(&self) -> StmtView {
        stmt_view(Statement::Expression(*self))
    }
}


/// The view of a block that may be absent.
pub open spec fn block_option_view(b: Option<BlockStatement>) -> Option<BlockView> {
    match b {
        Some(b) => Some(b@),
        None => None,
    }
}

/// The view of an identifier used as an expression.
pub proof fn lemma_view_identifier(n: Identifier)
    ensures
        Expression::Identifier(n)@ == ExprView::Identifier(n@),
{
    reveal(expr_view);
}

/// The view of a block used as a statement.
pub proof fn lemma_view_block_statement(b: BlockStatement)
    ensures
        Statement::Block(b)@ == StmtView::Block(b@),
{
    reveal(stmt_view);
    reveal(block_view);
}

/// The view of one place in a statement list.
pub proof fn lemma_view_entry(r: Result<Statement, ParserError>)
    ensures
        entry_view(r) == match r {
            Ok(s) => Ok::<StmtView, ParserErrorView>(s@),
            Err(e) => Err::<StmtView, ParserErrorView>(e@),
        },
{
    reveal(entry_view);
    reveal(stmt_view);
}

impl IntegerLiteral {
    pub proof fn lemma_view(self)
        ensures
            self@ == (ExprView::Integer { token: self.token@, value: self.value }),
    {
        reveal(expr_view);
    }
}

impl BooleanLiteral {
    pub proof fn lemma_view(self)
        ensures
            self@ == (ExprView::Boolean { token: self.token@, value: self.value }),
    {
        reveal(expr_view);
    }
}

impl StringLiteral {
    pub proof fn lemma_view(self)
        ensures
            self@ == (ExprView::Str { token: self.token@, val: self.val@ }),
    {
        reveal(expr_view);
    }
}

impl ArrayLiteral {
    pub proof fn lemma_view(self)
        ensures
            self@ == (ExprView::Array { tok: self.tok@, mems: exprs_view(self.mems@) }),
    {
        reveal(expr_view);
        assert(self@->Array_mems =~= exprs_view(self.mems@));
    }
}

impl HashLiteral {
    pub proof fn lemma_view(self)
        ensures
            self@ == (ExprView::Hash { tok: self.tok@, pairs: pairs_view(self.pairs@) }),
    {
        reveal(expr_view);
        assert(self@->Hash_pairs =~= pairs_view(self.pairs@));
    }
}

impl PrefixExpression {
    pub proof fn lemma_view(self)
        ensures
            self@ == (ExprView::Prefix {
                token: self.token@,
                operator: self.operator@,
                right: Box::new(self.right@),
            }),
    {
        reveal(expr_view);
    }
}

impl InfixExpression {
    pub proof fn lemma_view(self)
        ensures
            self@ == (ExprView::Infix {
                token: self.token@,
                left: Box::new(self.left@),
                operator: self.operator@,
                right: Box::new(self.right@),
            }),
    {
        reveal(expr_view);
    }
}

impl IfExpression {
    pub proof fn lemma_view(self)
        ensures
            self@ == (ExprView::If {
                token: self.token@,
                condition: Box::new(self.condition@),
                consequence: self.consequence@,
                alternative: block_option_view(self.alternative),
            }),
    {
        reveal(expr_view);
        reveal(block_view);
    }
}

impl FunctionLiteral {
    pub proof fn lemma_view(self)
        ensures
            self@ == (ExprView::Function {
                token: self.token@,
                params: idents_view(self.params@),
                body: self.body@,
            }),
    {
        reveal(expr_view);
        reveal(block_view);
    }
}

impl CallExpression {
    pub proof fn lemma_view(self)
        ensures
            self@ == (ExprView::Call {
                token: self.token@,
                function: Box::new(self.function@),
                args: exprs_view(self.args@),
            }),
    {
        reveal(expr_view);
        assert(self@->Call_args =~= exprs_view(self.args@));
    }
}

impl IndexExpression {
    pub proof fn lemma_view(self)
        ensures
            self@ == (ExprView::Index {
                tok: self.tok@,
                left: Box::new(self.left@),
                index: Box::new(self.index@),
            }),
    {
        reveal(expr_view);
    }
}

impl LetStatement {
    pub proof fn lemma_view(self)
        ensures
            self@ == (StmtView::Let { token: self.token@, name: self.name@, value: self.value@ }),
    {
        reveal(stmt_view);
        reveal(expr_view);
    }
}

impl ReturnStatement {
    pub proof fn lemma_view(self)
        ensures
            self@ == (StmtView::Return { token: self.token@, value: self.value@ }),
    {
        reveal(stmt_view);
        reveal(expr_view);
    }
}

impl ExpressionStatement {
    pub proof fn lemma_view(self)
        ensures
            self@ == (StmtView::Expression { token: self.token@, expression: self.expression@ }),
    {
        reveal(stmt_view);
        reveal(expr_view);
    }
}

impl BlockStatement {
    pub proof fn lemma_view(self)
        ensures
            self@ == (BlockView { token: self.token@, statements: entries_view(self.statements@) }),
    {
        reveal(block_view);
        reveal(entry_view);
        assert(self@.statements =~= entries_view(self.statements@));
    }
}

impl Clone for Identifier {
    fn clone(&self) -> (r: Self)
        ensures
            r@ == self@,
    {
        Identifier { token: self.token.clone(), value: self.value.clone() }
    }
}

impl Clone for IntegerLiteral {
    fn clone(&self) -> (r: Self)
        ensures
            r@ == self@,
    {
        let r = IntegerLiteral { token: self.token.clone(), value: self.value };
        proof {
            r.lemma_view();
            self.lemma_view();
        }
        r
    }
}

impl Clone for BooleanLiteral {
    fn clone(&self) -> (r: Self)
        ensures
            r@ == self@,
    {
        let r = BooleanLiteral { token: self.token.clone(), value: self.value };
        proof {
            r.lemma_view();
            self.lemma_view();
        }
        r
    }
}

impl Clone for StringLiteral {
    fn clone(&self) -> (r: Self)
        ensures
            r@ == self@,
    {
        let r = StringLiteral { token: self.token.clone(), val: self.val.clone() };
        proof {
            r.lemma_view();
            self.lemma_view();
        }
        r
    }
}

/// A copy of a sequence of expressions.
pub fn clone_expressions(v: &Vec<Expression>) -> (r: Vec<Expression>)
    ensures
        exprs_view(r@) == exprs_view(v@),
    decreases v,
{
    let mut out: Vec<Expression> = Vec::new();
    let mut i: usize = 0;
    while i < v.len()
        invariant
            i <= v.len(),
            out@.len() == i,
            forall|j: int| 0 <= j < i ==> (#[trigger] out@[j])@ == v@[j]@,
        decreases v.len() - i,
    {
        proof {
            assert(decreases_to!(v => v@));
            assert(decreases_to!(v@ => v@[i as int]));
        }
        let item = v[i].clone();
        out.push(item);
        i = i + 1;
    }
    assert(exprs_view(out@) =~= exprs_view(v@));
    out
}

impl Clone for ArrayLiteral {
    fn clone(&self) -> (r: Self)
        ensures
            r@ == self@,
        decreases self,
    {
        proof {
            assert(decreases_to!(self => self.mems));
        }
        let r = ArrayLiteral { tok: self.tok.clone(), mems: clone_expressions(&self.mems) };
        proof {
            r.lemma_view();
            self.lemma_view();
        }
        r
    }
}

impl Clone for HashLiteral {
    fn clone(&self) -> (r: Self)
        ensures
            r@ == self@,
        decreases self,
    {
        let mut pairs: Vec<(Expression, Expression)> = Vec::new();
        let mut i: usize = 0;
        while i < self.pairs.len()
            invariant
                i <= self.pairs.len(),
                pairs@.len() == i,
                forall|j: int|
                    0 <= j < i ==> (#[trigger] pairs@[j]).0@ == self.pairs@[j].0@ && pairs@[j].1@
                        == self.pairs@[j].1@,
            decreases self.pairs.len() - i,
        {
            proof {
                assert(decreases_to!(self => self.pairs));
                assert(decreases_to!(self.pairs => self.pairs@));
                assert(decreases_to!(self.pairs@ => self.pairs@[i as int]));
                assert(decreases_to!(self.pairs@[i as int] => self.pairs@[i as int].0));
                assert(decreases_to!(self.pairs@[i as int] => self.pairs@[i as int].1));
            }
            let key = self.pairs[i].0.clone();
            let value = self.pairs[i].1.clone();
            pairs.push((key, value));
            i = i + 1;
        }
        let r = HashLiteral { tok: self.tok.clone(), pairs };
        proof {
            r.lemma_view();
            self.lemma_view();
            assert(pairs_view(r.pairs@) =~= pairs_view(self.pairs@));
        }
        r
    }
}

impl Clone for PrefixExpression {
    fn clone(&self) -> (r: Self)
        ensures
            r@ == self@,
        decreases self,
    {
        proof {
            assert(decreases_to!(self => self.right));
        }
        let r = PrefixExpression {
            token: self.token.clone(),
            operator: self.operator.clone(),
            right: Box::new((*self.right).clone()),
        };
        proof {
            r.lemma_view();
            self.lemma_view();
        }
        r
    }
}

impl Clone for InfixExpression {
    fn clone(&self) -> (r: Self)
        ensures
            r@ == self@,
        decreases self,
    {
        proof {
            assert(decreases_to!(self => self.left));
            assert(decreases_to!(self => self.right));
        }
        let r = InfixExpression {
            token: self.token.clone(),
            left: Box::new((*self.left).clone()),
            operator: self.operator.clone(),
            right: Box::new((*self.right).clone()),
        };
        proof {
            r.lemma_view();
            self.lemma_view();
        }
        r
    }
}

impl Clone for IfExpression {
    fn clone(&self) -> (r: Self)
        ensures
            r@ == self@,
        decreases self,
    {
        proof {
            assert(decreases_to!(self => self.condition));
            assert(decreases_to!(self => self.consequence));
            assert(decreases_to!(self => self.alternative));
        }
        let alternative = match &self.alternative {
            Some(b) => {
                proof {
                    assert(decreases_to!(self.alternative => b));
                }
                Some(b.clone())
            },
            None => None,
        };
        let r = IfExpression {
            token: self.token.clone(),
            condition: Box::new((*self.condition).clone()),
            consequence: self.consequence.clone(),
            alternative,
        };
        proof {
            r.lemma_view();
            self.lemma_view();
        }
        r
    }
}

/// A copy of a parameter list.
pub fn clone_identifiers(v: &Vec<Identifier>) -> (r: Vec<Identifier>)
    ensures
        idents_view(r@) == idents_view(v@),
{
    let mut out: Vec<Identifier> = Vec::new();
    let mut i: usize = 0;
    while i < v.len()
        invariant
            i <= v.len(),
            out@.len() == i,
            forall|j: int| 0 <= j < i ==> (#[trigger] out@[j])@ == v@[j]@,
        decreases v.len() - i,
    {
        out.push(v[i].clone());
        i = i + 1;
    }
    assert(idents_view(out@) =~= idents_view(v@));
    out
}

impl Clone for FunctionLiteral {
    fn clone(&self) -> (r: Self)
        ensures
            r@ == self@,
        decreases self,
    {
        proof {
            assert(decreases_to!(self => self.body));
        }
        let r = FunctionLiteral {
            token: self.token.clone(),
            params: clone_identifiers(&self.params),
            body: self.body.clone(),
        };
        proof {
            r.lemma_view();
            self.lemma_view();
        }
        r
    }
}

impl Clone for CallExpression {
    fn clone(&self) -> (r: Self)
        ensures
            r@ == self@,
        decreases self,
    {
        proof {
            assert(decreases_to!(self => self.function));
            assert(decreases_to!(self => self.args));
        }
        let r = CallExpression {
            token: self.token.clone(),
            function: Box::new((*self.function).clone()),
            args: clone_expressions(&self.args),
        };
        proof {
            r.lemma_view();
            self.lemma_view();
        }
        r
    }
}

impl Clone for IndexExpression {
    fn clone(&self) -> (r: Self)
        ensures
            r@ == self@,
        decreases self,
    {
        proof {
            assert(decreases_to!(self => self.left));
            assert(decreases_to!(self => self.index));
        }
        let r = IndexExpression {
            tok: self.tok.clone(),
            left: Box::new((*self.left).clone()),
            index: Box::new((*self.index).clone()),
        };
        proof {
            r.lemma_view();
            self.lemma_view();
        }
        r
    }
}

impl Clone for Expression {
    fn clone(&self) -> (r: Self)
        ensures
            r@ == self@,
        decreases self,
    {
        match self {
            Expression::Identifier(n) => {
                let m = n.clone();
                proof {
                    lemma_view_identifier(m);
                    lemma_view_identifier(*n);
                }
                Expression::Identifier(m)
            },
            Expression::Integer(n) => Expression::Integer(n.clone()),
            Expression::Boolean(n) => Expression::Boolean(n.clone()),
            Expression::Str(n) => Expression::Str(n.clone()),
            Expression::Array(n) => {
                proof {
                    assert(decreases_to!(self => n));
                }
                Expression::Array(n.clone())
            },
            Expression::Hash(n) => {
                proof {
                    assert(decreases_to!(self => n));
                }
                Expression::Hash(n.clone())
            },
            Expression::Prefix(n) => {
                proof {
                    assert(decreases_to!(self => n));
                }
                Expression::Prefix(n.clone())
            },
            Expression::Infix(n) => {
                proof {
                    assert(decreases_to!(self => n));
                }
                Expression::Infix(n.clone())
            },
            Expression::If(n) => {
                proof {
                    assert(decreases_to!(self => n));
                }
                Expression::If(n.clone())
            },
            Expression::Function(n) => {
                proof {
                    assert(decreases_to!(self => n));
                }
                Expression::Function(n.clone())
            },
            Expression::Call(n) => {
                proof {
                    assert(decreases_to!(self => n));
                }
                Expression::Call(n.clone())
            },
            Expression::Index(n) => {
                proof {
                    assert(decreases_to!(self => n));
                }
                Expression::Index(n.clone())
            },
        }
    }
}

impl Clone for LetStatement {
    fn clone(&self) -> (r: Self)
        ensures
            r@ == self@,
        decreases self,
    {
        proof {
            assert(decreases_to!(self => self.value));
        }
        let r = LetStatement {
            token: self.token.clone(),
            name: self.name.clone(),
            value: self.value.clone(),
        };
        proof {
            r.lemma_view();
            self.lemma_view();
        }
        r
    }
}

impl Clone for ReturnStatement {
    fn clone(&self) -> (r: Self)
        ensures
            r@ == self@,
        decreases self,
    {
        proof {
            assert(decreases_to!(self => self.value));
        }
        let r = ReturnStatement { token: self.token.clone(), value: self.value.clone() };
        proof {
            r.lemma_view();
            self.lemma_view();
        }
        r
    }
}

impl Clone for ExpressionStatement {
    fn clone(&self) -> (r: Self)
        ensures
            r@ == self@,
        decreases self,
    {
        proof {
            assert(decreases_to!(self => self.expression));
        }
        let r = ExpressionStatement {
            token: self.token.clone(),
            expression: self.expression.clone(),
        };
        proof {
            r.lemma_view();
            self.lemma_view();
        }
        r
    }
}

/// A copy of a statement list.
pub fn clone_entries(v: &Vec<Result<Statement, ParserError>>) -> (r: Vec<
    Result<Statement, ParserError>,
>)
    ensures
        entries_view(r@) == entries_view(v@),
    decreases v,
{
    let mut out: Vec<Result<Statement, ParserError>> = Vec::new();
    let mut i: usize = 0;
    while i < v.len()
        invariant
            i <= v.len(),
            out@.len() == i,
            forall|j: int| 0 <= j < i ==> entry_view(#[trigger] out@[j]) == entry_view(v@[j]),
        decreases v.len() - i,
    {
        proof {
            assert(decreases_to!(v => v@));
            assert(decreases_to!(v@ => v@[i as int]));
        }
        let item = match &v[i] {
            Ok(s) => {
                proof {
                    assert(decreases_to!(v@[i as int] => s));
                }
                Ok(s.clone())
            },
            Err(e) => Err(e.clone()),
        };
        proof {
            lemma_view_entry(item);
            lemma_view_entry(v@[i as int]);
        }
        out.push(item);
        i = i + 1;
    }
    assert(entries_view(out@) =~= entries_view(v@));
    out
}

impl Clone for BlockStatement {
    fn clone(&self) -> (r: Self)
        ensures
            r@ == self@,
        decreases self,
    {
        proof {
            assert(decreases_to!(self => self.statements));
        }
        let r = BlockStatement {
            token: self.token.clone(),
            statements: clone_entries(&self.statements),
        };
        proof {
            r.lemma_view();
            self.lemma_view();
        }
        r
    }
}

impl Clone for Statement {
    fn clone(&self) -> (r: Self)
        ensures
            r@ == self@,
        decreases self,
    {
        match self {
            Statement::Let(n) => {
                proof {
                    assert(decreases_to!(self => n));
                }
                Statement::Let(n.clone())
            },
            Statement::Return(n) => {
                proof {
                    assert(decreases_to!(self => n));
                }
                Statement::Return(n.clone())
            },
            Statement::Expression(n) => {
                proof {
                    assert(decreases_to!(self => n));
                }
                Statement::Expression(n.clone())
            },
            Statement::Block(n) => {
                proof {
                    assert(decreases_to!(self => n));
                }
                let m = n.clone();
                proof {
                    lemma_view_block_statement(m);
                    lemma_view_block_statement(*n);
                }
                Statement::Block(m)
            },
        }
    }
}

impl Clone for Program {
    fn clone(&self) -> (r: Self)
        ensures
            r@ == self@,
    {
        Program { statements: clone_entries(&self.statements) }
    }
}


/// How a boolean is written.
pub open spec fn bool_text(b: bool) -> Seq<char> {
    if b {
        "true"@
    } else {
        "false"@
    }
}

/// The source form of an expression.
#[verifier::opaque]
pub open spec fn render_expr(e: ExprView) -> Seq<char>
    decreases e,
{
    match e {
        ExprView::Identifier(n) => n.value,
        ExprView::Integer { token, value } => token.literal,
        ExprView::Boolean { token, value } => bool_text(value),
        ExprView::Str { token, val } => token.literal,
        ExprView::Array { tok, mems } => render_list(mems, Seq::empty()),
        ExprView::Hash { tok, pairs } => "{"@ + render_pairs(pairs) + "}"@,
        ExprView::Prefix { token, operator, right } => "("@ + operator + render_expr(*right) + ")"@,
        ExprView::Infix { token, left, operator, right } => "("@ + render_expr(*left) + operator
            + render_expr(*right) + ")"@,
        ExprView::If { token, condition, consequence, alternative } => "if "@ + render_expr(
            *condition,
        ) + " "@ + render_entries(consequence.statements) + (match alternative {
            Some(b) => render_entries(b.statements),
            None => Seq::empty(),
        }),
        ExprView::Function { token, params, body } => token.literal + "("@ + render_params(params)
            + ")"@ + render_entries(body.statements),
        ExprView::Call { token, function, args } => render_expr(*function) + "("@ + render_list(
            args,
            " ,"@,
        ) + ")"@,
        ExprView::Index { tok, left, index } => render_expr(*left) + "["@ + render_expr(*index)
            + "]"@,
    }
}

/// The source forms of expressions one after another, each followed by `after`.
#[verifier::opaque]
pub open spec fn render_list(s: Seq<ExprView>, after: Seq<char>) -> Seq<char>
    decreases s,
{
    if s.len() == 0 {
        Seq::empty()
    } else {
        render_list(s.drop_last(), after) + render_expr(s.last()) + after
    }
}

/// The source forms of the pairs of a hash literal, each as `, key: value`.
#[verifier::opaque]
pub open spec fn render_pairs(s: Seq<(ExprView, ExprView)>) -> Seq<char>
    decreases s,
{
    if s.len() == 0 {
        Seq::empty()
    } else {
        render_pairs(s.drop_last()) + ", "@ + render_expr(s.last().0) + ": "@ + render_expr(
            s.last().1,
        )
    }
}

/// The parameter names one after another, each followed by a comma.
pub open spec fn render_params(s: Seq<IdentView>) -> Seq<char>
    decreases s.len(),
{
    if s.len() == 0 {
        Seq::empty()
    } else {
        render_params(s.drop_last()) + s.last().value + ","@
    }
}

/// The source forms of the statements of a list, each on a line of its own;
/// a parse error is written as its message.
#[verifier::opaque]
pub open spec fn render_entries(s: Seq<Result<StmtView, ParserErrorView>>) -> Seq<char>
    decreases s,
{
    if s.len() == 0 {
        Seq::empty()
    } else {
        render_entries(s.drop_last()) + "\n"@ + (match s.last() {
            Ok(st) => render_stmt(st),
            Err(e) => e.message(),
        })
    }
}

/// The source form of a statement.
#[verifier::opaque]
pub open spec fn render_stmt(s: StmtView) -> Seq<char>
    decreases s,
{
    match s {
        StmtView::Let { token, name, value } => token.literal + " "@ + name.token.literal + " = "@
            + render_expr(value) + ";"@,
        StmtView::Return { token, value } => token.literal + " "@ + render_expr(value) + ";"@,
        StmtView::Expression { token, expression } => render_expr(expression),
        StmtView::Block(b) => render_entries(b.statements),
    }
}

/// The source form of one place in a statement list.
pub open spec fn render_entry(r: Result<StmtView, ParserErrorView>) -> Seq<char> {
    match r {
        Ok(st) => render_stmt(st),
        Err(e) => e.message(),
    }
}

/// The literal by which an expression is named in diagnostics.
pub open spec fn expr_literal(e: ExprView) -> Seq<char> {
    match e {
        ExprView::Identifier(n) => n.token.literal,
        ExprView::Integer { token, value } => token.literal,
        ExprView::Boolean { token, value } => bool_text(value),
        ExprView::Str { token, val } => token.literal,
        ExprView::Array { tok, mems } => tok.literal,
        ExprView::Hash { tok, pairs } => tok.literal,
        ExprView::Prefix { token, operator, right } => token.literal,
        ExprView::Infix { token, left, operator, right } => token.literal,
        ExprView::If { token, condition, consequence, alternative } => token.literal,
        ExprView::Function { token, params, body } => token.literal,
        ExprView::Call { token, function, args } => token.literal,
        ExprView::Index { tok, left, index } => tok.literal,
    }
}

/// The literal by which a statement is named in diagnostics.
pub open spec fn stmt_literal(s: StmtView) -> Seq<char> {
    match s {
        StmtView::Let { token, name, value } => token.literal,
        StmtView::Return { token, value } => token.literal,
        StmtView::Expression { token, expression } => token.literal,
        StmtView::Block(b) => b.token.literal,
    }
}

/// The literal by which one place in a statement list is named.
pub open spec fn entry_literal(r: Result<StmtView, ParserErrorView>) -> Seq<char> {
    match r {
        Ok(st) => stmt_literal(st),
        Err(e) => "err"@,
    }
}

/// A node of the syntax tree: it names the token it came from and can be
/// written back as source text.
pub trait Node {
    /// The literal of the token that the node came from.
    spec fn literal(&self) -> Seq<char>;

    /// The node as source text.
    spec fn rendering(&self) -> Seq<char>;

    fn token_literal(&self) -> (r: String)
        ensures
            r@ == self.literal(),
    ;

    fn string(&self) -> (r: String)
        ensures
            r@ == self.rendering(),
    ;
}

/// Writes expressions one after another, each followed by `after`.
pub fn render_expressions(v: &Vec<Expression>, after: &str) -> (r: String)
    ensures
        r@ == render_list(exprs_view(v@), after@),
    decreases v,
{
    let ghost views = exprs_view(v@);
    let mut out = String::new();
    let mut i: usize = 0;
    proof {
        reveal(render_list);
        assert(views.take(0) =~= Seq::<ExprView>::empty());
    }
    while i < v.len()
        invariant
            i <= v.len(),
            views == exprs_view(v@),
            out@ == render_list(views.take(i as int), after@),
        decreases v.len() - i,
    {
        proof {
            assert(decreases_to!(v => v@));
            assert(decreases_to!(v@ => v@[i as int]));
        }
        let item = v[i].string();
        out.append(item.as_str());
        out.append(after);
        proof {
            reveal(render_list);
            reveal(render_expr);
            let t = views.take(i as int + 1);
            assert(t.drop_last() =~= views.take(i as int));
            assert(t.last() == v@[i as int]@);
        }
        i = i + 1;
    }
    proof {
        assert(views.take(i as int) =~= views);
    }
    out
}

/// Writes the statements of a list, each on a line of its own.
pub fn render_statements(v: &Vec<Result<Statement, ParserError>>) -> (r: String)
    ensures
        r@ == render_entries(entries_view(v@)),
    decreases v,
{
    let ghost views = entries_view(v@);
    let mut out = String::new();
    let mut i: usize = 0;
    proof {
        reveal(render_entries);
        assert(views.take(0) =~= Seq::<Result<StmtView, ParserErrorView>>::empty());
    }
    while i < v.len()
        invariant
            i <= v.len(),
            views == entries_view(v@),
            out@ == render_entries(views.take(i as int)),
        decreases v.len() - i,
    {
        proof {
            assert(decreases_to!(v => v@));
            assert(decreases_to!(v@ => v@[i as int]));
        }
        out.append("\n");
        let item = match &v[i] {
            Ok(s) => {
                proof {
                    assert(decreases_to!(v@[i as int] => s));
                }
                s.string()
            },
            Err(e) => e.get_err_msg(),
        };
        out.append(item.as_str());
        proof {
            reveal(render_entries);
            reveal(render_stmt);
            lemma_view_entry(v@[i as int]);
            let t = views.take(i as int + 1);
            assert(t.drop_last() =~= views.take(i as int));
            assert(t.last() == entry_view(v@[i as int]));
        }
        i = i + 1;
    }
    proof {
        assert(views.take(i as int) =~= views);
    }
    out
}

/// Writes a boolean.
pub fn bool_string(b: bool) -> (r: String)
    ensures
        r@ == bool_text(b),
{
    if b {
        String::from_str("true")
    } else {
        String::from_str("false")
    }
}

impl Node for Identifier {
    open spec fn literal(&self) -> Seq<char> {
        self.token.literal@
    }

    open spec fn rendering(&self) -> Seq<char> {
        self.value@
    }

    fn token_literal(&self) -> (r: String) {
        self.token.literal.clone()
    }

    fn string(&self) -> (r: String) {
        self.value.clone()
    }
}

impl Node for IntegerLiteral {
    open spec fn literal(&self) -> Seq<char> {
        expr_literal(self@)
    }

    open spec fn rendering(&self) -> Seq<char> {
        render_expr(self@)
    }

    fn token_literal(&self) -> (r: String) {
        proof {
            self.lemma_view();
        }
        self.token.literal.clone()
    }

    fn string(&self) -> (r: String) {
        proof {
            self.lemma_view();
            reveal(render_expr);
        }
        self.token.literal.clone()
    }
}

impl Node for BooleanLiteral {
    open spec fn literal(&self) -> Seq<char> {
        expr_literal(self@)
    }

    open spec fn rendering(&self) -> Seq<char> {
        render_expr(self@)
    }

    fn token_literal(&self) -> (r: String) {
        proof {
            self.lemma_view();
        }
        bool_string(self.value)
    }

    fn string(&self) -> (r: String) {
        proof {
            self.lemma_view();
            reveal(render_expr);
        }
        bool_string(self.value)
    }
}

impl Node for StringLiteral {
    open spec fn literal(&self) -> Seq<char> {
        expr_literal(self@)
    }

    open spec fn rendering(&self) -> Seq<char> {
        render_expr(self@)
    }

    fn token_literal(&self) -> (r: String) {
        proof {
            self.lemma_view();
        }
        self.token.literal.clone()
    }

    fn string(&self) -> (r: String) {
        proof {
            self.lemma_view();
            reveal(render_expr);
        }
        self.token.literal.clone()
    }
}

impl Node for ArrayLiteral {
    open spec fn literal(&self) -> Seq<char> {
        expr_literal(self@)
    }

    open spec fn rendering(&self) -> Seq<char> {
        render_expr(self@)
    }

    fn token_literal(&self) -> (r: String) {
        proof {
            self.lemma_view();
        }
        self.tok.literal.clone()
    }

    fn string(&self) -> (r: String)
        decreases self,
    {
        proof {
            self.lemma_view();
            reveal(render_expr);
            reveal(render_list);
            assert(decreases_to!(self => self.mems));
            assert(""@ =~= Seq::<char>::empty()) by {
                reveal_strlit("");
            }
        }
        render_expressions(&self.mems, "")
    }
}

impl Node for HashLiteral {
    open spec fn literal(&self) -> Seq<char> {
        expr_literal(self@)
    }

    open spec fn rendering(&self) -> Seq<char> {
        render_expr(self@)
    }

    fn token_literal(&self) -> (r: String) {
        proof {
            self.lemma_view();
        }
        self.tok.literal.clone()
    }

    fn string(&self) -> (r: String)
        decreases self,
    {
        let ghost views = pairs_view(self.pairs@);
        let mut inner = String::new();
        let mut i: usize = 0;
        proof {
            reveal(render_pairs);
            assert(views.take(0) =~= Seq::<(ExprView, ExprView)>::empty());
        }
        while i < self.pairs.len()
            invariant
                i <= self.pairs.len(),
                views == pairs_view(self.pairs@),
                inner@ == render_pairs(views.take(i as int)),
            decreases self.pairs.len() - i,
        {
            proof {
                assert(decreases_to!(self => self.pairs));
                assert(decreases_to!(self.pairs => self.pairs@));
                assert(decreases_to!(self.pairs@ => self.pairs@[i as int]));
                assert(decreases_to!(self.pairs@[i as int] => self.pairs@[i as int].0));
                assert(decreases_to!(self.pairs@[i as int] => self.pairs@[i as int].1));
            }
            let key = self.pairs[i].0.string();
            let value = self.pairs[i].1.string();
            inner.append(", ");
            inner.append(key.as_str());
            inner.append(": ");
            inner.append(value.as_str());
            proof {
                reveal(render_pairs);
                reveal(render_expr);
                let t = views.take(i as int + 1);
                assert(t.drop_last() =~= views.take(i as int));
                assert(t.last() == (self.pairs@[i as int].0@, self.pairs@[i as int].1@));
            }
            i = i + 1;
        }
        let mut out = String::from_str("{");
        out.append(inner.as_str());
        out.append("}");
        proof {
            assert(views.take(i as int) =~= views);
            self.lemma_view();
            reveal(render_expr);
            reveal(render_pairs);
        }
        out
    }
}

impl Node for PrefixExpression {
    open spec fn literal(&self) -> Seq<char> {
        expr_literal(self@)
    }

    open spec fn rendering(&self) -> Seq<char> {
        render_expr(self@)
    }

    fn token_literal(&self) -> (r: String) {
        proof {
            self.lemma_view();
        }
        self.token.literal.clone()
    }

    fn string(&self) -> (r: String)
        decreases self,
    {
        proof {
            assert(decreases_to!(self => self.right));
        }
        let right = self.right.string();
        let mut out = String::from_str("(");
        out.append(self.operator.as_str());
        out.append(right.as_str());
        out.append(")");
        proof {
            self.lemma_view();
            reveal(render_expr);
        }
        out
    }
}

impl Node for InfixExpression {
    open spec fn literal(&self) -> Seq<char> {
        expr_literal(self@)
    }

    open spec fn rendering(&self) -> Seq<char> {
        render_expr(self@)
    }

    fn token_literal(&self) -> (r: String) {
        proof {
            self.lemma_view();
        }
        self.token.literal.clone()
    }

    fn string(&self) -> (r: String)
        decreases self,
    {
        proof {
            assert(decreases_to!(self => self.left));
            assert(decreases_to!(self => self.right));
        }
        let left = self.left.string();
        let right = self.right.string();
        let mut out = String::from_str("(");
        out.append(left.as_str());
        out.append(self.operator.as_str());
        out.append(right.as_str());
        out.append(")");
        proof {
            self.lemma_view();
            reveal(render_expr);
        }
        out
    }
}

impl Node for IfExpression {
    open spec fn literal(&self) -> Seq<char> {
        expr_literal(self@)
    }

    open spec fn rendering(&self) -> Seq<char> {
        render_expr(self@)
    }

    fn token_literal(&self) -> (r: String) {
        proof {
            self.lemma_view();
        }
        self.token.literal.clone()
    }

    fn string(&self) -> (r: String)
        decreases self,
    {
        proof {
            assert(decreases_to!(self => self.condition));
            assert(decreases_to!(self => self.consequence));
            assert(decreases_to!(self => self.alternative));
        }
        let condition = self.condition.string();
        let consequence = self.consequence.string();
        let mut out = String::from_str("if ");
        out.append(condition.as_str());
        out.append(" ");
        out.append(consequence.as_str());
        match &self.alternative {
            Some(b) => {
                proof {
                    assert(decreases_to!(self.alternative => b));
                }
                let alternative = b.string();
                out.append(alternative.as_str());
            },
            None => {
                assert(out@ + Seq::<char>::empty() =~= out@);
            },
        }
        proof {
            self.lemma_view();
            reveal(render_expr);
            reveal(render_entries);
        }
        out
    }
}

/// Writes parameter names one after another, each followed by a comma.
pub fn render_parameters(v: &Vec<Identifier>) -> (r: String)
    ensures
        r@ == render_params(idents_view(v@)),
{
    let ghost views = idents_view(v@);
    let mut out = String::new();
    let mut i: usize = 0;
    proof {
        assert(views.take(0) =~= Seq::<IdentView>::empty());
    }
    while i < v.len()
        invariant
            i <= v.len(),
            views == idents_view(v@),
            out@ == render_params(views.take(i as int)),
        decreases v.len() - i,
    {
        out.append(v[i].value.as_str());
        out.append(",");
        proof {
            let t = views.take(i as int + 1);
            assert(t.drop_last() =~= views.take(i as int));
            assert(t.last() == v@[i as int]@);
        }
        i = i + 1;
    }
    proof {
        assert(views.take(i as int) =~= views);
    }
    out
}

impl Node for FunctionLiteral {
    open spec fn literal(&self) -> Seq<char> {
        expr_literal(self@)
    }

    open spec fn rendering(&self) -> Seq<char> {
        render_expr(self@)
    }

    fn token_literal(&self) -> (r: String) {
        proof {
            self.lemma_view();
        }
        self.token.literal.clone()
    }

    fn string(&self) -> (r: String)
        decreases self,
    {
        proof {
            assert(decreases_to!(self => self.body));
        }
        let params = render_parameters(&self.params);
        let body = self.body.string();
        let mut out = self.token.literal.clone();
        out.append("(");
        out.append(params.as_str());
        out.append(")");
        out.append(body.as_str());
        proof {
            self.lemma_view();
            reveal(render_expr);
            reveal(render_entries);
        }
        out
    }
}

impl Node for CallExpression {
    open spec fn literal(&self) -> Seq<char> {
        expr_literal(self@)
    }

    open spec fn rendering(&self) -> Seq<char> {
        render_expr(self@)
    }

    fn token_literal(&self) -> (r: String) {
        proof {
            self.lemma_view();
        }
        self.token.literal.clone()
    }

    fn string(&self) -> (r: String)
        decreases self,
    {
        proof {
            assert(decreases_to!(self => self.function));
            assert(decreases_to!(self => self.args));
        }
        let args = render_expressions(&self.args, " ,");
        let mut out = self.function.string();
        out.append("(");
        out.append(args.as_str());
        out.append(")");
        proof {
            self.lemma_view();
            reveal(render_expr);
            reveal(render_list);
        }
        out
    }
}

impl Node for IndexExpression {
    open spec fn literal(&self) -> Seq<char> {
        expr_literal(self@)
    }

    open spec fn rendering(&self) -> Seq<char> {
        render_expr(self@)
    }

    fn token_literal(&self) -> (r: String) {
        proof {
            self.lemma_view();
        }
        self.tok.literal.clone()
    }

    fn string(&self) -> (r: String)
        decreases self,
    {
        proof {
            assert(decreases_to!(self => self.left));
            assert(decreases_to!(self => self.index));
        }
        let mut out = self.left.string();
        let index = self.index.string();
        out.append("[");
        out.append(index.as_str());
        out.append("]");
        proof {
            self.lemma_view();
            reveal(render_expr);
        }
        out
    }
}

impl Node for Expression {
    open spec fn literal(&self) -> Seq<char> {
        expr_literal(self@)
    }

    open spec fn rendering(&self) -> Seq<char> {
        render_expr(self@)
    }

    fn token_literal(&self) -> (r: String) {
        match self {
            Expression::Identifier(n) => {
                proof {
                    lemma_view_identifier(*n);
                }
                n.token_literal()
            },
            Expression::Integer(n) => n.token_literal(),
            Expression::Boolean(n) => n.token_literal(),
            Expression::Str(n) => n.token_literal(),
            Expression::Array(n) => n.token_literal(),
            Expression::Hash(n) => n.token_literal(),
            Expression::Prefix(n) => n.token_literal(),
            Expression::Infix(n) => n.token_literal(),
            Expression::If(n) => n.token_literal(),
            Expression::Function(n) => n.token_literal(),
            Expression::Call(n) => n.token_literal(),
            Expression::Index(n) => n.token_literal(),
        }
    }

    fn string(&self) -> (r: String)
        decreases self,
    {
        match self {
            Expression::Identifier(n) => {
                proof {
                    lemma_view_identifier(*n);
                    reveal(render_expr);
                }
                n.string()
            },
            Expression::Integer(n) => n.string(),
            Expression::Boolean(n) => n.string(),
            Expression::Str(n) => n.string(),
            Expression::Array(n) => {
                proof {
                    assert(decreases_to!(self => n));
                }
                n.string()
            },
            Expression::Hash(n) => {
                proof {
                    assert(decreases_to!(self => n));
                }
                n.string()
            },
            Expression::Prefix(n) => {
                proof {
                    assert(decreases_to!(self => n));
                }
                n.string()
            },
            Expression::Infix(n) => {
                proof {
                    assert(decreases_to!(self => n));
                }
                n.string()
            },
            Expression::If(n) => {
                proof {
                    assert(decreases_to!(self => n));
                }
                n.string()
            },
            Expression::Function(n) => {
                proof {
                    assert(decreases_to!(self => n));
                }
                n.string()
            },
            Expression::Call(n) => {
                proof {
                    assert(decreases_to!(self => n));
                }
                n.string()
            },
            Expression::Index(n) => {
                proof {
                    assert(decreases_to!(self => n));
                }
                n.string()
            },
        }
    }
}

impl Node for LetStatement {
    open spec fn literal(&self) -> Seq<char> {
        stmt_literal(self@)
    }

    open spec fn rendering(&self) -> Seq<char> {
        render_stmt(self@)
    }

    fn token_literal(&self) -> (r: String) {
        proof {
            self.lemma_view();
        }
        self.token.literal.clone()
    }

    fn string(&self) -> (r: String)
        decreases self,
    {
        proof {
            assert(decreases_to!(self => self.value));
        }
        let value = self.value.string();
        let mut out = self.token.literal.clone();
        out.append(" ");
        out.append(self.name.token.literal.as_str());
        out.append(" = ");
        out.append(value.as_str());
        out.append(";");
        proof {
            self.lemma_view();
            reveal(render_stmt);
            reveal(render_expr);
        }
        out
    }
}

impl Node for ReturnStatement {
    open spec fn literal(&self) -> Seq<char> {
        stmt_literal(self@)
    }

    open spec fn rendering(&self) -> Seq<char> {
        render_stmt(self@)
    }

    fn token_literal(&self) -> (r: String) {
        proof {
            self.lemma_view();
        }
        self.token.literal.clone()
    }

    fn string(&self) -> (r: String)
        decreases self,
    {
        proof {
            assert(decreases_to!(self => self.value));
        }
        let value = self.value.string();
        let mut out = self.token.literal.clone();
        out.append(" ");
        out.append(value.as_str());
        out.append(";");
        proof {
            self.lemma_view();
            reveal(render_stmt);
            reveal(render_expr);
        }
        out
    }
}

impl Node for ExpressionStatement {
    open spec fn literal(&self) -> Seq<char> {
        stmt_literal(self@)
    }

    open spec fn rendering(&self) -> Seq<char> {
        render_stmt(self@)
    }

    fn token_literal(&self) -> (r: String) {
        proof {
            self.lemma_view();
        }
        self.token.literal.clone()
    }

    fn string(&self) -> (r: String)
        decreases self,
    {
        proof {
            assert(decreases_to!(self => self.expression));
            self.lemma_view();
            reveal(render_stmt);
            reveal(render_expr);
        }
        self.expression.string()
    }
}

impl Node for BlockStatement {
    open spec fn literal(&self) -> Seq<char> {
        self@.token.literal
    }

    open spec fn rendering(&self) -> Seq<char> {
        render_entries(self@.statements)
    }

    fn token_literal(&self) -> (r: String) {
        proof {
            self.lemma_view();
        }
        self.token.literal.clone()
    }

    fn string(&self) -> (r: String)
        decreases self,
    {
        proof {
            assert(decreases_to!(self => self.statements));
            self.lemma_view();
        }
        render_statements(&self.statements)
    }
}

impl Node for Statement {
    open spec fn literal(&self) -> Seq<char> {
        stmt_literal(self@)
    }

    open spec fn rendering(&self) -> Seq<char> {
        render_stmt(self@)
    }

    fn token_literal(&self) -> (r: String) {
        match self {
            Statement::Let(n) => n.token_literal(),
            Statement::Return(n) => n.token_literal(),
            Statement::Expression(n) => n.token_literal(),
            Statement::Block(n) => {
                proof {
                    lemma_view_block_statement(*n);
                }
                n.token_literal()
            },
        }
    }

    fn string(&self) -> (r: String)
        decreases self,
    {
        match self {
            Statement::Let(n) => {
                proof {
                    assert(decreases_to!(self => n));
                }
                n.string()
            },
            Statement::Return(n) => {
                proof {
                    assert(decreases_to!(self => n));
                }
                n.string()
            },
            Statement::Expression(n) => {
                proof {
                    assert(decreases_to!(self => n));
                }
                n.string()
            },
            Statement::Block(n) => {
                proof {
                    assert(decreases_to!(self => n));
                    lemma_view_block_statement(*n);
                    reveal(render_stmt);
                    reveal(render_entries);
                }
                n.string()
            },
        }
    }
}

impl Node for Result<Statement, ParserError> {
    open spec fn literal(&self) -> Seq<char> {
        entry_literal(entry_view(*self))
    }

    open spec fn rendering(&self) -> Seq<char> {
        render_entry(entry_view(*self))
    }

    fn token_literal(&self) -> (r: String) {
        proof {
            lemma_view_entry(*self);
        }
        match self {
            Ok(s) => s.token_literal(),
            Err(_) => String::from_str("err"),
        }
    }

    fn string(&self) -> (r: String) {
        proof {
            lemma_view_entry(*self);
        }
        match self {
            Ok(s) => s.string(),
            Err(e) => e.get_err_msg(),
        }
    }
}

impl Node for Program {
    open spec fn literal(&self) -> Seq<char> {
        if self@.len() > 0 {
            entry_literal(self@[0])
        } else {
            Seq::empty()
        }
    }

    open spec fn rendering(&self) -> Seq<char> {
        render_entries(self@)
    }

    fn token_literal(&self) -> (r: String) {
        if self.statements.len() > 0 {
            self.statements[0].token_literal()
        } else {
            String::new()
        }
    }

    fn string(&self) -> (r: String) {
        render_statements(&self.statements)
    }
}

} // verus!
