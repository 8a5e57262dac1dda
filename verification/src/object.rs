//! Runtime values, hash keys and environments.

use vstd::prelude::*;
use vstd::std_specs::hash::DefaultHasherAdditionalSpecFns;
use vstd::string::StringExecFns;
use vstd::utf8::encode_utf8;
use core::hash::Hasher;
use std::collections::hash_map::DefaultHasher;
use crate::ast::{
    BlockStatement, BlockView, IdentView, Identifier, Node, bool_string, bool_text,
    clone_identifiers, idents_view, render_entries,
};
use crate::builtins::{builtin_named, find_builtin};
use crate::eval::{EvalError, EvalErrorView};
use crate::semantics::{hash_find, hash_insert};
use crate::text::{decimal, int_to_string};

verus! {

/// The kind of a value.
#[derive(Debug, Clone, Copy, PartialEq, Eq, Hash, Structural)]
pub enum ObjType {
    ReturnValue,
    Integer,
    Boolean,
    String,
    Array,
    Hash,
    Null,
    ObjVec,
    Error,
    Function,
    BuiltinFunction,
}

impl ObjType {
    /// The name of a kind, as diagnostics write it.
    pub open spec fn name(self) -> Seq<char> {
        match self {
            ObjType::ReturnValue => "Return Value"@,
            ObjType::Integer => "Integer"@,
            ObjType::Boolean => "Boolean"@,
            ObjType::String => "String"@,
            ObjType::Null => "Null"@,
            ObjType::ObjVec => "ObjVec"@,
            ObjType::Error => "Error"@,
            ObjType::Function => "Function"@,
            ObjType::BuiltinFunction => "Builtin Function"@,
            ObjType::Array => "Array"@,
            ObjType::Hash => "Hash"@,
        }
    }

    pub fn string(&self) -> (r: String)
        ensures
            r@ == self.name(),
    {
        match self {
            ObjType::ReturnValue => String::from_str("Return Value"),
            ObjType::Integer => String::from_str("Integer"),
            ObjType::Boolean => String::from_str("Boolean"),
            ObjType::String => String::from_str("String"),
            ObjType::Null => String::from_str("Null"),
            ObjType::ObjVec => String::from_str("ObjVec"),
            ObjType::Error => String::from_str("Error"),
            ObjType::Function => String::from_str("Function"),
            ObjType::BuiltinFunction => String::from_str("Builtin Function"),
            ObjType::Array => String::from_str("Array"),
            ObjType::Hash => String::from_str("Hash"),
        }
    }
}

/// The key under which a hash stores a pair: the kind of the key value and
/// a digest of it.
#[derive(Debug, Clone, Copy, PartialEq, Eq, Hash, Structural)]
pub struct HashKey {
    pub t: ObjType,
    pub val: u64,
}

/// The functions that every environment knows by name.
#[derive(Debug, Clone, Copy, PartialEq, Eq, Hash, Structural)]
pub enum BuiltinFn {
    Len,
    First,
    Last,
    Rest,
    Push,
}

/// A value, as a value of mathematics.
pub enum ValueView {
    Integer(i64),
    Boolean(bool),
    Str(Seq<char>),
    Null,
    Array(Seq<ValueView>),
    Hash(Seq<(HashKey, ValueView, ValueView)>),
    Function { params: Seq<IdentView>, body: BlockView, env: Box<EnvView> },
    Builtin(BuiltinFn),
    ReturnValue(Box<ValueView>),
}

/// An environment, as a value of mathematics: the bindings of the local
/// frame and the enclosing environment.
pub struct EnvView {
    pub store: Map<Seq<char>, ValueView>,
    pub outer: Option<Box<EnvView>>,
}

#[derive(Debug, PartialEq)]
pub struct Integer {
    pub val: i64,
}

#[derive(Debug, PartialEq)]
pub struct Boolean {
    pub val: bool,
}

#[derive(Debug, PartialEq)]
pub struct StringObj {
    pub val: String,
}

#[derive(Debug, PartialEq)]
pub struct Null {}

#[derive(Debug, PartialEq)]
pub struct Array {
    pub mems: Vec<Value>,
}

/// A key value and the value stored under it.
#[derive(Debug, PartialEq)]
pub struct HashPair(pub Value, pub Value);

/// A hash: its pairs in the order in which their keys first came, each under
/// the hash key of its key value.
#[derive(Debug, PartialEq)]
pub struct Hash {
    pub pairs: Vec<(HashKey, HashPair)>,
}

/// A function value: parameters, body, and the environment in which the
/// function literal was evaluated.
#[derive(Debug, PartialEq)]
pub struct Function {
    pub params: Vec<Identifier>,
    pub body: BlockStatement,
    pub env: Env,
}

#[derive(Debug, PartialEq)]
pub struct Builtin {
    pub func: BuiltinFn,
}

/// The marker that `return` wraps around its value.
#[derive(Debug, PartialEq)]
pub struct ReturnValue {
    pub val: Box<Value>,
}

/// A runtime value.
#[derive(Debug, PartialEq)]
pub enum Value {
    Integer(Integer),
    Boolean(Boolean),
    String(StringObj),
    Null(Null),
    Array(Array),
    Hash(Hash),
    Function(Function),
    Builtin(Builtin),
    ReturnValue(ReturnValue),
}

/// An environment: the bindings of the local frame, the latest last, and
/// the enclosing environment.
#[derive(Debug, PartialEq)]
pub struct Env {
    pub store: Vec<(String, Value)>,
    pub outer: Option<Box<Env>>,
}

/// The view of a value.
#[verifier::opaque]
pub open spec fn value_view(v: Value) -> ValueView
    decreases v,
{
    match v {
        Value::Integer(n) => ValueView::Integer(n.val),
        Value::Boolean(n) => ValueView::Boolean(n.val),
        Value::String(n) => ValueView::Str(n.val@),
        Value::Null(_) => ValueView::Null,
        Value::Array(n) => ValueView::Array(
            Seq::new(
                n.mems@.len(),
                |i: int|
                    if 0 <= i < n.mems@.len() {
                        value_view(n.mems@[i])
                    } else {
                        arbitrary()
                    },
            ),
        ),
        Value::Hash(n) => ValueView::Hash(
            Seq::new(
                n.pairs@.len(),
                |i: int|
                    if 0 <= i < n.pairs@.len() {
                        (
                            n.pairs@[i].0,
                            value_view(n.pairs@[i].1.0),
                            value_view(n.pairs@[i].1.1),
                        )
                    } else {
                        arbitrary()
                    },
            ),
        ),
        Value::Function(n) => ValueView::Function {
            params: idents_view(n.params@),
            body: n.body@,
            env: Box::new(env_view(n.env)),
        },
        Value::Builtin(n) => ValueView::Builtin(n.func),
        Value::ReturnValue(n) => ValueView::ReturnValue(Box::new(value_view(*n.val))),
    }
}

/// The view of an environment.
#[verifier::opaque]
pub open spec fn env_view(e: Env) -> EnvView
    decreases e,
{
    EnvView {
        store: store_view(e.store@),
        outer: match e.outer {
            Some(o) => Some(Box::new(env_view(*o))),
            None => None,
        },
    }
}

/// The bindings that a frame holds: of two bindings of one name the later
/// counts.
#[verifier::opaque]
pub open spec fn store_view(s: Seq<(String, Value)>) -> Map<Seq<char>, ValueView>
    decreases s,
{
    if s.len() == 0 {
        Map::empty()
    } else {
        store_view(s.drop_last()).insert(s.last().0@, value_view(s.last().1))
    }
}

impl View for Value {
    type V = ValueView;

    open spec fn view(&self) -> ValueView {
        value_view(*self)
    }
}

impl View for Env {
    type V = EnvView;

    open spec fn view(&self) -> EnvView {
        env_view(*self)
    }
}

/// The views of a sequence of values.
pub open spec fn values_view(s: Seq<Value>) -> Seq<ValueView> {
    Seq::new(s.len(), |i: int| s[i]@)
}

/// The views of the pairs of a hash.
pub open spec fn hash_pairs_view(s: Seq<(HashKey, HashPair)>) -> Seq<
    (HashKey, ValueView, ValueView),
> {
    Seq::new(s.len(), |i: int| (s[i].0, s[i].1.0@, s[i].1.1@))
}

/// The view of an environment that may be absent.
pub open spec fn env_option_view(e: Option<Box<Env>>) -> Option<Box<EnvView>> {
    match e {
        Some(o) => Some(Box::new(o@)),
        None => None,
    }
}

impl View for Integer {
    type V = ValueView;

    open spec fn view(&self) -> ValueView {
        ValueView::Integer(self.val)
    }
}

impl View for Boolean {
    type V = ValueView;

    open spec fn view(&self) -> ValueView {
        ValueView::Boolean(self.val)
    }
}

impl View for StringObj {
    type V = ValueView;

    open spec fn view(&self) -> ValueView {
        ValueView::Str(self.val@)
    }
}

impl View for Null {
    type V = ValueView;

    open spec fn view(&self) -> ValueView {
        ValueView::Null
    }
}

impl View for Array {
    type V = ValueView;

    open spec fn view(&self) -> ValueView {
        ValueView::Array(values_view(self.mems@))
    }
}

impl View for Hash {
    type V = ValueView;

    open spec fn view(&self) -> ValueView {
        ValueView::Hash(hash_pairs_view(self.pairs@))
    }
}

impl View for Function {
    type V = ValueView;

    open spec fn view(&self) -> ValueView {
        ValueView::Function {
            params: idents_view(self.params@),
            body: self.body@,
            env: Box::new(self.env@),
        }
    }
}

impl View for Builtin {
    type V = ValueView;

    open spec fn view(&self) -> ValueView {
        ValueView::Builtin(self.func)
    }
}

impl View for ReturnValue {
    type V = ValueView;

    open spec fn view(&self) -> ValueView {
        ValueView::ReturnValue(Box::new(self.val@))
    }
}

/// The view of a value is the view of what its variant holds.
pub proof fn lemma_view_value(v: Value)
    ensures
        v@ == match v {
            Value::Integer(n) => n@,
            Value::Boolean(n) => n@,
            Value::String(n) => n@,
            Value::Null(n) => n@,
            Value::Array(n) => n@,
            Value::Hash(n) => n@,
            Value::Function(n) => n@,
            Value::Builtin(n) => n@,
            Value::ReturnValue(n) => n@,
        },
{
    reveal(value_view);
    reveal(env_view);
    match v {
        Value::Array(n) => {
            assert(v@->Array_0 =~= values_view(n.mems@));
        },
        Value::Hash(n) => {
            assert(v@->Hash_0 =~= hash_pairs_view(n.pairs@));
        },
        _ => {},
    }
}

impl Env {
    /// The view of an environment, by its fields.
    pub proof fn lemma_view(self)
        ensures
            self@ == (EnvView { store: store_view(self.store@), outer: env_option_view(self.outer) }),
    {
        reveal(env_view);
        reveal(store_view);
    }
}

/// A frame without bindings.
pub proof fn lemma_store_empty(s: Seq<(String, Value)>)
    requires
        s.len() == 0,
    ensures
        store_view(s) == Map::<Seq<char>, ValueView>::empty(),
{
    reveal(store_view);
}

/// A frame with one more binding at its end.
pub proof fn lemma_store_push(s: Seq<(String, Value)>, name: String, val: Value)
    ensures
        store_view(s.push((name, val))) == store_view(s).insert(name@, val@),
{
    reveal(store_view);
    reveal(value_view);
    assert(s.push((name, val)).drop_last() =~= s);
}


impl Clone for Integer {
    fn clone(&self) -> (r: Self)
        ensures
            r@ == self@,
    {
        Integer { val: self.val }
    }
}

impl Clone for Boolean {
    fn clone(&self) -> (r: Self)
        ensures
            r@ == self@,
    {
        Boolean { val: self.val }
    }
}

impl Clone for StringObj {
    fn clone(&self) -> (r: Self)
        ensures
            r@ == self@,
    {
        StringObj { val: self.val.clone() }
    }
}

impl Clone for Null {
    fn clone(&self) -> (r: Self)
        ensures
            r@ == self@,
    {
        Null {  }
    }
}

impl Clone for Builtin {
    fn clone(&self) -> (r: Self)
        ensures
            r@ == self@,
    {
        Builtin { func: self.func }
    }
}

/// A copy of a sequence of values.
pub fn clone_values(v: &Vec<Value>) -> (r: Vec<Value>)
    ensures
        values_view(r@) == values_view(v@),
    decreases v,
{
    let mut out: Vec<Value> = Vec::new();
    let mut i: usize = 0;
    while i < v.len()
        invariant
            i <= v.len(),
            out@.len() == i,
            forall|j: int| 0 <= j < i ==> (#[trigger] out@[j])@ == v@[j]@,
        decreases v.len() - i,
    {
        proof {
            assert(decreases_to!(v => v@));
            assert(decreases_to!(v@ => v@[i as int]));
        }
        let item = v[i].clone();
        out.push(item);
        i = i + 1;
    }
    assert(values_view(out@) =~= values_view(v@));
    out
}

impl Clone for Array {
    fn clone(&self) -> (r: Self)
        ensures
            r@ == self@,
        decreases self,
    {
        proof {
            assert(decreases_to!(self => self.mems));
        }
        Array { mems: clone_values(&self.mems) }
    }
}

impl Clone for HashPair {
    fn clone(&self) -> (r: Self)
        ensures
            r.0@ == self.0@,
            r.1@ == self.1@,
        decreases self,
    {
        proof {
            assert(decreases_to!(self => self.0));
            assert(decreases_to!(self => self.1));
        }
        HashPair(self.0.clone(), self.1.clone())
    }
}

impl Clone for Hash {
    fn clone(&self) -> (r: Self)
        ensures
            r@ == self@,
        decreases self,
    {
        let mut pairs: Vec<(HashKey, HashPair)> = Vec::new();
        let mut i: usize = 0;
        while i < self.pairs.len()
            invariant
                i <= self.pairs.len(),
                pairs@.len() == i,
                forall|j: int|
                    0 <= j < i ==> {
                        &&& (#[trigger] pairs@[j]).0 == self.pairs@[j].0
                        &&& pairs@[j].1.0@ == self.pairs@[j].1.0@
                        &&& pairs@[j].1.1@ == self.pairs@[j].1.1@
                    },
            decreases self.pairs.len() - i,
        {
            proof {
                assert(decreases_to!(self => self.pairs));
                assert(decreases_to!(self.pairs => self.pairs@));
                assert(decreases_to!(self.pairs@ => self.pairs@[i as int]));
                assert(decreases_to!(self.pairs@[i as int] => self.pairs@[i as int].1));
            }
            let pair = self.pairs[i].1.clone();
            pairs.push((self.pairs[i].0, pair));
            i = i + 1;
        }
        let r = Hash { pairs };
        assert(hash_pairs_view(r.pairs@) =~= hash_pairs_view(self.pairs@));
        r
    }
}

impl Clone for Function {
    fn clone(&self) -> (r: Self)
        ensures
            r@ == self@,
        decreases self,
    {
        proof {
            assert(decreases_to!(self => self.env));
        }
        Function {
            params: clone_identifiers(&self.params),
            body: self.body.clone(),
            env: self.env.clone(),
        }
    }
}

impl Clone for ReturnValue {
    fn clone(&self) -> (r: Self)
        ensures
            r@ == self@,
        decreases self,
    {
        proof {
            assert(decreases_to!(self => self.val));
        }
        ReturnValue { val: Box::new((*self.val).clone()) }
    }
}

impl Clone for Value {
    fn clone(&self) -> (r: Self)
        ensures
            r@ == self@,
        decreases self,
    {
        let r = match self {
            Value::Integer(n) => Value::Integer(n.clone()),
            Value::Boolean(n) => Value::Boolean(n.clone()),
            Value::String(n) => Value::String(n.clone()),
            Value::Null(n) => Value::Null(n.clone()),
            Value::Array(n) => {
                proof {
                    assert(decreases_to!(self => n));
                }
                Value::Array(n.clone())
            },
            Value::Hash(n) => {
                proof {
                    assert(decreases_to!(self => n));
                }
                Value::Hash(n.clone())
            },
            Value::Function(n) => {
                proof {
                    assert(decreases_to!(self => n));
                }
                Value::Function(n.clone())
            },
            Value::Builtin(n) => Value::Builtin(n.clone()),
            Value::ReturnValue(n) => {
                proof {
                    assert(decreases_to!(self => n));
                }
                Value::ReturnValue(n.clone())
            },
        };
        proof {
            lemma_view_value(r);
            lemma_view_value(*self);
        }
        r
    }
}

impl Clone for Env {
    fn clone(&self) -> (r: Self)
        ensures
            r@ == self@,
        decreases self,
    {
        let mut store: Vec<(String, Value)> = Vec::new();
        let mut i: usize = 0;
        proof {
            lemma_store_empty(store@);
            lemma_store_empty(self.store@.take(0));
        }
        while i < self.store.len()
            invariant
                i <= self.store.len(),
                store_view(store@) == store_view(self.store@.take(i as int)),
            decreases self.store.len() - i,
        {
            proof {
                assert(decreases_to!(self => self.store));
                assert(decreases_to!(self.store => self.store@));
                assert(decreases_to!(self.store@ => self.store@[i as int]));
                assert(decreases_to!(self.store@[i as int] => self.store@[i as int].1));
            }
            let name = self.store[i].0.clone();
            let val = self.store[i].1.clone();
            proof {
                lemma_store_push(store@, name, val);
                lemma_store_push(
                    self.store@.take(i as int),
                    self.store@[i as int].0,
                    self.store@[i as int].1,
                );
                assert(self.store@.take(i as int + 1) =~= self.store@.take(i as int).push(
                    self.store@[i as int],
                ));
            }
            store.push((name, val));
            i = i + 1;
        }
        proof {
            assert(self.store@.take(i as int) =~= self.store@);
            assert(decreases_to!(self => self.outer));
        }
        let outer = match &self.outer {
            Some(o) => {
                proof {
                    assert(decreases_to!(self.outer => o));
                }
                Some(Box::new((**o).clone()))
            },
            None => None,
        };
        let r = Env { store, outer };
        proof {
            r.lemma_view();
            self.lemma_view();
        }
        r
    }
}

/// The digest of an integer: the integer itself, read as unsigned.
pub open spec fn integer_digest(n: i64) -> u64 {
    if n >= 0 {
        n as u64
    } else {
        (n + 0x1_0000_0000_0000_0000) as u64
    }
}

/// The digest of a boolean: 1 for true, 0 for false.
pub open spec fn boolean_digest(b: bool) -> u64 {
    if b {
        1
    } else {
        0
    }
}

/// The digest of a string: what the standard hasher makes of its bytes.
pub open spec fn string_digest(s: Seq<char>) -> u64 {
    DefaultHasher::spec_finish(seq![encode_utf8(s)])
}

/// The hash key of a value; only integers, booleans and strings have one.
pub open spec fn hash_key_of(v: ValueView) -> Option<HashKey> {
    match v {
        ValueView::Integer(n) => Some(HashKey { t: ObjType::Integer, val: integer_digest(n) }),
        ValueView::Boolean(b) => Some(HashKey { t: ObjType::Boolean, val: boolean_digest(b) }),
        ValueView::Str(s) => Some(HashKey { t: ObjType::String, val: string_digest(s) }),
        _ => None,
    }
}

/// A value that can be the key of a hash.
pub trait Hashable {
    /// The key under which the value is stored.
    spec fn key(&self) -> HashKey;

    fn hash_key(&self) -> (r: HashKey)
        ensures
            r == self.key(),
    ;
}

impl Hashable for Integer {
    open spec fn key(&self) -> HashKey {
        HashKey { t: ObjType::Integer, val: integer_digest(self.val) }
    }

    fn hash_key(&self) -> (r: HashKey) {
        let val: u64 = if self.val >= 0 {
            self.val as u64
        } else {
            u64::MAX - ((-(self.val + 1)) as u64)
        };
        HashKey { t: ObjType::Integer, val }
    }
}

impl Hashable for Boolean {
    open spec fn key(&self) -> HashKey {
        HashKey { t: ObjType::Boolean, val: boolean_digest(self.val) }
    }

    fn hash_key(&self) -> (r: HashKey) {
        let val: u64 = if self.val {
            1
        } else {
            0
        };
        HashKey { t: ObjType::Boolean, val }
    }
}

impl Hashable for StringObj {
    open spec fn key(&self) -> HashKey {
        HashKey { t: ObjType::String, val: string_digest(self.val@) }
    }

    fn hash_key(&self) -> (r: HashKey) {
        let mut h = DefaultHasher::new();
        h.write(self.val.as_str().as_bytes());
        assert(h@ =~= seq![encode_utf8(self.val@)]);
        HashKey { t: ObjType::String, val: h.finish() }
    }
}

/// The kind of a value.
pub open spec fn kind_of(v: ValueView) -> ObjType {
    match v {
        ValueView::Integer(_) => ObjType::Integer,
        ValueView::Boolean(_) => ObjType::Boolean,
        ValueView::Str(_) => ObjType::String,
        ValueView::Null => ObjType::Null,
        ValueView::Array(_) => ObjType::Array,
        ValueView::Hash(_) => ObjType::Hash,
        ValueView::Function { params, body, env } => ObjType::Function,
        ValueView::Builtin(_) => ObjType::BuiltinFunction,
        ValueView::ReturnValue(_) => ObjType::ReturnValue,
    }
}

/// The names of parameters, separated by commas.
pub open spec fn join_params(s: Seq<IdentView>) -> Seq<char>
    decreases s.len(),
{
    if s.len() == 0 {
        Seq::empty()
    } else if s.len() == 1 {
        s[0].value
    } else {
        join_params(s.drop_last()) + ","@ + s.last().value
    }
}

/// A value as the user sees it.
#[verifier::opaque]
pub open spec fn inspect(v: ValueView) -> Seq<char>
    decreases v,
{
    match v {
        ValueView::Integer(n) => decimal(n as int),
        ValueView::Boolean(b) => bool_text(b),
        ValueView::Str(s) => s,
        ValueView::Null => "null"@,
        ValueView::Array(items) => "["@ + inspect_items(items) + "]"@,
        ValueView::Hash(pairs) => "["@ + inspect_pairs(pairs) + "]"@,
        ValueView::Function { params, body, env } => "fn("@ + join_params(params) + ")\n"@
            + render_entries(body.statements) + "\n"@,
        ValueView::Builtin(_) => "Builtin Function"@,
        ValueView::ReturnValue(inner) => inspect(*inner),
    }
}

/// The elements of an array as the user sees them, separated by `, `.
#[verifier::opaque]
pub open spec fn inspect_items(s: Seq<ValueView>) -> Seq<char>
    decreases s,
{
    if s.len() == 0 {
        Seq::empty()
    } else if s.len() == 1 {
        inspect(s[0])
    } else {
        inspect_items(s.drop_last()) + ", "@ + inspect(s.last())
    }
}

/// The pairs of a hash as the user sees them: `key : value`, separated by `, `.
#[verifier::opaque]
pub open spec fn inspect_pairs(s: Seq<(HashKey, ValueView, ValueView)>) -> Seq<char>
    decreases s,
{
    if s.len() == 0 {
        Seq::empty()
    } else if s.len() == 1 {
        inspect(s[0].1) + " : "@ + inspect(s[0].2)
    } else {
        inspect_pairs(s.drop_last()) + ", "@ + inspect(s.last().1) + " : "@ + inspect(s.last().2)
    }
}

/// An object of the language: it has a kind and a form in which the user
/// sees it.
pub trait Obj {
    /// The kind of the object.
    spec fn kind(&self) -> ObjType;

    /// The object as the user sees it.
    spec fn inspection(&self) -> Seq<char>;

    fn get_type(&self) -> (r: ObjType)
        ensures
            r == self.kind(),
    ;

    fn inspect_obj(&self) -> (r: String)
        ensures
            r@ == self.inspection(),
    ;
}

impl Obj for Integer {
    open spec fn kind(&self) -> ObjType {
        ObjType::Integer
    }

    open spec fn inspection(&self) -> Seq<char> {
        inspect(self@)
    }

    fn get_type(&self) -> (r: ObjType) {
        ObjType::Integer
    }

    fn inspect_obj(&self) -> (r: String) {
        proof {
            reveal(inspect);
        }
        int_to_string(self.val)
    }
}

impl Obj for Boolean {
    open spec fn kind(&self) -> ObjType {
        ObjType::Boolean
    }

    open spec fn inspection(&self) -> Seq<char> {
        inspect(self@)
    }

    fn get_type(&self) -> (r: ObjType) {
        ObjType::Boolean
    }

    fn inspect_obj(&self) -> (r: String) {
        proof {
            reveal(inspect);
        }
        bool_string(self.val)
    }
}

impl Obj for StringObj {
    open spec fn kind(&self) -> ObjType {
        ObjType::String
    }

    open spec fn inspection(&self) -> Seq<char> {
        inspect(self@)
    }

    fn get_type(&self) -> (r: ObjType) {
        ObjType::String
    }

    fn inspect_obj(&self) -> (r: String) {
        proof {
            reveal(inspect);
        }
        self.val.clone()
    }
}

impl Obj for Null {
    open spec fn kind(&self) -> ObjType {
        ObjType::Null
    }

    open spec fn inspection(&self) -> Seq<char> {
        inspect(self@)
    }

    fn get_type(&self) -> (r: ObjType) {
        ObjType::Null
    }

    fn inspect_obj(&self) -> (r: String) {
        proof {
            reveal(inspect);
        }
        String::from_str("null")
    }
}

impl Obj for Builtin {
    open spec fn kind(&self) -> ObjType {
        ObjType::BuiltinFunction
    }

    open spec fn inspection(&self) -> Seq<char> {
        inspect(self@)
    }

    fn get_type(&self) -> (r: ObjType) {
        ObjType::BuiltinFunction
    }

    fn inspect_obj(&self) -> (r: String) {
        proof {
            reveal(inspect);
        }
        String::from_str("Builtin Function")
    }
}

impl Obj for Array {
    open spec fn kind(&self) -> ObjType {
        ObjType::Array
    }

    open spec fn inspection(&self) -> Seq<char> {
        inspect(self@)
    }

    fn get_type(&self) -> (r: ObjType) {
        ObjType::Array
    }

    fn inspect_obj(&self) -> (r: String)
        decreases self,
    {
        let ghost views = values_view(self.mems@);
        let mut inner = String::new();
        let mut i: usize = 0;
        proof {
            reveal(inspect_items);
            assert(views.take(0) =~= Seq::<ValueView>::empty());
        }
        while i < self.mems.len()
            invariant
                i <= self.mems.len(),
                views == values_view(self.mems@),
                inner@ == inspect_items(views.take(i as int)),
            decreases self.mems.len() - i,
        {
            proof {
                assert(decreases_to!(self => self.mems));
                assert(decreases_to!(self.mems => self.mems@));
                assert(decreases_to!(self.mems@ => self.mems@[i as int]));
            }
            let item = self.mems[i].inspect_obj();
            if i > 0 {
                inner.append(", ");
            }
            inner.append(item.as_str());
            proof {
                reveal(inspect_items);
                reveal(inspect);
                let t = views.take(i as int + 1);
                assert(t.drop_last() =~= views.take(i as int));
                assert(t.last() == self.mems@[i as int]@);
                if i == 0 {
                    assert(Seq::<char>::empty() + item@ =~= item@);
                }
            }
            i = i + 1;
        }
        let mut out = String::from_str("[");
        out.append(inner.as_str());
        out.append("]");
        proof {
            assert(views.take(i as int) =~= views);
            reveal(inspect);
            reveal(inspect_items);
        }
        out
    }
}

impl Obj for Hash {
    open spec fn kind(&self) -> ObjType {
        ObjType::Hash
    }

    open spec fn inspection(&self) -> Seq<char> {
        inspect(self@)
    }

    fn get_type(&self) -> (r: ObjType) {
        ObjType::Hash
    }

    fn inspect_obj(&self) -> (r: String)
        decreases self,
    {
        let ghost views = hash_pairs_view(self.pairs@);
        let mut inner = String::new();
        let mut i: usize = 0;
        proof {
            reveal(inspect_pairs);
            assert(views.take(0) =~= Seq::<(HashKey, ValueView, ValueView)>::empty());
        }
        while i < self.pairs.len()
            invariant
                i <= self.pairs.len(),
                views == hash_pairs_view(self.pairs@),
                inner@ == inspect_pairs(views.take(i as int)),
            decreases self.pairs.len() - i,
        {
            proof {
                assert(decreases_to!(self => self.pairs));
                assert(decreases_to!(self.pairs => self.pairs@));
                assert(decreases_to!(self.pairs@ => self.pairs@[i as int]));
                assert(decreases_to!(self.pairs@[i as int] => self.pairs@[i as int].1));
                assert(decreases_to!(self.pairs@[i as int].1 => self.pairs@[i as int].1.0));
                assert(decreases_to!(self.pairs@[i as int].1 => self.pairs@[i as int].1.1));
            }
            let key = self.pairs[i].1.0.inspect_obj();
            let value = self.pairs[i].1.1.inspect_obj();
            if i > 0 {
                inner.append(", ");
            }
            inner.append(key.as_str());
            inner.append(" : ");
            inner.append(value.as_str());
            proof {
                reveal(inspect_pairs);
                reveal(inspect);
                let t = views.take(i as int + 1);
                assert(t.drop_last() =~= views.take(i as int));
                assert(t.last() == (
                    self.pairs@[i as int].0,
                    self.pairs@[i as int].1.0@,
                    self.pairs@[i as int].1.1@,
                ));
                if i == 0 {
                    assert(Seq::<char>::empty() + key@ =~= key@);
                }
            }
            i = i + 1;
        }
        let mut out = String::from_str("[");
        out.append(inner.as_str());
        out.append("]");
        proof {
            assert(views.take(i as int) =~= views);
            reveal(inspect);
            reveal(inspect_pairs);
        }
        out
    }
}

/// Writes parameter names, separated by commas.
pub fn join_parameters(v: &Vec<Identifier>) -> (r: String)
    ensures
        r@ == join_params(idents_view(v@)),
{
    let ghost views = idents_view(v@);
    let mut out = String::new();
    let mut i: usize = 0;
    proof {
        assert(views.take(0) =~= Seq::<IdentView>::empty());
    }
    while i < v.len()
        invariant
            i <= v.len(),
            views == idents_view(v@),
            out@ == join_params(views.take(i as int)),
        decreases v.len() - i,
    {
        if i > 0 {
            out.append(",");
        }
        out.append(v[i].value.as_str());
        proof {
            let t = views.take(i as int + 1);
            assert(t.drop_last() =~= views.take(i as int));
            assert(t.last() == v@[i as int]@);
            if i == 0 {
                assert(Seq::<char>::empty() + v@[i as int].value@ =~= v@[i as int].value@);
            }
        }
        i = i + 1;
    }
    proof {
        assert(views.take(i as int) =~= views);
    }
    out
}

impl Obj for Function {
    open spec fn kind(&self) -> ObjType {
        ObjType::Function
    }

    open spec fn inspection(&self) -> Seq<char> {
        inspect(self@)
    }

    fn get_type(&self) -> (r: ObjType) {
        ObjType::Function
    }

    fn inspect_obj(&self) -> (r: String) {
        let params = join_parameters(&self.params);
        let body = self.body.string();
        let mut out = String::from_str("fn(");
        out.append(params.as_str());
        out.append(")\n");
        out.append(body.as_str());
        out.append("\n");
        proof {
            reveal(inspect);
        }
        out
    }
}

impl Obj for ReturnValue {
    open spec fn kind(&self) -> ObjType {
        ObjType::ReturnValue
    }

    open spec fn inspection(&self) -> Seq<char> {
        inspect(self@)
    }

    fn get_type(&self) -> (r: ObjType) {
        ObjType::ReturnValue
    }

    fn inspect_obj(&self) -> (r: String)
        decreases self,
    {
        proof {
            reveal(inspect);
            assert(decreases_to!(self => self.val));
        }
        self.val.inspect_obj()
    }
}

impl Obj for Value {
    open spec fn kind(&self) -> ObjType {
        kind_of(self@)
    }

    open spec fn inspection(&self) -> Seq<char> {
        inspect(self@)
    }

    fn get_type(&self) -> (r: ObjType) {
        proof {
            lemma_view_value(*self);
        }
        match self {
            Value::Integer(n) => n.get_type(),
            Value::Boolean(n) => n.get_type(),
            Value::String(n) => n.get_type(),
            Value::Null(n) => n.get_type(),
            Value::Array(n) => n.get_type(),
            Value::Hash(n) => n.get_type(),
            Value::Function(n) => n.get_type(),
            Value::Builtin(n) => n.get_type(),
            Value::ReturnValue(n) => n.get_type(),
        }
    }

    fn inspect_obj(&self) -> (r: String)
        decreases self,
    {
        proof {
            lemma_view_value(*self);
        }
        match self {
            Value::Integer(n) => n.inspect_obj(),
            Value::Boolean(n) => n.inspect_obj(),
            Value::String(n) => n.inspect_obj(),
            Value::Null(n) => n.inspect_obj(),
            Value::Array(n) => {
                proof {
                    assert(decreases_to!(self => n));
                }
                n.inspect_obj()
            },
            Value::Hash(n) => {
                proof {
                    assert(decreases_to!(self => n));
                }
                n.inspect_obj()
            },
            Value::Function(n) => n.inspect_obj(),
            Value::Builtin(n) => n.inspect_obj(),
            Value::ReturnValue(n) => {
                proof {
                    assert(decreases_to!(self => n));
                }
                n.inspect_obj()
            },
        }
    }
}

/// The view of what an evaluation returns.
pub open spec fn value_result_view(r: Result<Value, EvalError>) -> Result<ValueView, EvalErrorView> {
    match r {
        Ok(v) => Ok(v@),
        Err(e) => Err(e@),
    }
}

impl Obj for Result<Value, EvalError> {
    open spec fn kind(&self) -> ObjType {
        match self {
            Ok(v) => kind_of(v@),
            Err(_) => ObjType::Error,
        }
    }

    open spec fn inspection(&self) -> Seq<char> {
        match self {
            Ok(v) => inspect(v@),
            Err(e) => e@.message(),
        }
    }

    fn get_type(&self) -> (r: ObjType) {
        match self {
            Ok(o) => o.get_type(),
            Err(_) => ObjType::Error,
        }
    }

    fn inspect_obj(&self) -> (r: String) {
        match self {
            Ok(o) => o.inspect_obj(),
            Err(e) => e.get_err_msg(),
        }
    }
}

/// What a name stands for in an environment: a built-in function, else the
/// binding of the local frame, else what the name stands for in the
/// enclosing environment.
pub open spec fn lookup(env: EnvView, name: Seq<char>) -> Option<ValueView>
    decreases env,
{
    match builtin_named(name) {
        Some(f) => Some(ValueView::Builtin(f)),
        None => lookup_frames(env, name),
    }
}

/// What a name stands for in the frames of an environment, the local one
/// first.
pub open spec fn lookup_frames(env: EnvView, name: Seq<char>) -> Option<ValueView>
    decreases env,
{
    if env.store.contains_key(name) {
        Some(env.store[name])
    } else {
        match env.outer {
            Some(o) => lookup_frames(*o, name),
            None => None,
        }
    }
}

/// The error for a name that stands for nothing.
pub open spec fn undefined() -> EvalErrorView {
    EvalErrorView::Undefined("Identifier not defined"@)
}

/// What looking a name up returns.
pub open spec fn lookup_result(found: Option<ValueView>) -> Result<ValueView, EvalErrorView> {
    match found {
        Some(v) => Ok(v),
        None => Err(undefined()),
    }
}

impl Env {
    /// A fresh frame inside `outer`, or a root environment.
    pub fn new(outer: Option<Box<Env>>) -> (r: Self)
        ensures
            r@ == (EnvView { store: Map::empty(), outer: env_option_view(outer) }),
    {
        let r = Env { store: Vec::new(), outer };
        proof {
            r.lemma_view();
            lemma_store_empty(r.store@);
        }
        r
    }

    pub fn get(&self, name: String) -> (r: Result<Value, EvalError>)
        ensures
            value_result_view(r) == lookup_result(lookup(self@, name@)),
    {
        match find_builtin(name.as_str()) {
            Some(func) => {
                let r = Value::Builtin(Builtin { func });
                proof {
                    lemma_view_value(r);
                }
                Ok(r)
            },
            None => self.get_desc(name),
        }
    }

    /// Looks a name up in the frames, the local one first.
    pub fn get_desc(&self, name: String) -> (r: Result<Value, EvalError>)
        ensures
            value_result_view(r) == lookup_result(lookup_frames(self@, name@)),
        decreases self,
    {
        proof {
            self.lemma_view();
            lemma_store_empty(self.store@.take(0));
        }
        let mut i: usize = self.store.len();
        while i > 0
            invariant
                i <= self.store.len(),
                forall|j: int| i <= j < self.store.len() ==> (#[trigger] self.store@[j]).0@ != name@,
            decreases i,
        {
            i = i - 1;
            if self.store[i].0 == name {
                let r = self.store[i].1.clone();
                proof {
                    self.lemma_view();
                    lemma_store_lookup(self.store@, name@, i as int);
                }
                return Ok(r);
            }
        }
        proof {
            lemma_store_absent(self.store@, name@);
        }
        match &self.outer {
            Some(o) => {
                proof {
                    assert(decreases_to!(self => self.outer));
                    assert(decreases_to!(self.outer => o));
                }
                o.get_desc(name)
            },
            None => Err(EvalError::Undefined(String::from_str("Identifier not defined"))),
        }
    }

    pub fn set(&mut self, name: String, val: Value)
        ensures
            final(self)@ == (EnvView {
                store: old(self)@.store.insert(name@, val@),
                outer: old(self)@.outer,
            }),
    {
        proof {
            self.lemma_view();
            lemma_store_push(self.store@, name, val);
        }
        self.store.push((name, val));
        proof {
            self.lemma_view();
        }
    }
}

/// The binding of a name is the last one in the frame.
pub proof fn lemma_store_lookup(s: Seq<(String, Value)>, name: Seq<char>, i: int)
    requires
        0 <= i < s.len(),
        s[i].0@ == name,
        forall|j: int| i < j < s.len() ==> (#[trigger] s[j]).0@ != name,
    ensures
        store_view(s).contains_key(name),
        store_view(s)[name] == s[i].1@,
    decreases s.len(),
{
    reveal(store_view);
    reveal(value_view);
    if i < s.len() - 1 {
        let t = s.drop_last();
        assert(s.last().0@ != name);
        assert forall|j: int| i < j < t.len() implies (#[trigger] t[j]).0@ != name by {
            assert(t[j] == s[j]);
        }
        lemma_store_lookup(t, name, i);
    }
}

/// A name that no binding of the frame has is not bound in it.
pub proof fn lemma_store_absent(s: Seq<(String, Value)>, name: Seq<char>)
    requires
        forall|j: int| 0 <= j < s.len() ==> (#[trigger] s[j]).0@ != name,
    ensures
        !store_view(s).contains_key(name),
    decreases s.len(),
{
    reveal(store_view);
    if s.len() > 0 {
        let t = s.drop_last();
        assert(s.last().0@ != name);
        assert forall|j: int| 0 <= j < t.len() implies (#[trigger] t[j]).0@ != name by {
            assert(t[j] == s[j]);
        }
        lemma_store_absent(t, name);
    }
}


impl Value {
    /// The integer `val`.
    pub fn integer(val: i64) -> (r: Value)
        ensures
            r@ == ValueView::Integer(val),
    {
        let r = Value::Integer(Integer { val });
        proof {
            lemma_view_value(r);
        }
        r
    }

    /// The boolean `val`.
    pub fn boolean(val: bool) -> (r: Value)
        ensures
            r@ == ValueView::Boolean(val),
    {
        let r = Value::Boolean(Boolean { val });
        proof {
            lemma_view_value(r);
        }
        r
    }

    /// The string `val`.
    pub fn string(val: String) -> (r: Value)
        ensures
            r@ == ValueView::Str(val@),
    {
        let r = Value::String(StringObj { val });
        proof {
            lemma_view_value(r);
        }
        r
    }

    /// The value `null`.
    pub fn null() -> (r: Value)
        ensures
            r@ == ValueView::Null,
    {
        let r = Value::Null(Null {  });
        proof {
            lemma_view_value(r);
        }
        r
    }

    /// The array of the given elements.
    pub fn array(mems: Vec<Value>) -> (r: Value)
        ensures
            r@ == ValueView::Array(values_view(mems@)),
    {
        let r = Value::Array(Array { mems });
        proof {
            lemma_view_value(r);
        }
        r
    }
}

/// Where a prefix of the pairs holds a key, the pairs hold it in the same
/// place.
pub proof fn lemma_hash_find_prefix(
    pairs: Seq<(HashKey, ValueView, ValueView)>,
    key: HashKey,
    n: int,
)
    requires
        0 <= n <= pairs.len(),
        hash_find(pairs.take(n), key) is Some,
    ensures
        hash_find(pairs, key) == hash_find(pairs.take(n), key),
    decreases pairs.len(),
{
    if n == pairs.len() {
        assert(pairs.take(n) =~= pairs);
    } else {
        assert(pairs.drop_last().take(n) =~= pairs.take(n));
        lemma_hash_find_prefix(pairs.drop_last(), key, n);
    }
}

impl Hash {
    /// A hash without pairs.
    pub fn new() -> (r: Hash)
        ensures
            r@ == ValueView::Hash(Seq::empty()),
    {
        let r = Hash { pairs: Vec::new() };
        assert(hash_pairs_view(r.pairs@) =~= Seq::empty());
        r
    }

    /// The place of the pair that is stored under `key`.
    pub fn find(&self, key: HashKey) -> (r: Option<usize>)
        ensures
            match r {
                Some(i) => i < self.pairs@.len() && hash_find(hash_pairs_view(self.pairs@), key)
                    == Some(i as int),
                None => hash_find(hash_pairs_view(self.pairs@), key) is None,
            },
    {
        let ghost views = hash_pairs_view(self.pairs@);
        let mut i: usize = 0;
        while i < self.pairs.len()
            invariant
                i <= self.pairs.len(),
                views == hash_pairs_view(self.pairs@),
                hash_find(views.take(i as int), key) is None,
            decreases self.pairs.len() - i,
        {
            proof {
                assert(views.take(i as int + 1).drop_last() =~= views.take(i as int));
            }
            if self.pairs[i].0 == key {
                proof {
                    lemma_hash_find_prefix(views, key, i as int + 1);
                }
                return Some(i);
            }
            i = i + 1;
        }
        proof {
            assert(views.take(i as int) =~= views);
        }
        None
    }

    /// Stores a pair under `key`, in the place of the pair that was stored
    /// under it, if there was one.
    pub fn insert(&mut self, key: HashKey, pair: HashPair)
        ensures
            final(self)@ == ValueView::Hash(
                hash_insert(hash_pairs_view(old(self).pairs@), key, pair.0@, pair.1@),
            ),
    {
        let ghost before = hash_pairs_view(self.pairs@);
        let ghost entry = (key, pair.0@, pair.1@);
        match self.find(key) {
            Some(i) => {
                assert(hash_find(before, key) == Some(i as int));
                self.pairs.set(i, (key, pair));
                assert(hash_pairs_view(self.pairs@) =~= before.update(i as int, entry));
                assert(hash_insert(before, key, entry.1, entry.2) == before.update(i as int, entry));
            },
            None => {
                assert(hash_find(before, key) is None);
                self.pairs.push((key, pair));
                assert(hash_pairs_view(self.pairs@) =~= before.push(entry));
                assert(hash_insert(before, key, entry.1, entry.2) == before.push(entry));
            },
        }
    }
}

} // verus!
