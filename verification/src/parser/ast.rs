//! The abstract syntax tree of MiniSoft programs, and its mathematical view.
use vstd::prelude::*;
use std::ops::Range;

verus! {

/// A node with the byte range of the source it was read from.
#[derive(Debug, PartialEq)]
pub struct Located<T> {
    pub node: T,
    pub span: Range<usize>,
}

impl<T> Located<T> {
    /// The node without its position.
    pub fn into_inner(self) -> (r: T)
        ensures
            r == self.node,
    {
        self.node
    }
}

/// A whole program: its name, declarations and statements.
#[derive(Debug, PartialEq)]
pub struct Program {
    pub name: String,
    pub declarations: Vec<Declaration>,
    pub statements: Vec<Statement>,
}

/// Declarations. The size of an array is the integer written in the source,
/// which the semantic analysis checks.
#[derive(Debug, PartialEq)]
pub enum DeclarationKind {
    Variable(Vec<String>, Type),
    Array(Vec<String>, Type, i32),
    VariableWithInit(Vec<String>, Type, Expression),
    ArrayWithInit(Vec<String>, Type, i32, Vec<Expression>),
    Constant(String, Type, Literal),
}

pub type Declaration = Located<DeclarationKind>;

/// Data types in MiniSoft.
#[derive(Debug, Clone, Copy, PartialEq, Eq, Structural)]
pub enum Type {
    Int,
    Float,
    String,
}

impl Type {
    /// Can a value of type `self` be used where `target` is expected?
    /// Only identical types are compatible.
    pub fn is_compatible_with(&self, target: &Type) -> (r: bool)
        ensures
            r == (*self == *target),
    {
        match (self, target) {
            (Type::Int, Type::Int) => true,
            (Type::Float, Type::Float) => true,
            (Type::String, Type::String) => true,
            _ => false,
        }
    }

    /// The name of the type, as messages write it.
    pub fn name(&self) -> (r: String)
        ensures
            r@ == type_text(*self),
    {
        match self {
            Type::Int => String::from_str("Int"),
            Type::Float => String::from_str("Float"),
            Type::String => String::from_str("String"),
        }
    }
}

/// The name of a type, as messages write it.
pub open spec fn type_text(t: Type) -> Seq<char> {
    match t {
        Type::Int => "Int"@,
        Type::Float => "Float"@,
        Type::String => "String"@,
    }
}

impl Default for Type {
    /// The default type is `Int`.
    fn default() -> (r: Type)
        ensures
            r == Type::Int,
    {
        Type::Int
    }
}

#[derive(Debug, PartialEq)]
pub enum StatementKind {
    Assignment(Expression, Expression),
    IfThen(Expression, Vec<Statement>),
    IfThenElse(Expression, Vec<Statement>, Vec<Statement>),
    DoWhile(Vec<Statement>, Expression),
    For(Expression, Expression, Expression, Expression, Vec<Statement>),
    Input(Expression),
    Output(Vec<Expression>),
    Scope(Vec<Statement>),
    Empty,
}

pub type Statement = Located<StatementKind>;

#[derive(Debug, PartialEq)]
pub enum ExpressionKind {
    Identifier(String),
    ArrayAccess(String, Box<Expression>),
    Literal(Literal),
    BinaryOp(Box<Expression>, Operator, Box<Expression>),
    UnaryOp(UnaryOperator, Box<Expression>),
}

pub type Expression = Located<ExpressionKind>;

/// Literal values; a float keeps the text it was written with.
#[derive(Debug, PartialEq)]
pub enum LiteralKind {
    Int(i32),
    Float(String),
    String(String),
}

pub type Literal = Located<LiteralKind>;

impl LiteralKind {
    /// The type of this literal.
    pub fn get_type(&self) -> (r: Type)
        ensures
            r == literal_type(self@),
    {
        match self {
            LiteralKind::Int(_) => Type::Int,
            LiteralKind::Float(_) => Type::Float,
            LiteralKind::String(_) => Type::String,
        }
    }

    /// A copy of this literal.
    pub fn duplicate(&self) -> (r: LiteralKind)
        ensures
            r@ == self@,
    {
        match self {
            LiteralKind::Int(v) => LiteralKind::Int(*v),
            LiteralKind::Float(t) => LiteralKind::Float(t.clone()),
            LiteralKind::String(t) => LiteralKind::String(t.clone()),
        }
    }

    /// The type of this literal (same as `get_type`).
    pub fn literal_kind_to_type(&self) -> (r: Type)
        ensures
            r == literal_type(self@),
    {
        self.get_type()
    }
}

/// Binary operators.
#[derive(Debug, Clone, Copy, PartialEq, Eq, Structural)]
pub enum Operator {
    Add,
    Subtract,
    Multiply,
    Divide,
    GreaterThan,
    LessThan,
    GreaterEqual,
    LessEqual,
    Equal,
    NotEqual,
    And,
    Or,
}

#[derive(Debug, Clone, Copy, PartialEq, Eq, Structural)]
pub enum UnaryOperator {
    Not,
}

// ----- Mathematical view -----

/// A node with its byte range.
pub struct Loc<T> {
    pub node: T,
    pub start: int,
    pub end: int,
}

pub enum LitV {
    Int(i32),
    Float(Seq<char>),
    Str(Seq<char>),
}

pub enum ExprV {
    Ident(Seq<char>),
    Access(Seq<char>, Box<Loc<ExprV>>),
    Lit(Loc<LitV>),
    Binary(Box<Loc<ExprV>>, Operator, Box<Loc<ExprV>>),
    Unary(UnaryOperator, Box<Loc<ExprV>>),
}

pub enum StmtV {
    Assign(Loc<ExprV>, Loc<ExprV>),
    IfThen(Loc<ExprV>, Seq<Loc<StmtV>>),
    IfThenElse(Loc<ExprV>, Seq<Loc<StmtV>>, Seq<Loc<StmtV>>),
    DoWhile(Seq<Loc<StmtV>>, Loc<ExprV>),
    For(Loc<ExprV>, Loc<ExprV>, Loc<ExprV>, Loc<ExprV>, Seq<Loc<StmtV>>),
    Input(Loc<ExprV>),
    Output(Seq<Loc<ExprV>>),
    Scope(Seq<Loc<StmtV>>),
    Empty,
}

pub enum DeclV {
    Variable(Seq<Seq<char>>, Type),
    Array(Seq<Seq<char>>, Type, i32),
    VariableWithInit(Seq<Seq<char>>, Type, Loc<ExprV>),
    ArrayWithInit(Seq<Seq<char>>, Type, i32, Seq<Loc<ExprV>>),
    Constant(Seq<char>, Type, Loc<LitV>),
}

pub struct ProgramV {
    pub name: Seq<char>,
    pub declarations: Seq<Loc<DeclV>>,
    pub statements: Seq<Loc<StmtV>>,
}

pub open spec fn literal_type(l: LitV) -> Type {
    match l {
        LitV::Int(_) => Type::Int,
        LitV::Float(_) => Type::Float,
        LitV::Str(_) => Type::String,
    }
}

impl View for LiteralKind {
    type V = LitV;

    open spec fn view(&self) -> LitV {
        match self {
            LiteralKind::Int(v) => LitV::Int(*v),
            LiteralKind::Float(s) => LitV::Float(s@),
            LiteralKind::String(s) => LitV::Str(s@),
        }
    }
}

pub open spec fn lit_view(l: Literal) -> Loc<LitV> {
    Loc { node: l.node@, start: l.span.start as int, end: l.span.end as int }
}

pub open spec fn names_view(v: Seq<String>) -> Seq<Seq<char>> {
    v.map_values(|s: String| s@)
}

pub open spec fn expr_view(e: Expression) -> Loc<ExprV>
    decreases e,
{
    let node = match e.node {
        ExpressionKind::Identifier(n) => ExprV::Ident(n@),
        ExpressionKind::ArrayAccess(n, i) => ExprV::Access(n@, Box::new(expr_view(*i))),
        ExpressionKind::Literal(l) => ExprV::Lit(lit_view(l)),
        ExpressionKind::BinaryOp(l, op, r) => ExprV::Binary(
            Box::new(expr_view(*l)),
            op,
            Box::new(expr_view(*r)),
        ),
        ExpressionKind::UnaryOp(op, x) => ExprV::Unary(op, Box::new(expr_view(*x))),
    };
    Loc { node, start: e.span.start as int, end: e.span.end as int }
}

pub open spec fn exprs_view(v: Seq<Expression>) -> Seq<Loc<ExprV>> {
    v.map_values(|e: Expression| expr_view(e))
}

pub open spec fn stmt_view(s: Statement) -> Loc<StmtV>
    decreases s, 0int,
{
    let node = match s.node {
        StatementKind::Assignment(l, r) => StmtV::Assign(expr_view(l), expr_view(r)),
        StatementKind::IfThen(c, b) => StmtV::IfThen(expr_view(c), stmts_view(b@)),
        StatementKind::IfThenElse(c, b1, b2) => StmtV::IfThenElse(
            expr_view(c),
            stmts_view(b1@),
            stmts_view(b2@),
        ),
        StatementKind::DoWhile(b, c) => StmtV::DoWhile(stmts_view(b@), expr_view(c)),
        StatementKind::For(v, a, b, c, body) => StmtV::For(
            expr_view(v),
            expr_view(a),
            expr_view(b),
            expr_view(c),
            stmts_view(body@),
        ),
        StatementKind::Input(e) => StmtV::Input(expr_view(e)),
        StatementKind::Output(es) => StmtV::Output(exprs_view(es@)),
        StatementKind::Scope(b) => StmtV::Scope(stmts_view(b@)),
        StatementKind::Empty => StmtV::Empty,
    };
    Loc { node, start: s.span.start as int, end: s.span.end as int }
}

pub open spec fn stmts_view(v: Seq<Statement>) -> Seq<Loc<StmtV>>
    decreases v, 1int,
{
    if v.len() == 0 {
        seq![]
    } else {
        seq![stmt_view(v[0])] + stmts_view(v.subrange(1, v.len() as int))
    }
}

/// The view of a block holds the view of each of its statements.
pub proof fn lemma_stmts_view_index(v: Seq<Statement>)
    ensures
        stmts_view(v).len() == v.len(),
        forall|i: int| 0 <= i < v.len() ==> #[trigger] stmts_view(v)[i] == stmt_view(v[i]),
    decreases v.len(),
{
    if v.len() > 0 {
        let rest = v.subrange(1, v.len() as int);
        lemma_stmts_view_index(rest);
        assert forall|i: int| 0 <= i < v.len() implies #[trigger] stmts_view(v)[i] == stmt_view(v[i]) by {
            if i > 0 {
                assert(stmts_view(v)[i] == stmts_view(rest)[i - 1]);
                assert(rest[i - 1] == v[i]);
            }
        }
    }
}

pub open spec fn decl_view(d: Declaration) -> Loc<DeclV> {
    let node = match d.node {
        DeclarationKind::Variable(ns, t) => DeclV::Variable(names_view(ns@), t),
        DeclarationKind::Array(ns, t, n) => DeclV::Array(names_view(ns@), t, n),
        DeclarationKind::VariableWithInit(ns, t, e) => DeclV::VariableWithInit(
            names_view(ns@),
            t,
            expr_view(e),
        ),
        DeclarationKind::ArrayWithInit(ns, t, n, es) => DeclV::ArrayWithInit(
            names_view(ns@),
            t,
            n,
            exprs_view(es@),
        ),
        DeclarationKind::Constant(n, t, l) => DeclV::Constant(n@, t, lit_view(l)),
    };
    Loc { node, start: d.span.start as int, end: d.span.end as int }
}

pub open spec fn decls_view(v: Seq<Declaration>) -> Seq<Loc<DeclV>> {
    v.map_values(|d: Declaration| decl_view(d))
}

impl View for Program {
    type V = ProgramV;

    open spec fn view(&self) -> ProgramV {
        ProgramV {
            name: self.name@,
            declarations: decls_view(self.declarations@),
            statements: stmts_view(self.statements@),
        }
    }
}

} // verus!
