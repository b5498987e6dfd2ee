//! The recursive-descent parser of MiniSoft.
use vstd::prelude::*;
use crate::lexer::token::{Token, TokenV};
use crate::lexer::lexer_core::{TokenWithMetaData, TokenMeta, metas, tokenize, lex};
use crate::parser::error::{SyntaxError, syntax_error_from, syntax_error_of};
use crate::text::{str_chars, byte_pos};
use vstd::utf8::encode_utf8;
use crate::parser::ast::{
    Loc, LitV, ExprV, StmtV, DeclV, ProgramV, Type, Operator, UnaryOperator, Located, Program,
    Declaration, DeclarationKind, Statement, StatementKind, Expression, ExpressionKind, Literal,
    LiteralKind, expr_view, exprs_view, stmt_view, stmts_view, decl_view, decls_view, lit_view,
    names_view,
};
use crate::parser::grammar::{
    Expect, Fail, PRes, p_primary, p_bin, p_bin_rest, p_expr, p_lvalue, p_expr_list, p_stmt,
    p_block, p_items, p_names, p_type, p_literal, p_let_tail, p_decl, p_decls, p_program, is_fixed,
    op_token, binop_at, primary_expected, stmt_expected, advances, loc,
};

verus! {

/// Where reading failed and what would have been accepted there.
#[derive(Debug)]
pub struct ParseFailure {
    pub at: usize,
    pub expected: Vec<Expect>,
}

impl View for ParseFailure {
    type V = Fail;

    open spec fn view(&self) -> Fail {
        Fail { at: self.at as int, expected: self.expected@ }
    }
}

pub open spec fn expr_res(res: Result<(Expression, usize), ParseFailure>, s: PRes<Loc<ExprV>>) -> bool {
    match (res, s) {
        (Ok((e, q)), Ok((v, qs))) => expr_view(e) == v && q as int == qs,
        (Err(f), Err(fs)) => f@ == fs,
        _ => false,
    }
}

pub open spec fn exprs_res(res: Result<(Vec<Expression>, usize), ParseFailure>, s: PRes<Seq<Loc<ExprV>>>) -> bool {
    match (res, s) {
        (Ok((e, q)), Ok((v, qs))) => exprs_view(e@) == v && q as int == qs,
        (Err(f), Err(fs)) => f@ == fs,
        _ => false,
    }
}

pub open spec fn stmt_res(res: Result<(Statement, usize), ParseFailure>, s: PRes<Loc<StmtV>>) -> bool {
    match (res, s) {
        (Ok((e, q)), Ok((v, qs))) => stmt_view(e) == v && q as int == qs,
        (Err(f), Err(fs)) => f@ == fs,
        _ => false,
    }
}

pub open spec fn stmts_res(res: Result<(Vec<Statement>, usize), ParseFailure>, s: PRes<Seq<Loc<StmtV>>>) -> bool {
    match (res, s) {
        (Ok((e, q)), Ok((v, qs))) => stmts_view(e@) == v && q as int == qs,
        (Err(f), Err(fs)) => f@ == fs,
        _ => false,
    }
}

pub open spec fn names_res(res: Result<(Vec<String>, usize), ParseFailure>, s: PRes<Seq<Seq<char>>>) -> bool {
    match (res, s) {
        (Ok((e, q)), Ok((v, qs))) => names_view(e@) == v && q as int == qs,
        (Err(f), Err(fs)) => f@ == fs,
        _ => false,
    }
}

pub open spec fn type_res(res: Result<(Type, usize), ParseFailure>, s: PRes<Type>) -> bool {
    match (res, s) {
        (Ok((e, q)), Ok((v, qs))) => e == v && q as int == qs,
        (Err(f), Err(fs)) => f@ == fs,
        _ => false,
    }
}

pub open spec fn lit_res(res: Result<(Literal, usize), ParseFailure>, s: PRes<Loc<LitV>>) -> bool {
    match (res, s) {
        (Ok((e, q)), Ok((v, qs))) => lit_view(e) == v && q as int == qs,
        (Err(f), Err(fs)) => f@ == fs,
        _ => false,
    }
}

pub open spec fn decl_res(res: Result<(Declaration, usize), ParseFailure>, s: PRes<Loc<DeclV>>) -> bool {
    match (res, s) {
        (Ok((e, q)), Ok((v, qs))) => decl_view(e) == v && q as int == qs,
        (Err(f), Err(fs)) => f@ == fs,
        _ => false,
    }
}

pub open spec fn decls_res(res: Result<(Vec<Declaration>, usize), ParseFailure>, s: PRes<Seq<Loc<DeclV>>>) -> bool {
    match (res, s) {
        (Ok((e, q)), Ok((v, qs))) => decls_view(e@) == v && q as int == qs,
        (Err(f), Err(fs)) => f@ == fs,
        _ => false,
    }
}

fn failure(at: usize, expected: Vec<Expect>) -> (r: ParseFailure)
    ensures
        r@ == (Fail { at: at as int, expected: expected@ }),
{
    ParseFailure { at, expected }
}

/// The number of the fixed token `t`, or 44 when `t` is not a fixed token.
pub fn fixed_index(t: &Token) -> (r: usize)
    ensures
        r < 44 ==> t@ == TokenV::Fixed(r as int),
        r >= 44 ==> !(t@ is Fixed),
{
    match t {
        Token::MainPrgm => 0,
        Token::Var => 1,
        Token::BeginPg => 2,
        Token::EndPg => 3,
        Token::Let => 4,
        Token::Int => 5,
        Token::Float => 6,
        Token::If => 7,
        Token::Then => 8,
        Token::Else => 9,
        Token::While => 10,
        Token::For => 11,
        Token::Do => 12,
        Token::From => 13,
        Token::To => 14,
        Token::Step => 15,
        Token::Input => 16,
        Token::Output => 17,
        Token::Define => 18,
        Token::Const => 19,
        Token::Semicolon => 20,
        Token::Comma => 21,
        Token::Colon => 22,
        Token::OpenBracket => 23,
        Token::CloseBracket => 24,
        Token::OpenBrace => 25,
        Token::CloseBrace => 26,
        Token::OpenParen => 27,
        Token::CloseParen => 28,
        Token::Assign => 29,
        Token::Equals => 30,
        Token::Plus => 31,
        Token::Minus => 32,
        Token::Multiply => 33,
        Token::Divide => 34,
        Token::GreaterThan => 35,
        Token::LessThan => 36,
        Token::GreaterEqual => 37,
        Token::LessEqual => 38,
        Token::Equal => 39,
        Token::NotEqual => 40,
        Token::And => 41,
        Token::Or => 42,
        Token::Not => 43,
        _ => 44,
    }
}

/// Is token `p` the fixed token `k`?
fn fixed_at(ts: &Vec<TokenWithMetaData>, p: usize, k: usize) -> (r: bool)
    ensures
        r == is_fixed(metas(ts@), p as int, k),
        r ==> p < ts.len(),
{
    if p < ts.len() {
        let i = fixed_index(&ts[p].kind);
        i < 44 && i == k
    } else {
        false
    }
}

fn ident_at(ts: &Vec<TokenWithMetaData>, p: usize) -> (r: Option<String>)
    ensures
        match r {
            Some(n) => p < ts.len() && metas(ts@)[p as int].kind == TokenV::Identifier(n@),
            None => !(0 <= p < ts@.len() && metas(ts@)[p as int].kind is Identifier),
        },
{
    if p < ts.len() {
        match &ts[p].kind {
            Token::Identifier(n) => Some(n.clone()),
            _ => None,
        }
    } else {
        None
    }
}

fn binop_exec(k: usize, r: usize) -> (o: Option<Operator>)
    ensures
        o == binop_at(k as int, r as int),
{
    if r == 1 && k == 33 {
        Some(Operator::Multiply)
    } else if r == 1 && k == 34 {
        Some(Operator::Divide)
    } else if r == 2 && k == 31 {
        Some(Operator::Add)
    } else if r == 2 && k == 32 {
        Some(Operator::Subtract)
    } else if r == 3 && k == 35 {
        Some(Operator::GreaterThan)
    } else if r == 3 && k == 36 {
        Some(Operator::LessThan)
    } else if r == 3 && k == 37 {
        Some(Operator::GreaterEqual)
    } else if r == 3 && k == 38 {
        Some(Operator::LessEqual)
    } else if r == 3 && k == 39 {
        Some(Operator::Equal)
    } else if r == 3 && k == 40 {
        Some(Operator::NotEqual)
    } else if r == 4 && k == 41 {
        Some(Operator::And)
    } else if r == 5 && k == 42 {
        Some(Operator::Or)
    } else {
        None
    }
}

fn op_at(ts: &Vec<TokenWithMetaData>, p: usize, r: usize) -> (o: Option<Operator>)
    ensures
        o == op_token(metas(ts@), p as int, r as int),
{
    if p < ts.len() {
        let k = fixed_index(&ts[p].kind);
        if k < 44 {
            binop_exec(k, r)
        } else {
            None
        }
    } else {
        None
    }
}

fn primary_expected_exec() -> (r: Vec<Expect>)
    ensures
        r@ == primary_expected(),
{
    let r = vec![Expect::Identifier, Expect::Integer, Expect::Float, Expect::Str, Expect::Fixed(27), Expect::Fixed(43)];
    assert(r@ =~= primary_expected());
    r
}

fn one(e: Expect) -> (r: Vec<Expect>)
    ensures
        r@ == seq![e],
{
    let r = vec![e];
    assert(r@ =~= seq![e]);
    r
}

fn none_expected() -> (r: Vec<Expect>)
    ensures
        r@ == Seq::<Expect>::empty(),
{
    let r: Vec<Expect> = Vec::new();
    assert(r@ =~= Seq::<Expect>::empty());
    r
}

fn loc_expr(node: ExpressionKind, s: usize, e: usize) -> (r: Expression)
    ensures
        r.node == node,
        r.span.start == s,
        r.span.end == e,
{
    Located { node, span: s..e }
}

/// Primary expressions.
pub fn parse_primary(ts: &Vec<TokenWithMetaData>, p: usize) -> (res: Result<(Expression, usize), ParseFailure>)
    ensures
        expr_res(res, p_primary(metas(ts@), p as int)),
    decreases ts@.len() - p, 0int, 0int,
{
    let ghost v = metas(ts@);
    if p >= ts.len() {
        return Err(failure(p, primary_expected_exec()));
    }
    let s = ts[p].span.start;
    let e = ts[p].span.end;
    assert(v[p as int] == ts@[p as int]@);
    match &ts[p].kind {
        Token::IntLiteral(x) => {
            let lit = Located { node: LiteralKind::Int(*x), span: s..e };
            Ok((loc_expr(ExpressionKind::Literal(lit), s, e), p + 1))
        },
        Token::FloatLiteral(t) => {
            let lit = Located { node: LiteralKind::Float(t.clone()), span: s..e };
            Ok((loc_expr(ExpressionKind::Literal(lit), s, e), p + 1))
        },
        Token::StringLiteral(t) => {
            let lit = Located { node: LiteralKind::String(t.clone()), span: s..e };
            Ok((loc_expr(ExpressionKind::Literal(lit), s, e), p + 1))
        },
        Token::Identifier(n) => {
            if fixed_at(ts, p + 1, 23) {
                match parse_bin(ts, p + 2, 5) {
                    Ok((ix, q)) => {
                        if fixed_at(ts, q, 24) {
                            let end = ts[q].span.end;
                            assert(v[q as int] == ts@[q as int]@);
                            Ok((loc_expr(ExpressionKind::ArrayAccess(n.clone(), Box::new(ix)), s, end), q + 1))
                        } else {
                            Err(failure(q, one(Expect::Fixed(24))))
                        }
                    },
                    Err(f) => Err(f),
                }
            } else {
                Ok((loc_expr(ExpressionKind::Identifier(n.clone()), s, e), p + 1))
            }
        },
        Token::OpenParen => {
            match parse_bin(ts, p + 1, 5) {
                Ok((x, q)) => {
                    if fixed_at(ts, q, 28) {
                        Ok((x, q + 1))
                    } else {
                        Err(failure(q, one(Expect::Fixed(28))))
                    }
                },
                Err(f) => Err(f),
            }
        },
        _ => {
            Err(failure(p, primary_expected_exec()))
        },
    }
}

/// Expressions of rank `r`.
pub fn parse_bin(ts: &Vec<TokenWithMetaData>, p: usize, r: usize) -> (res: Result<(Expression, usize), ParseFailure>)
    ensures
        expr_res(res, p_bin(metas(ts@), p as int, r as int)),
    decreases ts@.len() - p, r, 2int,
{
    let ghost v = metas(ts@);
    if r == 0 {
        if fixed_at(ts, p, 43) {
            let s = ts[p].span.start;
            assert(v[p as int] == ts@[p as int]@);
            match parse_bin(ts, p + 1, 0) {
                Ok((x, q)) => {
                    let end = x.span.end;
                    Ok((loc_expr(ExpressionKind::UnaryOp(UnaryOperator::Not, Box::new(x)), s, end), q))
                },
                Err(f) => Err(f),
            }
        } else {
            parse_primary(ts, p)
        }
    } else {
        match parse_bin(ts, p, r - 1) {
            Ok((lhs, q)) => {
                if q <= p || q > ts.len() {
                    Err(failure(p, none_expected()))
                } else {
                    parse_bin_rest(ts, q, r, lhs)
                }
            },
            Err(f) => Err(f),
        }
    }
}

/// Continues an expression of rank `r` after its left part.
pub fn parse_bin_rest(ts: &Vec<TokenWithMetaData>, p: usize, r: usize, lhs: Expression) -> (res: Result<(Expression, usize), ParseFailure>)
    ensures
        expr_res(res, p_bin_rest(metas(ts@), p as int, r as int, expr_view(lhs))),
    decreases ts@.len() - p, r, 1int,
{
    if r == 0 || p >= ts.len() {
        return Ok((lhs, p));
    }
    match op_at(ts, p, r) {
        Some(op) => {
            match parse_bin(ts, p + 1, r - 1) {
                Ok((rhs, q)) => {
                    if q <= p || q > ts.len() {
                        Err(failure(p, none_expected()))
                    } else {
                        let s = lhs.span.start;
                        let e = rhs.span.end;
                        let node = loc_expr(ExpressionKind::BinaryOp(Box::new(lhs), op, Box::new(rhs)), s, e);
                        parse_bin_rest(ts, q, r, node)
                    }
                },
                Err(f) => Err(f),
            }
        },
        None => Ok((lhs, p)),
    }
}

/// A whole expression.
pub fn parse_expr(ts: &Vec<TokenWithMetaData>, p: usize) -> (res: Result<(Expression, usize), ParseFailure>)
    ensures
        expr_res(res, p_expr(metas(ts@), p as int)),
{
    parse_bin(ts, p, 5)
}

/// An assignment target: a name or an array element.
pub fn parse_lvalue(ts: &Vec<TokenWithMetaData>, p: usize) -> (res: Result<(Expression, usize), ParseFailure>)
    ensures
        expr_res(res, p_lvalue(metas(ts@), p as int)),
{
    match ident_at(ts, p) {
        Some(_) => parse_primary(ts, p),
        None => Err(failure(p, one(Expect::Identifier))),
    }
}

/// Expressions separated by commas.
pub fn parse_expr_list(ts: &Vec<TokenWithMetaData>, p: usize) -> (res: Result<(Vec<Expression>, usize), ParseFailure>)
    ensures
        exprs_res(res, p_expr_list(metas(ts@), p as int)),
    decreases ts@.len() - p,
{
    match parse_expr(ts, p) {
        Ok((e, q)) => {
            if q <= p || q > ts.len() {
                Err(failure(p, none_expected()))
            } else if fixed_at(ts, q, 21) {
                match parse_expr_list(ts, q + 1) {
                    Ok((es, r)) => {
                        let ghost old_es = es@;
                        let mut es = es;
                        let ghost ev = expr_view(e);
                        es.insert(0, e);
                        assert(exprs_view(es@) =~= seq![ev] + exprs_view(old_es));
                        Ok((es, r))
                    },
                    Err(f) => Err(f),
                }
            } else {
                let ghost ev = expr_view(e);
                let es = vec![e];
                assert(exprs_view(es@) =~= seq![ev]);
                Ok((es, q))
            }
        },
        Err(f) => Err(f),
    }
}

fn stmt_expected_exec() -> (r: Vec<Expect>)
    ensures
        r@ == stmt_expected(),
{
    let r = vec![
        Expect::Identifier,
        Expect::Fixed(7),
        Expect::Fixed(12),
        Expect::Fixed(11),
        Expect::Fixed(16),
        Expect::Fixed(17),
        Expect::Fixed(25),
        Expect::Fixed(20),
    ];
    assert(r@ =~= stmt_expected());
    r
}

fn loc_stmt(node: StatementKind, s: usize, e: usize) -> (r: Statement)
    ensures
        r.node == node,
        r.span.start == s,
        r.span.end == e,
{
    Located { node, span: s..e }
}

proof fn lemma_stmts_view_cons(st: Statement, rest: Seq<Statement>)
    ensures
        stmts_view(seq![st] + rest) == seq![stmt_view(st)] + stmts_view(rest),
{
    let all = seq![st] + rest;
    assert(all[0] == st);
    assert(all.subrange(1, all.len() as int) =~= rest);
}

proof fn lemma_stmts_view_empty()
    ensures
        stmts_view(Seq::<Statement>::empty()) == Seq::<Loc<StmtV>>::empty(),
{
}

/// A statement.
pub fn parse_stmt(ts: &Vec<TokenWithMetaData>, p: usize) -> (res: Result<(Statement, usize), ParseFailure>)
    ensures
        stmt_res(res, p_stmt(metas(ts@), p as int)),
    decreases ts@.len() - p, 1int,
{
    let ghost v = metas(ts@);
    if p >= ts.len() {
        return Err(failure(p, stmt_expected_exec()));
    }
    let s = ts[p].span.start;
    assert(v[p as int] == ts@[p as int]@);
    if let Some(_) = ident_at(ts, p) {
        match parse_lvalue(ts, p) {
            Ok((x, q)) => {
                if !fixed_at(ts, q, 29) {
                    Err(failure(q, one(Expect::Fixed(29))))
                } else {
                    match parse_expr(ts, q + 1) {
                        Ok((e, r)) => {
                            if fixed_at(ts, r, 20) {
                                let end = ts[r].span.end;
                                assert(v[r as int] == ts@[r as int]@);
                                Ok((loc_stmt(StatementKind::Assignment(x, e), s, end), r + 1))
                            } else {
                                Err(failure(r, one(Expect::Fixed(20))))
                            }
                        },
                        Err(f) => Err(f),
                    }
                }
            },
            Err(f) => Err(f),
        }
    } else {
        let k = fixed_index(&ts[p].kind);
        if k == 7 {
            parse_if(ts, p)
        } else if k == 12 {
            match parse_block(ts, p + 1) {
                Ok((b, q)) => {
                    if !fixed_at(ts, q, 10) {
                        Err(failure(q, one(Expect::Fixed(10))))
                    } else {
                        match parse_expr(ts, q + 1) {
                            Ok((c, r)) => {
                                if fixed_at(ts, r, 20) {
                                    let end = ts[r].span.end;
                                    assert(v[r as int] == ts@[r as int]@);
                                    Ok((loc_stmt(StatementKind::DoWhile(b, c), s, end), r + 1))
                                } else {
                                    Err(failure(r, one(Expect::Fixed(20))))
                                }
                            },
                            Err(f) => Err(f),
                        }
                    }
                },
                Err(f) => Err(f),
            }
        } else if k == 11 {
            parse_for(ts, p)
        } else if k == 16 {
            if !fixed_at(ts, p + 1, 27) {
                Err(failure(p + 1, one(Expect::Fixed(27))))
            } else {
                match parse_lvalue(ts, p + 2) {
                    Ok((x, q)) => {
                        if !fixed_at(ts, q, 28) {
                            Err(failure(q, one(Expect::Fixed(28))))
                        } else if !fixed_at(ts, q + 1, 20) {
                            Err(failure(q + 1, one(Expect::Fixed(20))))
                        } else {
                            let end = ts[q + 1].span.end;
                            assert(v[q + 1] == ts@[q + 1]@);
                            Ok((loc_stmt(StatementKind::Input(x), s, end), q + 2))
                        }
                    },
                    Err(f) => Err(f),
                }
            }
        } else if k == 17 {
            if !fixed_at(ts, p + 1, 27) {
                Err(failure(p + 1, one(Expect::Fixed(27))))
            } else {
                match parse_expr_list(ts, p + 2) {
                    Ok((es, q)) => {
                        if !fixed_at(ts, q, 28) {
                            Err(failure(q, one(Expect::Fixed(28))))
                        } else if !fixed_at(ts, q + 1, 20) {
                            Err(failure(q + 1, one(Expect::Fixed(20))))
                        } else {
                            let end = ts[q + 1].span.end;
                            assert(v[q + 1] == ts@[q + 1]@);
                            Ok((loc_stmt(StatementKind::Output(es), s, end), q + 2))
                        }
                    },
                    Err(f) => Err(f),
                }
            }
        } else if k == 25 {
            match parse_block(ts, p) {
                Ok((b, q)) => {
                    if q <= p || q > ts.len() {
                        Err(failure(p, none_expected()))
                    } else {
                        let end = ts[q - 1].span.end;
                        assert(v[q - 1] == ts@[q - 1]@);
                        Ok((loc_stmt(StatementKind::Scope(b), s, end), q))
                    }
                },
                Err(f) => Err(f),
            }
        } else if k == 20 {
            let end = ts[p].span.end;
            Ok((loc_stmt(StatementKind::Empty, s, end), p + 1))
        } else {
            Err(failure(p, stmt_expected_exec()))
        }
    }
}

/// `if` condition `then` block, with an optional `else` block; `p` is at `if`.
fn parse_if(ts: &Vec<TokenWithMetaData>, p: usize) -> (res: Result<(Statement, usize), ParseFailure>)
    requires
        p < ts.len(),
        is_fixed(metas(ts@), p as int, 7),
    ensures
        stmt_res(res, p_stmt(metas(ts@), p as int)),
    decreases ts@.len() - p, 0int, 3int,
{
    let ghost v = metas(ts@);
    let s = ts[p].span.start;
    assert(v[p as int] == ts@[p as int]@);
    match parse_expr(ts, p + 1) {
        Ok((c, q)) => {
            if !fixed_at(ts, q, 8) {
                Err(failure(q, one(Expect::Fixed(8))))
            } else if q <= p || q > ts.len() {
                Err(failure(p, none_expected()))
            } else {
                match parse_block(ts, q + 1) {
                    Ok((b1, r)) => {
                        if r <= p || r > ts.len() {
                            Err(failure(p, none_expected()))
                        } else if fixed_at(ts, r, 9) {
                            match parse_block(ts, r + 1) {
                                Ok((b2, u)) => {
                                    if u <= p || u > ts.len() {
                                        Err(failure(p, none_expected()))
                                    } else {
                                        let end = ts[u - 1].span.end;
                                        assert(v[u - 1] == ts@[u - 1]@);
                                        Ok((loc_stmt(StatementKind::IfThenElse(c, b1, b2), s, end), u))
                                    }
                                },
                                Err(f) => Err(f),
                            }
                        } else {
                            let end = ts[r - 1].span.end;
                            assert(v[r - 1] == ts@[r - 1]@);
                            Ok((loc_stmt(StatementKind::IfThen(c, b1), s, end), r))
                        }
                    },
                    Err(f) => Err(f),
                }
            }
        },
        Err(f) => Err(f),
    }
}

/// `for` name `from` a `to` b `step` c block; `p` is at `for`.
fn parse_for(ts: &Vec<TokenWithMetaData>, p: usize) -> (res: Result<(Statement, usize), ParseFailure>)
    requires
        p < ts.len(),
        is_fixed(metas(ts@), p as int, 11),
    ensures
        stmt_res(res, p_stmt(metas(ts@), p as int)),
    decreases ts@.len() - p, 0int, 3int,
{
    let ghost v = metas(ts@);
    let s = ts[p].span.start;
    assert(v[p as int] == ts@[p as int]@);
    let name = match ident_at(ts, p + 1) {
        Some(n) => n,
        None => {
            return Err(failure(p + 1, one(Expect::Identifier)));
        },
    };
    if !fixed_at(ts, p + 2, 13) {
        return Err(failure(p + 2, one(Expect::Fixed(13))));
    }
    let ns = ts[p + 1].span.start;
    let ne = ts[p + 1].span.end;
    assert(v[p + 1] == ts@[p + 1]@);
    let var = loc_expr(ExpressionKind::Identifier(name), ns, ne);
    match parse_expr(ts, p + 3) {
        Ok((a, q)) => {
            if !fixed_at(ts, q, 14) {
                Err(failure(q, one(Expect::Fixed(14))))
            } else {
                match parse_expr(ts, q + 1) {
                    Ok((b, r)) => {
                        if !fixed_at(ts, r, 15) {
                            Err(failure(r, one(Expect::Fixed(15))))
                        } else {
                            match parse_expr(ts, r + 1) {
                                Ok((c, u)) => {
                                    if u <= p || u > ts.len() {
                                        Err(failure(p, none_expected()))
                                    } else {
                                        match parse_block(ts, u) {
                                            Ok((body, w)) => {
                                                if w <= p || w > ts.len() {
                                                    Err(failure(p, none_expected()))
                                                } else {
                                                    let end = ts[w - 1].span.end;
                                                    assert(v[w - 1] == ts@[w - 1]@);
                                                    Ok((loc_stmt(StatementKind::For(var, a, b, c, body), s, end), w))
                                                }
                                            },
                                            Err(f) => Err(f),
                                        }
                                    }
                                },
                                Err(f) => Err(f),
                            }
                        }
                    },
                    Err(f) => Err(f),
                }
            }
        },
        Err(f) => Err(f),
    }
}

/// `{` statements `}`.
pub fn parse_block(ts: &Vec<TokenWithMetaData>, p: usize) -> (res: Result<(Vec<Statement>, usize), ParseFailure>)
    ensures
        stmts_res(res, p_block(metas(ts@), p as int)),
    decreases ts@.len() - p, 0int, 0int,
{
    if !fixed_at(ts, p, 25) {
        Err(failure(p, one(Expect::Fixed(25))))
    } else {
        parse_items(ts, p + 1)
    }
}

/// Statements up to and including the closing `}`.
pub fn parse_items(ts: &Vec<TokenWithMetaData>, p: usize) -> (res: Result<(Vec<Statement>, usize), ParseFailure>)
    ensures
        stmts_res(res, p_items(metas(ts@), p as int)),
    decreases ts@.len() - p, 2int, 0int,
{
    if p >= ts.len() {
        let mut e = one(Expect::Fixed(26));
        let mut rest = stmt_expected_exec();
        e.append(&mut rest);
        assert(e@ =~= seq![Expect::Fixed(26)] + stmt_expected());
        return Err(failure(p, e));
    }
    if fixed_at(ts, p, 26) {
        let r: Vec<Statement> = Vec::new();
        proof { lemma_stmts_view_empty(); }
        assert(r@ =~= Seq::<Statement>::empty());
        return Ok((r, p + 1));
    }
    match parse_stmt(ts, p) {
        Ok((st, q)) => {
            if q <= p || q > ts.len() {
                Err(failure(p, none_expected()))
            } else {
                match parse_items(ts, q) {
                    Ok((rest, r)) => {
                        let ghost old_rest = rest@;
                        let ghost sv = st;
                        let mut rest = rest;
                        rest.insert(0, st);
                        proof {
                            lemma_stmts_view_cons(sv, old_rest);
                            assert(rest@ =~= seq![sv] + old_rest);
                        }
                        Ok((rest, r))
                    },
                    Err(f) => Err(f),
                }
            }
        },
        Err(f) => Err(f),
    }
}

/// Names separated by commas.
pub fn parse_names(ts: &Vec<TokenWithMetaData>, p: usize) -> (res: Result<(Vec<String>, usize), ParseFailure>)
    ensures
        names_res(res, p_names(metas(ts@), p as int)),
    decreases ts@.len() - p,
{
    match ident_at(ts, p) {
        Some(n) => {
            if fixed_at(ts, p + 1, 21) {
                match parse_names(ts, p + 2) {
                    Ok((ns, q)) => {
                        let ghost old_ns = ns@;
                        let ghost nv = n@;
                        let mut ns = ns;
                        ns.insert(0, n);
                        assert(names_view(ns@) =~= seq![nv] + names_view(old_ns));
                        Ok((ns, q))
                    },
                    Err(f) => Err(f),
                }
            } else {
                let ghost nv = n@;
                let ns = vec![n];
                assert(names_view(ns@) =~= seq![nv]);
                Ok((ns, p + 1))
            }
        },
        None => Err(failure(p, one(Expect::Identifier))),
    }
}

/// `Int` or `Float`.
pub fn parse_type(ts: &Vec<TokenWithMetaData>, p: usize) -> (res: Result<(Type, usize), ParseFailure>)
    ensures
        type_res(res, p_type(metas(ts@), p as int)),
{
    if fixed_at(ts, p, 5) {
        Ok((Type::Int, p + 1))
    } else if fixed_at(ts, p, 6) {
        Ok((Type::Float, p + 1))
    } else {
        let e = vec![Expect::Fixed(5), Expect::Fixed(6)];
        assert(e@ =~= seq![Expect::Fixed(5), Expect::Fixed(6)]);
        Err(failure(p, e))
    }
}

fn literal_expected_exec() -> (r: Vec<Expect>)
    ensures
        r@ == seq![Expect::Integer, Expect::Float, Expect::Str],
{
    let r = vec![Expect::Integer, Expect::Float, Expect::Str];
    assert(r@ =~= seq![Expect::Integer, Expect::Float, Expect::Str]);
    r
}

/// A literal token.
pub fn parse_literal(ts: &Vec<TokenWithMetaData>, p: usize) -> (res: Result<(Literal, usize), ParseFailure>)
    ensures
        lit_res(res, p_literal(metas(ts@), p as int)),
{
    let ghost v = metas(ts@);
    if p >= ts.len() {
        return Err(failure(p, literal_expected_exec()));
    }
    let s = ts[p].span.start;
    let e = ts[p].span.end;
    assert(v[p as int] == ts@[p as int]@);
    match &ts[p].kind {
        Token::IntLiteral(x) => Ok((Located { node: LiteralKind::Int(*x), span: s..e }, p + 1)),
        Token::FloatLiteral(t) => Ok((Located { node: LiteralKind::Float(t.clone()), span: s..e }, p + 1)),
        Token::StringLiteral(t) => Ok((Located { node: LiteralKind::String(t.clone()), span: s..e }, p + 1)),
        _ => Err(failure(p, literal_expected_exec())),
    }
}

fn int_at(ts: &Vec<TokenWithMetaData>, p: usize) -> (r: Option<i32>)
    ensures
        match r {
            Some(n) => p < ts.len() && metas(ts@)[p as int].kind == TokenV::IntLiteral(n),
            None => !(0 <= p < ts@.len() && metas(ts@)[p as int].kind is IntLiteral),
        },
{
    if p < ts.len() {
        match &ts[p].kind {
            Token::IntLiteral(n) => Some(*n),
            _ => None,
        }
    } else {
        None
    }
}

fn semi_or_equals() -> (r: Vec<Expect>)
    ensures
        r@ == seq![Expect::Fixed(20), Expect::Fixed(30)],
{
    let r = vec![Expect::Fixed(20), Expect::Fixed(30)];
    assert(r@ =~= seq![Expect::Fixed(20), Expect::Fixed(30)]);
    r
}

fn loc_decl(node: DeclarationKind, s: usize, e: usize) -> (r: Declaration)
    ensures
        r.node == node,
        r.span.start == s,
        r.span.end == e,
{
    Located { node, span: s..e }
}

/// The rest of a `let` declaration after `let names :`, at `q`; `p` is at `let`.
pub fn parse_let_tail(ts: &Vec<TokenWithMetaData>, p: usize, ns: Vec<String>, q: usize) -> (res: Result<(Declaration, usize), ParseFailure>)
    requires
        p < ts.len(),
    ensures
        decl_res(res, p_let_tail(metas(ts@), p as int, names_view(ns@), q as int)),
{
    let ghost v = metas(ts@);
    let s = ts[p].span.start;
    assert(v[p as int] == ts@[p as int]@);
    if fixed_at(ts, q, 23) {
        match parse_type(ts, q + 1) {
            Ok((t, r)) => {
                if !fixed_at(ts, r, 20) {
                    return Err(failure(r, one(Expect::Fixed(20))));
                }
                let n = match int_at(ts, r + 1) {
                    Some(n) => n,
                    None => {
                        return Err(failure(r + 1, one(Expect::Integer)));
                    },
                };
                if !fixed_at(ts, r + 2, 24) {
                    return Err(failure(r + 2, one(Expect::Fixed(24))));
                }
                if fixed_at(ts, r + 3, 20) {
                    let end = ts[r + 3].span.end;
                    assert(v[r + 3] == ts@[r + 3]@);
                    Ok((loc_decl(DeclarationKind::Array(ns, t, n), s, end), r + 4))
                } else if fixed_at(ts, r + 3, 30) {
                    if !fixed_at(ts, r + 4, 25) {
                        return Err(failure(r + 4, one(Expect::Fixed(25))));
                    }
                    match parse_expr_list(ts, r + 5) {
                        Ok((es, u)) => {
                            if !fixed_at(ts, u, 26) {
                                Err(failure(u, one(Expect::Fixed(26))))
                            } else if !fixed_at(ts, u + 1, 20) {
                                Err(failure(u + 1, one(Expect::Fixed(20))))
                            } else {
                                let end = ts[u + 1].span.end;
                                assert(v[u + 1] == ts@[u + 1]@);
                                Ok((loc_decl(DeclarationKind::ArrayWithInit(ns, t, n, es), s, end), u + 2))
                            }
                        },
                        Err(f) => Err(f),
                    }
                } else {
                    Err(failure(r + 3, semi_or_equals()))
                }
            },
            Err(f) => Err(f),
        }
    } else {
        match parse_type(ts, q) {
            Ok((t, r)) => {
                if fixed_at(ts, r, 20) {
                    let end = ts[r].span.end;
                    assert(v[r as int] == ts@[r as int]@);
                    Ok((loc_decl(DeclarationKind::Variable(ns, t), s, end), r + 1))
                } else if fixed_at(ts, r, 30) {
                    match parse_expr(ts, r + 1) {
                        Ok((e, u)) => {
                            if fixed_at(ts, u, 20) {
                                let end = ts[u].span.end;
                                assert(v[u as int] == ts@[u as int]@);
                                Ok((loc_decl(DeclarationKind::VariableWithInit(ns, t, e), s, end), u + 1))
                            } else {
                                Err(failure(u, one(Expect::Fixed(20))))
                            }
                        },
                        Err(f) => Err(f),
                    }
                } else {
                    Err(failure(r, semi_or_equals()))
                }
            },
            Err(f) => Err(f),
        }
    }
}

/// A declaration: `let` or `@define Const`.
pub fn parse_decl(ts: &Vec<TokenWithMetaData>, p: usize) -> (res: Result<(Declaration, usize), ParseFailure>)
    requires
        p < ts.len(),
    ensures
        decl_res(res, p_decl(metas(ts@), p as int)),
{
    let ghost v = metas(ts@);
    let s = ts[p].span.start;
    assert(v[p as int] == ts@[p as int]@);
    if fixed_at(ts, p, 4) {
        match parse_names(ts, p + 1) {
            Ok((ns, q)) => {
                if !fixed_at(ts, q, 22) {
                    Err(failure(q, one(Expect::Fixed(22))))
                } else {
                    parse_let_tail(ts, p, ns, q + 1)
                }
            },
            Err(f) => Err(f),
        }
    } else if fixed_at(ts, p, 18) {
        if !fixed_at(ts, p + 1, 19) {
            return Err(failure(p + 1, one(Expect::Fixed(19))));
        }
        let n = match ident_at(ts, p + 2) {
            Some(n) => n,
            None => {
                return Err(failure(p + 2, one(Expect::Identifier)));
            },
        };
        if !fixed_at(ts, p + 3, 22) {
            return Err(failure(p + 3, one(Expect::Fixed(22))));
        }
        match parse_type(ts, p + 4) {
            Ok((t, q)) => {
                if !fixed_at(ts, q, 30) {
                    Err(failure(q, one(Expect::Fixed(30))))
                } else {
                    match parse_literal(ts, q + 1) {
                        Ok((l, r)) => {
                            if fixed_at(ts, r, 20) {
                                let end = ts[r].span.end;
                                assert(v[r as int] == ts@[r as int]@);
                                Ok((loc_decl(DeclarationKind::Constant(n, t, l), s, end), r + 1))
                            } else {
                                Err(failure(r, one(Expect::Fixed(20))))
                            }
                        },
                        Err(f) => Err(f),
                    }
                }
            },
            Err(f) => Err(f),
        }
    } else {
        let e = vec![Expect::Fixed(4), Expect::Fixed(18)];
        assert(e@ =~= seq![Expect::Fixed(4), Expect::Fixed(18)]);
        Err(failure(p, e))
    }
}

/// Declarations, as long as one starts.
pub fn parse_decls(ts: &Vec<TokenWithMetaData>, p: usize) -> (res: Result<(Vec<Declaration>, usize), ParseFailure>)
    ensures
        decls_res(res, p_decls(metas(ts@), p as int)),
    decreases ts@.len() - p,
{
    if fixed_at(ts, p, 4) || fixed_at(ts, p, 18) {
        match parse_decl(ts, p) {
            Ok((d, q)) => {
                if q <= p || q > ts.len() {
                    Err(failure(p, none_expected()))
                } else {
                    match parse_decls(ts, q) {
                        Ok((ds, r)) => {
                            let ghost old_ds = ds@;
                            let ghost dv = decl_view(d);
                            let mut ds = ds;
                            ds.insert(0, d);
                            assert(decls_view(ds@) =~= seq![dv] + decls_view(old_ds));
                            Ok((ds, r))
                        },
                        Err(f) => Err(f),
                    }
                }
            },
            Err(f) => Err(f),
        }
    } else {
        let ds: Vec<Declaration> = Vec::new();
        assert(decls_view(ds@) =~= Seq::<Loc<DeclV>>::empty());
        Ok((ds, p))
    }
}

pub open spec fn program_res(res: Result<(Program, usize), ParseFailure>, s: PRes<ProgramV>) -> bool {
    match (res, s) {
        (Ok((e, q)), Ok((v, qs))) => e@ == v && q as int == qs,
        (Err(f), Err(fs)) => f@ == fs,
        _ => false,
    }
}

/// A whole program: `MainPrgm name ; Var` declarations `BeginPg` block
/// `EndPg ;`, with nothing after it.
pub fn parse_program(ts: &Vec<TokenWithMetaData>) -> (res: Result<(Program, usize), ParseFailure>)
    ensures
        program_res(res, p_program(metas(ts@))),
{
    if !fixed_at(ts, 0, 0) {
        return Err(failure(0, one(Expect::Fixed(0))));
    }
    let name = match ident_at(ts, 1) {
        Some(n) => n,
        None => {
            return Err(failure(1, one(Expect::Identifier)));
        },
    };
    if !fixed_at(ts, 2, 20) {
        return Err(failure(2, one(Expect::Fixed(20))));
    }
    if !fixed_at(ts, 3, 1) {
        return Err(failure(3, one(Expect::Fixed(1))));
    }
    match parse_decls(ts, 4) {
        Ok((ds, q)) => {
            if !fixed_at(ts, q, 2) {
                let e = vec![Expect::Fixed(2), Expect::Fixed(4), Expect::Fixed(18)];
                assert(e@ =~= seq![Expect::Fixed(2), Expect::Fixed(4), Expect::Fixed(18)]);
                return Err(failure(q, e));
            }
            match parse_block(ts, q + 1) {
                Ok((ss, r)) => {
                    if !fixed_at(ts, r, 3) {
                        Err(failure(r, one(Expect::Fixed(3))))
                    } else if !fixed_at(ts, r + 1, 20) {
                        Err(failure(r + 1, one(Expect::Fixed(20))))
                    } else if r + 2 < ts.len() {
                        Err(failure(r + 2, none_expected()))
                    } else {
                        Ok((Program { name, declarations: ds, statements: ss }, r + 2))
                    }
                },
                Err(f) => Err(f),
            }
        },
        Err(f) => Err(f),
    }
}

/// What parsing the tokens `ts` of the source `src` gives: the program read,
/// or the syntax error at the first place where reading failed.
pub open spec fn parse_result(ts: Seq<TokenMeta>, src: Seq<char>, r: Result<Program, SyntaxError>) -> bool {
    match p_program(ts) {
        Ok((v, _)) => r matches Ok(p) && p@ == v,
        Err(f) => r matches Err(e) && e@ == syntax_error_of(f, ts, src),
    }
}

/// Parses the tokens of `source` into a program.
pub fn parse(tokens: Vec<TokenWithMetaData>, source: &str) -> (r: Result<Program, SyntaxError>)
    requires
        forall|j: int| 0 <= j < tokens@.len() ==> (#[trigger] tokens@[j]).span.start < usize::MAX
            && tokens@[j].span.end < usize::MAX,
    ensures
        parse_result(metas(tokens@), source@, r),
{
    let src = str_chars(source);
    let bytes = source.as_bytes();
    let total = bytes.len();
    proof {
        assert(src@.take(src@.len() as int) =~= src@);
        assert(byte_pos(src@, src@.len() as int) == total);
    }
    match parse_program(&tokens) {
        Ok((p, _)) => Ok(p),
        Err(f) => Err(syntax_error_from(&f, &tokens, &src)),
    }
}

/// Splits `source` into tokens and parses them; the texts the lexer rejects
/// are left out.
pub fn parse_source(source: &str) -> (r: Result<Program, SyntaxError>)
    requires
        source@.len() < usize::MAX,
        encode_utf8(source@).len() < usize::MAX,
    ensures
        parse_result(lex(source@).0, source@, r),
{
    let (tokens, _errors) = tokenize(source);
    proof {
        assert(source@.take(source@.len() as int) =~= source@);
    }
    parse(tokens, source)
}

} // verus!
