//! The grammar of MiniSoft, as a recursive-descent reading of a token
//! sequence. Every reading function takes the tokens and a position and gives
//! the node read with the position after it, or the position where reading
//! failed with the tokens that would have been accepted there.
use vstd::prelude::*;
use crate::lexer::token::{Token, TokenV};
use crate::lexer::lexer_core::TokenMeta;
use crate::parser::ast::{Loc, LitV, ExprV, StmtV, DeclV, ProgramV, Type, Operator, UnaryOperator};

verus! {

/// A token class that the reader expected.
#[derive(Debug, Clone, Copy, PartialEq, Eq, Structural)]
pub enum Expect {
    Fixed(usize),
    Identifier,
    Integer,
    Float,
    Str,
    End,
}

pub struct Fail {
    pub at: int,
    pub expected: Seq<Expect>,
}

pub type PRes<T> = Result<(T, int), Fail>;

pub open spec fn fail<T>(at: int, expected: Seq<Expect>) -> PRes<T> {
    Err(Fail { at, expected })
}

/// Numbers of the fixed tokens used by the grammar.
pub open spec fn t_mainprgm() -> usize { 0 }
pub open spec fn t_var() -> usize { 1 }
pub open spec fn t_beginpg() -> usize { 2 }
pub open spec fn t_endpg() -> usize { 3 }
pub open spec fn t_let() -> usize { 4 }
pub open spec fn t_int() -> usize { 5 }
pub open spec fn t_float() -> usize { 6 }
pub open spec fn t_if() -> usize { 7 }
pub open spec fn t_then() -> usize { 8 }
pub open spec fn t_else() -> usize { 9 }
pub open spec fn t_while() -> usize { 10 }
pub open spec fn t_for() -> usize { 11 }
pub open spec fn t_do() -> usize { 12 }
pub open spec fn t_from() -> usize { 13 }
pub open spec fn t_to() -> usize { 14 }
pub open spec fn t_step() -> usize { 15 }
pub open spec fn t_input() -> usize { 16 }
pub open spec fn t_output() -> usize { 17 }
pub open spec fn t_define() -> usize { 18 }
pub open spec fn t_const() -> usize { 19 }
pub open spec fn t_semi() -> usize { 20 }
pub open spec fn t_comma() -> usize { 21 }
pub open spec fn t_colon() -> usize { 22 }
pub open spec fn t_lbracket() -> usize { 23 }
pub open spec fn t_rbracket() -> usize { 24 }
pub open spec fn t_lbrace() -> usize { 25 }
pub open spec fn t_rbrace() -> usize { 26 }
pub open spec fn t_lparen() -> usize { 27 }
pub open spec fn t_rparen() -> usize { 28 }
pub open spec fn t_assign() -> usize { 29 }
pub open spec fn t_equals() -> usize { 30 }
pub open spec fn t_not() -> usize { 43 }

/// Is token `p` the fixed token `k`?
pub open spec fn is_fixed(ts: Seq<TokenMeta>, p: int, k: usize) -> bool {
    0 <= p < ts.len() && ts[p].kind == TokenV::Fixed(k as int)
}

pub open spec fn start_of(ts: Seq<TokenMeta>, p: int) -> int {
    ts[p].start
}

pub open spec fn end_of(ts: Seq<TokenMeta>, p: int) -> int {
    ts[p].end
}

/// The binary operator spelled by fixed token `k` at precedence rank `r`
/// (1: `*` `/`, 2: `+` `-`, 3: comparisons, 4: `AND`, 5: `OR`).
pub open spec fn binop_at(k: int, r: int) -> Option<Operator> {
    if r == 1 && k == 33 {
        Some(Operator::Multiply)
    } else if r == 1 && k == 34 {
        Some(Operator::Divide)
    } else if r == 2 && k == 31 {
        Some(Operator::Add)
    } else if r == 2 && k == 32 {
        Some(Operator::Subtract)
    } else if r == 3 && k == 35 {
        Some(Operator::GreaterThan)
    } else if r == 3 && k == 36 {
        Some(Operator::LessThan)
    } else if r == 3 && k == 37 {
        Some(Operator::GreaterEqual)
    } else if r == 3 && k == 38 {
        Some(Operator::LessEqual)
    } else if r == 3 && k == 39 {
        Some(Operator::Equal)
    } else if r == 3 && k == 40 {
        Some(Operator::NotEqual)
    } else if r == 4 && k == 41 {
        Some(Operator::And)
    } else if r == 5 && k == 42 {
        Some(Operator::Or)
    } else {
        None
    }
}

/// The binary operator at token `p` for rank `r`, if any.
pub open spec fn op_token(ts: Seq<TokenMeta>, p: int, r: int) -> Option<Operator> {
    if 0 <= p < ts.len() {
        match ts[p].kind {
            TokenV::Fixed(k) => binop_at(k, r),
            _ => None,
        }
    } else {
        None
    }
}

pub open spec fn primary_expected() -> Seq<Expect> {
    seq![Expect::Identifier, Expect::Integer, Expect::Float, Expect::Str, Expect::Fixed(27), Expect::Fixed(43)]
}

pub open spec fn loc<T>(node: T, start: int, end: int) -> Loc<T> {
    Loc { node, start, end }
}

/// Primary expressions: literals, names, array elements, parenthesized
/// expressions (whose node is that of the inner expression).
pub open spec fn p_primary(ts: Seq<TokenMeta>, p: int) -> PRes<Loc<ExprV>>
    decreases ts.len() - p, 0int, 0int,
{
    if p < 0 || p >= ts.len() {
        fail(p, primary_expected())
    } else {
        let s = start_of(ts, p);
        let e = end_of(ts, p);
        match ts[p].kind {
            TokenV::IntLiteral(v) => Ok((loc(ExprV::Lit(loc(LitV::Int(v), s, e)), s, e), p + 1)),
            TokenV::FloatLiteral(t) => Ok((loc(ExprV::Lit(loc(LitV::Float(t), s, e)), s, e), p + 1)),
            TokenV::StringLiteral(t) => Ok((loc(ExprV::Lit(loc(LitV::Str(t), s, e)), s, e), p + 1)),
            TokenV::Identifier(n) => {
                if is_fixed(ts, p + 1, t_lbracket()) {
                    match p_bin(ts, p + 2, 5) {
                        Ok((ix, q)) => if is_fixed(ts, q, t_rbracket()) {
                            Ok((loc(ExprV::Access(n, Box::new(ix)), s, end_of(ts, q)), q + 1))
                        } else {
                            fail(q, seq![Expect::Fixed(24)])
                        },
                        Err(f) => Err(f),
                    }
                } else {
                    Ok((loc(ExprV::Ident(n), s, e), p + 1))
                }
            },
            TokenV::Fixed(k) => if k == 27 {
                match p_bin(ts, p + 1, 5) {
                    Ok((x, q)) => if is_fixed(ts, q, t_rparen()) {
                        Ok((x, q + 1))
                    } else {
                        fail(q, seq![Expect::Fixed(28)])
                    },
                    Err(f) => Err(f),
                }
            } else {
                fail(p, primary_expected())
            },
            _ => fail(p, primary_expected()),
        }
    }
}

/// Expressions of rank `r` (0: `!` and primaries).
pub open spec fn p_bin(ts: Seq<TokenMeta>, p: int, r: int) -> PRes<Loc<ExprV>>
    decreases ts.len() - p, r, 2int,
{
    if r < 0 {
        fail(p, seq![])
    } else if r == 0 {
        if is_fixed(ts, p, t_not()) {
            match p_bin(ts, p + 1, 0) {
                Ok((x, q)) => Ok((loc(ExprV::Unary(UnaryOperator::Not, Box::new(x)), start_of(ts, p), x.end), q)),
                Err(f) => Err(f),
            }
        } else {
            p_primary(ts, p)
        }
    } else {
        match p_bin(ts, p, r - 1) {
            Ok((lhs, q)) => if q <= p || q > ts.len() {
                fail(p, seq![])
            } else {
                p_bin_rest(ts, q, r, lhs)
            },
            Err(f) => Err(f),
        }
    }
}

/// Continues an expression of rank `r` whose left part `lhs` ends before `p`:
/// operators of this rank associate to the left.
pub open spec fn p_bin_rest(ts: Seq<TokenMeta>, p: int, r: int, lhs: Loc<ExprV>) -> PRes<Loc<ExprV>>
    decreases ts.len() - p, r, 1int,
{
    if r <= 0 || p < 0 || p >= ts.len() {
        Ok((lhs, p))
    } else {
        match op_token(ts, p, r) {
            Some(op) => match p_bin(ts, p + 1, r - 1) {
                Ok((rhs, q)) => if q <= p || q > ts.len() {
                    fail(p, seq![])
                } else {
                    p_bin_rest(
                        ts,
                        q,
                        r,
                        loc(ExprV::Binary(Box::new(lhs), op, Box::new(rhs)), lhs.start, rhs.end),
                    )
                },
                Err(f) => Err(f),
            },
            None => Ok((lhs, p)),
        }
    }
}

/// A whole expression.
pub open spec fn p_expr(ts: Seq<TokenMeta>, p: int) -> PRes<Loc<ExprV>> {
    p_bin(ts, p, 5)
}

} // verus!

verus! {

/// Does `q` lie after `p` and within the tokens?
pub open spec fn advances(ts: Seq<TokenMeta>, p: int, q: int) -> bool {
    p < q <= ts.len()
}

/// An assignment target: a name or an array element.
pub open spec fn p_lvalue(ts: Seq<TokenMeta>, p: int) -> PRes<Loc<ExprV>> {
    if 0 <= p < ts.len() && ts[p].kind is Identifier {
        p_primary(ts, p)
    } else {
        fail(p, seq![Expect::Identifier])
    }
}

/// Expressions separated by commas.
pub open spec fn p_expr_list(ts: Seq<TokenMeta>, p: int) -> PRes<Seq<Loc<ExprV>>>
    decreases ts.len() - p,
{
    match p_expr(ts, p) {
        Ok((e, q)) => if !advances(ts, p, q) {
            fail(p, seq![])
        } else if is_fixed(ts, q, t_comma()) {
            match p_expr_list(ts, q + 1) {
                Ok((es, r)) => Ok((seq![e] + es, r)),
                Err(f) => Err(f),
            }
        } else {
            Ok((seq![e], q))
        },
        Err(f) => Err(f),
    }
}

pub open spec fn stmt_expected() -> Seq<Expect> {
    seq![
        Expect::Identifier,
        Expect::Fixed(7),
        Expect::Fixed(12),
        Expect::Fixed(11),
        Expect::Fixed(16),
        Expect::Fixed(17),
        Expect::Fixed(25),
        Expect::Fixed(20),
    ]
}

/// A statement.
pub open spec fn p_stmt(ts: Seq<TokenMeta>, p: int) -> PRes<Loc<StmtV>>
    decreases ts.len() - p, 1int,
{
    if p < 0 || p >= ts.len() {
        fail(p, stmt_expected())
    } else {
        let s = start_of(ts, p);
        match ts[p].kind {
            TokenV::Identifier(_) => match p_lvalue(ts, p) {
                Ok((x, q)) => if !is_fixed(ts, q, t_assign()) {
                    fail(q, seq![Expect::Fixed(29)])
                } else {
                    match p_expr(ts, q + 1) {
                        Ok((e, r)) => if is_fixed(ts, r, t_semi()) {
                            Ok((loc(StmtV::Assign(x, e), s, end_of(ts, r)), r + 1))
                        } else {
                            fail(r, seq![Expect::Fixed(20)])
                        },
                        Err(f) => Err(f),
                    }
                },
                Err(f) => Err(f),
            },
            TokenV::Fixed(k) => if k == 7 {
                match p_expr(ts, p + 1) {
                    Ok((c, q)) => if !is_fixed(ts, q, t_then()) {
                        fail(q, seq![Expect::Fixed(8)])
                    } else if !advances(ts, p, q) {
                        fail(p, seq![])
                    } else {
                        match p_block(ts, q + 1) {
                            Ok((b1, r)) => if !advances(ts, p, r) {
                                fail(p, seq![])
                            } else if is_fixed(ts, r, t_else()) {
                                match p_block(ts, r + 1) {
                                    Ok((b2, u)) => if !advances(ts, p, u) {
                                        fail(p, seq![])
                                    } else {
                                        Ok((loc(StmtV::IfThenElse(c, b1, b2), s, end_of(ts, u - 1)), u))
                                    },
                                    Err(f) => Err(f),
                                }
                            } else {
                                Ok((loc(StmtV::IfThen(c, b1), s, end_of(ts, r - 1)), r))
                            },
                            Err(f) => Err(f),
                        }
                    },
                    Err(f) => Err(f),
                }
            } else if k == 12 {
                match p_block(ts, p + 1) {
                    Ok((b, q)) => if !is_fixed(ts, q, t_while()) {
                        fail(q, seq![Expect::Fixed(10)])
                    } else {
                        match p_expr(ts, q + 1) {
                            Ok((c, r)) => if is_fixed(ts, r, t_semi()) {
                                Ok((loc(StmtV::DoWhile(b, c), s, end_of(ts, r)), r + 1))
                            } else {
                                fail(r, seq![Expect::Fixed(20)])
                            },
                            Err(f) => Err(f),
                        }
                    },
                    Err(f) => Err(f),
                }
            } else if k == 11 {
                if !(p + 1 < ts.len() && ts[p + 1].kind is Identifier) {
                    fail(p + 1, seq![Expect::Identifier])
                } else if !is_fixed(ts, p + 2, t_from()) {
                    fail(p + 2, seq![Expect::Fixed(13)])
                } else {
                    let v = loc(ExprV::Ident(ts[p + 1].kind->Identifier_0), start_of(ts, p + 1), end_of(ts, p + 1));
                    match p_expr(ts, p + 3) {
                        Ok((a, q)) => if !is_fixed(ts, q, t_to()) {
                            fail(q, seq![Expect::Fixed(14)])
                        } else {
                            match p_expr(ts, q + 1) {
                                Ok((b, r)) => if !is_fixed(ts, r, t_step()) {
                                    fail(r, seq![Expect::Fixed(15)])
                                } else {
                                    match p_expr(ts, r + 1) {
                                        Ok((c, u)) => if !advances(ts, p, u) {
                                            fail(p, seq![])
                                        } else {
                                            match p_block(ts, u) {
                                                Ok((body, w)) => if !advances(ts, p, w) {
                                                    fail(p, seq![])
                                                } else {
                                                    Ok((loc(StmtV::For(v, a, b, c, body), s, end_of(ts, w - 1)), w))
                                                },
                                                Err(f) => Err(f),
                                            }
                                        },
                                        Err(f) => Err(f),
                                    }
                                },
                                Err(f) => Err(f),
                            }
                        },
                        Err(f) => Err(f),
                    }
                }
            } else if k == 16 {
                if !is_fixed(ts, p + 1, t_lparen()) {
                    fail(p + 1, seq![Expect::Fixed(27)])
                } else {
                    match p_lvalue(ts, p + 2) {
                        Ok((x, q)) => if !is_fixed(ts, q, t_rparen()) {
                            fail(q, seq![Expect::Fixed(28)])
                        } else if !is_fixed(ts, q + 1, t_semi()) {
                            fail(q + 1, seq![Expect::Fixed(20)])
                        } else {
                            Ok((loc(StmtV::Input(x), s, end_of(ts, q + 1)), q + 2))
                        },
                        Err(f) => Err(f),
                    }
                }
            } else if k == 17 {
                if !is_fixed(ts, p + 1, t_lparen()) {
                    fail(p + 1, seq![Expect::Fixed(27)])
                } else {
                    match p_expr_list(ts, p + 2) {
                        Ok((es, q)) => if !is_fixed(ts, q, t_rparen()) {
                            fail(q, seq![Expect::Fixed(28)])
                        } else if !is_fixed(ts, q + 1, t_semi()) {
                            fail(q + 1, seq![Expect::Fixed(20)])
                        } else {
                            Ok((loc(StmtV::Output(es), s, end_of(ts, q + 1)), q + 2))
                        },
                        Err(f) => Err(f),
                    }
                }
            } else if k == 25 {
                match p_block(ts, p) {
                    Ok((b, q)) => if !advances(ts, p, q) {
                        fail(p, seq![])
                    } else {
                        Ok((loc(StmtV::Scope(b), s, end_of(ts, q - 1)), q))
                    },
                    Err(f) => Err(f),
                }
            } else if k == 20 {
                Ok((loc(StmtV::Empty, s, end_of(ts, p)), p + 1))
            } else {
                fail(p, stmt_expected())
            },
            _ => fail(p, stmt_expected()),
        }
    }
}

/// `{` statements `}`.
pub open spec fn p_block(ts: Seq<TokenMeta>, p: int) -> PRes<Seq<Loc<StmtV>>>
    decreases ts.len() - p, 0int,
{
    if !is_fixed(ts, p, t_lbrace()) {
        fail(p, seq![Expect::Fixed(25)])
    } else {
        p_items(ts, p + 1)
    }
}

/// Statements up to and including the closing `}`.
pub open spec fn p_items(ts: Seq<TokenMeta>, p: int) -> PRes<Seq<Loc<StmtV>>>
    decreases ts.len() - p, 2int,
{
    if p < 0 || p >= ts.len() {
        fail(p, seq![Expect::Fixed(26)] + stmt_expected())
    } else if is_fixed(ts, p, t_rbrace()) {
        Ok((seq![], p + 1))
    } else {
        match p_stmt(ts, p) {
            Ok((st, q)) => if !advances(ts, p, q) {
                fail(p, seq![])
            } else {
                match p_items(ts, q) {
                    Ok((rest, r)) => Ok((seq![st] + rest, r)),
                    Err(f) => Err(f),
                }
            },
            Err(f) => Err(f),
        }
    }
}

/// Names separated by commas.
pub open spec fn p_names(ts: Seq<TokenMeta>, p: int) -> PRes<Seq<Seq<char>>>
    decreases ts.len() - p,
{
    if 0 <= p < ts.len() && ts[p].kind is Identifier {
        let n = ts[p].kind->Identifier_0;
        if is_fixed(ts, p + 1, t_comma()) {
            match p_names(ts, p + 2) {
                Ok((ns, q)) => Ok((seq![n] + ns, q)),
                Err(f) => Err(f),
            }
        } else {
            Ok((seq![n], p + 1))
        }
    } else {
        fail(p, seq![Expect::Identifier])
    }
}

/// `Int` or `Float`.
pub open spec fn p_type(ts: Seq<TokenMeta>, p: int) -> PRes<Type> {
    if is_fixed(ts, p, t_int()) {
        Ok((Type::Int, p + 1))
    } else if is_fixed(ts, p, t_float()) {
        Ok((Type::Float, p + 1))
    } else {
        fail(p, seq![Expect::Fixed(5), Expect::Fixed(6)])
    }
}

/// A literal token.
pub open spec fn p_literal(ts: Seq<TokenMeta>, p: int) -> PRes<Loc<LitV>> {
    if 0 <= p < ts.len() {
        let s = start_of(ts, p);
        let e = end_of(ts, p);
        match ts[p].kind {
            TokenV::IntLiteral(v) => Ok((loc(LitV::Int(v), s, e), p + 1)),
            TokenV::FloatLiteral(t) => Ok((loc(LitV::Float(t), s, e), p + 1)),
            TokenV::StringLiteral(t) => Ok((loc(LitV::Str(t), s, e), p + 1)),
            _ => fail(p, seq![Expect::Integer, Expect::Float, Expect::Str]),
        }
    } else {
        fail(p, seq![Expect::Integer, Expect::Float, Expect::Str])
    }
}

/// The rest of a `let` declaration after `let names :`, at `q`.
pub open spec fn p_let_tail(ts: Seq<TokenMeta>, p: int, ns: Seq<Seq<char>>, q: int) -> PRes<Loc<DeclV>> {
    let s = start_of(ts, p);
    if is_fixed(ts, q, t_lbracket()) {
        match p_type(ts, q + 1) {
            Ok((t, r)) => if !is_fixed(ts, r, t_semi()) {
                fail(r, seq![Expect::Fixed(20)])
            } else if !(r + 1 < ts.len() && ts[r + 1].kind is IntLiteral) {
                fail(r + 1, seq![Expect::Integer])
            } else if !is_fixed(ts, r + 2, t_rbracket()) {
                fail(r + 2, seq![Expect::Fixed(24)])
            } else {
                let n = ts[r + 1].kind->IntLiteral_0;
                if is_fixed(ts, r + 3, t_semi()) {
                    Ok((loc(DeclV::Array(ns, t, n), s, end_of(ts, r + 3)), r + 4))
                } else if is_fixed(ts, r + 3, t_equals()) {
                    if !is_fixed(ts, r + 4, t_lbrace()) {
                        fail(r + 4, seq![Expect::Fixed(25)])
                    } else {
                        match p_expr_list(ts, r + 5) {
                            Ok((es, u)) => if !is_fixed(ts, u, t_rbrace()) {
                                fail(u, seq![Expect::Fixed(26)])
                            } else if !is_fixed(ts, u + 1, t_semi()) {
                                fail(u + 1, seq![Expect::Fixed(20)])
                            } else {
                                Ok((loc(DeclV::ArrayWithInit(ns, t, n, es), s, end_of(ts, u + 1)), u + 2))
                            },
                            Err(f) => Err(f),
                        }
                    }
                } else {
                    fail(r + 3, seq![Expect::Fixed(20), Expect::Fixed(30)])
                }
            },
            Err(f) => Err(f),
        }
    } else {
        match p_type(ts, q) {
            Ok((t, r)) => if is_fixed(ts, r, t_semi()) {
                Ok((loc(DeclV::Variable(ns, t), s, end_of(ts, r)), r + 1))
            } else if is_fixed(ts, r, t_equals()) {
                match p_expr(ts, r + 1) {
                    Ok((e, u)) => if is_fixed(ts, u, t_semi()) {
                        Ok((loc(DeclV::VariableWithInit(ns, t, e), s, end_of(ts, u)), u + 1))
                    } else {
                        fail(u, seq![Expect::Fixed(20)])
                    },
                    Err(f) => Err(f),
                }
            } else {
                fail(r, seq![Expect::Fixed(20), Expect::Fixed(30)])
            },
            Err(f) => Err(f),
        }
    }
}

/// A declaration.
pub open spec fn p_decl(ts: Seq<TokenMeta>, p: int) -> PRes<Loc<DeclV>> {
    let s = start_of(ts, p);
    if is_fixed(ts, p, t_let()) {
        match p_names(ts, p + 1) {
            Ok((ns, q)) => if !is_fixed(ts, q, t_colon()) {
                fail(q, seq![Expect::Fixed(22)])
            } else {
                p_let_tail(ts, p, ns, q + 1)
            },
            Err(f) => Err(f),
        }
    } else if is_fixed(ts, p, t_define()) {
        if !is_fixed(ts, p + 1, t_const()) {
            fail(p + 1, seq![Expect::Fixed(19)])
        } else if !(p + 2 < ts.len() && ts[p + 2].kind is Identifier) {
            fail(p + 2, seq![Expect::Identifier])
        } else if !is_fixed(ts, p + 3, t_colon()) {
            fail(p + 3, seq![Expect::Fixed(22)])
        } else {
            let n = ts[p + 2].kind->Identifier_0;
            match p_type(ts, p + 4) {
                Ok((t, q)) => if !is_fixed(ts, q, t_equals()) {
                    fail(q, seq![Expect::Fixed(30)])
                } else {
                    match p_literal(ts, q + 1) {
                        Ok((l, r)) => if is_fixed(ts, r, t_semi()) {
                            Ok((loc(DeclV::Constant(n, t, l), s, end_of(ts, r)), r + 1))
                        } else {
                            fail(r, seq![Expect::Fixed(20)])
                        },
                        Err(f) => Err(f),
                    }
                },
                Err(f) => Err(f),
            }
        }
    } else {
        fail(p, seq![Expect::Fixed(4), Expect::Fixed(18)])
    }
}

/// Declarations, as long as one starts.
pub open spec fn p_decls(ts: Seq<TokenMeta>, p: int) -> PRes<Seq<Loc<DeclV>>>
    decreases ts.len() - p,
{
    if is_fixed(ts, p, t_let()) || is_fixed(ts, p, t_define()) {
        match p_decl(ts, p) {
            Ok((d, q)) => if !advances(ts, p, q) {
                fail(p, seq![])
            } else {
                match p_decls(ts, q) {
                    Ok((ds, r)) => Ok((seq![d] + ds, r)),
                    Err(f) => Err(f),
                }
            },
            Err(f) => Err(f),
        }
    } else {
        Ok((seq![], p))
    }
}

/// A whole program; nothing may follow its final `;`.
pub open spec fn p_program(ts: Seq<TokenMeta>) -> PRes<ProgramV> {
    if !is_fixed(ts, 0, t_mainprgm()) {
        fail(0, seq![Expect::Fixed(0)])
    } else if !(1 < ts.len() && ts[1].kind is Identifier) {
        fail(1, seq![Expect::Identifier])
    } else if !is_fixed(ts, 2, t_semi()) {
        fail(2, seq![Expect::Fixed(20)])
    } else if !is_fixed(ts, 3, t_var()) {
        fail(3, seq![Expect::Fixed(1)])
    } else {
        match p_decls(ts, 4) {
            Ok((ds, q)) => if !is_fixed(ts, q, t_beginpg()) {
                fail(q, seq![Expect::Fixed(2), Expect::Fixed(4), Expect::Fixed(18)])
            } else {
                match p_block(ts, q + 1) {
                    Ok((ss, r)) => if !is_fixed(ts, r, t_endpg()) {
                        fail(r, seq![Expect::Fixed(3)])
                    } else if !is_fixed(ts, r + 1, t_semi()) {
                        fail(r + 1, seq![Expect::Fixed(20)])
                    } else if r + 2 < ts.len() {
                        fail(r + 2, seq![])
                    } else {
                        Ok((
                            ProgramV {
                                name: ts[1].kind->Identifier_0,
                                declarations: ds,
                                statements: ss,
                            },
                            r + 2,
                        ))
                    },
                    Err(f) => Err(f),
                }
            },
            Err(f) => Err(f),
        }
    }
}

} // verus!

verus! {

// ----- Precedence of the binary operators -----

/// Is token `i` an operand on its own: a number, or a name that no `[`
/// follows?
pub open spec fn is_leaf(ts: Seq<TokenMeta>, i: int) -> bool {
    0 <= i < ts.len() && (ts[i].kind is IntLiteral || ts[i].kind is FloatLiteral
        || (ts[i].kind is Identifier && !is_fixed(ts, i + 1, t_lbracket())))
}

/// The expression a leaf token stands for.
pub open spec fn leaf_node(ts: Seq<TokenMeta>, i: int) -> ExprV {
    match ts[i].kind {
        TokenV::IntLiteral(v) => ExprV::Lit(loc(LitV::Int(v), ts[i].start, ts[i].end)),
        TokenV::FloatLiteral(t) => ExprV::Lit(loc(LitV::Float(t), ts[i].start, ts[i].end)),
        TokenV::Identifier(n) => ExprV::Ident(n),
        _ => ExprV::Ident(seq![]),
    }
}

/// A leaf token as a located expression.
pub open spec fn leaf_loc(ts: Seq<TokenMeta>, i: int) -> Loc<ExprV> {
    loc(leaf_node(ts, i), ts[i].start, ts[i].end)
}

/// The binary expression `l op r`, spanning from `l` to `r`.
pub open spec fn binary_node(l: Loc<ExprV>, op: Operator, r: Loc<ExprV>) -> Loc<ExprV> {
    loc(ExprV::Binary(Box::new(l), op, Box::new(r)), l.start, r.end)
}

proof fn lemma_leaf_rank(ts: Seq<TokenMeta>, i: int, r: int)
    requires
        is_leaf(ts, i),
        0 <= r,
        forall|r2: int| 1 <= r2 <= r ==> #[trigger] op_token(ts, i + 1, r2) is None,
    ensures
        p_bin(ts, i, r) == Ok::<(Loc<ExprV>, int), Fail>((leaf_loc(ts, i), i + 1)),
    decreases r,
{
    let x = leaf_loc(ts, i);
    if r > 0 {
        lemma_leaf_rank(ts, i, r - 1);
        assert(op_token(ts, i + 1, r) is None);
        assert(p_bin_rest(ts, i + 1, r, x) == Ok::<(Loc<ExprV>, int), Fail>((x, i + 1)));
    } else {
        assert(!is_fixed(ts, i, t_not()));
        assert(p_primary(ts, i) == Ok::<(Loc<ExprV>, int), Fail>((x, i + 1)));
    }
}

proof fn lemma_lift(ts: Seq<TokenMeta>, p: int, r: int, x: Loc<ExprV>, q: int)
    requires
        1 <= r,
        p < q <= ts.len(),
        p_bin(ts, p, r - 1) == Ok::<(Loc<ExprV>, int), Fail>((x, q)),
        op_token(ts, q, r) is None,
    ensures
        p_bin(ts, p, r) == Ok::<(Loc<ExprV>, int), Fail>((x, q)),
{
    assert(p_bin_rest(ts, q, r, x) == Ok::<(Loc<ExprV>, int), Fail>((x, q)));
}

/// How tightly a binary operator token binds, tightest first: 1 for `*`
/// and `/`, 2 for `+` and `-`, 3 for the comparisons, 4 for `AND`, 5 for
/// `OR`; 0 for a token that is no binary operator.
pub open spec fn binding(kind: TokenV) -> int {
    if kind == Token::Multiply@ || kind == Token::Divide@ {
        1
    } else if kind == Token::Plus@ || kind == Token::Minus@ {
        2
    } else if kind == Token::GreaterThan@ || kind == Token::LessThan@ || kind == Token::GreaterEqual@
        || kind == Token::LessEqual@ || kind == Token::Equal@ || kind == Token::NotEqual@ {
        3
    } else if kind == Token::And@ {
        4
    } else if kind == Token::Or@ {
        5
    } else {
        0
    }
}

/// Does the expression end before token `q`: no token there, or one that
/// neither continues an operand (`[`) nor is a binary operator?
pub open spec fn ends_before(ts: Seq<TokenMeta>, q: int) -> bool {
    q >= ts.len() || (ts[q].kind != Token::OpenBracket@ && binding(ts[q].kind) == 0)
}

/// The operator a binary operator token stands for.
pub open spec fn token_binary_operator(kind: TokenV) -> Operator {
    if kind == Token::Plus@ {
        Operator::Add
    } else if kind == Token::Minus@ {
        Operator::Subtract
    } else if kind == Token::Multiply@ {
        Operator::Multiply
    } else if kind == Token::Divide@ {
        Operator::Divide
    } else if kind == Token::GreaterThan@ {
        Operator::GreaterThan
    } else if kind == Token::LessThan@ {
        Operator::LessThan
    } else if kind == Token::GreaterEqual@ {
        Operator::GreaterEqual
    } else if kind == Token::LessEqual@ {
        Operator::LessEqual
    } else if kind == Token::Equal@ {
        Operator::Equal
    } else if kind == Token::NotEqual@ {
        Operator::NotEqual
    } else if kind == Token::And@ {
        Operator::And
    } else {
        Operator::Or
    }
}

proof fn lemma_op_token_binding(ts: Seq<TokenMeta>, i: int, k: int)
    requires
        0 <= i < ts.len(),
        binding(ts[i].kind) > 0,
    ensures
        op_token(ts, i, k) == if k == binding(ts[i].kind) {
            Some(token_binary_operator(ts[i].kind))
        } else {
            None::<Operator>
        },
{
}

proof fn lemma_lift_to(ts: Seq<TokenMeta>, p: int, r: int, top: int, x: Loc<ExprV>, q: int)
    requires
        1 <= r <= top,
        p < q <= ts.len(),
        p_bin(ts, p, r) == Ok::<(Loc<ExprV>, int), Fail>((x, q)),
        forall|k: int| r < k <= top ==> #[trigger] op_token(ts, q, k) is None,
    ensures
        p_bin(ts, p, top) == Ok::<(Loc<ExprV>, int), Fail>((x, q)),
    decreases top - r,
{
    if top > r {
        lemma_lift_to(ts, p, r, top - 1, x, q);
        lemma_lift(ts, p, top, x, q);
    }
}

/// Precedence and associativity of every pair of binary operators: in
/// `a op1 b op2 c`, `b` goes with `op2` exactly when `op2` binds tighter than
/// `op1`; otherwise, and in particular when both bind alike, `a op1 b` is
/// formed first.
pub proof fn lemma_precedence(ts: Seq<TokenMeta>, p: int)
    requires
        0 <= p,
        p + 5 <= ts.len(),
        is_leaf(ts, p),
        binding(ts[p + 1].kind) > 0,
        is_leaf(ts, p + 2),
        binding(ts[p + 3].kind) > 0,
        is_leaf(ts, p + 4),
        ends_before(ts, p + 5),
    ensures
        ({
            let a = leaf_loc(ts, p);
            let b = leaf_loc(ts, p + 2);
            let c = leaf_loc(ts, p + 4);
            let o1 = token_binary_operator(ts[p + 1].kind);
            let o2 = token_binary_operator(ts[p + 3].kind);
            p_expr(ts, p) == Ok::<(Loc<ExprV>, int), Fail>((
                if binding(ts[p + 3].kind) < binding(ts[p + 1].kind) {
                    binary_node(a, o1, binary_node(b, o2, c))
                } else {
                    binary_node(binary_node(a, o1, b), o2, c)
                },
                p + 5,
            ))
        }),
{
    let a = leaf_loc(ts, p);
    let b = leaf_loc(ts, p + 2);
    let c = leaf_loc(ts, p + 4);
    let o1 = token_binary_operator(ts[p + 1].kind);
    let o2 = token_binary_operator(ts[p + 3].kind);
    let r1 = binding(ts[p + 1].kind);
    let r2 = binding(ts[p + 3].kind);
    assert forall|k: int| #[trigger] op_token(ts, p + 1, k) == (if k == r1 { Some(o1) } else { None::<Operator> }) by {
        lemma_op_token_binding(ts, p + 1, k);
    }
    assert forall|k: int| #[trigger] op_token(ts, p + 3, k) == (if k == r2 { Some(o2) } else { None::<Operator> }) by {
        lemma_op_token_binding(ts, p + 3, k);
    }
    assert forall|k: int| #[trigger] op_token(ts, p + 5, k) is None by {}
    if r2 < r1 {
        // b op2 c at rank r2, lifted to r1 - 1
        lemma_leaf_rank(ts, p + 2, r2 - 1);
        lemma_leaf_rank(ts, p + 4, r2 - 1);
        let bc = binary_node(b, o2, c);
        assert(p_bin_rest(ts, p + 5, r2, bc) == Ok::<(Loc<ExprV>, int), Fail>((bc, p + 5)));
        assert(p_bin_rest(ts, p + 3, r2, b) == Ok::<(Loc<ExprV>, int), Fail>((bc, p + 5)));
        assert(p_bin(ts, p + 2, r2) == Ok::<(Loc<ExprV>, int), Fail>((bc, p + 5)));
        lemma_lift_to(ts, p + 2, r2, r1 - 1, bc, p + 5);
        // a op1 (b op2 c) at rank r1, lifted to the top
        lemma_leaf_rank(ts, p, r1 - 1);
        let e = binary_node(a, o1, bc);
        assert(p_bin_rest(ts, p + 5, r1, e) == Ok::<(Loc<ExprV>, int), Fail>((e, p + 5)));
        assert(p_bin_rest(ts, p + 1, r1, a) == Ok::<(Loc<ExprV>, int), Fail>((e, p + 5)));
        assert(p_bin(ts, p, r1) == Ok::<(Loc<ExprV>, int), Fail>((e, p + 5)));
        lemma_lift_to(ts, p, r1, 5, e, p + 5);
    } else {
        // a op1 b at rank r1
        lemma_leaf_rank(ts, p, r1 - 1);
        lemma_leaf_rank(ts, p + 2, r1 - 1);
        let ab = binary_node(a, o1, b);
        let e = binary_node(ab, o2, c);
        lemma_leaf_rank(ts, p + 4, r2 - 1);
        assert(p_bin_rest(ts, p + 5, r2, e) == Ok::<(Loc<ExprV>, int), Fail>((e, p + 5)));
        if r2 == r1 {
            assert(p_bin_rest(ts, p + 3, r1, ab) == Ok::<(Loc<ExprV>, int), Fail>((e, p + 5)));
            assert(p_bin_rest(ts, p + 1, r1, a) == Ok::<(Loc<ExprV>, int), Fail>((e, p + 5)));
            assert(p_bin(ts, p, r1) == Ok::<(Loc<ExprV>, int), Fail>((e, p + 5)));
        } else {
            assert(p_bin_rest(ts, p + 3, r1, ab) == Ok::<(Loc<ExprV>, int), Fail>((ab, p + 3)));
            assert(p_bin_rest(ts, p + 1, r1, a) == Ok::<(Loc<ExprV>, int), Fail>((ab, p + 3)));
            assert(p_bin(ts, p, r1) == Ok::<(Loc<ExprV>, int), Fail>((ab, p + 3)));
            lemma_lift_to(ts, p, r1, r2 - 1, ab, p + 3);
            // (a op1 b) op2 c at rank r2
            assert(p_bin_rest(ts, p + 3, r2, ab) == Ok::<(Loc<ExprV>, int), Fail>((e, p + 5)));
            assert(p_bin(ts, p, r2) == Ok::<(Loc<ExprV>, int), Fail>((e, p + 5)));
        }
        lemma_lift_to(ts, p, r2, 5, e, p + 5);
    }
}

} // verus!
