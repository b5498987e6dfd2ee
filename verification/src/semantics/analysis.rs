//! What the semantic analysis finds, stated over the view of a program: the
//! symbols it declares and the errors it reports, in order, each at most once.
use vstd::prelude::*;
use crate::parser::ast::{type_text, Program, Expression, ExpressionKind, Statement, StatementKind, DeclarationKind,
    expr_view, exprs_view, stmt_view, stmts_view, decl_view, decls_view, lemma_stmts_view_index, Loc, LitV, ExprV, StmtV, DeclV, ProgramV, Type, Operator, UnaryOperator};
use crate::semantics::symbol_table::{SymbolV, SymbolKind, SymbolValueV, find};
use crate::semantics::error::SemanticErrorV;
use crate::semantics::source_map::{line_at, column_at};

verus! {

/// The symbols declared so far and the errors reported so far.
pub struct AState {
    pub symbols: Seq<SymbolV>,
    pub errors: Seq<SemanticErrorV>,
}

/// Reports `e` unless the same error was reported before.
pub open spec fn with_error(st: AState, e: SemanticErrorV) -> AState {
    if st.errors.contains(e) {
        st
    } else {
        AState { symbols: st.symbols, errors: st.errors.push(e) }
    }
}


/// Is the float written `t` zero (no digit but `0`)?
pub open spec fn float_text_is_zero(t: Seq<char>) -> bool {
    forall|k: int| 0 <= k < t.len() ==> !('1' <= #[trigger] t[k] && t[k] <= '9')
}

/// Is `l` a numeric zero?
pub open spec fn is_zero_literal(l: LitV) -> bool {
    match l {
        LitV::Int(v) => v == 0,
        LitV::Float(t) => float_text_is_zero(t),
        LitV::Str(_) => false,
    }
}

pub open spec fn is_numeric(t: Type) -> bool {
    t == Type::Int || t == Type::Float
}

pub open spec fn is_arithmetic(op: Operator) -> bool {
    op == Operator::Add || op == Operator::Subtract || op == Operator::Multiply || op == Operator::Divide
}

pub open spec fn is_comparison(op: Operator) -> bool {
    op == Operator::GreaterThan || op == Operator::LessThan || op == Operator::GreaterEqual
        || op == Operator::LessEqual || op == Operator::Equal || op == Operator::NotEqual
}

// ----- The errors, placed at a byte position -----

pub open spec fn undeclared(m: Seq<int>, pos: int, n: Seq<char>) -> SemanticErrorV {
    SemanticErrorV::UndeclaredIdentifier { name: n, line: line_at(m, pos), column: column_at(m, pos) }
}

pub open spec fn mismatch(m: Seq<int>, pos: int, expected: Type, found: Type, ctx: Seq<char>) -> SemanticErrorV {
    SemanticErrorV::TypeMismatch {
        expected: type_text(expected),
        found: type_text(found),
        line: line_at(m, pos),
        column: column_at(m, pos),
        context: Some(ctx),
    }
}

pub open spec fn division_by_zero(m: Seq<int>, pos: int) -> SemanticErrorV {
    SemanticErrorV::DivisionByZero { line: line_at(m, pos), column: column_at(m, pos) }
}

pub open spec fn constant_modification(m: Seq<int>, pos: int, n: Seq<char>) -> SemanticErrorV {
    SemanticErrorV::ConstantModification { name: n, line: line_at(m, pos), column: column_at(m, pos) }
}

pub open spec fn out_of_bounds(m: Seq<int>, pos: int, n: Seq<char>, index: int, size: int) -> SemanticErrorV {
    SemanticErrorV::ArrayIndexOutOfBounds {
        name: n,
        index,
        size,
        line: line_at(m, pos),
        column: column_at(m, pos),
    }
}

pub open spec fn non_array(m: Seq<int>, pos: int, n: Seq<char>) -> SemanticErrorV {
    SemanticErrorV::NonArrayIndexing { var_name: n, line: line_at(m, pos), column: column_at(m, pos) }
}

pub open spec fn duplicate(m: Seq<int>, pos: int, n: Seq<char>, first: SymbolV) -> SemanticErrorV {
    SemanticErrorV::DuplicateDeclaration {
        name: n,
        line: line_at(m, pos),
        column: column_at(m, pos),
        original_line: first.line,
        original_column: first.column,
    }
}

pub open spec fn invalid_size(m: Seq<int>, pos: int, n: Seq<char>, size: i32) -> SemanticErrorV {
    SemanticErrorV::InvalidArraySize { name: n, size: size as int, line: line_at(m, pos), column: column_at(m, pos) }
}

// ----- Constant values -----

/// The constant that `a op b` folds to; an integer division by zero is
/// reported at `rpos`, as is a float division by a zero constant. Integer
/// arithmetic wraps around; float arithmetic is not folded.
pub open spec fn fold_constant(st: AState, m: Seq<int>, a: LitV, op: Operator, b: LitV, rpos: int) -> (AState, Option<LitV>) {
    match (a, b) {
        (LitV::Int(x), LitV::Int(y)) => {
            if op == Operator::Add {
                (st, Some(LitV::Int(x.wrapping_add(y))))
            } else if op == Operator::Subtract {
                (st, Some(LitV::Int(x.wrapping_sub(y))))
            } else if op == Operator::Multiply {
                (st, Some(LitV::Int(x.wrapping_mul(y))))
            } else if op == Operator::Divide {
                if y == 0 {
                    (with_error(st, division_by_zero(m, rpos)), None)
                } else {
                    match x.checked_div(y) {
                        Some(q) => (st, Some(LitV::Int(q))),
                        None => (st, None),
                    }
                }
            } else {
                (st, None)
            }
        },
        (LitV::Float(_), LitV::Float(t)) => {
            if op == Operator::Divide && float_text_is_zero(t) {
                (with_error(st, division_by_zero(m, rpos)), None)
            } else {
                (st, None)
            }
        },
        _ => (st, None),
    }
}

/// The value of element `i` of the array value `v`, if it has one.
pub open spec fn element(v: SymbolValueV, i: i32) -> Option<LitV> {
    match v {
        SymbolValueV::Array(vals) => if ((i as usize) as int) < vals.len() {
            Some(vals[(i as usize) as int])
        } else {
            None
        },
        _ => None,
    }
}

/// The constant value of `e`, with the division-by-zero errors met on the way.
pub open spec fn const_value(st: AState, m: Seq<int>, e: Loc<ExprV>) -> (AState, Option<LitV>)
    decreases e,
{
    match e.node {
        ExprV::Lit(l) => (st, Some(l.node)),
        ExprV::Ident(n) => match find(st.symbols, n) {
            Some(s) => if s.is_constant {
                match s.value {
                    SymbolValueV::Single(l) => (st, Some(l)),
                    _ => (st, None),
                }
            } else {
                (st, None)
            },
            None => (st, None),
        },
        ExprV::Binary(l, op, r) => {
            let a = const_value(st, m, *l);
            match a.1 {
                None => (a.0, None),
                Some(x) => {
                    let b = const_value(a.0, m, *r);
                    match b.1 {
                        None => (b.0, None),
                        Some(y) => fold_constant(b.0, m, x, op, y, r.start),
                    }
                },
            }
        },
        ExprV::Access(n, ix) => {
            let a = const_value(st, m, *ix);
            match (find(a.0.symbols, n), a.1) {
                (Some(s), Some(LitV::Int(i))) => if s.kind is Array {
                    (a.0, element(s.value, i))
                } else {
                    (a.0, None)
                },
                _ => (a.0, None),
            }
        },
        ExprV::Unary(_, _) => (st, None),
    }
}

// ----- Types of expressions -----

/// The type of `a op b` for operand types `a` and `b`; `l` and `r` are the
/// operands, whose errors are already reported in `st`. Comparisons and
/// logical operators give `Int` (1 or 0); arithmetic gives `Float` as soon as
/// one operand is a `Float`.
pub open spec fn binary_type(st: AState, m: Seq<int>, l: Loc<ExprV>, op: Operator, r: Loc<ExprV>, a: Type, b: Type) -> (AState, Option<Type>) {
    if is_arithmetic(op) {
        if !is_numeric(a) {
            (with_error(st, mismatch(m, l.start, Type::Int, a, "arithmetic"@)), None)
        } else if !is_numeric(b) {
            (with_error(st, mismatch(m, l.start, Type::Int, b, "arithmetic"@)), None)
        } else {
            let res = if a == Type::Float || b == Type::Float { Type::Float } else { Type::Int };
            if op == Operator::Divide {
                let c = const_value(st, m, r);
                match c.1 {
                    Some(v) => if is_zero_literal(v) {
                        (with_error(c.0, division_by_zero(m, r.start)), None)
                    } else {
                        (c.0, Some(res))
                    },
                    None => (c.0, Some(res)),
                }
            } else {
                (st, Some(res))
            }
        }
    } else if is_comparison(op) {
        if !is_numeric(a) {
            (with_error(st, mismatch(m, l.start, Type::Int, a, "comparison"@)), None)
        } else if !is_numeric(b) {
            (with_error(st, mismatch(m, l.start, Type::Int, b, "comparison"@)), None)
        } else {
            (st, Some(Type::Int))
        }
    } else {
        if a != Type::Int {
            (with_error(st, mismatch(m, l.start, Type::Int, a, "logical"@)), None)
        } else if b != Type::Int {
            (with_error(st, mismatch(m, l.start, Type::Int, b, "logical"@)), None)
        } else {
            (st, Some(Type::Int))
        }
    }
}

/// The type of `e` (`None` when it has none, or when an error was found in
/// it), with the errors found in it reported.
pub open spec fn expr_type(st: AState, m: Seq<int>, e: Loc<ExprV>) -> (AState, Option<Type>)
    decreases e,
{
    match e.node {
        ExprV::Ident(n) => match find(st.symbols, n) {
            None => (with_error(st, undeclared(m, e.start, n)), None),
            Some(s) => (st, Some(s.symbol_type)),
        },
        ExprV::Access(n, ix) => match find(st.symbols, n) {
            None => (with_error(st, undeclared(m, e.start, n)), None),
            Some(s) => match s.kind {
                SymbolKind::Array(size) => {
                    let constant_outside = match ix.node {
                        ExprV::Lit(l) => match l.node {
                            LitV::Int(i) => i < 0 || i as int >= size as int,
                            _ => false,
                        },
                        _ => false,
                    };
                    if constant_outside {
                        let i = ix.node->Lit_0.node->Int_0;
                        (with_error(st, out_of_bounds(m, ix.start, n, (i as usize) as int, size as int)), None)
                    } else {
                        let a = expr_type(st, m, *ix);
                        match a.1 {
                            None => (a.0, None),
                            Some(t) => if t != Type::Int {
                                (with_error(a.0, mismatch(m, ix.start, Type::Int, t, "array index"@)), None)
                            } else {
                                (a.0, Some(s.symbol_type))
                            },
                        }
                    }
                },
                _ => (with_error(st, non_array(m, e.start, n)), None),
            },
        },
        ExprV::Lit(l) => match l.node {
            LitV::Int(_) => (st, Some(Type::Int)),
            LitV::Float(_) => (st, Some(Type::Float)),
            LitV::Str(_) => (st, None),
        },
        ExprV::Binary(l, op, r) => {
            let a = expr_type(st, m, *l);
            let b = expr_type(a.0, m, *r);
            match (a.1, b.1) {
                (Some(x), Some(y)) => binary_type(b.0, m, *l, op, *r, x, y),
                _ => (b.0, None),
            }
        },
        ExprV::Unary(_, x) => {
            let a = expr_type(st, m, *x);
            match a.1 {
                None => (a.0, None),
                Some(t) => if t != Type::Int {
                    (with_error(a.0, mismatch(m, e.start, Type::Int, t, "logical"@)), None)
                } else {
                    (a.0, Some(Type::Int))
                },
            }
        },
    }
}

/// Checks that `e` is an `Int` (a condition, a loop bound), in context `ctx`.
pub open spec fn int_check(st: AState, m: Seq<int>, e: Loc<ExprV>, ctx: Seq<char>) -> AState {
    let a = expr_type(st, m, e);
    match a.1 {
        Some(t) => if t != Type::Int {
            with_error(a.0, mismatch(m, e.start, Type::Int, t, ctx))
        } else {
            a.0
        },
        None => a.0,
    }
}

/// The errors of the expressions `es`, in order.
pub open spec fn exprs_effect(st: AState, m: Seq<int>, es: Seq<Loc<ExprV>>) -> AState
    decreases es.len(),
{
    if es.len() == 0 {
        st
    } else {
        expr_type(exprs_effect(st, m, es.drop_last()), m, es.last()).0
    }
}

// ----- Statements -----

/// Is the target `l` a constant? Then assigning it is reported.
pub open spec fn constant_target(st: AState, m: Seq<int>, l: Loc<ExprV>, n: Seq<char>) -> AState {
    match find(st.symbols, n) {
        Some(s) => if s.is_constant {
            with_error(st, constant_modification(m, l.start, n))
        } else {
            st
        },
        None => st,
    }
}

pub open spec fn assign_effect(st: AState, m: Seq<int>, l: Loc<ExprV>, r: Loc<ExprV>) -> AState {
    let st0 = match l.node {
        ExprV::Ident(n) => constant_target(st, m, l, n),
        _ => st,
    };
    match l.node {
        ExprV::Ident(_) | ExprV::Access(_, _) => {
            let a = expr_type(st0, m, l);
            let b = expr_type(a.0, m, r);
            match (a.1, b.1) {
                (Some(x), Some(y)) => if y != x {
                    with_error(b.0, mismatch(m, l.start, x, y, "assignment"@))
                } else {
                    b.0
                },
                _ => b.0,
            }
        },
        _ => st,
    }
}

pub open spec fn input_effect(st: AState, m: Seq<int>, t: Loc<ExprV>) -> AState {
    let a = expr_type(st, m, t);
    match t.node {
        ExprV::Ident(n) => constant_target(a.0, m, t, n),
        ExprV::Access(n, _) => constant_target(a.0, m, t, n),
        _ => a.0,
    }
}

pub open spec fn stmt_effect(st: AState, m: Seq<int>, s: Loc<StmtV>) -> AState
    decreases s, 0int,
{
    match s.node {
        StmtV::Assign(l, r) => assign_effect(st, m, l, r),
        StmtV::IfThen(c, b) => stmts_effect(int_check(st, m, c, "if condition"@), m, b),
        StmtV::IfThenElse(c, b1, b2) => stmts_effect(
            stmts_effect(int_check(st, m, c, "if-else condition"@), m, b1),
            m,
            b2,
        ),
        StmtV::DoWhile(b, c) => int_check(expr_type(stmts_effect(st, m, b), m, c).0, m, c, "do-while condition"@),
        StmtV::For(v, a, b, c, body) => stmts_effect(
            int_check(
                int_check(
                    int_check(int_check(st, m, v, "for loop iterator"@), m, a, "for loop initialization"@),
                    m,
                    b,
                    "for loop end condition"@,
                ),
                m,
                c,
                "for loop step"@,
            ),
            m,
            body,
        ),
        StmtV::Input(t) => input_effect(st, m, t),
        StmtV::Output(es) => exprs_effect(st, m, es),
        StmtV::Scope(b) => stmts_effect(st, m, b),
        StmtV::Empty => st,
    }
}

pub open spec fn stmts_effect(st: AState, m: Seq<int>, ss: Seq<Loc<StmtV>>) -> AState
    decreases ss, 1int,
{
    if ss.len() == 0 {
        st
    } else {
        stmt_effect(stmts_effect(st, m, ss.drop_last()), m, ss.last())
    }
}

// ----- Declarations -----

pub open spec fn new_symbol(m: Seq<int>, pos: int, n: Seq<char>, kind: SymbolKind, t: Type, value: SymbolValueV, is_constant: bool) -> SymbolV {
    SymbolV {
        name: n,
        kind,
        symbol_type: t,
        value,
        is_constant,
        line: line_at(m, pos),
        column: column_at(m, pos),
    }
}

pub open spec fn declare(st: AState, s: SymbolV) -> AState {
    AState { symbols: st.symbols.push(s), errors: st.errors }
}

/// Declares the variable `n`, unless it is declared already.
pub open spec fn var_decl(st: AState, m: Seq<int>, n: Seq<char>, t: Type, pos: int) -> AState {
    match find(st.symbols, n) {
        Some(s) => with_error(st, duplicate(m, pos, n, s)),
        None => declare(st, new_symbol(m, pos, n, SymbolKind::Variable, t, SymbolValueV::Uninitialized, false)),
    }
}

/// Declares the array `n`, unless it is declared already or its size is not
/// positive.
pub open spec fn array_decl(st: AState, m: Seq<int>, n: Seq<char>, t: Type, size: i32, pos: int) -> AState {
    match find(st.symbols, n) {
        Some(s) => with_error(st, duplicate(m, pos, n, s)),
        None => if size <= 0 {
            with_error(st, invalid_size(m, pos, n, size))
        } else {
            declare(
                st,
                new_symbol(m, pos, n, SymbolKind::Array(size as usize), t, SymbolValueV::Uninitialized, false),
            )
        },
    }
}

/// Declares the constant `n` of value `l`: its type must be `t`; a string
/// constant is not declared.
pub open spec fn const_decl(st: AState, m: Seq<int>, n: Seq<char>, t: Type, l: LitV, pos: int) -> AState {
    match find(st.symbols, n) {
        Some(s) => with_error(st, duplicate(m, pos, n, s)),
        None => match l {
            LitV::Str(_) => st,
            _ => {
                let vt = if l is Int { Type::Int } else { Type::Float };
                if vt != t {
                    with_error(st, mismatch(m, pos, t, vt, "constant"@))
                } else {
                    declare(st, new_symbol(m, pos, n, SymbolKind::Constant, t, SymbolValueV::Single(l), true))
                }
            },
        },
    }
}

pub open spec fn vars_effect(st: AState, m: Seq<int>, ns: Seq<Seq<char>>, t: Type, pos: int) -> AState
    decreases ns.len(),
{
    if ns.len() == 0 {
        st
    } else {
        var_decl(vars_effect(st, m, ns.drop_last(), t, pos), m, ns.last(), t, pos)
    }
}

pub open spec fn arrays_effect(st: AState, m: Seq<int>, ns: Seq<Seq<char>>, t: Type, size: i32, pos: int) -> AState
    decreases ns.len(),
{
    if ns.len() == 0 {
        st
    } else {
        array_decl(arrays_effect(st, m, ns.drop_last(), t, size, pos), m, ns.last(), t, size, pos)
    }
}

/// A variable with an initial value: the value's type must be `t`.
pub open spec fn var_init_decl(st: AState, m: Seq<int>, n: Seq<char>, t: Type, e: Loc<ExprV>, pos: int) -> AState {
    let a = expr_type(st, m, e);
    let st1 = match a.1 {
        Some(x) => if x != t {
            with_error(a.0, mismatch(m, pos, t, x, "assignment"@))
        } else {
            a.0
        },
        None => a.0,
    };
    var_decl(st1, m, n, t, pos)
}

pub open spec fn var_inits_effect(st: AState, m: Seq<int>, ns: Seq<Seq<char>>, t: Type, e: Loc<ExprV>, pos: int) -> AState
    decreases ns.len(),
{
    if ns.len() == 0 {
        st
    } else {
        var_init_decl(var_inits_effect(st, m, ns.drop_last(), t, e, pos), m, ns.last(), t, e, pos)
    }
}

/// The initial values of an array: each must be of type `t`.
pub open spec fn init_checks(st: AState, m: Seq<int>, es: Seq<Loc<ExprV>>, t: Type, pos: int) -> AState
    decreases es.len(),
{
    if es.len() == 0 {
        st
    } else {
        let a = expr_type(init_checks(st, m, es.drop_last(), t, pos), m, es.last());
        match a.1 {
            Some(x) => if x != t {
                with_error(a.0, mismatch(m, pos, t, x, "array initializer"@))
            } else {
                a.0
            },
            None => a.0,
        }
    }
}

pub open spec fn array_inits_effect(st: AState, m: Seq<int>, ns: Seq<Seq<char>>, t: Type, size: i32, es: Seq<Loc<ExprV>>, pos: int) -> AState
    decreases ns.len(),
{
    if ns.len() == 0 {
        st
    } else {
        array_decl(
            init_checks(array_inits_effect(st, m, ns.drop_last(), t, size, es, pos), m, es, t, pos),
            m,
            ns.last(),
            t,
            size,
            pos,
        )
    }
}

pub open spec fn decl_effect(st: AState, m: Seq<int>, d: Loc<DeclV>) -> AState {
    match d.node {
        DeclV::Variable(ns, t) => vars_effect(st, m, ns, t, d.start),
        DeclV::Array(ns, t, size) => arrays_effect(st, m, ns, t, size, d.start),
        DeclV::VariableWithInit(ns, t, e) => var_inits_effect(st, m, ns, t, e, d.start),
        DeclV::ArrayWithInit(ns, t, size, es) => array_inits_effect(st, m, ns, t, size, es, d.start),
        DeclV::Constant(n, t, l) => const_decl(st, m, n, t, l.node, d.start),
    }
}

pub open spec fn decls_effect(st: AState, m: Seq<int>, ds: Seq<Loc<DeclV>>) -> AState
    decreases ds.len(),
{
    if ds.len() == 0 {
        st
    } else {
        decl_effect(decls_effect(st, m, ds.drop_last()), m, ds.last())
    }
}

/// The whole analysis of a program: an empty program is reported, then the
/// declarations are read in order, then the statements are checked in order.
pub open spec fn analysis(st: AState, m: Seq<int>, p: ProgramV) -> AState {
    let st0 = if p.statements.len() == 0 && p.declarations.len() == 0 {
        with_error(st, SemanticErrorV::EmptyProgram)
    } else {
        st
    };
    stmts_effect(decls_effect(st0, m, p.declarations), m, p.statements)
}

// ----- Positions that fit the machine -----

/// Every expression in `e` starts before the largest byte position.
pub open spec fn expr_fits(e: Loc<ExprV>) -> bool
    decreases e,
{
    e.start < usize::MAX && match e.node {
        ExprV::Access(_, ix) => expr_fits(*ix),
        ExprV::Binary(l, _, r) => expr_fits(*l) && expr_fits(*r),
        ExprV::Unary(_, x) => expr_fits(*x),
        _ => true,
    }
}

pub open spec fn exprs_fit(es: Seq<Loc<ExprV>>) -> bool {
    forall|i: int| 0 <= i < es.len() ==> expr_fits(#[trigger] es[i])
}

pub open spec fn stmt_fits(s: Loc<StmtV>) -> bool
    decreases s, 0int,
{
    match s.node {
        StmtV::Assign(l, r) => expr_fits(l) && expr_fits(r),
        StmtV::IfThen(c, b) => expr_fits(c) && stmts_fit(b),
        StmtV::IfThenElse(c, b1, b2) => expr_fits(c) && stmts_fit(b1) && stmts_fit(b2),
        StmtV::DoWhile(b, c) => stmts_fit(b) && expr_fits(c),
        StmtV::For(v, a, b, c, body) => expr_fits(v) && expr_fits(a) && expr_fits(b) && expr_fits(c)
            && stmts_fit(body),
        StmtV::Input(t) => expr_fits(t),
        StmtV::Output(es) => exprs_fit(es),
        StmtV::Scope(b) => stmts_fit(b),
        StmtV::Empty => true,
    }
}

pub open spec fn stmts_fit(ss: Seq<Loc<StmtV>>) -> bool
    decreases ss, 1int,
{
    if ss.len() == 0 {
        true
    } else {
        stmts_fit(ss.drop_last()) && stmt_fits(ss.last())
    }
}

pub open spec fn decl_fits(d: Loc<DeclV>) -> bool {
    d.start < usize::MAX && match d.node {
        DeclV::VariableWithInit(_, _, e) => expr_fits(e),
        DeclV::ArrayWithInit(_, _, _, es) => exprs_fit(es),
        _ => true,
    }
}

/// Every position the analysis may report fits in a `usize` column.
pub open spec fn program_fits(p: ProgramV) -> bool {
    &&& forall|i: int| 0 <= i < p.declarations.len() ==> decl_fits(#[trigger] p.declarations[i])
    &&& stmts_fit(p.statements)
}

/// Do all the positions in `e` fit?
pub fn expression_fits(e: &Expression) -> (r: bool)
    ensures
        r == expr_fits(expr_view(*e)),
    decreases e,
{
    if e.span.start == usize::MAX {
        return false;
    }
    match &e.node {
        ExpressionKind::ArrayAccess(_, ix) => expression_fits(ix),
        ExpressionKind::BinaryOp(l, _, r) => expression_fits(l) && expression_fits(r),
        ExpressionKind::UnaryOp(_, x) => expression_fits(x),
        _ => true,
    }
}

fn expressions_fit(es: &Vec<Expression>) -> (r: bool)
    ensures
        r == exprs_fit(exprs_view(es@)),
{
    let mut i: usize = 0;
    while i < es.len()
        invariant
            i <= es@.len(),
            forall|k: int| 0 <= k < i ==> expr_fits(#[trigger] exprs_view(es@)[k]),
        decreases es@.len() - i,
    {
        if !expression_fits(&es[i]) {
            assert(exprs_view(es@)[i as int] == expr_view(es@[i as int]));
            return false;
        }
        i = i + 1;
    }
    true
}

proof fn lemma_stmts_fit_prefix(ss: Seq<Loc<StmtV>>, i: int)
    requires
        0 <= i < ss.len(),
    ensures
        stmts_fit(ss.take(i + 1)) == (stmts_fit(ss.take(i)) && stmt_fits(ss[i])),
{
    assert(ss.take(i + 1).drop_last() =~= ss.take(i));
}

proof fn lemma_stmts_fit_take_false(ss: Seq<Loc<StmtV>>, i: int, j: int)
    requires
        0 <= i <= j <= ss.len(),
        !stmts_fit(ss.take(i)),
    ensures
        !stmts_fit(ss.take(j)),
    decreases j - i,
{
    if i < j {
        lemma_stmts_fit_take_false(ss, i, j - 1);
        lemma_stmts_fit_prefix(ss, j - 1);
    }
}

/// Do all the positions in `s` fit?
pub fn statement_fits(s: &Statement) -> (r: bool)
    ensures
        r == stmt_fits(stmt_view(*s)),
    decreases s, 0int,
{
    match &s.node {
        StatementKind::Assignment(l, r) => expression_fits(l) && expression_fits(r),
        StatementKind::IfThen(c, b) => expression_fits(c) && block_fits(b),
        StatementKind::IfThenElse(c, b1, b2) => expression_fits(c) && block_fits(b1) && block_fits(b2),
        StatementKind::DoWhile(b, c) => block_fits(b) && expression_fits(c),
        StatementKind::For(v, a, b, c, body) => expression_fits(v) && expression_fits(a) && expression_fits(b)
            && expression_fits(c) && block_fits(body),
        StatementKind::Input(t) => expression_fits(t),
        StatementKind::Output(es) => expressions_fit(es),
        StatementKind::Scope(b) => block_fits(b),
        StatementKind::Empty => true,
    }
}

fn block_fits(b: &Vec<Statement>) -> (r: bool)
    ensures
        r == stmts_fit(stmts_view(b@)),
    decreases b, 1int,
{
    let ghost v = stmts_view(b@);
    proof {
        lemma_stmts_view_index(b@);
    }
    let mut i: usize = 0;
    assert(v.take(0) =~= Seq::<Loc<StmtV>>::empty());
    while i < b.len()
        invariant
            i <= b@.len(),
            v == stmts_view(b@),
            v.len() == b@.len(),
            forall|k: int| 0 <= k < b@.len() ==> #[trigger] v[k] == stmt_view(b@[k]),
            stmts_fit(v.take(i as int)),
        decreases b@.len() - i,
    {
        proof {
            lemma_stmts_fit_prefix(v, i as int);
        }
        if !statement_fits(&b[i]) {
            proof {
                lemma_stmts_fit_take_false(v, i + 1, v.len() as int);
                assert(v.take(v.len() as int) =~= v);
            }
            return false;
        }
        i = i + 1;
    }
    assert(v.take(v.len() as int) =~= v);
    true
}

/// Do all the positions of `program` fit, so that it can be analyzed?
pub fn program_spans_fit(program: &Program) -> (r: bool)
    ensures
        r == program_fits(program@),
{
    let ds = &program.declarations;
    let mut i: usize = 0;
    while i < ds.len()
        invariant
            i <= ds@.len(),
            ds == &program.declarations,
            forall|k: int| 0 <= k < i ==> decl_fits(#[trigger] decls_view(ds@)[k]),
        decreases ds@.len() - i,
    {
        let d = &ds[i];
        assert(decls_view(ds@)[i as int] == decl_view(ds@[i as int]));
        let ok = d.span.start < usize::MAX && match &d.node {
            DeclarationKind::VariableWithInit(_, _, e) => expression_fits(e),
            DeclarationKind::ArrayWithInit(_, _, _, es) => expressions_fit(es),
            _ => true,
        };
        assert(ok == decl_fits(decl_view(*d)));
        if !ok {
            assert(!decl_fits(program@.declarations[i as int]));
            return false;
        }
        i = i + 1;
    }
    block_fits(&program.statements)
}

} // verus!
