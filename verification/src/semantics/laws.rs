//! What holds of the symbol table and of the analysis as a whole.
use vstd::prelude::*;
use crate::parser::ast::{Loc, LitV, ExprV, StmtV, DeclV, ProgramV, Type, Operator};
use crate::semantics::symbol_table::{SymbolV, find};
use crate::semantics::error::SemanticErrorV;
use crate::semantics::analysis::{
    AState, with_error, fold_constant, const_value, binary_type, expr_type, int_check, exprs_effect,
    constant_target, assign_effect, input_effect, stmt_effect, stmts_effect, declare, var_decl, array_decl,
    const_decl, vars_effect, arrays_effect, var_init_decl, var_inits_effect, init_checks, array_inits_effect,
    decl_effect, decls_effect, analysis,
};

verus! {

// ----- The symbol table -----

/// Once a symbol is added, looking its name up gives that symbol.
pub proof fn lemma_find_after_add(entries: Seq<SymbolV>, s: SymbolV)
    ensures
        find(entries.push(s), s.name) == Some(s),
{
    assert(entries.push(s).last() == s);
}

/// Adding a symbol changes nothing for the other names.
pub proof fn lemma_find_other_name(entries: Seq<SymbolV>, s: SymbolV, name: Seq<char>)
    requires
        name != s.name,
    ensures
        find(entries.push(s), name) == find(entries, name),
{
    assert(entries.push(s).drop_last() =~= entries);
}

// ----- Errors -----

/// Reporting the same error twice reports it once.
pub proof fn lemma_error_reported_once(st: AState, e: SemanticErrorV)
    ensures
        with_error(with_error(st, e), e) == with_error(st, e),
{
    if !st.errors.contains(e) {
        let pushed = st.errors.push(e);
        assert(pushed[pushed.len() - 1] == e);
        assert(pushed.contains(e));
    }
}

/// `b` begins with `a`.
pub open spec fn grows<T>(a: Seq<T>, b: Seq<T>) -> bool {
    a.len() <= b.len() && b.subrange(0, a.len() as int) == a
}

/// The errors of `b` begin with those of `a`, and the symbols are the same.
pub open spec fn keeps(a: AState, b: AState) -> bool {
    grows(a.errors, b.errors) && b.symbols == a.symbols
}

/// The errors and the symbols of `b` begin with those of `a`.
pub open spec fn extends(a: AState, b: AState) -> bool {
    grows(a.errors, b.errors) && grows(a.symbols, b.symbols)
}

proof fn lemma_grows_trans<T>(a: Seq<T>, b: Seq<T>, c: Seq<T>)
    requires
        grows(a, b),
        grows(b, c),
    ensures
        grows(a, c),
{
    assert(c.subrange(0, a.len() as int) =~= c.subrange(0, b.len() as int).subrange(0, a.len() as int));
}

proof fn lemma_grows_refl<T>(a: Seq<T>)
    ensures
        grows(a, a),
{
    assert(a.subrange(0, a.len() as int) =~= a);
}

proof fn lemma_grows_push<T>(a: Seq<T>, x: T)
    ensures
        grows(a, a.push(x)),
{
    assert(a.push(x).subrange(0, a.len() as int) =~= a);
}

proof fn lemma_keeps_trans(a: AState, b: AState, c: AState)
    requires
        keeps(a, b),
        keeps(b, c),
    ensures
        keeps(a, c),
{
    lemma_grows_trans(a.errors, b.errors, c.errors);
}

proof fn lemma_extends_trans(a: AState, b: AState, c: AState)
    requires
        extends(a, b),
        extends(b, c),
    ensures
        extends(a, c),
{
    lemma_grows_trans(a.errors, b.errors, c.errors);
    lemma_grows_trans(a.symbols, b.symbols, c.symbols);
}

proof fn lemma_keeps_refl(a: AState)
    ensures
        keeps(a, a),
{
    lemma_grows_refl(a.errors);
}

proof fn lemma_keeps_extends(a: AState, b: AState)
    requires
        keeps(a, b),
    ensures
        extends(a, b),
{
    lemma_grows_refl(a.symbols);
}

proof fn lemma_with_error_keeps(st: AState, e: SemanticErrorV)
    ensures
        keeps(st, with_error(st, e)),
{
    lemma_grows_refl(st.errors);
    lemma_grows_push(st.errors, e);
}

proof fn lemma_declare_extends(st: AState, s: SymbolV)
    ensures
        extends(st, declare(st, s)),
{
    lemma_grows_refl(st.errors);
    lemma_grows_push(st.symbols, s);
}

// ----- Expressions keep what was found before -----

proof fn lemma_fold_keeps(st: AState, m: Seq<int>, a: LitV, op: Operator, b: LitV, pos: int)
    ensures
        keeps(st, fold_constant(st, m, a, op, b, pos).0),
{
    lemma_keeps_refl(st);
    lemma_with_error_keeps(st, crate::semantics::analysis::division_by_zero(m, pos));
}

proof fn lemma_const_keeps(st: AState, m: Seq<int>, e: Loc<ExprV>)
    ensures
        keeps(st, const_value(st, m, e).0),
    decreases e,
{
    lemma_keeps_refl(st);
    match e.node {
        ExprV::Binary(l, op, r) => {
            let a = const_value(st, m, *l);
            lemma_const_keeps(st, m, *l);
            let b = const_value(a.0, m, *r);
            lemma_const_keeps(a.0, m, *r);
            lemma_keeps_trans(st, a.0, b.0);
            match (a.1, b.1) {
                (Some(x), Some(y)) => {
                    lemma_fold_keeps(b.0, m, x, op, y, r.start);
                    lemma_keeps_trans(st, b.0, fold_constant(b.0, m, x, op, y, r.start).0);
                },
                _ => {},
            }
        },
        ExprV::Access(_, ix) => {
            lemma_const_keeps(st, m, *ix);
        },
        _ => {},
    }
}

proof fn lemma_binary_keeps(st: AState, m: Seq<int>, l: Loc<ExprV>, op: Operator, r: Loc<ExprV>, a: Type, b: Type)
    ensures
        keeps(st, binary_type(st, m, l, op, r, a, b).0),
{
    lemma_keeps_refl(st);
    lemma_with_error_keeps(st, crate::semantics::analysis::mismatch(m, l.start, Type::Int, a, "arithmetic"@));
    lemma_with_error_keeps(st, crate::semantics::analysis::mismatch(m, l.start, Type::Int, b, "arithmetic"@));
    lemma_with_error_keeps(st, crate::semantics::analysis::mismatch(m, l.start, Type::Int, a, "comparison"@));
    lemma_with_error_keeps(st, crate::semantics::analysis::mismatch(m, l.start, Type::Int, b, "comparison"@));
    lemma_with_error_keeps(st, crate::semantics::analysis::mismatch(m, l.start, Type::Int, a, "logical"@));
    lemma_with_error_keeps(st, crate::semantics::analysis::mismatch(m, l.start, Type::Int, b, "logical"@));
    let c = const_value(st, m, r);
    lemma_const_keeps(st, m, r);
    lemma_with_error_keeps(c.0, crate::semantics::analysis::division_by_zero(m, r.start));
    lemma_keeps_trans(st, c.0, with_error(c.0, crate::semantics::analysis::division_by_zero(m, r.start)));
}

/// Checking an expression keeps the symbols, and keeps the errors found
/// before, in order, adding its own after them.
pub proof fn lemma_expr_keeps(st: AState, m: Seq<int>, e: Loc<ExprV>)
    ensures
        keeps(st, expr_type(st, m, e).0),
    decreases e,
{
    lemma_keeps_refl(st);
    match e.node {
        ExprV::Ident(n) => {
            lemma_with_error_keeps(st, crate::semantics::analysis::undeclared(m, e.start, n));
        },
        ExprV::Access(n, ix) => {
            lemma_with_error_keeps(st, crate::semantics::analysis::undeclared(m, e.start, n));
            lemma_with_error_keeps(st, crate::semantics::analysis::non_array(m, e.start, n));
            match find(st.symbols, n) {
                Some(s) => {
                    match s.kind {
                        crate::semantics::symbol_table::SymbolKind::Array(size) => {
                            match ix.node {
                                ExprV::Lit(l) => match l.node {
                                    LitV::Int(i) => {
                                        lemma_with_error_keeps(
                                            st,
                                            crate::semantics::analysis::out_of_bounds(m, ix.start, n, (i as usize) as int, size as int),
                                        );
                                    },
                                    _ => {},
                                },
                                _ => {},
                            }
                            let a = expr_type(st, m, *ix);
                            lemma_expr_keeps(st, m, *ix);
                            match a.1 {
                                Some(t) => {
                                    let err = crate::semantics::analysis::mismatch(m, ix.start, Type::Int, t, "array index"@);
                                    lemma_with_error_keeps(a.0, err);
                                    lemma_keeps_trans(st, a.0, with_error(a.0, err));
                                },
                                None => {},
                            }
                        },
                        _ => {},
                    }
                },
                None => {},
            }
        },
        ExprV::Binary(l, op, r) => {
            let a = expr_type(st, m, *l);
            lemma_expr_keeps(st, m, *l);
            let b = expr_type(a.0, m, *r);
            lemma_expr_keeps(a.0, m, *r);
            lemma_keeps_trans(st, a.0, b.0);
            match (a.1, b.1) {
                (Some(x), Some(y)) => {
                    lemma_binary_keeps(b.0, m, *l, op, *r, x, y);
                    lemma_keeps_trans(st, b.0, binary_type(b.0, m, *l, op, *r, x, y).0);
                },
                _ => {},
            }
        },
        ExprV::Unary(_, x) => {
            let a = expr_type(st, m, *x);
            lemma_expr_keeps(st, m, *x);
            match a.1 {
                Some(t) => {
                    let err = crate::semantics::analysis::mismatch(m, e.start, Type::Int, t, "logical"@);
                    lemma_with_error_keeps(a.0, err);
                    lemma_keeps_trans(st, a.0, with_error(a.0, err));
                },
                None => {},
            }
        },
        ExprV::Lit(_) => {},
    }
}

proof fn lemma_int_check_keeps(st: AState, m: Seq<int>, e: Loc<ExprV>, ctx: Seq<char>)
    ensures
        keeps(st, int_check(st, m, e, ctx)),
{
    let a = expr_type(st, m, e);
    lemma_expr_keeps(st, m, e);
    match a.1 {
        Some(t) => {
            let err = crate::semantics::analysis::mismatch(m, e.start, Type::Int, t, ctx);
            lemma_with_error_keeps(a.0, err);
            lemma_keeps_trans(st, a.0, with_error(a.0, err));
        },
        None => {},
    }
}

proof fn lemma_exprs_keeps(st: AState, m: Seq<int>, es: Seq<Loc<ExprV>>)
    ensures
        keeps(st, exprs_effect(st, m, es)),
    decreases es.len(),
{
    if es.len() == 0 {
        lemma_keeps_refl(st);
    } else {
        let before = exprs_effect(st, m, es.drop_last());
        lemma_exprs_keeps(st, m, es.drop_last());
        lemma_expr_keeps(before, m, es.last());
        lemma_keeps_trans(st, before, expr_type(before, m, es.last()).0);
    }
}

proof fn lemma_constant_target_keeps(st: AState, m: Seq<int>, l: Loc<ExprV>, n: Seq<char>)
    ensures
        keeps(st, constant_target(st, m, l, n)),
{
    lemma_keeps_refl(st);
    lemma_with_error_keeps(st, crate::semantics::analysis::constant_modification(m, l.start, n));
}

proof fn lemma_assign_keeps(st: AState, m: Seq<int>, l: Loc<ExprV>, r: Loc<ExprV>)
    ensures
        keeps(st, assign_effect(st, m, l, r)),
{
    lemma_keeps_refl(st);
    let st0 = match l.node {
        ExprV::Ident(n) => constant_target(st, m, l, n),
        _ => st,
    };
    match l.node {
        ExprV::Ident(n) => lemma_constant_target_keeps(st, m, l, n),
        _ => {},
    }
    let a = expr_type(st0, m, l);
    lemma_expr_keeps(st0, m, l);
    let b = expr_type(a.0, m, r);
    lemma_expr_keeps(a.0, m, r);
    lemma_keeps_trans(st, st0, a.0);
    lemma_keeps_trans(st, a.0, b.0);
    match (a.1, b.1) {
        (Some(x), Some(y)) => {
            let err = crate::semantics::analysis::mismatch(m, l.start, x, y, "assignment"@);
            lemma_with_error_keeps(b.0, err);
            lemma_keeps_trans(st, b.0, with_error(b.0, err));
        },
        _ => {},
    }
}

proof fn lemma_input_keeps(st: AState, m: Seq<int>, t: Loc<ExprV>)
    ensures
        keeps(st, input_effect(st, m, t)),
{
    let a = expr_type(st, m, t);
    lemma_expr_keeps(st, m, t);
    match t.node {
        ExprV::Ident(n) => {
            lemma_constant_target_keeps(a.0, m, t, n);
            lemma_keeps_trans(st, a.0, constant_target(a.0, m, t, n));
        },
        ExprV::Access(n, _) => {
            lemma_constant_target_keeps(a.0, m, t, n);
            lemma_keeps_trans(st, a.0, constant_target(a.0, m, t, n));
        },
        _ => {},
    }
}

// ----- Statements -----

/// Checking a statement declares nothing, and keeps the errors found before.
pub proof fn lemma_stmt_keeps(st: AState, m: Seq<int>, s: Loc<StmtV>)
    ensures
        keeps(st, stmt_effect(st, m, s)),
    decreases s, 0int,
{
    match s.node {
        StmtV::Assign(l, r) => lemma_assign_keeps(st, m, l, r),
        StmtV::IfThen(c, b) => {
            let a = int_check(st, m, c, "if condition"@);
            lemma_int_check_keeps(st, m, c, "if condition"@);
            lemma_stmts_keeps(a, m, b);
            lemma_keeps_trans(st, a, stmts_effect(a, m, b));
        },
        StmtV::IfThenElse(c, b1, b2) => {
            let a = int_check(st, m, c, "if-else condition"@);
            lemma_int_check_keeps(st, m, c, "if-else condition"@);
            let x = stmts_effect(a, m, b1);
            lemma_stmts_keeps(a, m, b1);
            lemma_stmts_keeps(x, m, b2);
            lemma_keeps_trans(st, a, x);
            lemma_keeps_trans(st, x, stmts_effect(x, m, b2));
        },
        StmtV::DoWhile(b, c) => {
            let x = stmts_effect(st, m, b);
            lemma_stmts_keeps(st, m, b);
            let y = expr_type(x, m, c).0;
            lemma_expr_keeps(x, m, c);
            lemma_int_check_keeps(y, m, c, "do-while condition"@);
            lemma_keeps_trans(st, x, y);
            lemma_keeps_trans(st, y, int_check(y, m, c, "do-while condition"@));
        },
        StmtV::For(v, a, b, c, body) => {
            let s1 = int_check(st, m, v, "for loop iterator"@);
            lemma_int_check_keeps(st, m, v, "for loop iterator"@);
            let s2 = int_check(s1, m, a, "for loop initialization"@);
            lemma_int_check_keeps(s1, m, a, "for loop initialization"@);
            let s3 = int_check(s2, m, b, "for loop end condition"@);
            lemma_int_check_keeps(s2, m, b, "for loop end condition"@);
            let s4 = int_check(s3, m, c, "for loop step"@);
            lemma_int_check_keeps(s3, m, c, "for loop step"@);
            lemma_stmts_keeps(s4, m, body);
            lemma_keeps_trans(st, s1, s2);
            lemma_keeps_trans(st, s2, s3);
            lemma_keeps_trans(st, s3, s4);
            lemma_keeps_trans(st, s4, stmts_effect(s4, m, body));
        },
        StmtV::Input(t) => lemma_input_keeps(st, m, t),
        StmtV::Output(es) => lemma_exprs_keeps(st, m, es),
        StmtV::Scope(b) => lemma_stmts_keeps(st, m, b),
        StmtV::Empty => lemma_keeps_refl(st),
    }
}

/// Checking statements declares nothing, and keeps the errors found before.
pub proof fn lemma_stmts_keeps(st: AState, m: Seq<int>, ss: Seq<Loc<StmtV>>)
    ensures
        keeps(st, stmts_effect(st, m, ss)),
    decreases ss, 1int,
{
    if ss.len() == 0 {
        lemma_keeps_refl(st);
    } else {
        let before = stmts_effect(st, m, ss.drop_last());
        lemma_stmts_keeps(st, m, ss.drop_last());
        lemma_stmt_keeps(before, m, ss.last());
        lemma_keeps_trans(st, before, stmt_effect(before, m, ss.last()));
    }
}

// ----- Declarations -----

proof fn lemma_var_decl_extends(st: AState, m: Seq<int>, n: Seq<char>, t: Type, pos: int)
    ensures
        extends(st, var_decl(st, m, n, t, pos)),
{
    match find(st.symbols, n) {
        Some(s) => {
            lemma_with_error_keeps(st, crate::semantics::analysis::duplicate(m, pos, n, s));
            lemma_keeps_extends(st, var_decl(st, m, n, t, pos));
        },
        None => lemma_declare_extends(
            st,
            crate::semantics::analysis::new_symbol(
                m,
                pos,
                n,
                crate::semantics::symbol_table::SymbolKind::Variable,
                t,
                crate::semantics::symbol_table::SymbolValueV::Uninitialized,
                false,
            ),
        ),
    }
}

proof fn lemma_array_decl_extends(st: AState, m: Seq<int>, n: Seq<char>, t: Type, size: i32, pos: int)
    ensures
        extends(st, array_decl(st, m, n, t, size, pos)),
{
    match find(st.symbols, n) {
        Some(s) => {
            lemma_with_error_keeps(st, crate::semantics::analysis::duplicate(m, pos, n, s));
            lemma_keeps_extends(st, array_decl(st, m, n, t, size, pos));
        },
        None => if size <= 0 {
            lemma_with_error_keeps(st, crate::semantics::analysis::invalid_size(m, pos, n, size));
            lemma_keeps_extends(st, array_decl(st, m, n, t, size, pos));
        } else {
            lemma_declare_extends(
                st,
                crate::semantics::analysis::new_symbol(
                    m,
                    pos,
                    n,
                    crate::semantics::symbol_table::SymbolKind::Array(size as usize),
                    t,
                    crate::semantics::symbol_table::SymbolValueV::Uninitialized,
                    false,
                ),
            );
        },
    }
}

proof fn lemma_const_decl_extends(st: AState, m: Seq<int>, n: Seq<char>, t: Type, l: LitV, pos: int)
    ensures
        extends(st, const_decl(st, m, n, t, l, pos)),
{
    lemma_keeps_refl(st);
    lemma_keeps_extends(st, st);
    match find(st.symbols, n) {
        Some(s) => {
            lemma_with_error_keeps(st, crate::semantics::analysis::duplicate(m, pos, n, s));
            lemma_keeps_extends(st, const_decl(st, m, n, t, l, pos));
        },
        None => match l {
            LitV::Str(_) => {},
            _ => {
                let vt = if l is Int { Type::Int } else { Type::Float };
                let err = crate::semantics::analysis::mismatch(m, pos, t, vt, "constant"@);
                lemma_with_error_keeps(st, err);
                lemma_keeps_extends(st, with_error(st, err));
                lemma_declare_extends(
                    st,
                    crate::semantics::analysis::new_symbol(
                        m,
                        pos,
                        n,
                        crate::semantics::symbol_table::SymbolKind::Constant,
                        t,
                        crate::semantics::symbol_table::SymbolValueV::Single(l),
                        true,
                    ),
                );
            },
        },
    }
}

proof fn lemma_vars_extends(st: AState, m: Seq<int>, ns: Seq<Seq<char>>, t: Type, pos: int)
    ensures
        extends(st, vars_effect(st, m, ns, t, pos)),
    decreases ns.len(),
{
    if ns.len() == 0 {
        lemma_keeps_refl(st);
        lemma_keeps_extends(st, st);
    } else {
        let before = vars_effect(st, m, ns.drop_last(), t, pos);
        lemma_vars_extends(st, m, ns.drop_last(), t, pos);
        lemma_var_decl_extends(before, m, ns.last(), t, pos);
        lemma_extends_trans(st, before, var_decl(before, m, ns.last(), t, pos));
    }
}

proof fn lemma_arrays_extends(st: AState, m: Seq<int>, ns: Seq<Seq<char>>, t: Type, size: i32, pos: int)
    ensures
        extends(st, arrays_effect(st, m, ns, t, size, pos)),
    decreases ns.len(),
{
    if ns.len() == 0 {
        lemma_keeps_refl(st);
        lemma_keeps_extends(st, st);
    } else {
        let before = arrays_effect(st, m, ns.drop_last(), t, size, pos);
        lemma_arrays_extends(st, m, ns.drop_last(), t, size, pos);
        lemma_array_decl_extends(before, m, ns.last(), t, size, pos);
        lemma_extends_trans(st, before, array_decl(before, m, ns.last(), t, size, pos));
    }
}

proof fn lemma_var_init_extends(st: AState, m: Seq<int>, n: Seq<char>, t: Type, e: Loc<ExprV>, pos: int)
    ensures
        extends(st, var_init_decl(st, m, n, t, e, pos)),
{
    let a = expr_type(st, m, e);
    lemma_expr_keeps(st, m, e);
    let st1 = match a.1 {
        Some(x) => if x != t {
            with_error(a.0, crate::semantics::analysis::mismatch(m, pos, t, x, "assignment"@))
        } else {
            a.0
        },
        None => a.0,
    };
    match a.1 {
        Some(x) => {
            lemma_with_error_keeps(a.0, crate::semantics::analysis::mismatch(m, pos, t, x, "assignment"@));
        },
        None => {},
    }
    lemma_keeps_refl(a.0);
    lemma_keeps_trans(st, a.0, st1);
    lemma_keeps_extends(st, st1);
    lemma_var_decl_extends(st1, m, n, t, pos);
    lemma_extends_trans(st, st1, var_decl(st1, m, n, t, pos));
}

proof fn lemma_var_inits_extends(st: AState, m: Seq<int>, ns: Seq<Seq<char>>, t: Type, e: Loc<ExprV>, pos: int)
    ensures
        extends(st, var_inits_effect(st, m, ns, t, e, pos)),
    decreases ns.len(),
{
    if ns.len() == 0 {
        lemma_keeps_refl(st);
        lemma_keeps_extends(st, st);
    } else {
        let before = var_inits_effect(st, m, ns.drop_last(), t, e, pos);
        lemma_var_inits_extends(st, m, ns.drop_last(), t, e, pos);
        lemma_var_init_extends(before, m, ns.last(), t, e, pos);
        lemma_extends_trans(st, before, var_init_decl(before, m, ns.last(), t, e, pos));
    }
}

proof fn lemma_init_checks_keeps(st: AState, m: Seq<int>, es: Seq<Loc<ExprV>>, t: Type, pos: int)
    ensures
        keeps(st, init_checks(st, m, es, t, pos)),
    decreases es.len(),
{
    if es.len() == 0 {
        lemma_keeps_refl(st);
    } else {
        let before = init_checks(st, m, es.drop_last(), t, pos);
        lemma_init_checks_keeps(st, m, es.drop_last(), t, pos);
        let a = expr_type(before, m, es.last());
        lemma_expr_keeps(before, m, es.last());
        lemma_keeps_trans(st, before, a.0);
        match a.1 {
            Some(x) => {
                let err = crate::semantics::analysis::mismatch(m, pos, t, x, "array initializer"@);
                lemma_with_error_keeps(a.0, err);
                lemma_keeps_trans(st, a.0, with_error(a.0, err));
            },
            None => {},
        }
    }
}

proof fn lemma_array_inits_extends(
    st: AState,
    m: Seq<int>,
    ns: Seq<Seq<char>>,
    t: Type,
    size: i32,
    es: Seq<Loc<ExprV>>,
    pos: int,
)
    ensures
        extends(st, array_inits_effect(st, m, ns, t, size, es, pos)),
    decreases ns.len(),
{
    if ns.len() == 0 {
        lemma_keeps_refl(st);
        lemma_keeps_extends(st, st);
    } else {
        let before = array_inits_effect(st, m, ns.drop_last(), t, size, es, pos);
        lemma_array_inits_extends(st, m, ns.drop_last(), t, size, es, pos);
        let checked = init_checks(before, m, es, t, pos);
        lemma_init_checks_keeps(before, m, es, t, pos);
        lemma_keeps_extends(before, checked);
        lemma_extends_trans(st, before, checked);
        lemma_array_decl_extends(checked, m, ns.last(), t, size, pos);
        lemma_extends_trans(st, checked, array_decl(checked, m, ns.last(), t, size, pos));
    }
}

proof fn lemma_decl_extends(st: AState, m: Seq<int>, d: Loc<DeclV>)
    ensures
        extends(st, decl_effect(st, m, d)),
{
    match d.node {
        DeclV::Variable(ns, t) => lemma_vars_extends(st, m, ns, t, d.start),
        DeclV::Array(ns, t, size) => lemma_arrays_extends(st, m, ns, t, size, d.start),
        DeclV::VariableWithInit(ns, t, e) => lemma_var_inits_extends(st, m, ns, t, e, d.start),
        DeclV::ArrayWithInit(ns, t, size, es) => lemma_array_inits_extends(st, m, ns, t, size, es, d.start),
        DeclV::Constant(n, t, l) => lemma_const_decl_extends(st, m, n, t, l.node, d.start),
    }
}

proof fn lemma_decls_extends(st: AState, m: Seq<int>, ds: Seq<Loc<DeclV>>)
    ensures
        extends(st, decls_effect(st, m, ds)),
    decreases ds.len(),
{
    if ds.len() == 0 {
        lemma_keeps_refl(st);
        lemma_keeps_extends(st, st);
    } else {
        let before = decls_effect(st, m, ds.drop_last());
        lemma_decls_extends(st, m, ds.drop_last());
        lemma_decl_extends(before, m, ds.last());
        lemma_extends_trans(st, before, decl_effect(before, m, ds.last()));
    }
}

/// The analysis of a program never withdraws an error or a symbol: what was
/// recorded before stays, in order, and what it finds comes after.
pub proof fn lemma_analysis_only_adds(st: AState, m: Seq<int>, p: ProgramV)
    ensures
        extends(st, analysis(st, m, p)),
{
    let st0 = if p.statements.len() == 0 && p.declarations.len() == 0 {
        with_error(st, SemanticErrorV::EmptyProgram)
    } else {
        st
    };
    lemma_with_error_keeps(st, SemanticErrorV::EmptyProgram);
    lemma_keeps_refl(st);
    lemma_keeps_extends(st, st0);
    let d = decls_effect(st0, m, p.declarations);
    lemma_decls_extends(st0, m, p.declarations);
    lemma_extends_trans(st, st0, d);
    lemma_stmts_keeps(d, m, p.statements);
    lemma_keeps_extends(d, stmts_effect(d, m, p.statements));
    lemma_extends_trans(st, d, stmts_effect(d, m, p.statements));
}


// ----- A typed expression reports nothing -----

proof fn lemma_const_value_same(sa: AState, sb: AState, m: Seq<int>, e: Loc<ExprV>)
    requires
        sa.symbols == sb.symbols,
    ensures
        const_value(sa, m, e).1 == const_value(sb, m, e).1,
    decreases e,
{
    match e.node {
        ExprV::Binary(l, op, r) => {
            let a = const_value(sa, m, *l);
            let a2 = const_value(sb, m, *l);
            lemma_const_value_same(sa, sb, m, *l);
            lemma_const_keeps(sa, m, *l);
            lemma_const_keeps(sb, m, *l);
            lemma_const_value_same(a.0, a2.0, m, *r);
        },
        ExprV::Access(_, ix) => {
            lemma_const_value_same(sa, sb, m, *ix);
            lemma_const_keeps(sa, m, *ix);
            lemma_const_keeps(sb, m, *ix);
        },
        _ => {},
    }
}

proof fn lemma_const_clean(st1: AState, st2: AState, m: Seq<int>, e: Loc<ExprV>)
    requires
        st1.symbols == st2.symbols,
        expr_type(st1, m, e).1 is Some,
    ensures
        const_value(st2, m, e).0 == st2,
    decreases e,
{
    match e.node {
        ExprV::Binary(l, op, r) => {
            let a = expr_type(st1, m, *l);
            lemma_expr_keeps(st1, m, *l);
            let b = expr_type(a.0, m, *r);
            lemma_expr_keeps(a.0, m, *r);
            lemma_const_clean(st1, st2, m, *l);
            let ca = const_value(st2, m, *l);
            lemma_const_clean(a.0, st2, m, *r);
            let cb = const_value(ca.0, m, *r);
            lemma_const_value_same(b.0, st2, m, *r);
        },
        ExprV::Access(_, ix) => {
            lemma_const_clean(st1, st2, m, *ix);
        },
        _ => {},
    }
}

/// An expression that gets a type reports no error and declares nothing:
/// errors come only with an expression that has no type.
pub proof fn lemma_typed_expr_reports_nothing(st: AState, m: Seq<int>, e: Loc<ExprV>)
    ensures
        expr_type(st, m, e).1 is Some ==> expr_type(st, m, e).0 == st,
    decreases e,
{
    match e.node {
        ExprV::Access(_, ix) => {
            lemma_typed_expr_reports_nothing(st, m, *ix);
        },
        ExprV::Binary(l, op, r) => {
            let a = expr_type(st, m, *l);
            lemma_typed_expr_reports_nothing(st, m, *l);
            lemma_expr_keeps(st, m, *l);
            let b = expr_type(a.0, m, *r);
            lemma_typed_expr_reports_nothing(a.0, m, *r);
            lemma_expr_keeps(a.0, m, *r);
            if a.1 is Some && b.1 is Some {
                lemma_const_clean(a.0, b.0, m, *r);
            }
        },
        ExprV::Unary(_, x) => {
            lemma_typed_expr_reports_nothing(st, m, *x);
        },
        _ => {},
    }
}

} // verus!

verus! {

/// A comparison (`>`, `<`, `>=`, `<=`, `==`, `!=`) of two operands that are
/// each an `Int` or a `Float` is accepted: it is an `Int` (1 or 0) and
/// reports no error, whichever numeric types its operands have.
pub proof fn lemma_numeric_comparison_accepted(st: AState, m: Seq<int>, e: Loc<ExprV>)
    requires
        e.node is Binary,
        ({
            let op = e.node->Binary_1;
            op == Operator::GreaterThan || op == Operator::LessThan || op == Operator::GreaterEqual
                || op == Operator::LessEqual || op == Operator::Equal || op == Operator::NotEqual
        }),
        ({
            let a = expr_type(st, m, *e.node->Binary_0);
            a.1 == Some(Type::Int) || a.1 == Some(Type::Float)
        }),
        ({
            let a = expr_type(st, m, *e.node->Binary_0);
            let b = expr_type(a.0, m, *e.node->Binary_2);
            b.1 == Some(Type::Int) || b.1 == Some(Type::Float)
        }),
    ensures
        expr_type(st, m, e) == (st, Some(Type::Int)),
{
    let l = *e.node->Binary_0;
    let r = *e.node->Binary_2;
    lemma_typed_expr_reports_nothing(st, m, l);
    let a = expr_type(st, m, l);
    lemma_typed_expr_reports_nothing(a.0, m, r);
}


/// Adding, subtracting or multiplying two numeric operands is accepted and
/// reports no error: the result is a `Float` as soon as one operand is a
/// `Float`, else an `Int`.
pub proof fn lemma_numeric_arithmetic_accepted(st: AState, m: Seq<int>, e: Loc<ExprV>)
    requires
        e.node is Binary,
        ({
            let op = e.node->Binary_1;
            op == Operator::Add || op == Operator::Subtract || op == Operator::Multiply
        }),
        ({
            let a = expr_type(st, m, *e.node->Binary_0);
            a.1 == Some(Type::Int) || a.1 == Some(Type::Float)
        }),
        ({
            let a = expr_type(st, m, *e.node->Binary_0);
            let b = expr_type(a.0, m, *e.node->Binary_2);
            b.1 == Some(Type::Int) || b.1 == Some(Type::Float)
        }),
    ensures
        ({
            let a = expr_type(st, m, *e.node->Binary_0);
            let b = expr_type(a.0, m, *e.node->Binary_2);
            expr_type(st, m, e) == (st, Some(
                if a.1 == Some(Type::Float) || b.1 == Some(Type::Float) { Type::Float } else { Type::Int },
            ))
        }),
{
    let l = *e.node->Binary_0;
    let r = *e.node->Binary_2;
    lemma_typed_expr_reports_nothing(st, m, l);
    let a = expr_type(st, m, l);
    lemma_typed_expr_reports_nothing(a.0, m, r);
}

/// `AND` and `OR` of two `Int` operands are accepted: an `Int`, with no
/// error; a `Float` operand is refused with an error.
pub proof fn lemma_logical_operands(st: AState, m: Seq<int>, e: Loc<ExprV>)
    requires
        e.node is Binary,
        e.node->Binary_1 == Operator::And || e.node->Binary_1 == Operator::Or,
        expr_type(st, m, *e.node->Binary_0).1 is Some,
        expr_type(expr_type(st, m, *e.node->Binary_0).0, m, *e.node->Binary_2).1 is Some,
    ensures
        ({
            let a = expr_type(st, m, *e.node->Binary_0);
            let b = expr_type(a.0, m, *e.node->Binary_2);
            &&& (a.1 == Some(Type::Int) && b.1 == Some(Type::Int)) ==> expr_type(st, m, e) == (st, Some(Type::Int))
            &&& (a.1 == Some(Type::Float) || b.1 == Some(Type::Float)) ==> expr_type(st, m, e).1 is None
                && expr_type(st, m, e).0.errors.len() > 0
        }),
{
    let l = *e.node->Binary_0;
    let r = *e.node->Binary_2;
    lemma_typed_expr_reports_nothing(st, m, l);
    let a = expr_type(st, m, l);
    lemma_typed_expr_reports_nothing(a.0, m, r);
    let b = expr_type(a.0, m, r);
    let x = a.1->0;
    let y = b.1->0;
    let err1 = crate::semantics::analysis::mismatch(m, l.start, Type::Int, x, "logical"@);
    let err2 = crate::semantics::analysis::mismatch(m, l.start, Type::Int, y, "logical"@);
    lemma_error_in_with_error(b.0, err1);
    lemma_error_in_with_error(b.0, err2);
}

proof fn lemma_error_in_with_error(st: AState, e: SemanticErrorV)
    ensures
        with_error(st, e).errors.contains(e),
        with_error(st, e).errors.len() > 0,
{
    if !st.errors.contains(e) {
        assert(with_error(st, e).errors.last() == e);
    }
}

} // verus!

verus! {

/// Dividing a numeric operand by the integer literal `0` is refused with a
/// division-by-zero error at the divisor; by any other integer literal it is
/// accepted with no error, a `Float` when the dividend is one, else an `Int`.
pub proof fn lemma_division_by_literal(st: AState, m: Seq<int>, e: Loc<ExprV>, v: i32)
    requires
        e.node is Binary,
        e.node->Binary_1 == Operator::Divide,
        (*e.node->Binary_2).node is Lit,
        (*e.node->Binary_2).node->Lit_0.node == LitV::Int(v),
        ({
            let a = expr_type(st, m, *e.node->Binary_0);
            a.1 == Some(Type::Int) || a.1 == Some(Type::Float)
        }),
    ensures
        ({
            let a = expr_type(st, m, *e.node->Binary_0);
            let r = *e.node->Binary_2;
            let err = SemanticErrorV::DivisionByZero {
                line: crate::semantics::source_map::line_at(m, r.start),
                column: crate::semantics::source_map::column_at(m, r.start),
            };
            &&& v == 0 ==> expr_type(st, m, e).1 is None && expr_type(st, m, e).0.errors.contains(err)
            &&& v != 0 ==> expr_type(st, m, e) == (st, Some(a.1->0))
        }),
{
    let l = *e.node->Binary_0;
    let r = *e.node->Binary_2;
    lemma_typed_expr_reports_nothing(st, m, l);
    let a = expr_type(st, m, l);
    assert(expr_type(a.0, m, r) == (a.0, Some(Type::Int)));
    assert(const_value(a.0, m, r) == (a.0, Some(LitV::Int(v))));
    let err = SemanticErrorV::DivisionByZero {
        line: crate::semantics::source_map::line_at(m, r.start),
        column: crate::semantics::source_map::column_at(m, r.start),
    };
    lemma_error_in_with_error(a.0, err);
}

/// A declared name has the type it was declared with and reports nothing;
/// a name that was never declared has no type and is reported as undeclared
/// where it stands.
pub proof fn lemma_name_lookup(st: AState, m: Seq<int>, e: Loc<ExprV>)
    requires
        e.node is Ident,
    ensures
        ({
            let n = e.node->Ident_0;
            let err = SemanticErrorV::UndeclaredIdentifier {
                name: n,
                line: crate::semantics::source_map::line_at(m, e.start),
                column: crate::semantics::source_map::column_at(m, e.start),
            };
            &&& find(st.symbols, n) matches Some(s) ==> expr_type(st, m, e) == (st, Some(s.symbol_type))
            &&& find(st.symbols, n) is None ==> expr_type(st, m, e).1 is None && expr_type(st, m, e).0.errors.contains(err)
        }),
{
    let n = e.node->Ident_0;
    let err = SemanticErrorV::UndeclaredIdentifier {
        name: n,
        line: crate::semantics::source_map::line_at(m, e.start),
        column: crate::semantics::source_map::column_at(m, e.start),
    };
    lemma_error_in_with_error(st, err);
}

} // verus!

verus! {

proof fn lemma_grows_contains<T>(a: Seq<T>, b: Seq<T>, x: T)
    requires
        grows(a, b),
        a.contains(x),
    ensures
        b.contains(x),
{
    let i = choose|i: int| 0 <= i < a.len() && a[i] == x;
    assert(b.subrange(0, a.len() as int)[i] == b[i]);
}

/// Assigning to a declared name: a value of the name's own type is accepted
/// with no error; a value of another type is reported as a mismatch that
/// expects the name's type and found the value's; and a constant is never
/// assigned without a constant-modification error.
pub proof fn lemma_assignment_checks(st: AState, m: Seq<int>, l: Loc<ExprV>, r: Loc<ExprV>)
    requires
        l.node is Ident,
        find(st.symbols, l.node->Ident_0) is Some,
        expr_type(st, m, r).1 is Some,
    ensures
        ({
            let n = l.node->Ident_0;
            let s = find(st.symbols, n)->Some_0;
            let b = expr_type(st, m, r);
            let y = b.1->Some_0;
            let pos_line = crate::semantics::source_map::line_at(m, l.start);
            let pos_column = crate::semantics::source_map::column_at(m, l.start);
            let mism = SemanticErrorV::TypeMismatch {
                expected: crate::parser::ast::type_text(s.symbol_type),
                found: crate::parser::ast::type_text(y),
                line: pos_line,
                column: pos_column,
                context: Some("assignment"@),
            };
            let cm = SemanticErrorV::ConstantModification { name: n, line: pos_line, column: pos_column };
            &&& (!s.is_constant && y == s.symbol_type) ==> assign_effect(st, m, l, r) == st
            &&& (!s.is_constant && y != s.symbol_type) ==> assign_effect(st, m, l, r).errors.contains(mism)
            &&& s.is_constant ==> assign_effect(st, m, l, r).errors.contains(cm)
        }),
{
    let n = l.node->Ident_0;
    let s = find(st.symbols, n)->Some_0;
    let pos_line = crate::semantics::source_map::line_at(m, l.start);
    let pos_column = crate::semantics::source_map::column_at(m, l.start);
    let cm = SemanticErrorV::ConstantModification { name: n, line: pos_line, column: pos_column };
    let st0 = constant_target(st, m, l, n);
    lemma_typed_expr_reports_nothing(st, m, r);
    if s.is_constant {
        lemma_error_in_with_error(st, cm);
        assert(st0.symbols == st.symbols);
        assert(expr_type(st0, m, l) == (st0, Some(s.symbol_type)));
        let b = expr_type(st0, m, r);
        lemma_expr_keeps(st0, m, r);
        let fin = assign_effect(st, m, l, r);
        match b.1 {
            Some(y) => {
                let err = crate::semantics::analysis::mismatch(m, l.start, s.symbol_type, y, "assignment"@);
                lemma_with_error_keeps(b.0, err);
                lemma_keeps_trans(st0, b.0, with_error(b.0, err));
            },
            None => {},
        }
        assert(keeps(st0, fin));
        lemma_grows_contains(st0.errors, fin.errors, cm);
    } else {
        assert(expr_type(st0, m, l) == (st0, Some(s.symbol_type)));
        let b = expr_type(st0, m, r);
        let y = b.1->Some_0;
        let mism = SemanticErrorV::TypeMismatch {
            expected: crate::parser::ast::type_text(s.symbol_type),
            found: crate::parser::ast::type_text(y),
            line: pos_line,
            column: pos_column,
            context: Some("assignment"@),
        };
        lemma_error_in_with_error(b.0, mism);
    }
}

} // verus!

verus! {

/// `NOT` of an `Int` is an `Int` with no error; `NOT` of a `Float` has no
/// type and reports a mismatch that expected an `Int`.
pub proof fn lemma_not_operand(st: AState, m: Seq<int>, e: Loc<ExprV>)
    requires
        e.node is Unary,
        expr_type(st, m, *e.node->Unary_1).1 is Some,
    ensures
        ({
            let a = expr_type(st, m, *e.node->Unary_1);
            let err = SemanticErrorV::TypeMismatch {
                expected: crate::parser::ast::type_text(Type::Int),
                found: crate::parser::ast::type_text(Type::Float),
                line: crate::semantics::source_map::line_at(m, e.start),
                column: crate::semantics::source_map::column_at(m, e.start),
                context: Some("logical"@),
            };
            &&& a.1 == Some(Type::Int) ==> expr_type(st, m, e) == (st, Some(Type::Int))
            &&& a.1 == Some(Type::Float) ==> expr_type(st, m, e).1 is None && expr_type(st, m, e).0.errors.contains(err)
        }),
{
    let x = *e.node->Unary_1;
    lemma_typed_expr_reports_nothing(st, m, x);
    let err = SemanticErrorV::TypeMismatch {
        expected: crate::parser::ast::type_text(Type::Int),
        found: crate::parser::ast::type_text(Type::Float),
        line: crate::semantics::source_map::line_at(m, e.start),
        column: crate::semantics::source_map::column_at(m, e.start),
        context: Some("logical"@),
    };
    lemma_error_in_with_error(st, err);
}

} // verus!
