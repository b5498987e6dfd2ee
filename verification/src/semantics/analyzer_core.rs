//! The semantic analyzer: declares the symbols of a program and checks its
//! expressions and statements against them.
use vstd::prelude::*;
use crate::parser::ast::{
    type_text, Loc, LitV, ExprV, StmtV, DeclV, ProgramV, Type, Operator, UnaryOperator, Program,
    Declaration, DeclarationKind, Statement, StatementKind, Expression, ExpressionKind, LiteralKind,
    expr_view, exprs_view, stmt_view, stmts_view, decl_view, decls_view, names_view, lemma_stmts_view_index,
};
use crate::semantics::symbol_table::{Symbol, SymbolKind, SymbolValue, SymbolTable, SymbolV, SymbolValueV, find};
use crate::semantics::error::SemanticError;
use crate::semantics::error::SemanticErrorV;
use crate::semantics::source_map::{SourceMap, line_at, column_at, line_starts_of};
use crate::semantics::analysis::{
    AState, with_error, float_text_is_zero, is_zero_literal, is_numeric, is_arithmetic, is_comparison,
    undeclared, mismatch, division_by_zero, constant_modification, out_of_bounds, non_array, duplicate,
    invalid_size, fold_constant, element, const_value, binary_type, expr_type, int_check, exprs_effect,
    constant_target, assign_effect, input_effect, stmt_effect, stmts_effect, new_symbol, declare, var_decl,
    array_decl, const_decl, vars_effect, arrays_effect, var_init_decl, var_inits_effect, init_checks,
    array_inits_effect, decl_effect, decls_effect, analysis, expr_fits, exprs_fit, stmt_fits, stmts_fit,
    decl_fits, program_fits,
};
use crate::text::str_chars;
use crate::semantics::laws::lemma_typed_expr_reports_nothing;

verus! {

pub open spec fn errors_view(v: Seq<SemanticError>) -> Seq<SemanticErrorV> {
    v.map_values(|e: SemanticError| e@)
}

pub open spec fn opt_lit_view(o: Option<LiteralKind>) -> Option<LitV> {
    match o {
        Some(l) => Some(l@),
        None => None,
    }
}

/// The semantic analyzer of one source text.
pub struct SemanticAnalyzer {
    symbol_table: SymbolTable,
    errors: Vec<SemanticError>,
    source_map: SourceMap,
}

impl SemanticAnalyzer {
    /// The symbols declared and the errors reported so far.
    pub closed spec fn state(&self) -> AState {
        AState { symbols: self.symbol_table.entries(), errors: errors_view(self.errors@) }
    }

    /// Where the lines of the source text start.
    pub closed spec fn starts(&self) -> Seq<int> {
        self.source_map.starts()
    }

    /// No error is recorded twice.
    #[verifier::type_invariant]
    spec fn errors_distinct(&self) -> bool {
        errors_view(self.errors@).no_duplicates()
    }

    /// An analyzer for `source_code`, with no symbol and no error yet.
    pub fn new(source_code: &String) -> (r: SemanticAnalyzer)
        ensures
            r.state() == (AState { symbols: Seq::empty(), errors: Seq::empty() }),
            r.starts() == line_starts_of(source_code@),
    {
        let r = SemanticAnalyzer {
            symbol_table: SymbolTable::new(),
            errors: Vec::new(),
            source_map: SourceMap::new(source_code),
        };
        assert(errors_view(r.errors@) =~= Seq::<SemanticErrorV>::empty());
        r
    }

    /// Records `error`, unless the same error was recorded before.
    pub fn add_error(&mut self, error: SemanticError)
        ensures
            final(self).state() == with_error(old(self).state(), error@),
            final(self).starts() == old(self).starts(),
    {
        proof {
            use_type_invariant(&*self);
        }
        let mut i: usize = 0;
        while i < self.errors.len()
            invariant
                i <= self.errors@.len(),
                forall|k: int| 0 <= k < i ==> (#[trigger] self.errors@[k])@ != error@,
            decreases self.errors@.len() - i,
        {
            if self.errors[i].same_as(&error) {
                assert(errors_view(self.errors@)[i as int] == error@);
                return;
            }
            i = i + 1;
        }
        let ghost before = errors_view(self.errors@);
        assert(!before.contains(error@)) by {
            if before.contains(error@) {
                let k = choose|k: int| 0 <= k < before.len() && before[k] == error@;
                assert(self.errors@[k]@ == error@);
            }
        }
        let ghost ev = error@;
        assert(before.push(ev).no_duplicates()) by {
            assert forall|a: int, b: int| 0 <= a < b < before.len() + 1 implies before.push(ev)[a] != before.push(ev)[b] by {
                if b == before.len() {
                    assert(before[a] != ev);
                }
            }
        }
        let mut errors: Vec<SemanticError> = Vec::new();
        std::mem::swap(&mut errors, &mut self.errors);
        errors.push(error);
        assert(errors_view(errors@) =~= before.push(ev));
        self.errors = errors;
    }

    /// The errors recorded, in order; none is recorded twice.
    pub fn get_errors(&self) -> (r: &Vec<SemanticError>)
        ensures
            errors_view(r@) == self.state().errors,
            errors_view(r@).no_duplicates(),
    {
        proof {
            use_type_invariant(self);
        }
        &self.errors
    }

    /// The symbols declared.
    pub fn get_symbol_table(&self) -> (r: &SymbolTable)
        ensures
            r.entries() == self.state().symbols,
    {
        &self.symbol_table
    }

    /// Line and column of byte position `start`.
    fn position(&self, start: usize) -> (r: (usize, usize))
        requires
            start < usize::MAX,
        ensures
            r.0 as int == line_at(self.starts(), start as int),
            r.1 as int == column_at(self.starts(), start as int),
    {
        self.source_map.get_line_column(&(start..start))
    }

    fn mismatch_error(&self, start: usize, expected: Type, found: Type, context: &str) -> (r: SemanticError)
        requires
            start < usize::MAX,
        ensures
            r@ == mismatch(self.starts(), start as int, expected, found, context@),
    {
        let (line, column) = self.position(start);
        SemanticError::TypeMismatch {
            expected: expected.name(),
            found: found.name(),
            line,
            column,
            context: Some(String::from_str(context)),
        }
    }

    fn division_by_zero_error(&mut self, start: usize)
        requires
            start < usize::MAX,
        ensures
            final(self).state() == with_error(old(self).state(), division_by_zero(old(self).starts(), start as int)),
            final(self).starts() == old(self).starts(),
    {
        let (line, column) = self.position(start);
        self.add_error(SemanticError::DivisionByZero { line, column });
    }

    /// The constant that `a op b` folds to.
    fn fold_constant(&mut self, a: LiteralKind, op: Operator, b: LiteralKind, rpos: usize) -> (r: Option<LiteralKind>)
        requires
            rpos < usize::MAX,
        ensures
            (final(self).state(), opt_lit_view(r)) == fold_constant(old(self).state(), old(self).starts(), a@, op, b@, rpos as int),
            final(self).starts() == old(self).starts(),
    {
        match (a, b) {
            (LiteralKind::Int(x), LiteralKind::Int(y)) => {
                match op {
                    Operator::Add => Some(LiteralKind::Int(x.wrapping_add(y))),
                    Operator::Subtract => Some(LiteralKind::Int(x.wrapping_sub(y))),
                    Operator::Multiply => Some(LiteralKind::Int(x.wrapping_mul(y))),
                    Operator::Divide => {
                        if y == 0 {
                            self.division_by_zero_error(rpos);
                            None
                        } else {
                            match x.checked_div(y) {
                                Some(q) => Some(LiteralKind::Int(q)),
                                None => None,
                            }
                        }
                    },
                    _ => None,
                }
            },
            (LiteralKind::Float(_), LiteralKind::Float(t)) => {
                if op == Operator::Divide && float_is_zero(&t) {
                    self.division_by_zero_error(rpos);
                }
                None
            },
            _ => None,
        }
    }

    /// The constant value of `expr`, if it has one; a division by zero met
    /// on the way is reported.
    pub fn evaluate_constant_expression(&mut self, expr: &Expression) -> (r: Option<LiteralKind>)
        requires
            expr_fits(expr_view(*expr)),
        ensures
            (final(self).state(), opt_lit_view(r)) == const_value(old(self).state(), old(self).starts(), expr_view(*expr)),
            final(self).starts() == old(self).starts(),
        decreases expr,
    {
        match &expr.node {
            ExpressionKind::Literal(l) => Some(l.node.duplicate()),
            ExpressionKind::Identifier(n) => {
                match self.symbol_table.get(n.as_str()) {
                    Some(s) => {
                        if s.is_constant {
                            match &s.value {
                                SymbolValue::Single(l) => Some(l.duplicate()),
                                _ => None,
                            }
                        } else {
                            None
                        }
                    },
                    None => None,
                }
            },
            ExpressionKind::BinaryOp(l, op, r) => {
                match self.evaluate_constant_expression(l) {
                    None => None,
                    Some(x) => {
                        match self.evaluate_constant_expression(r) {
                            None => None,
                            Some(y) => {
                                proof {
                                    reveal_with_fuel(expr_fits, 2);
                                }
                                self.fold_constant(x, *op, y, r.span.start)
                            },
                        }
                    },
                }
            },
            ExpressionKind::ArrayAccess(n, ix) => {
                let iv = self.evaluate_constant_expression(ix);
                match (self.symbol_table.get(n.as_str()), iv) {
                    (Some(s), Some(LiteralKind::Int(i))) => {
                        match (&s.kind, &s.value) {
                            (SymbolKind::Array(_), SymbolValue::Array(vals)) => {
                                let k = #[verifier::truncate] (i as usize);
                                if k < vals.len() {
                                    Some(vals[k].duplicate())
                                } else {
                                    None
                                }
                            },
                            _ => None,
                        }
                    },
                    _ => None,
                }
            },
            ExpressionKind::UnaryOp(_, _) => None,
        }
    }
}

impl SemanticAnalyzer {
    fn report_mismatch(&mut self, start: usize, expected: Type, found: Type, context: &str)
        requires
            start < usize::MAX,
        ensures
            final(self).state() == with_error(
                old(self).state(),
                mismatch(old(self).starts(), start as int, expected, found, context@),
            ),
            final(self).starts() == old(self).starts(),
    {
        let e = self.mismatch_error(start, expected, found, context);
        self.add_error(e);
    }

    /// The type of `a op b` for operand types `a` and `b`.
    fn binary_type(&mut self, l: &Expression, op: Operator, r: &Expression, a: Type, b: Type) -> (res: Option<Type>)
        requires
            expr_fits(expr_view(*l)),
            expr_fits(expr_view(*r)),
        ensures
            (final(self).state(), res) == binary_type(
                old(self).state(),
                old(self).starts(),
                expr_view(*l),
                op,
                expr_view(*r),
                a,
                b,
            ),
            final(self).starts() == old(self).starts(),
    {
        let start = l.span.start;
        let numeric_a = a == Type::Int || a == Type::Float;
        let numeric_b = b == Type::Int || b == Type::Float;
        match op {
            Operator::Add | Operator::Subtract | Operator::Multiply | Operator::Divide => {
                if !numeric_a {
                    self.report_mismatch(start, Type::Int, a, "arithmetic");
                    return None;
                }
                if !numeric_b {
                    self.report_mismatch(start, Type::Int, b, "arithmetic");
                    return None;
                }
                let res = if a == Type::Float || b == Type::Float { Type::Float } else { Type::Int };
                if op == Operator::Divide {
                    match self.evaluate_constant_expression(r) {
                        Some(v) => {
                            let zero = match &v {
                                LiteralKind::Int(x) => *x == 0,
                                LiteralKind::Float(t) => float_is_zero(t),
                                LiteralKind::String(_) => false,
                            };
                            if zero {
                                self.division_by_zero_error(r.span.start);
                                None
                            } else {
                                Some(res)
                            }
                        },
                        None => Some(res),
                    }
                } else {
                    Some(res)
                }
            },
            Operator::GreaterThan | Operator::LessThan | Operator::GreaterEqual | Operator::LessEqual
            | Operator::Equal | Operator::NotEqual => {
                if !numeric_a {
                    self.report_mismatch(start, Type::Int, a, "comparison");
                    return None;
                }
                if !numeric_b {
                    self.report_mismatch(start, Type::Int, b, "comparison");
                    return None;
                }
                Some(Type::Int)
            },
            Operator::And | Operator::Or => {
                if a != Type::Int {
                    self.report_mismatch(start, Type::Int, a, "logical");
                    return None;
                }
                if b != Type::Int {
                    self.report_mismatch(start, Type::Int, b, "logical");
                    return None;
                }
                Some(Type::Int)
            },
        }
    }

    fn undeclared_identifier_error(&mut self, start: usize, name: &String)
        requires
            start < usize::MAX,
        ensures
            final(self).state() == with_error(old(self).state(), undeclared(old(self).starts(), start as int, name@)),
            final(self).starts() == old(self).starts(),
    {
        let (line, column) = self.position(start);
        self.add_error(SemanticError::UndeclaredIdentifier { name: name.clone(), line, column });
    }

    /// The type of `expr`, if it has one and no error is found in it; the
    /// errors found are reported, so a typed expression reports none.
    pub fn analyze_expression(&mut self, expr: &Expression) -> (r: Option<Type>)
        requires
            expr_fits(expr_view(*expr)),
        ensures
            (final(self).state(), r) == expr_type(old(self).state(), old(self).starts(), expr_view(*expr)),
            final(self).starts() == old(self).starts(),
            r is Some ==> final(self).state() == old(self).state(),
        decreases expr,
    {
        proof {
            reveal_with_fuel(expr_fits, 2);
            lemma_typed_expr_reports_nothing(self.state(), self.starts(), expr_view(*expr));
        }
        match &expr.node {
            ExpressionKind::Identifier(name) => {
                match self.symbol_table.get(name.as_str()) {
                    Some(s) => Some(s.symbol_type),
                    None => {
                        self.undeclared_identifier_error(expr.span.start, name);
                        None
                    },
                }
            },
            ExpressionKind::ArrayAccess(name, ix) => {
                assert(expr_view(*expr).node == ExprV::Access(name@, Box::new(expr_view(**ix))));
                assert(expr_fits(expr_view(**ix)));
                let info = match self.symbol_table.get(name.as_str()) {
                    Some(s) => Some((s.kind, s.symbol_type)),
                    None => None,
                };
                match info {
                    None => {
                        self.undeclared_identifier_error(expr.span.start, name);
                        None
                    },
                    Some((SymbolKind::Array(size), t)) => {
                        let outside = match &ix.node {
                            ExpressionKind::Literal(l) => match &l.node {
                                LiteralKind::Int(i) => *i < 0 || (*i as usize) >= size,
                                _ => false,
                            },
                            _ => false,
                        };
                        if outside {
                            let i = match &ix.node {
                                ExpressionKind::Literal(l) => match &l.node {
                                    LiteralKind::Int(i) => *i,
                                    _ => 0,
                                },
                                _ => 0,
                            };
                            let (line, column) = self.position(ix.span.start);
                            self.add_error(SemanticError::ArrayIndexOutOfBounds {
                                name: name.clone(),
                                index: #[verifier::truncate] (i as usize),
                                size,
                                line,
                                column,
                            });
                            None
                        } else {
                            match self.analyze_expression(ix) {
                                None => None,
                                Some(it) => {
                                    if it != Type::Int {
                                        self.report_mismatch(ix.span.start, Type::Int, it, "array index");
                                        None
                                    } else {
                                        Some(t)
                                    }
                                },
                            }
                        }
                    },
                    Some(_) => {
                        let (line, column) = self.position(expr.span.start);
                        self.add_error(SemanticError::NonArrayIndexing { var_name: name.clone(), line, column });
                        None
                    },
                }
            },
            ExpressionKind::Literal(l) => match &l.node {
                LiteralKind::Int(_) => Some(Type::Int),
                LiteralKind::Float(_) => Some(Type::Float),
                LiteralKind::String(_) => None,
            },
            ExpressionKind::BinaryOp(l, op, r) => {
                let lt = self.analyze_expression(l);
                let rt = self.analyze_expression(r);
                match (lt, rt) {
                    (Some(a), Some(b)) => self.binary_type(l, *op, r, a, b),
                    _ => None,
                }
            },
            ExpressionKind::UnaryOp(_, x) => {
                match self.analyze_expression(x) {
                    None => None,
                    Some(t) => {
                        if t != Type::Int {
                            self.report_mismatch(expr.span.start, Type::Int, t, "logical");
                            None
                        } else {
                            Some(Type::Int)
                        }
                    },
                }
            },
        }
    }
}

proof fn lemma_stmts_fit_each(ss: Seq<Loc<StmtV>>)
    requires
        stmts_fit(ss),
    ensures
        forall|i: int| 0 <= i < ss.len() ==> stmt_fits(#[trigger] ss[i]),
    decreases ss.len(),
{
    if ss.len() > 0 {
        lemma_stmts_fit_each(ss.drop_last());
        assert forall|i: int| 0 <= i < ss.len() implies stmt_fits(#[trigger] ss[i]) by {
            if i < ss.len() - 1 {
                assert(ss.drop_last()[i] == ss[i]);
            }
        }
    }
}

impl SemanticAnalyzer {
    /// Checks that `e` is an `Int`, in context `context`.
    fn handle_condition(&mut self, e: &Expression, context: &str)
        requires
            expr_fits(expr_view(*e)),
        ensures
            final(self).state() == int_check(old(self).state(), old(self).starts(), expr_view(*e), context@),
            final(self).starts() == old(self).starts(),
    {
        match self.analyze_expression(e) {
            Some(t) => {
                if t != Type::Int {
                    self.report_mismatch(e.span.start, Type::Int, t, context);
                }
            },
            None => {},
        }
    }

    /// Reports an assignment to `name` when it names a constant.
    fn check_constant_target(&mut self, target: &Expression, name: &String)
        requires
            expr_fits(expr_view(*target)),
        ensures
            final(self).state() == constant_target(old(self).state(), old(self).starts(), expr_view(*target), name@),
            final(self).starts() == old(self).starts(),
    {
        let constant = match self.symbol_table.get(name.as_str()) {
            Some(s) => s.is_constant,
            None => false,
        };
        if constant {
            let (line, column) = self.position(target.span.start);
            self.add_error(SemanticError::ConstantModification { name: name.clone(), line, column });
        }
    }

    fn handle_assignment(&mut self, left: &Expression, right: &Expression)
        requires
            expr_fits(expr_view(*left)),
            expr_fits(expr_view(*right)),
        ensures
            final(self).state() == assign_effect(old(self).state(), old(self).starts(), expr_view(*left), expr_view(*right)),
            final(self).starts() == old(self).starts(),
    {
        match &left.node {
            ExpressionKind::Identifier(_) | ExpressionKind::ArrayAccess(_, _) => {
                if let ExpressionKind::Identifier(name) = &left.node {
                    self.check_constant_target(left, name);
                }
                let lt = self.analyze_expression(left);
                let rt = self.analyze_expression(right);
                match (lt, rt) {
                    (Some(a), Some(b)) => {
                        if !b.is_compatible_with(&a) {
                            self.report_mismatch(left.span.start, a, b, "assignment");
                        }
                    },
                    _ => {},
                }
            },
            _ => {},
        }
    }

    fn handle_input(&mut self, target: &Expression)
        requires
            expr_fits(expr_view(*target)),
        ensures
            final(self).state() == input_effect(old(self).state(), old(self).starts(), expr_view(*target)),
            final(self).starts() == old(self).starts(),
    {
        let _ = self.analyze_expression(target);
        match &target.node {
            ExpressionKind::Identifier(name) => self.check_constant_target(target, name),
            ExpressionKind::ArrayAccess(name, _) => self.check_constant_target(target, name),
            _ => {},
        }
    }

    fn handle_output(&mut self, expressions: &Vec<Expression>)
        requires
            exprs_fit(exprs_view(expressions@)),
        ensures
            final(self).state() == exprs_effect(old(self).state(), old(self).starts(), exprs_view(expressions@)),
            final(self).starts() == old(self).starts(),
    {
        let ghost v = exprs_view(expressions@);
        let ghost st0 = self.state();
        let mut i: usize = 0;
        assert(v.take(0) =~= Seq::<Loc<ExprV>>::empty());
        while i < expressions.len()
            invariant
                i <= expressions@.len(),
                v == exprs_view(expressions@),
                exprs_fit(v),
                self.starts() == old(self).starts(),
                st0 == old(self).state(),
                self.state() == exprs_effect(st0, self.starts(), v.take(i as int)),
            decreases expressions@.len() - i,
        {
            assert(v[i as int] == expr_view(expressions@[i as int]));
            assert(expr_fits(v[i as int]));
            let _ = self.analyze_expression(&expressions[i]);
            assert(v.take(i + 1).drop_last() =~= v.take(i as int));
            i = i + 1;
        }
        assert(v.take(v.len() as int) =~= v);
    }

    /// Checks a statement.
    pub fn analyze_statement(&mut self, stmt: &Statement)
        requires
            stmt_fits(stmt_view(*stmt)),
        ensures
            final(self).state() == stmt_effect(old(self).state(), old(self).starts(), stmt_view(*stmt)),
            final(self).starts() == old(self).starts(),
        decreases stmt, 0int,
    {
        match &stmt.node {
            StatementKind::Assignment(l, r) => self.handle_assignment(l, r),
            StatementKind::IfThen(c, b) => {
                self.handle_condition(c, "if condition");
                self.handle_scope(b);
            },
            StatementKind::IfThenElse(c, b1, b2) => {
                self.handle_condition(c, "if-else condition");
                self.handle_scope(b1);
                self.handle_scope(b2);
            },
            StatementKind::DoWhile(b, c) => {
                self.handle_scope(b);
                let _ = self.analyze_expression(c);
                self.handle_condition(c, "do-while condition");
            },
            StatementKind::For(v, a, b, c, body) => {
                self.handle_condition(v, "for loop iterator");
                self.handle_condition(a, "for loop initialization");
                self.handle_condition(b, "for loop end condition");
                self.handle_condition(c, "for loop step");
                self.handle_scope(body);
            },
            StatementKind::Input(t) => self.handle_input(t),
            StatementKind::Output(es) => self.handle_output(es),
            StatementKind::Scope(b) => self.handle_scope(b),
            StatementKind::Empty => {},
        }
    }

    /// Checks the statements of a block, in order.
    fn handle_scope(&mut self, block: &Vec<Statement>)
        requires
            stmts_fit(stmts_view(block@)),
        ensures
            final(self).state() == stmts_effect(old(self).state(), old(self).starts(), stmts_view(block@)),
            final(self).starts() == old(self).starts(),
        decreases block, 1int,
    {
        let ghost v = stmts_view(block@);
        let ghost st0 = self.state();
        proof {
            lemma_stmts_view_index(block@);
            lemma_stmts_fit_each(v);
        }
        let mut i: usize = 0;
        assert(v.take(0) =~= Seq::<Loc<StmtV>>::empty());
        while i < block.len()
            invariant
                i <= block@.len(),
                v == stmts_view(block@),
                v.len() == block@.len(),
                forall|k: int| 0 <= k < block@.len() ==> #[trigger] v[k] == stmt_view(block@[k]),
                forall|k: int| 0 <= k < v.len() ==> stmt_fits(#[trigger] v[k]),
                self.starts() == old(self).starts(),
                st0 == old(self).state(),
                self.state() == stmts_effect(st0, self.starts(), v.take(i as int)),
            decreases block@.len() - i,
        {
            assert(v[i as int] == stmt_view(block@[i as int]));
            assert(stmt_fits(v[i as int]));
            self.analyze_statement(&block[i]);
            assert(v.take(i + 1).drop_last() =~= v.take(i as int));
            i = i + 1;
        }
        assert(v.take(v.len() as int) =~= v);
    }
}

impl SemanticAnalyzer {
    fn existing(&self, name: &String) -> (r: Option<(usize, usize)>)
        ensures
            match r {
                Some((l, c)) => find(self.state().symbols, name@) matches Some(s) && s.line == l && s.column == c,
                None => find(self.state().symbols, name@) is None,
            },
    {
        match self.symbol_table.get(name.as_str()) {
            Some(s) => Some((s.line, s.column)),
            None => None,
        }
    }

    fn duplicate_declaration_error(&mut self, start: usize, name: &String, original: (usize, usize))
        requires
            start < usize::MAX,
        ensures
            final(self).state() == with_error(
                old(self).state(),
                SemanticErrorV::DuplicateDeclaration {
                    name: name@,
                    line: line_at(old(self).starts(), start as int),
                    column: column_at(old(self).starts(), start as int),
                    original_line: original.0 as int,
                    original_column: original.1 as int,
                },
            ),
            final(self).starts() == old(self).starts(),
    {
        let (line, column) = self.position(start);
        self.add_error(SemanticError::DuplicateDeclaration {
            name: name.clone(),
            line,
            column,
            original_line: original.0,
            original_column: original.1,
        });
    }

    fn declare_symbol(&mut self, name: &String, kind: SymbolKind, typ: Type, value: SymbolValue, is_constant: bool, start: usize)
        requires
            start < usize::MAX,
            find(old(self).state().symbols, name@) is None,
        ensures
            final(self).state() == declare(
                old(self).state(),
                new_symbol(old(self).starts(), start as int, name@, kind, typ, value@, is_constant),
            ),
            final(self).starts() == old(self).starts(),
    {
        let (line, column) = self.position(start);
        let symbol = Symbol { name: name.clone(), kind, symbol_type: typ, value, is_constant, line, column };
        proof {
            use_type_invariant(&*self);
        }
        let mut table = SymbolTable::new();
        std::mem::swap(&mut table, &mut self.symbol_table);
        let _ = table.add_symbol(symbol);
        self.symbol_table = table;
    }

    fn handle_variable_declaration(&mut self, name: &String, typ: Type, start: usize)
        requires
            start < usize::MAX,
        ensures
            final(self).state() == var_decl(old(self).state(), old(self).starts(), name@, typ, start as int),
            final(self).starts() == old(self).starts(),
    {
        match self.existing(name) {
            Some(original) => self.duplicate_declaration_error(start, name, original),
            None => self.declare_symbol(name, SymbolKind::Variable, typ, SymbolValue::Uninitialized, false, start),
        }
    }

    fn handle_array_declaration(&mut self, name: &String, typ: Type, size: i32, start: usize)
        requires
            start < usize::MAX,
        ensures
            final(self).state() == array_decl(old(self).state(), old(self).starts(), name@, typ, size, start as int),
            final(self).starts() == old(self).starts(),
    {
        match self.existing(name) {
            Some(original) => self.duplicate_declaration_error(start, name, original),
            None => {
                if size <= 0 {
                    let (line, column) = self.position(start);
                    self.add_error(SemanticError::InvalidArraySize { name: name.clone(), size, line, column });
                } else {
                    self.declare_symbol(name, SymbolKind::Array(size as usize), typ, SymbolValue::Uninitialized, false, start);
                }
            },
        }
    }

    fn handle_constant_declaration(&mut self, name: &String, typ: Type, literal: &LiteralKind, start: usize)
        requires
            start < usize::MAX,
        ensures
            final(self).state() == const_decl(old(self).state(), old(self).starts(), name@, typ, literal@, start as int),
            final(self).starts() == old(self).starts(),
    {
        match self.existing(name) {
            Some(original) => self.duplicate_declaration_error(start, name, original),
            None => {
                let value_type = match literal {
                    LiteralKind::Int(_) => Type::Int,
                    LiteralKind::Float(_) => Type::Float,
                    LiteralKind::String(_) => {
                        return;
                    },
                };
                if value_type != typ {
                    self.report_mismatch(start, typ, value_type, "constant");
                } else {
                    self.declare_symbol(name, SymbolKind::Constant, typ, SymbolValue::Single(literal.duplicate()), true, start);
                }
            },
        }
    }

    fn handle_variable_declaration_with_init(&mut self, name: &String, typ: Type, expr: &Expression, start: usize)
        requires
            start < usize::MAX,
            expr_fits(expr_view(*expr)),
        ensures
            final(self).state() == var_init_decl(old(self).state(), old(self).starts(), name@, typ, expr_view(*expr), start as int),
            final(self).starts() == old(self).starts(),
    {
        match self.analyze_expression(expr) {
            Some(t) => {
                if t != typ {
                    self.report_mismatch(start, typ, t, "assignment");
                }
            },
            None => {},
        }
        self.handle_variable_declaration(name, typ, start);
    }

    fn check_initializers(&mut self, exprs: &Vec<Expression>, typ: Type, start: usize)
        requires
            start < usize::MAX,
            exprs_fit(exprs_view(exprs@)),
        ensures
            final(self).state() == init_checks(old(self).state(), old(self).starts(), exprs_view(exprs@), typ, start as int),
            final(self).starts() == old(self).starts(),
    {
        let ghost v = exprs_view(exprs@);
        let ghost st0 = self.state();
        let mut i: usize = 0;
        assert(v.take(0) =~= Seq::<Loc<ExprV>>::empty());
        while i < exprs.len()
            invariant
                i <= exprs@.len(),
                start < usize::MAX,
                v == exprs_view(exprs@),
                exprs_fit(v),
                self.starts() == old(self).starts(),
                st0 == old(self).state(),
                self.state() == init_checks(st0, self.starts(), v.take(i as int), typ, start as int),
            decreases exprs@.len() - i,
        {
            assert(v[i as int] == expr_view(exprs@[i as int]));
            assert(expr_fits(v[i as int]));
            assert(v.take(i + 1).drop_last() =~= v.take(i as int));
            assert(v.take(i + 1).last() == v[i as int]);
            match self.analyze_expression(&exprs[i]) {
                Some(t) => {
                    if t != typ {
                        self.report_mismatch(start, typ, t, "array initializer");
                    }
                },
                None => {},
            }
            i = i + 1;
        }
        assert(v.take(v.len() as int) =~= v);
    }

    /// Reads a declaration: declares its names, reporting what is wrong.
    pub fn analyze_declaration(&mut self, declaration: &Declaration)
        requires
            decl_fits(decl_view(*declaration)),
        ensures
            final(self).state() == decl_effect(old(self).state(), old(self).starts(), decl_view(*declaration)),
            final(self).starts() == old(self).starts(),
    {
        let start = declaration.span.start;
        let ghost st0 = self.state();
        let ghost m = self.starts();
        match &declaration.node {
            DeclarationKind::Variable(names, typ) => {
                let ghost ns = names_view(names@);
                let mut i: usize = 0;
                assert(ns.take(0) =~= Seq::<Seq<char>>::empty());
                while i < names.len()
                    invariant
                        i <= names@.len(),
                        start < usize::MAX,
                        ns == names_view(names@),
                        self.starts() == m,
                        self.state() == vars_effect(st0, m, ns.take(i as int), *typ, start as int),
                    decreases names@.len() - i,
                {
                    assert(ns.take(i + 1).drop_last() =~= ns.take(i as int));
                    assert(ns.take(i + 1).last() == names@[i as int]@);
                    self.handle_variable_declaration(&names[i], *typ, start);
                    i = i + 1;
                }
                assert(ns.take(ns.len() as int) =~= ns);
            },
            DeclarationKind::Array(names, typ, size) => {
                let ghost ns = names_view(names@);
                let mut i: usize = 0;
                assert(ns.take(0) =~= Seq::<Seq<char>>::empty());
                while i < names.len()
                    invariant
                        i <= names@.len(),
                        start < usize::MAX,
                        ns == names_view(names@),
                        self.starts() == m,
                        self.state() == arrays_effect(st0, m, ns.take(i as int), *typ, *size, start as int),
                    decreases names@.len() - i,
                {
                    assert(ns.take(i + 1).drop_last() =~= ns.take(i as int));
                    assert(ns.take(i + 1).last() == names@[i as int]@);
                    self.handle_array_declaration(&names[i], *typ, *size, start);
                    i = i + 1;
                }
                assert(ns.take(ns.len() as int) =~= ns);
            },
            DeclarationKind::VariableWithInit(names, typ, expr) => {
                let ghost ns = names_view(names@);
                let mut i: usize = 0;
                assert(ns.take(0) =~= Seq::<Seq<char>>::empty());
                while i < names.len()
                    invariant
                        i <= names@.len(),
                        start < usize::MAX,
                        expr_fits(expr_view(*expr)),
                        ns == names_view(names@),
                        self.starts() == m,
                        self.state() == var_inits_effect(st0, m, ns.take(i as int), *typ, expr_view(*expr), start as int),
                    decreases names@.len() - i,
                {
                    assert(ns.take(i + 1).drop_last() =~= ns.take(i as int));
                    assert(ns.take(i + 1).last() == names@[i as int]@);
                    self.handle_variable_declaration_with_init(&names[i], *typ, expr, start);
                    i = i + 1;
                }
                assert(ns.take(ns.len() as int) =~= ns);
            },
            DeclarationKind::ArrayWithInit(names, typ, size, exprs) => {
                let ghost ns = names_view(names@);
                let mut i: usize = 0;
                assert(ns.take(0) =~= Seq::<Seq<char>>::empty());
                while i < names.len()
                    invariant
                        i <= names@.len(),
                        start < usize::MAX,
                        exprs_fit(exprs_view(exprs@)),
                        ns == names_view(names@),
                        self.starts() == m,
                        self.state() == array_inits_effect(st0, m, ns.take(i as int), *typ, *size, exprs_view(exprs@), start as int),
                    decreases names@.len() - i,
                {
                    assert(ns.take(i + 1).drop_last() =~= ns.take(i as int));
                    assert(ns.take(i + 1).last() == names@[i as int]@);
                    self.check_initializers(exprs, *typ, start);
                    self.handle_array_declaration(&names[i], *typ, *size, start);
                    i = i + 1;
                }
                assert(ns.take(ns.len() as int) =~= ns);
            },
            DeclarationKind::Constant(name, typ, literal) => {
                self.handle_constant_declaration(name, *typ, &literal.node, start);
            },
        }
    }

    /// Analyzes a whole program: an empty program is reported, then the
    /// declarations are read in order, then the statements are checked.
    pub fn analyze(&mut self, program: &Program)
        requires
            program_fits(program@),
        ensures
            final(self).state() == analysis(old(self).state(), old(self).starts(), program@),
            final(self).starts() == old(self).starts(),
    {
        let ghost p = program@;
        proof {
            lemma_stmts_view_index(program.statements@);
        }
        if program.statements.len() == 0 && program.declarations.len() == 0 {
            self.add_error(SemanticError::EmptyProgram);
        }
        let ghost st0 = self.state();
        let ghost m = self.starts();
        let ghost ds = p.declarations;
        let mut i: usize = 0;
        assert(ds.take(0) =~= Seq::<Loc<DeclV>>::empty());
        while i < program.declarations.len()
            invariant
                i <= program.declarations@.len(),
                p == program@,
                ds == p.declarations,
                ds == decls_view(program.declarations@),
                program_fits(p),
                self.starts() == m,
                self.state() == decls_effect(st0, m, ds.take(i as int)),
            decreases program.declarations@.len() - i,
        {
            assert(ds[i as int] == decl_view(program.declarations@[i as int]));
            assert(decl_fits(ds[i as int]));
            assert(ds.take(i + 1).drop_last() =~= ds.take(i as int));
            self.analyze_declaration(&program.declarations[i]);
            i = i + 1;
        }
        assert(ds.take(ds.len() as int) =~= ds);
        self.handle_scope(&program.statements);
    }
}

/// Is the float written `t` zero?
pub fn float_is_zero(t: &String) -> (r: bool)
    ensures
        r == float_text_is_zero(t@),
{
    let cs = str_chars(t.as_str());
    let mut i: usize = 0;
    while i < cs.len()
        invariant
            i <= cs@.len(),
            cs@ == t@,
            forall|k: int| 0 <= k < i ==> !('1' <= #[trigger] cs@[k] && cs@[k] <= '9'),
        decreases cs@.len() - i,
    {
        if '1' <= cs[i] && cs[i] <= '9' {
            return false;
        }
        i = i + 1;
    }
    true
}

} // verus!
