//! Translation of a program into quadruples.
use vstd::prelude::*;
use crate::parser::ast::{
    Loc, LitV, ExprV, StmtV, DeclV, ProgramV, Type, Operator, Program, Declaration, DeclarationKind,
    Statement, StatementKind, Expression, ExpressionKind, LiteralKind, expr_view, exprs_view, stmt_view,
    stmts_view, decl_view, decls_view, names_view, lemma_stmts_view_index,
};
use crate::codegen::quadruple::{
    Operation, OperationV, Operand, OperandV, Quadruple, QuadV, QuadrupleProgram, GState, temp_name,
};

verus! {

/// `g` with one more quadruple at the end.
pub open spec fn emit(g: GState, op: OperationV, a: OperandV, b: OperandV, r: OperandV) -> GState {
    GState { quads: g.quads.push(QuadV { operation: op, operand1: a, operand2: b, result: r }), ..g }
}

/// A fresh temporary.
pub open spec fn fresh_temp(g: GState) -> (GState, OperandV) {
    (GState { next_temp: g.next_temp.wrapping_add(1), ..g }, OperandV::TempVariable(temp_name(g.next_temp)))
}

/// A fresh label.
pub open spec fn fresh_label(g: GState) -> (GState, usize) {
    (GState { next_label: g.next_label.wrapping_add(1), ..g }, g.next_label)
}

/// The operand that stands for a literal.
pub open spec fn lit_operand(l: LitV) -> OperandV {
    match l {
        LitV::Int(v) => OperandV::IntLiteral(v),
        LitV::Float(t) => OperandV::FloatLiteral(t),
        LitV::Str(t) => OperandV::StringLiteral(t),
    }
}

/// The operation of a binary operator.
pub open spec fn operation_of(op: Operator) -> OperationV {
    match op {
        Operator::Add => OperationV::Add,
        Operator::Subtract => OperationV::Subtract,
        Operator::Multiply => OperationV::Multiply,
        Operator::Divide => OperationV::Divide,
        Operator::Equal => OperationV::Equal,
        Operator::NotEqual => OperationV::NotEqual,
        Operator::LessThan => OperationV::LessThan,
        Operator::GreaterThan => OperationV::GreaterThan,
        Operator::LessEqual => OperationV::LessEqual,
        Operator::GreaterEqual => OperationV::GreaterEqual,
        Operator::And => OperationV::And,
        Operator::Or => OperationV::Or,
    }
}

/// The code of an expression, and the operand that holds its value: an
/// operator's operands are computed left to right into a fresh temporary.
pub open spec fn gen_expr(g: GState, e: Loc<ExprV>) -> (GState, OperandV)
    decreases e,
{
    match e.node {
        ExprV::Ident(n) => (g, OperandV::Variable(n)),
        ExprV::Access(n, ix) => {
            let a = gen_expr(g, *ix);
            let t = fresh_temp(a.0);
            (emit(t.0, OperationV::ArrayLoad, OperandV::Variable(n), a.1, t.1), t.1)
        },
        ExprV::Lit(l) => (g, lit_operand(l.node)),
        ExprV::Binary(l, op, r) => {
            let a = gen_expr(g, *l);
            let b = gen_expr(a.0, *r);
            let t = fresh_temp(b.0);
            (emit(t.0, operation_of(op), a.1, b.1, t.1), t.1)
        },
        ExprV::Unary(_, x) => {
            let a = gen_expr(g, *x);
            let t = fresh_temp(a.0);
            (emit(t.0, OperationV::Not, a.1, OperandV::Empty, t.1), t.1)
        },
    }
}

pub open spec fn empty_op() -> OperandV {
    OperandV::Empty
}

/// Each expression computed, then output.
pub open spec fn gen_outputs(g: GState, es: Seq<Loc<ExprV>>) -> GState
    decreases es.len(),
{
    if es.len() == 0 {
        g
    } else {
        let r = gen_expr(gen_outputs(g, es.drop_last()), es.last());
        emit(r.0, OperationV::Output, r.1, empty_op(), empty_op())
    }
}

pub open spec fn gen_assign(g: GState, l: Loc<ExprV>, r: Loc<ExprV>) -> GState {
    let a = gen_expr(g, r);
    match l.node {
        ExprV::Ident(n) => emit(a.0, OperationV::Assign, a.1, empty_op(), OperandV::Variable(n)),
        ExprV::Access(n, ix) => {
            let i = gen_expr(a.0, *ix);
            emit(i.0, OperationV::ArrayStore, a.1, i.1, OperandV::Variable(n))
        },
        _ => a.0,
    }
}

pub open spec fn gen_input(g: GState, t: Loc<ExprV>) -> GState {
    match t.node {
        ExprV::Ident(n) => emit(g, OperationV::Input, empty_op(), empty_op(), OperandV::Variable(n)),
        ExprV::Access(n, ix) => {
            let i = gen_expr(g, *ix);
            let tt = fresh_temp(i.0);
            let g1 = emit(tt.0, OperationV::Input, empty_op(), empty_op(), tt.1);
            emit(g1, OperationV::ArrayStore, tt.1, i.1, OperandV::Variable(n))
        },
        _ => g,
    }
}

/// The name a `for` loop counts with.
pub open spec fn loop_var(v: Loc<ExprV>) -> Seq<char> {
    match v.node {
        ExprV::Ident(n) => n,
        _ => "unknown"@,
    }
}

pub open spec fn label_quad(g: GState, l: usize) -> GState {
    emit(g, OperationV::Label(l), empty_op(), empty_op(), empty_op())
}

/// The code of a statement. An `if` jumps past its block when the condition
/// is false; an `if`-`else` takes two fresh labels, `e` and `d`, and gives
/// the condition, `JumpIfFalse(e)`, the `then` block, `Jump(d)`, `Label(e)`,
/// the `else` block and `Label(d)`, so that exactly one block runs; a
/// `do`-`while` jumps back while the condition holds; a `for` loop tests
/// `var < end` before each round and adds the step after it.
pub open spec fn gen_stmt(g: GState, s: Loc<StmtV>) -> GState
    decreases s, 0int,
{
    match s.node {
        StmtV::Assign(l, r) => gen_assign(g, l, r),
        StmtV::IfThen(c, b) => {
            let (g1, lab) = fresh_label(g);
            let c1 = gen_expr(g1, c);
            let g2 = emit(c1.0, OperationV::JumpIfFalse(lab), c1.1, empty_op(), empty_op());
            label_quad(gen_stmts(g2, b), lab)
        },
        StmtV::IfThenElse(c, b1, b2) => {
            let (g1, else_lab) = fresh_label(g);
            let (g2, end_lab) = fresh_label(g1);
            let c1 = gen_expr(g2, c);
            let g3 = emit(c1.0, OperationV::JumpIfFalse(else_lab), c1.1, empty_op(), empty_op());
            let g4 = emit(gen_stmts(g3, b1), OperationV::Jump(end_lab), empty_op(), empty_op(), empty_op());
            label_quad(gen_stmts(label_quad(g4, else_lab), b2), end_lab)
        },
        StmtV::DoWhile(b, c) => {
            let (g1, lab) = fresh_label(g);
            let g2 = gen_stmts(label_quad(g1, lab), b);
            let c1 = gen_expr(g2, c);
            emit(c1.0, OperationV::JumpIfTrue(lab), c1.1, empty_op(), empty_op())
        },
        StmtV::For(v, a, b, c, body) => {
            let var = OperandV::Variable(loop_var(v));
            let i = gen_expr(g, a);
            let g1 = emit(i.0, OperationV::Assign, i.1, empty_op(), var);
            let (g2, start) = fresh_label(g1);
            let (g3, end) = fresh_label(g2);
            let e = gen_expr(label_quad(g3, start), b);
            let t = fresh_temp(e.0);
            let g5 = emit(t.0, OperationV::LessThan, var, e.1, t.1);
            let g6 = emit(g5, OperationV::JumpIfFalse(end), t.1, empty_op(), empty_op());
            let st = gen_expr(gen_stmts(g6, body), c);
            let t2 = fresh_temp(st.0);
            let g8 = emit(t2.0, OperationV::Add, var, st.1, t2.1);
            let g9 = emit(g8, OperationV::Assign, t2.1, empty_op(), var);
            let g10 = emit(g9, OperationV::Jump(start), empty_op(), empty_op(), empty_op());
            label_quad(g10, end)
        },
        StmtV::Input(t) => gen_input(g, t),
        StmtV::Output(es) => gen_outputs(g, es),
        StmtV::Scope(b) => gen_stmts(g, b),
        StmtV::Empty => g,
    }
}

/// The code of statements, in order.
pub open spec fn gen_stmts(g: GState, ss: Seq<Loc<StmtV>>) -> GState
    decreases ss, 1int,
{
    if ss.len() == 0 {
        g
    } else {
        gen_stmt(gen_stmts(g, ss.drop_last()), ss.last())
    }
}

pub open spec fn gen_vars(g: GState, ns: Seq<Seq<char>>, t: Type) -> GState
    decreases ns.len(),
{
    if ns.len() == 0 {
        g
    } else {
        emit(gen_vars(g, ns.drop_last(), t), OperationV::DeclareVariable(t), empty_op(), empty_op(), OperandV::Variable(ns.last()))
    }
}

/// The size of an array as the code declares it.
pub open spec fn array_size(size: i32) -> usize {
    size as usize
}

pub open spec fn gen_arrays(g: GState, ns: Seq<Seq<char>>, t: Type, size: i32) -> GState
    decreases ns.len(),
{
    if ns.len() == 0 {
        g
    } else {
        emit(
            gen_arrays(g, ns.drop_last(), t, size),
            OperationV::DeclareArray(t, array_size(size)),
            empty_op(),
            empty_op(),
            OperandV::ArrayVariable(ns.last(), array_size(size)),
        )
    }
}

pub open spec fn gen_var_inits(g: GState, ns: Seq<Seq<char>>, t: Type, e: Loc<ExprV>) -> GState
    decreases ns.len(),
{
    if ns.len() == 0 {
        g
    } else {
        let r = gen_expr(gen_var_inits(g, ns.drop_last(), t, e), e);
        emit(r.0, OperationV::DeclareVariable(t), r.1, empty_op(), OperandV::Variable(ns.last()))
    }
}

/// The initial values of array `n`, each stored at its index.
pub open spec fn gen_stores(g: GState, n: Seq<char>, es: Seq<Loc<ExprV>>) -> GState
    decreases es.len(),
{
    if es.len() == 0 {
        g
    } else {
        let r = gen_expr(gen_stores(g, n, es.drop_last()), es.last());
        emit(
            r.0,
            OperationV::ArrayStore,
            r.1,
            OperandV::IntLiteral((es.len() - 1) as i32),
            OperandV::Variable(n),
        )
    }
}

pub open spec fn gen_array_inits(g: GState, ns: Seq<Seq<char>>, t: Type, size: i32, es: Seq<Loc<ExprV>>) -> GState
    decreases ns.len(),
{
    if ns.len() == 0 {
        g
    } else {
        let n = ns.last();
        let g1 = emit(
            gen_array_inits(g, ns.drop_last(), t, size, es),
            OperationV::DeclareArray(t, array_size(size)),
            empty_op(),
            empty_op(),
            OperandV::ArrayVariable(n, array_size(size)),
        );
        gen_stores(g1, n, es)
    }
}

/// A constant is declared with its value (a string constant is not), then
/// assigned it.
pub open spec fn gen_constant(g: GState, n: Seq<char>, t: Type, l: LitV) -> GState {
    let g1 = match l {
        LitV::Str(_) => g,
        _ => emit(g, OperationV::DeclareVariable(t), lit_operand(l), empty_op(), OperandV::Variable(n)),
    };
    emit(g1, OperationV::Assign, lit_operand(l), empty_op(), OperandV::Variable(n))
}

pub open spec fn gen_decl(g: GState, d: Loc<DeclV>) -> GState {
    match d.node {
        DeclV::Variable(ns, t) => gen_vars(g, ns, t),
        DeclV::Array(ns, t, size) => gen_arrays(g, ns, t, size),
        DeclV::VariableWithInit(ns, t, e) => gen_var_inits(g, ns, t, e),
        DeclV::ArrayWithInit(ns, t, size, es) => gen_array_inits(g, ns, t, size, es),
        DeclV::Constant(n, t, l) => gen_constant(g, n, t, l.node),
    }
}

pub open spec fn gen_decls(g: GState, ds: Seq<Loc<DeclV>>) -> GState
    decreases ds.len(),
{
    if ds.len() == 0 {
        g
    } else {
        gen_decl(gen_decls(g, ds.drop_last()), ds.last())
    }
}

/// The code of a program: its declarations, then its statements.
pub open spec fn gen_program(g: GState, p: ProgramV) -> GState {
    gen_stmts(gen_decls(g, p.declarations), p.statements)
}

/// Translates programs into quadruples.
pub struct QuadrupleGenerator {
    pub program: QuadrupleProgram,
}

fn quad(operation: Operation, operand1: Operand, operand2: Operand, result: Operand) -> (r: Quadruple)
    ensures
        r@ == (QuadV { operation: operation@, operand1: operand1@, operand2: operand2@, result: result@ }),
{
    Quadruple { operation, operand1, operand2, result }
}

fn operation_for(op: Operator) -> (r: Operation)
    ensures
        r@ == operation_of(op),
{
    match op {
        Operator::Add => Operation::Add,
        Operator::Subtract => Operation::Subtract,
        Operator::Multiply => Operation::Multiply,
        Operator::Divide => Operation::Divide,
        Operator::Equal => Operation::Equal,
        Operator::NotEqual => Operation::NotEqual,
        Operator::LessThan => Operation::LessThan,
        Operator::GreaterThan => Operation::GreaterThan,
        Operator::LessEqual => Operation::LessEqual,
        Operator::GreaterEqual => Operation::GreaterEqual,
        Operator::And => Operation::And,
        Operator::Or => Operation::Or,
    }
}

fn literal_operand(l: &LiteralKind) -> (r: Operand)
    ensures
        r@ == lit_operand(l@),
{
    match l {
        LiteralKind::Int(v) => Operand::IntLiteral(*v),
        LiteralKind::Float(t) => Operand::FloatLiteral(t.clone()),
        LiteralKind::String(t) => Operand::StringLiteral(t.clone()),
    }
}

impl QuadrupleGenerator {
    /// A generator with an empty program.
    pub fn new() -> (r: QuadrupleGenerator)
        ensures
            r.program@ == (GState { quads: Seq::empty(), next_temp: 1, next_label: 1 }),
    {
        QuadrupleGenerator { program: QuadrupleProgram::new() }
    }

    fn label_here(&mut self, l: usize)
        ensures
            final(self).program@ == label_quad(old(self).program@, l),
    {
        self.program.add(quad(Operation::Label(l), Operand::Empty, Operand::Empty, Operand::Empty));
    }

    /// Emits the code of `expr`; gives the operand that holds its value.
    pub fn generate_expression(&mut self, expr: &Expression) -> (r: Operand)
        ensures
            (final(self).program@, r@) == gen_expr(old(self).program@, expr_view(*expr)),
        decreases expr,
    {
        match &expr.node {
            ExpressionKind::Identifier(name) => Operand::Variable(name.clone()),
            ExpressionKind::ArrayAccess(name, ix) => {
                let index = self.generate_expression(ix);
                let temp = self.program.new_temp();
                let result = temp.duplicate();
                self.program.add(quad(Operation::ArrayLoad, Operand::Variable(name.clone()), index, temp));
                result
            },
            ExpressionKind::Literal(lit) => literal_operand(&lit.node),
            ExpressionKind::BinaryOp(l, op, r) => {
                let a = self.generate_expression(l);
                let b = self.generate_expression(r);
                let temp = self.program.new_temp();
                let result = temp.duplicate();
                self.program.add(quad(operation_for(*op), a, b, temp));
                result
            },
            ExpressionKind::UnaryOp(_, x) => {
                let a = self.generate_expression(x);
                let temp = self.program.new_temp();
                let result = temp.duplicate();
                self.program.add(quad(Operation::Not, a, Operand::Empty, temp));
                result
            },
        }
    }

    fn generate_outputs(&mut self, es: &Vec<Expression>)
        ensures
            final(self).program@ == gen_outputs(old(self).program@, exprs_view(es@)),
    {
        let ghost v = exprs_view(es@);
        let ghost g0 = self.program@;
        let mut i: usize = 0;
        assert(v.take(0) =~= Seq::<Loc<ExprV>>::empty());
        while i < es.len()
            invariant
                i <= es@.len(),
                v == exprs_view(es@),
                g0 == old(self).program@,
                self.program@ == gen_outputs(g0, v.take(i as int)),
            decreases es@.len() - i,
        {
            assert(v.take(i + 1).drop_last() =~= v.take(i as int));
            assert(v.take(i + 1).last() == expr_view(es@[i as int]));
            let r = self.generate_expression(&es[i]);
            self.program.add(quad(Operation::Output, r, Operand::Empty, Operand::Empty));
            i = i + 1;
        }
        assert(v.take(v.len() as int) =~= v);
    }

    fn generate_assignment(&mut self, lhs: &Expression, rhs: &Expression)
        ensures
            final(self).program@ == gen_assign(old(self).program@, expr_view(*lhs), expr_view(*rhs)),
    {
        let value = self.generate_expression(rhs);
        match &lhs.node {
            ExpressionKind::Identifier(name) => {
                self.program.add(quad(Operation::Assign, value, Operand::Empty, Operand::Variable(name.clone())));
            },
            ExpressionKind::ArrayAccess(name, ix) => {
                let index = self.generate_expression(ix);
                self.program.add(quad(Operation::ArrayStore, value, index, Operand::Variable(name.clone())));
            },
            _ => {},
        }
    }

    fn generate_input(&mut self, target: &Expression)
        ensures
            final(self).program@ == gen_input(old(self).program@, expr_view(*target)),
    {
        match &target.node {
            ExpressionKind::Identifier(name) => {
                self.program.add(quad(Operation::Input, Operand::Empty, Operand::Empty, Operand::Variable(name.clone())));
            },
            ExpressionKind::ArrayAccess(name, ix) => {
                let index = self.generate_expression(ix);
                let temp = self.program.new_temp();
                let stored = temp.duplicate();
                self.program.add(quad(Operation::Input, Operand::Empty, Operand::Empty, temp));
                self.program.add(quad(Operation::ArrayStore, stored, index, Operand::Variable(name.clone())));
            },
            _ => {},
        }
    }

    fn generate_for(&mut self, v: &Expression, a: &Expression, b: &Expression, c: &Expression, body: &Vec<Statement>)
        ensures
            final(self).program@ == gen_stmt(
                old(self).program@,
                Loc {
                    node: StmtV::For(expr_view(*v), expr_view(*a), expr_view(*b), expr_view(*c), stmts_view(body@)),
                    start: 0,
                    end: 0,
                },
            ),
        decreases body, 1int, 0int,
    {
        let var = match &v.node {
            ExpressionKind::Identifier(name) => name.clone(),
            _ => String::from_str("unknown"),
        };
        let init = self.generate_expression(a);
        self.program.add(quad(Operation::Assign, init, Operand::Empty, Operand::Variable(var.clone())));
        let start = self.program.new_label();
        let end = self.program.new_label();
        self.label_here(start);
        let bound = self.generate_expression(b);
        let temp = self.program.new_temp();
        let test = temp.duplicate();
        self.program.add(quad(Operation::LessThan, Operand::Variable(var.clone()), bound, temp));
        self.program.add(quad(Operation::JumpIfFalse(end), test, Operand::Empty, Operand::Empty));
        self.generate_block(body);
        let step = self.generate_expression(c);
        let next = self.program.new_temp();
        let stored = next.duplicate();
        self.program.add(quad(Operation::Add, Operand::Variable(var.clone()), step, next));
        self.program.add(quad(Operation::Assign, stored, Operand::Empty, Operand::Variable(var.clone())));
        self.program.add(quad(Operation::Jump(start), Operand::Empty, Operand::Empty, Operand::Empty));
        self.label_here(end);
    }

    /// Emits the code of `statement`.
    pub fn generate_statement(&mut self, statement: &Statement)
        ensures
            final(self).program@ == gen_stmt(old(self).program@, stmt_view(*statement)),
        decreases statement, 2int, 0int,
    {
        match &statement.node {
            StatementKind::Assignment(l, r) => self.generate_assignment(l, r),
            StatementKind::IfThen(c, b) => {
                let else_label = self.program.new_label();
                let cond = self.generate_expression(c);
                self.program.add(quad(Operation::JumpIfFalse(else_label), cond, Operand::Empty, Operand::Empty));
                self.generate_block(b);
                self.label_here(else_label);
            },
            StatementKind::IfThenElse(c, b1, b2) => {
                let else_label = self.program.new_label();
                let end_label = self.program.new_label();
                let cond = self.generate_expression(c);
                self.program.add(quad(Operation::JumpIfFalse(else_label), cond, Operand::Empty, Operand::Empty));
                self.generate_block(b1);
                self.program.add(quad(Operation::Jump(end_label), Operand::Empty, Operand::Empty, Operand::Empty));
                self.label_here(else_label);
                self.generate_block(b2);
                self.label_here(end_label);
            },
            StatementKind::DoWhile(b, c) => {
                let start = self.program.new_label();
                self.label_here(start);
                self.generate_block(b);
                let cond = self.generate_expression(c);
                self.program.add(quad(Operation::JumpIfTrue(start), cond, Operand::Empty, Operand::Empty));
            },
            StatementKind::For(v, a, b, c, body) => self.generate_for(v, a, b, c, body),
            StatementKind::Input(t) => self.generate_input(t),
            StatementKind::Output(es) => self.generate_outputs(es),
            StatementKind::Scope(b) => self.generate_block(b),
            StatementKind::Empty => {},
        }
    }

    fn generate_block(&mut self, block: &Vec<Statement>)
        ensures
            final(self).program@ == gen_stmts(old(self).program@, stmts_view(block@)),
        decreases block, 0int, 0int,
    {
        let ghost v = stmts_view(block@);
        let ghost g0 = self.program@;
        proof {
            lemma_stmts_view_index(block@);
        }
        let mut i: usize = 0;
        assert(v.take(0) =~= Seq::<Loc<StmtV>>::empty());
        while i < block.len()
            invariant
                i <= block@.len(),
                v == stmts_view(block@),
                v.len() == block@.len(),
                forall|k: int| 0 <= k < block@.len() ==> #[trigger] v[k] == stmt_view(block@[k]),
                g0 == old(self).program@,
                self.program@ == gen_stmts(g0, v.take(i as int)),
            decreases block@.len() - i,
        {
            assert(v.take(i + 1).drop_last() =~= v.take(i as int));
            assert(v.take(i + 1).last() == stmt_view(block@[i as int]));
            self.generate_statement(&block[i]);
            i = i + 1;
        }
        assert(v.take(v.len() as int) =~= v);
    }
}

impl QuadrupleGenerator {
    fn generate_stores(&mut self, name: &String, exprs: &Vec<Expression>)
        ensures
            final(self).program@ == gen_stores(old(self).program@, name@, exprs_view(exprs@)),
    {
        let ghost v = exprs_view(exprs@);
        let ghost g0 = self.program@;
        let mut i: usize = 0;
        assert(v.take(0) =~= Seq::<Loc<ExprV>>::empty());
        while i < exprs.len()
            invariant
                i <= exprs@.len(),
                v == exprs_view(exprs@),
                g0 == old(self).program@,
                self.program@ == gen_stores(g0, name@, v.take(i as int)),
            decreases exprs@.len() - i,
        {
            assert(v.take(i + 1).drop_last() =~= v.take(i as int));
            assert(v.take(i + 1).last() == expr_view(exprs@[i as int]));
            let value = self.generate_expression(&exprs[i]);
            let index: i32 = #[verifier::truncate] (i as i32);
            self.program.add(quad(Operation::ArrayStore, value, Operand::IntLiteral(index), Operand::Variable(name.clone())));
            i = i + 1;
        }
        assert(v.take(v.len() as int) =~= v);
    }

    /// Emits the code of `declaration`.
    pub fn generate_declaration(&mut self, declaration: &Declaration)
        ensures
            final(self).program@ == gen_decl(old(self).program@, decl_view(*declaration)),
    {
        let ghost g0 = self.program@;
        match &declaration.node {
            DeclarationKind::Variable(names, typ) => {
                let ghost ns = names_view(names@);
                let mut i: usize = 0;
                assert(ns.take(0) =~= Seq::<Seq<char>>::empty());
                while i < names.len()
                    invariant
                        i <= names@.len(),
                        ns == names_view(names@),
                        self.program@ == gen_vars(g0, ns.take(i as int), *typ),
                    decreases names@.len() - i,
                {
                    assert(ns.take(i + 1).drop_last() =~= ns.take(i as int));
                    assert(ns.take(i + 1).last() == names@[i as int]@);
                    self.program.add(quad(
                        Operation::DeclareVariable(*typ),
                        Operand::Empty,
                        Operand::Empty,
                        Operand::Variable(names[i].clone()),
                    ));
                    i = i + 1;
                }
                assert(ns.take(ns.len() as int) =~= ns);
            },
            DeclarationKind::Array(names, typ, size) => {
                let ghost ns = names_view(names@);
                let n: usize = #[verifier::truncate] (*size as usize);
                let mut i: usize = 0;
                assert(ns.take(0) =~= Seq::<Seq<char>>::empty());
                while i < names.len()
                    invariant
                        i <= names@.len(),
                        ns == names_view(names@),
                        n == array_size(*size),
                        self.program@ == gen_arrays(g0, ns.take(i as int), *typ, *size),
                    decreases names@.len() - i,
                {
                    assert(ns.take(i + 1).drop_last() =~= ns.take(i as int));
                    assert(ns.take(i + 1).last() == names@[i as int]@);
                    self.program.add(quad(
                        Operation::DeclareArray(*typ, n),
                        Operand::Empty,
                        Operand::Empty,
                        Operand::ArrayVariable(names[i].clone(), n),
                    ));
                    i = i + 1;
                }
                assert(ns.take(ns.len() as int) =~= ns);
            },
            DeclarationKind::VariableWithInit(names, typ, e) => {
                let ghost ns = names_view(names@);
                let mut i: usize = 0;
                assert(ns.take(0) =~= Seq::<Seq<char>>::empty());
                while i < names.len()
                    invariant
                        i <= names@.len(),
                        ns == names_view(names@),
                        self.program@ == gen_var_inits(g0, ns.take(i as int), *typ, expr_view(*e)),
                    decreases names@.len() - i,
                {
                    assert(ns.take(i + 1).drop_last() =~= ns.take(i as int));
                    assert(ns.take(i + 1).last() == names@[i as int]@);
                    let value = self.generate_expression(e);
                    self.program.add(quad(
                        Operation::DeclareVariable(*typ),
                        value,
                        Operand::Empty,
                        Operand::Variable(names[i].clone()),
                    ));
                    i = i + 1;
                }
                assert(ns.take(ns.len() as int) =~= ns);
            },
            DeclarationKind::ArrayWithInit(names, typ, size, exprs) => {
                let ghost ns = names_view(names@);
                let n: usize = #[verifier::truncate] (*size as usize);
                let mut i: usize = 0;
                assert(ns.take(0) =~= Seq::<Seq<char>>::empty());
                while i < names.len()
                    invariant
                        i <= names@.len(),
                        ns == names_view(names@),
                        n == array_size(*size),
                        self.program@ == gen_array_inits(g0, ns.take(i as int), *typ, *size, exprs_view(exprs@)),
                    decreases names@.len() - i,
                {
                    assert(ns.take(i + 1).drop_last() =~= ns.take(i as int));
                    assert(ns.take(i + 1).last() == names@[i as int]@);
                    self.program.add(quad(
                        Operation::DeclareArray(*typ, n),
                        Operand::Empty,
                        Operand::Empty,
                        Operand::ArrayVariable(names[i].clone(), n),
                    ));
                    self.generate_stores(&names[i], exprs);
                    i = i + 1;
                }
                assert(ns.take(ns.len() as int) =~= ns);
            },
            DeclarationKind::Constant(name, typ, value) => {
                match &value.node {
                    LiteralKind::String(_) => {},
                    _ => {
                        self.program.add(quad(
                            Operation::DeclareVariable(*typ),
                            literal_operand(&value.node),
                            Operand::Empty,
                            Operand::Variable(name.clone()),
                        ));
                    },
                }
                self.program.add(quad(
                    Operation::Assign,
                    literal_operand(&value.node),
                    Operand::Empty,
                    Operand::Variable(name.clone()),
                ));
            },
        }
    }

    /// Translates `ast`: its declarations, then its statements, after what
    /// the program already holds; gives a copy of the program.
    pub fn generate_quadruples(&mut self, ast: &Program) -> (r: Option<QuadrupleProgram>)
        ensures
            final(self).program@ == gen_program(old(self).program@, ast@),
            r matches Some(q) && q@ == final(self).program@,
    {
        let ghost g0 = self.program@;
        let ghost ds = ast@.declarations;
        let mut i: usize = 0;
        assert(ds.take(0) =~= Seq::<Loc<DeclV>>::empty());
        while i < ast.declarations.len()
            invariant
                i <= ast.declarations@.len(),
                ds == ast@.declarations,
                ds == decls_view(ast.declarations@),
                self.program@ == gen_decls(g0, ds.take(i as int)),
            decreases ast.declarations@.len() - i,
        {
            assert(ds.take(i + 1).drop_last() =~= ds.take(i as int));
            assert(ds.take(i + 1).last() == decl_view(ast.declarations@[i as int]));
            self.generate_declaration(&ast.declarations[i]);
            i = i + 1;
        }
        assert(ds.take(ds.len() as int) =~= ds);
        self.generate_block(&ast.statements);
        Some(self.program.duplicate())
    }
}

} // verus!

verus! {

/// The quadruples of `a` begin those of `b`.
pub open spec fn appends(a: GState, b: GState) -> bool {
    a.quads.len() <= b.quads.len() && b.quads.subrange(0, a.quads.len() as int) == a.quads
}

proof fn lemma_appends_refl(a: GState)
    ensures
        appends(a, a),
{
    assert(a.quads.subrange(0, a.quads.len() as int) =~= a.quads);
}

proof fn lemma_appends_trans(a: GState, b: GState, c: GState)
    requires
        appends(a, b),
        appends(b, c),
    ensures
        appends(a, c),
{
    assert(c.quads.subrange(0, a.quads.len() as int) =~= c.quads.subrange(0, b.quads.len() as int).subrange(
        0,
        a.quads.len() as int,
    ));
}

proof fn lemma_emit_appends(g: GState, op: OperationV, x: OperandV, y: OperandV, r: OperandV)
    ensures
        appends(g, emit(g, op, x, y, r)),
{
    let q = QuadV { operation: op, operand1: x, operand2: y, result: r };
    assert(g.quads.push(q).subrange(0, g.quads.len() as int) =~= g.quads);
}

proof fn lemma_fresh_appends(g: GState)
    ensures
        appends(g, fresh_temp(g).0),
        appends(g, fresh_label(g).0),
{
    lemma_appends_refl(g);
}

/// Translating an expression only appends code.
pub proof fn lemma_gen_expr_appends(g: GState, e: Loc<ExprV>)
    ensures
        appends(g, gen_expr(g, e).0),
    decreases e,
{
    lemma_appends_refl(g);
    match e.node {
        ExprV::Access(n, ix) => {
            let a = gen_expr(g, *ix);
            lemma_gen_expr_appends(g, *ix);
            let t = fresh_temp(a.0);
            lemma_fresh_appends(a.0);
            lemma_emit_appends(t.0, OperationV::ArrayLoad, OperandV::Variable(n), a.1, t.1);
            lemma_appends_trans(g, a.0, t.0);
            lemma_appends_trans(g, t.0, gen_expr(g, e).0);
        },
        ExprV::Binary(l, op, r) => {
            let a = gen_expr(g, *l);
            lemma_gen_expr_appends(g, *l);
            let b = gen_expr(a.0, *r);
            lemma_gen_expr_appends(a.0, *r);
            let t = fresh_temp(b.0);
            lemma_fresh_appends(b.0);
            lemma_emit_appends(t.0, operation_of(op), a.1, b.1, t.1);
            lemma_appends_trans(g, a.0, b.0);
            lemma_appends_trans(g, b.0, t.0);
            lemma_appends_trans(g, t.0, gen_expr(g, e).0);
        },
        ExprV::Unary(_, x) => {
            let a = gen_expr(g, *x);
            lemma_gen_expr_appends(g, *x);
            let t = fresh_temp(a.0);
            lemma_fresh_appends(a.0);
            lemma_emit_appends(t.0, OperationV::Not, a.1, OperandV::Empty, t.1);
            lemma_appends_trans(g, a.0, t.0);
            lemma_appends_trans(g, t.0, gen_expr(g, e).0);
        },
        _ => {},
    }
}

proof fn lemma_gen_outputs_appends(g: GState, es: Seq<Loc<ExprV>>)
    ensures
        appends(g, gen_outputs(g, es)),
    decreases es.len(),
{
    if es.len() == 0 {
        lemma_appends_refl(g);
    } else {
        let before = gen_outputs(g, es.drop_last());
        lemma_gen_outputs_appends(g, es.drop_last());
        let r = gen_expr(before, es.last());
        lemma_gen_expr_appends(before, es.last());
        lemma_emit_appends(r.0, OperationV::Output, r.1, empty_op(), empty_op());
        lemma_appends_trans(g, before, r.0);
        lemma_appends_trans(g, r.0, gen_outputs(g, es));
    }
}

/// Translating a statement only appends code.
pub proof fn lemma_gen_stmt_appends(g: GState, s: Loc<StmtV>)
    ensures
        appends(g, gen_stmt(g, s)),
    decreases s, 0int,
{
    match s.node {
        StmtV::Assign(l, r) => {
            let a = gen_expr(g, r);
            lemma_gen_expr_appends(g, r);
            match l.node {
                ExprV::Ident(n) => {
                    lemma_emit_appends(a.0, OperationV::Assign, a.1, empty_op(), OperandV::Variable(n));
                    lemma_appends_trans(g, a.0, gen_stmt(g, s));
                },
                ExprV::Access(n, ix) => {
                    let i = gen_expr(a.0, *ix);
                    lemma_gen_expr_appends(a.0, *ix);
                    lemma_emit_appends(i.0, OperationV::ArrayStore, a.1, i.1, OperandV::Variable(n));
                    lemma_appends_trans(g, a.0, i.0);
                    lemma_appends_trans(g, i.0, gen_stmt(g, s));
                },
                _ => {},
            }
        },
        StmtV::IfThen(c, b) => {
            let (g1, lab) = fresh_label(g);
            lemma_fresh_appends(g);
            let c1 = gen_expr(g1, c);
            lemma_gen_expr_appends(g1, c);
            let g2 = emit(c1.0, OperationV::JumpIfFalse(lab), c1.1, empty_op(), empty_op());
            lemma_emit_appends(c1.0, OperationV::JumpIfFalse(lab), c1.1, empty_op(), empty_op());
            let g3 = gen_stmts(g2, b);
            lemma_gen_stmts_appends(g2, b);
            lemma_emit_appends(g3, OperationV::Label(lab), empty_op(), empty_op(), empty_op());
            lemma_appends_trans(g, g1, c1.0);
            lemma_appends_trans(g, c1.0, g2);
            lemma_appends_trans(g, g2, g3);
            lemma_appends_trans(g, g3, gen_stmt(g, s));
        },
        StmtV::IfThenElse(c, b1, b2) => {
            let (g1, else_lab) = fresh_label(g);
            lemma_fresh_appends(g);
            let (g2, end_lab) = fresh_label(g1);
            lemma_fresh_appends(g1);
            let c1 = gen_expr(g2, c);
            lemma_gen_expr_appends(g2, c);
            let g3 = emit(c1.0, OperationV::JumpIfFalse(else_lab), c1.1, empty_op(), empty_op());
            lemma_emit_appends(c1.0, OperationV::JumpIfFalse(else_lab), c1.1, empty_op(), empty_op());
            let t = gen_stmts(g3, b1);
            lemma_gen_stmts_appends(g3, b1);
            let g4 = emit(t, OperationV::Jump(end_lab), empty_op(), empty_op(), empty_op());
            lemma_emit_appends(t, OperationV::Jump(end_lab), empty_op(), empty_op(), empty_op());
            let g5 = label_quad(g4, else_lab);
            lemma_emit_appends(g4, OperationV::Label(else_lab), empty_op(), empty_op(), empty_op());
            let g6 = gen_stmts(g5, b2);
            lemma_gen_stmts_appends(g5, b2);
            lemma_emit_appends(g6, OperationV::Label(end_lab), empty_op(), empty_op(), empty_op());
            lemma_appends_trans(g, g1, g2);
            lemma_appends_trans(g, g2, c1.0);
            lemma_appends_trans(g, c1.0, g3);
            lemma_appends_trans(g, g3, t);
            lemma_appends_trans(g, t, g4);
            lemma_appends_trans(g, g4, g5);
            lemma_appends_trans(g, g5, g6);
            lemma_appends_trans(g, g6, gen_stmt(g, s));
        },
        StmtV::DoWhile(b, c) => {
            let (g1, lab) = fresh_label(g);
            lemma_fresh_appends(g);
            let g2 = label_quad(g1, lab);
            lemma_emit_appends(g1, OperationV::Label(lab), empty_op(), empty_op(), empty_op());
            let g3 = gen_stmts(g2, b);
            lemma_gen_stmts_appends(g2, b);
            let c1 = gen_expr(g3, c);
            lemma_gen_expr_appends(g3, c);
            lemma_emit_appends(c1.0, OperationV::JumpIfTrue(lab), c1.1, empty_op(), empty_op());
            lemma_appends_trans(g, g1, g2);
            lemma_appends_trans(g, g2, g3);
            lemma_appends_trans(g, g3, c1.0);
            lemma_appends_trans(g, c1.0, gen_stmt(g, s));
        },
        StmtV::For(v, a, b, c, body) => {
            let var = OperandV::Variable(loop_var(v));
            let i = gen_expr(g, a);
            lemma_gen_expr_appends(g, a);
            let g1 = emit(i.0, OperationV::Assign, i.1, empty_op(), var);
            lemma_emit_appends(i.0, OperationV::Assign, i.1, empty_op(), var);
            let (g2, start) = fresh_label(g1);
            lemma_fresh_appends(g1);
            let (g3, end) = fresh_label(g2);
            lemma_fresh_appends(g2);
            let g4 = label_quad(g3, start);
            lemma_emit_appends(g3, OperationV::Label(start), empty_op(), empty_op(), empty_op());
            let e = gen_expr(g4, b);
            lemma_gen_expr_appends(g4, b);
            let t = fresh_temp(e.0);
            lemma_fresh_appends(e.0);
            let g5 = emit(t.0, OperationV::LessThan, var, e.1, t.1);
            lemma_emit_appends(t.0, OperationV::LessThan, var, e.1, t.1);
            let g6 = emit(g5, OperationV::JumpIfFalse(end), t.1, empty_op(), empty_op());
            lemma_emit_appends(g5, OperationV::JumpIfFalse(end), t.1, empty_op(), empty_op());
            let g7 = gen_stmts(g6, body);
            lemma_gen_stmts_appends(g6, body);
            let st = gen_expr(g7, c);
            lemma_gen_expr_appends(g7, c);
            let t2 = fresh_temp(st.0);
            lemma_fresh_appends(st.0);
            let g8 = emit(t2.0, OperationV::Add, var, st.1, t2.1);
            lemma_emit_appends(t2.0, OperationV::Add, var, st.1, t2.1);
            let g9 = emit(g8, OperationV::Assign, t2.1, empty_op(), var);
            lemma_emit_appends(g8, OperationV::Assign, t2.1, empty_op(), var);
            let g10 = emit(g9, OperationV::Jump(start), empty_op(), empty_op(), empty_op());
            lemma_emit_appends(g9, OperationV::Jump(start), empty_op(), empty_op(), empty_op());
            lemma_emit_appends(g10, OperationV::Label(end), empty_op(), empty_op(), empty_op());
            lemma_appends_trans(g, i.0, g1);
            lemma_appends_trans(g, g1, g2);
            lemma_appends_trans(g, g2, g3);
            lemma_appends_trans(g, g3, g4);
            lemma_appends_trans(g, g4, e.0);
            lemma_appends_trans(g, e.0, t.0);
            lemma_appends_trans(g, t.0, g5);
            lemma_appends_trans(g, g5, g6);
            lemma_appends_trans(g, g6, g7);
            lemma_appends_trans(g, g7, st.0);
            lemma_appends_trans(g, st.0, t2.0);
            lemma_appends_trans(g, t2.0, g8);
            lemma_appends_trans(g, g8, g9);
            lemma_appends_trans(g, g9, g10);
            lemma_appends_trans(g, g10, gen_stmt(g, s));
        },
        StmtV::Input(t) => {
            lemma_appends_refl(g);
            match t.node {
                ExprV::Ident(n) => {
                    lemma_emit_appends(g, OperationV::Input, empty_op(), empty_op(), OperandV::Variable(n));
                },
                ExprV::Access(n, ix) => {
                    let i = gen_expr(g, *ix);
                    lemma_gen_expr_appends(g, *ix);
                    let tt = fresh_temp(i.0);
                    lemma_fresh_appends(i.0);
                    let g1 = emit(tt.0, OperationV::Input, empty_op(), empty_op(), tt.1);
                    lemma_emit_appends(tt.0, OperationV::Input, empty_op(), empty_op(), tt.1);
                    lemma_emit_appends(g1, OperationV::ArrayStore, tt.1, i.1, OperandV::Variable(n));
                    lemma_appends_trans(g, i.0, tt.0);
                    lemma_appends_trans(g, tt.0, g1);
                    lemma_appends_trans(g, g1, gen_stmt(g, s));
                },
                _ => {},
            }
        },
        StmtV::Output(es) => lemma_gen_outputs_appends(g, es),
        StmtV::Scope(b) => lemma_gen_stmts_appends(g, b),
        StmtV::Empty => lemma_appends_refl(g),
    }
}

/// Translating statements only appends code.
pub proof fn lemma_gen_stmts_appends(g: GState, ss: Seq<Loc<StmtV>>)
    ensures
        appends(g, gen_stmts(g, ss)),
    decreases ss, 1int,
{
    if ss.len() == 0 {
        lemma_appends_refl(g);
    } else {
        let before = gen_stmts(g, ss.drop_last());
        lemma_gen_stmts_appends(g, ss.drop_last());
        lemma_gen_stmt_appends(before, ss.last());
        lemma_appends_trans(g, before, gen_stmt(before, ss.last()));
    }
}

} // verus!

verus! {

proof fn lemma_gen_vars_appends(g: GState, ns: Seq<Seq<char>>, t: Type)
    ensures
        appends(g, gen_vars(g, ns, t)),
    decreases ns.len(),
{
    if ns.len() == 0 {
        lemma_appends_refl(g);
    } else {
        let before = gen_vars(g, ns.drop_last(), t);
        lemma_gen_vars_appends(g, ns.drop_last(), t);
        lemma_emit_appends(before, OperationV::DeclareVariable(t), empty_op(), empty_op(), OperandV::Variable(ns.last()));
        lemma_appends_trans(g, before, gen_vars(g, ns, t));
    }
}

proof fn lemma_gen_arrays_appends(g: GState, ns: Seq<Seq<char>>, t: Type, size: i32)
    ensures
        appends(g, gen_arrays(g, ns, t, size)),
    decreases ns.len(),
{
    if ns.len() == 0 {
        lemma_appends_refl(g);
    } else {
        let before = gen_arrays(g, ns.drop_last(), t, size);
        lemma_gen_arrays_appends(g, ns.drop_last(), t, size);
        lemma_emit_appends(
            before,
            OperationV::DeclareArray(t, array_size(size)),
            empty_op(),
            empty_op(),
            OperandV::ArrayVariable(ns.last(), array_size(size)),
        );
        lemma_appends_trans(g, before, gen_arrays(g, ns, t, size));
    }
}

proof fn lemma_gen_var_inits_appends(g: GState, ns: Seq<Seq<char>>, t: Type, e: Loc<ExprV>)
    ensures
        appends(g, gen_var_inits(g, ns, t, e)),
    decreases ns.len(),
{
    if ns.len() == 0 {
        lemma_appends_refl(g);
    } else {
        let before = gen_var_inits(g, ns.drop_last(), t, e);
        lemma_gen_var_inits_appends(g, ns.drop_last(), t, e);
        let r = gen_expr(before, e);
        lemma_gen_expr_appends(before, e);
        lemma_emit_appends(r.0, OperationV::DeclareVariable(t), r.1, empty_op(), OperandV::Variable(ns.last()));
        lemma_appends_trans(g, before, r.0);
        lemma_appends_trans(g, r.0, gen_var_inits(g, ns, t, e));
    }
}

proof fn lemma_gen_stores_appends(g: GState, n: Seq<char>, es: Seq<Loc<ExprV>>)
    ensures
        appends(g, gen_stores(g, n, es)),
    decreases es.len(),
{
    if es.len() == 0 {
        lemma_appends_refl(g);
    } else {
        let before = gen_stores(g, n, es.drop_last());
        lemma_gen_stores_appends(g, n, es.drop_last());
        let r = gen_expr(before, es.last());
        lemma_gen_expr_appends(before, es.last());
        lemma_emit_appends(
            r.0,
            OperationV::ArrayStore,
            r.1,
            OperandV::IntLiteral((es.len() - 1) as i32),
            OperandV::Variable(n),
        );
        lemma_appends_trans(g, before, r.0);
        lemma_appends_trans(g, r.0, gen_stores(g, n, es));
    }
}

proof fn lemma_gen_array_inits_appends(g: GState, ns: Seq<Seq<char>>, t: Type, size: i32, es: Seq<Loc<ExprV>>)
    ensures
        appends(g, gen_array_inits(g, ns, t, size, es)),
    decreases ns.len(),
{
    if ns.len() == 0 {
        lemma_appends_refl(g);
    } else {
        let n = ns.last();
        let before = gen_array_inits(g, ns.drop_last(), t, size, es);
        lemma_gen_array_inits_appends(g, ns.drop_last(), t, size, es);
        let g1 = emit(
            before,
            OperationV::DeclareArray(t, array_size(size)),
            empty_op(),
            empty_op(),
            OperandV::ArrayVariable(n, array_size(size)),
        );
        lemma_emit_appends(
            before,
            OperationV::DeclareArray(t, array_size(size)),
            empty_op(),
            empty_op(),
            OperandV::ArrayVariable(n, array_size(size)),
        );
        lemma_gen_stores_appends(g1, n, es);
        lemma_appends_trans(g, before, g1);
        lemma_appends_trans(g, g1, gen_array_inits(g, ns, t, size, es));
    }
}

proof fn lemma_gen_decl_appends(g: GState, d: Loc<DeclV>)
    ensures
        appends(g, gen_decl(g, d)),
{
    match d.node {
        DeclV::Variable(ns, t) => lemma_gen_vars_appends(g, ns, t),
        DeclV::Array(ns, t, size) => lemma_gen_arrays_appends(g, ns, t, size),
        DeclV::VariableWithInit(ns, t, e) => lemma_gen_var_inits_appends(g, ns, t, e),
        DeclV::ArrayWithInit(ns, t, size, es) => lemma_gen_array_inits_appends(g, ns, t, size, es),
        DeclV::Constant(n, t, l) => {
            let g1 = match l.node {
                LitV::Str(_) => g,
                _ => emit(g, OperationV::DeclareVariable(t), lit_operand(l.node), empty_op(), OperandV::Variable(n)),
            };
            lemma_appends_refl(g);
            lemma_emit_appends(g, OperationV::DeclareVariable(t), lit_operand(l.node), empty_op(), OperandV::Variable(n));
            lemma_emit_appends(g1, OperationV::Assign, lit_operand(l.node), empty_op(), OperandV::Variable(n));
            lemma_appends_trans(g, g1, gen_decl(g, d));
        },
    }
}

proof fn lemma_gen_decls_appends(g: GState, ds: Seq<Loc<DeclV>>)
    ensures
        appends(g, gen_decls(g, ds)),
    decreases ds.len(),
{
    if ds.len() == 0 {
        lemma_appends_refl(g);
    } else {
        let before = gen_decls(g, ds.drop_last());
        lemma_gen_decls_appends(g, ds.drop_last());
        lemma_gen_decl_appends(before, ds.last());
        lemma_appends_trans(g, before, gen_decl(before, ds.last()));
    }
}

/// Translating a program only appends code: the quadruples emitted before
/// are kept, unchanged and in order.
pub proof fn lemma_gen_program_appends(g: GState, p: ProgramV)
    ensures
        appends(g, gen_program(g, p)),
{
    let d = gen_decls(g, p.declarations);
    lemma_gen_decls_appends(g, p.declarations);
    lemma_gen_stmts_appends(d, p.statements);
    lemma_appends_trans(g, d, gen_program(g, p));
}


/// The quadruples of `b` after those of `a`.
pub open spec fn added(a: GState, b: GState) -> Seq<QuadV> {
    b.quads.skip(a.quads.len() as int)
}

/// A quadruple of control flow: `op` with empty operands.
pub open spec fn control_quad(op: OperationV) -> QuadV {
    QuadV { operation: op, operand1: empty_op(), operand2: empty_op(), result: empty_op() }
}

proof fn lemma_appends_split(a: GState, b: GState)
    requires
        appends(a, b),
    ensures
        b.quads == a.quads + added(a, b),
{
    assert(b.quads =~= a.quads + added(a, b));
}

/// An `if`-`else` takes two different fresh labels `e` and `d`, and its code
/// is: the condition's code, a jump to `e` when the condition is false, the
/// `then` block, a jump to `d`, label `e`, the `else` block and label `d`.
/// So when the condition holds the `else` block is jumped over, and when it
/// fails the `then` block is: exactly one block runs.
pub proof fn lemma_if_else_runs_one_branch(
    g: GState,
    s: Loc<StmtV>,
    c: Loc<ExprV>,
    b1: Seq<Loc<StmtV>>,
    b2: Seq<Loc<StmtV>>,
)
    requires
        s.node == StmtV::IfThenElse(c, b1, b2),
    ensures
        ({
            let e = g.next_label;
            let d = g.next_label.wrapping_add(1);
            let g2 = GState { next_label: d.wrapping_add(1), ..g };
            let c1 = gen_expr(g2, c);
            let g3 = emit(c1.0, OperationV::JumpIfFalse(e), c1.1, empty_op(), empty_op());
            let t = gen_stmts(g3, b1);
            let g5 = label_quad(emit(t, OperationV::Jump(d), empty_op(), empty_op(), empty_op()), e);
            let g6 = gen_stmts(g5, b2);
            &&& e != d
            &&& gen_stmt(g, s).quads == g.quads + added(g2, c1.0)
                + seq![QuadV { operation: OperationV::JumpIfFalse(e), operand1: c1.1, operand2: empty_op(), result: empty_op() }]
                + added(g3, t) + seq![control_quad(OperationV::Jump(d)), control_quad(OperationV::Label(e))]
                + added(g5, g6) + seq![control_quad(OperationV::Label(d))]
        }),
{
    let e = g.next_label;
    let d = g.next_label.wrapping_add(1);
    let g2 = GState { next_label: d.wrapping_add(1), ..g };
    let c1 = gen_expr(g2, c);
    let g3 = emit(c1.0, OperationV::JumpIfFalse(e), c1.1, empty_op(), empty_op());
    let t = gen_stmts(g3, b1);
    let g4 = emit(t, OperationV::Jump(d), empty_op(), empty_op(), empty_op());
    let g5 = label_quad(g4, e);
    let g6 = gen_stmts(g5, b2);
    lemma_gen_expr_appends(g2, c);
    lemma_appends_split(g2, c1.0);
    lemma_gen_stmts_appends(g3, b1);
    lemma_appends_split(g3, t);
    lemma_gen_stmts_appends(g5, b2);
    lemma_appends_split(g5, g6);
    assert(gen_stmt(g, s).quads =~= g.quads + added(g2, c1.0)
        + seq![QuadV { operation: OperationV::JumpIfFalse(e), operand1: c1.1, operand2: empty_op(), result: empty_op() }]
        + added(g3, t) + seq![control_quad(OperationV::Jump(d)), control_quad(OperationV::Label(e))]
        + added(g5, g6) + seq![control_quad(OperationV::Label(d))]);
}


/// A `do`-`while` loop opens with a fresh label `l`, then runs its block and
/// computes its condition, and ends with a jump back to `l` taken when the
/// condition is true: the block runs again exactly while the condition holds.
pub proof fn lemma_do_while_loops_while_true(g: GState, s: Loc<StmtV>, b: Seq<Loc<StmtV>>, c: Loc<ExprV>)
    requires
        s.node == StmtV::DoWhile(b, c),
    ensures
        ({
            let l = g.next_label;
            let g2 = label_quad(GState { next_label: l.wrapping_add(1), ..g }, l);
            let body = gen_stmts(g2, b);
            let c1 = gen_expr(body, c);
            gen_stmt(g, s).quads == g.quads + seq![control_quad(OperationV::Label(l))] + added(g2, body)
                + added(body, c1.0)
                + seq![QuadV { operation: OperationV::JumpIfTrue(l), operand1: c1.1, operand2: empty_op(), result: empty_op() }]
        }),
{
    let l = g.next_label;
    let g2 = label_quad(GState { next_label: l.wrapping_add(1), ..g }, l);
    let body = gen_stmts(g2, b);
    let c1 = gen_expr(body, c);
    lemma_gen_stmts_appends(g2, b);
    lemma_appends_split(g2, body);
    lemma_gen_expr_appends(body, c);
    lemma_appends_split(body, c1.0);
    assert(gen_stmt(g, s).quads =~= g.quads + seq![control_quad(OperationV::Label(l))] + added(g2, body)
        + added(body, c1.0)
        + seq![QuadV { operation: OperationV::JumpIfTrue(l), operand1: c1.1, operand2: empty_op(), result: empty_op() }]);
}

/// A `for` loop assigns its start value to the loop variable, then opens
/// with a label `l`; each round tests `var < end` and jumps to a different
/// label `x` past the loop when that test is false, runs its block, adds the
/// step to the variable and jumps back to `l`.
pub proof fn lemma_for_loop_counts_up(
    g: GState,
    s: Loc<StmtV>,
    v: Loc<ExprV>,
    a: Loc<ExprV>,
    b: Loc<ExprV>,
    c: Loc<ExprV>,
    body: Seq<Loc<StmtV>>,
)
    requires
        s.node == StmtV::For(v, a, b, c, body),
    ensures
        ({
            let var = OperandV::Variable(loop_var(v));
            let i = gen_expr(g, a);
            let l = i.0.next_label;
            let x = l.wrapping_add(1);
            let g3 = GState { next_label: x.wrapping_add(1), ..i.0 };
            let g3l = label_quad(emit(g3, OperationV::Assign, i.1, empty_op(), var), l);
            let e = gen_expr(g3l, b);
            let t = OperandV::TempVariable(temp_name(e.0.next_temp));
            let g6 = emit(
                emit(GState { next_temp: e.0.next_temp.wrapping_add(1), ..e.0 }, OperationV::LessThan, var, e.1, t),
                OperationV::JumpIfFalse(x),
                t,
                empty_op(),
                empty_op(),
            );
            let bd = gen_stmts(g6, body);
            let st = gen_expr(bd, c);
            let t2 = OperandV::TempVariable(temp_name(st.0.next_temp));
            &&& l != x
            &&& gen_stmt(g, s).quads == g.quads + added(g, i.0)
                + seq![
                    QuadV { operation: OperationV::Assign, operand1: i.1, operand2: empty_op(), result: var },
                    control_quad(OperationV::Label(l)),
                ]
                + added(g3l, e.0)
                + seq![
                    QuadV { operation: OperationV::LessThan, operand1: var, operand2: e.1, result: t },
                    QuadV { operation: OperationV::JumpIfFalse(x), operand1: t, operand2: empty_op(), result: empty_op() },
                ]
                + added(g6, bd) + added(bd, st.0)
                + seq![
                    QuadV { operation: OperationV::Add, operand1: var, operand2: st.1, result: t2 },
                    QuadV { operation: OperationV::Assign, operand1: t2, operand2: empty_op(), result: var },
                    control_quad(OperationV::Jump(l)),
                    control_quad(OperationV::Label(x)),
                ]
        }),
{
    let var = OperandV::Variable(loop_var(v));
    let i = gen_expr(g, a);
    let l = i.0.next_label;
    let x = l.wrapping_add(1);
    let g3 = GState { next_label: x.wrapping_add(1), ..i.0 };
    let g3l = label_quad(emit(g3, OperationV::Assign, i.1, empty_op(), var), l);
    let e = gen_expr(g3l, b);
    let t = OperandV::TempVariable(temp_name(e.0.next_temp));
    let g6 = emit(
        emit(GState { next_temp: e.0.next_temp.wrapping_add(1), ..e.0 }, OperationV::LessThan, var, e.1, t),
        OperationV::JumpIfFalse(x),
        t,
        empty_op(),
        empty_op(),
    );
    let bd = gen_stmts(g6, body);
    let st = gen_expr(bd, c);
    let t2 = OperandV::TempVariable(temp_name(st.0.next_temp));
    lemma_gen_expr_appends(g, a);
    lemma_appends_split(g, i.0);
    lemma_gen_expr_appends(g3l, b);
    lemma_appends_split(g3l, e.0);
    lemma_gen_stmts_appends(g6, body);
    lemma_appends_split(g6, bd);
    lemma_gen_expr_appends(bd, c);
    lemma_appends_split(bd, st.0);
    assert(gen_stmt(g, s).quads =~= g.quads + added(g, i.0)
        + seq![
            QuadV { operation: OperationV::Assign, operand1: i.1, operand2: empty_op(), result: var },
            control_quad(OperationV::Label(l)),
        ]
        + added(g3l, e.0)
        + seq![
            QuadV { operation: OperationV::LessThan, operand1: var, operand2: e.1, result: t },
            QuadV { operation: OperationV::JumpIfFalse(x), operand1: t, operand2: empty_op(), result: empty_op() },
        ]
        + added(g6, bd) + added(bd, st.0)
        + seq![
            QuadV { operation: OperationV::Add, operand1: var, operand2: st.1, result: t2 },
            QuadV { operation: OperationV::Assign, operand1: t2, operand2: empty_op(), result: var },
            control_quad(OperationV::Jump(l)),
            control_quad(OperationV::Label(x)),
        ]);
}

/// An assignment computes its value first and then stores it: into the
/// variable itself for a name; for an array element, after computing the
/// index, into the array at that index.
pub proof fn lemma_assignment_stores_value(g: GState, s: Loc<StmtV>, l: Loc<ExprV>, r: Loc<ExprV>)
    requires
        s.node == StmtV::Assign(l, r),
        l.node is Ident || l.node is Access,
    ensures
        ({
            let v = gen_expr(g, r);
            &&& l.node matches ExprV::Ident(n) ==> gen_stmt(g, s).quads == g.quads + added(g, v.0) + seq![
                QuadV { operation: OperationV::Assign, operand1: v.1, operand2: empty_op(), result: OperandV::Variable(n) },
            ]
            &&& l.node matches ExprV::Access(n, ix) ==> {
                let i = gen_expr(v.0, *ix);
                gen_stmt(g, s).quads == g.quads + added(g, v.0) + added(v.0, i.0) + seq![
                    QuadV { operation: OperationV::ArrayStore, operand1: v.1, operand2: i.1, result: OperandV::Variable(n) },
                ]
            }
        }),
{
    let v = gen_expr(g, r);
    lemma_gen_expr_appends(g, r);
    lemma_appends_split(g, v.0);
    match l.node {
        ExprV::Ident(n) => {
            assert(gen_stmt(g, s).quads =~= g.quads + added(g, v.0) + seq![
                QuadV { operation: OperationV::Assign, operand1: v.1, operand2: empty_op(), result: OperandV::Variable(n) },
            ]);
        },
        ExprV::Access(n, ix) => {
            let i = gen_expr(v.0, *ix);
            lemma_gen_expr_appends(v.0, *ix);
            lemma_appends_split(v.0, i.0);
            assert(gen_stmt(g, s).quads =~= g.quads + added(g, v.0) + added(v.0, i.0) + seq![
                QuadV { operation: OperationV::ArrayStore, operand1: v.1, operand2: i.1, result: OperandV::Variable(n) },
            ]);
        },
        _ => {},
    }
}

/// An `if` without `else` computes its condition, jumps to a fresh label `l`
/// when the condition is false, runs its block, then places `l`: the block
/// runs exactly when the condition holds.
pub proof fn lemma_if_skips_when_false(g: GState, s: Loc<StmtV>, c: Loc<ExprV>, b: Seq<Loc<StmtV>>)
    requires
        s.node == StmtV::IfThen(c, b),
    ensures
        ({
            let l = g.next_label;
            let g1 = GState { next_label: l.wrapping_add(1), ..g };
            let c1 = gen_expr(g1, c);
            let g2 = emit(c1.0, OperationV::JumpIfFalse(l), c1.1, empty_op(), empty_op());
            let body = gen_stmts(g2, b);
            gen_stmt(g, s).quads == g.quads + added(g1, c1.0)
                + seq![QuadV { operation: OperationV::JumpIfFalse(l), operand1: c1.1, operand2: empty_op(), result: empty_op() }]
                + added(g2, body) + seq![control_quad(OperationV::Label(l))]
        }),
{
    let l = g.next_label;
    let g1 = GState { next_label: l.wrapping_add(1), ..g };
    let c1 = gen_expr(g1, c);
    let g2 = emit(c1.0, OperationV::JumpIfFalse(l), c1.1, empty_op(), empty_op());
    let body = gen_stmts(g2, b);
    lemma_gen_expr_appends(g1, c);
    lemma_appends_split(g1, c1.0);
    lemma_gen_stmts_appends(g2, b);
    lemma_appends_split(g2, body);
    assert(gen_stmt(g, s).quads =~= g.quads + added(g1, c1.0)
        + seq![QuadV { operation: OperationV::JumpIfFalse(l), operand1: c1.1, operand2: empty_op(), result: empty_op() }]
        + added(g2, body) + seq![control_quad(OperationV::Label(l))]);
}

/// A binary operator is computed into a fresh temporary by the operation of
/// the same name: `a - b` by `Subtract`, `a * b` by `Multiply`, and so on,
/// with the left operand first.
pub proof fn lemma_binary_operation_kept(g: GState, e: Loc<ExprV>)
    requires
        e.node is Binary,
    ensures
        ({
            let l = *e.node->Binary_0;
            let r = *e.node->Binary_2;
            let a = gen_expr(g, l);
            let b = gen_expr(a.0, r);
            let out = gen_expr(g, e);
            &&& out.1 == OperandV::TempVariable(temp_name(b.0.next_temp))
            &&& out.0.quads.last().operand1 == a.1
            &&& out.0.quads.last().operand2 == b.1
            &&& out.0.quads.last().result == out.1
            &&& same_operation(e.node->Binary_1, out.0.quads.last().operation)
        }),
{
}

/// Does quadruple operation `q` compute the binary operator `op`?
pub open spec fn same_operation(op: Operator, q: OperationV) -> bool {
    match op {
        Operator::Add => q is Add,
        Operator::Subtract => q is Subtract,
        Operator::Multiply => q is Multiply,
        Operator::Divide => q is Divide,
        Operator::Equal => q is Equal,
        Operator::NotEqual => q is NotEqual,
        Operator::LessThan => q is LessThan,
        Operator::GreaterThan => q is GreaterThan,
        Operator::LessEqual => q is LessEqual,
        Operator::GreaterEqual => q is GreaterEqual,
        Operator::And => q is And,
        Operator::Or => q is Or,
    }
}

} // verus!
