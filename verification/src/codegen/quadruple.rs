//! Three-address code: quadruples of an operation, two operands and a result.
use vstd::prelude::*;
use crate::parser::ast::{Type, type_text};
use crate::text::{push_char, push_decimal, push_signed_decimal, decimal, signed_decimal, lemma_decimal_injective};

verus! {

/// The operation of a quadruple.
#[derive(Debug)]
pub enum Operation {
    DeclareVariable(Type),
    DeclareArray(Type, usize),
    Add,
    Subtract,
    Multiply,
    Divide,
    Assign,
    ArrayStore,
    ArrayLoad,
    Label(usize),
    Jump(usize),
    JumpIfTrue(usize),
    JumpIfFalse(usize),
    Equal,
    NotEqual,
    LessThan,
    GreaterThan,
    LessEqual,
    GreaterEqual,
    And,
    Or,
    Not,
    Input,
    Output,
    Call(String),
    Return,
}

pub enum OperationV {
    DeclareVariable(Type),
    DeclareArray(Type, usize),
    Add,
    Subtract,
    Multiply,
    Divide,
    Assign,
    ArrayStore,
    ArrayLoad,
    Label(usize),
    Jump(usize),
    JumpIfTrue(usize),
    JumpIfFalse(usize),
    Equal,
    NotEqual,
    LessThan,
    GreaterThan,
    LessEqual,
    GreaterEqual,
    And,
    Or,
    Not,
    Input,
    Output,
    Call(Seq<char>),
    Return,
}

impl View for Operation {
    type V = OperationV;

    open spec fn view(&self) -> OperationV {
        match self {
            Operation::DeclareVariable(t) => OperationV::DeclareVariable(*t),
            Operation::DeclareArray(t, n) => OperationV::DeclareArray(*t, *n),
            Operation::Add => OperationV::Add,
            Operation::Subtract => OperationV::Subtract,
            Operation::Multiply => OperationV::Multiply,
            Operation::Divide => OperationV::Divide,
            Operation::Assign => OperationV::Assign,
            Operation::ArrayStore => OperationV::ArrayStore,
            Operation::ArrayLoad => OperationV::ArrayLoad,
            Operation::Label(l) => OperationV::Label(*l),
            Operation::Jump(l) => OperationV::Jump(*l),
            Operation::JumpIfTrue(l) => OperationV::JumpIfTrue(*l),
            Operation::JumpIfFalse(l) => OperationV::JumpIfFalse(*l),
            Operation::Equal => OperationV::Equal,
            Operation::NotEqual => OperationV::NotEqual,
            Operation::LessThan => OperationV::LessThan,
            Operation::GreaterThan => OperationV::GreaterThan,
            Operation::LessEqual => OperationV::LessEqual,
            Operation::GreaterEqual => OperationV::GreaterEqual,
            Operation::And => OperationV::And,
            Operation::Or => OperationV::Or,
            Operation::Not => OperationV::Not,
            Operation::Input => OperationV::Input,
            Operation::Output => OperationV::Output,
            Operation::Call(n) => OperationV::Call(n@),
            Operation::Return => OperationV::Return,
        }
    }
}

/// An operand of a quadruple. A float keeps the text it was written with.
#[derive(Debug)]
pub enum Operand {
    IntLiteral(i32),
    FloatLiteral(String),
    StringLiteral(String),
    Variable(String),
    TempVariable(String),
    ArrayElement(String, Box<Operand>),
    ArrayVariable(String, usize),
    Empty,
}

pub enum OperandV {
    IntLiteral(i32),
    FloatLiteral(Seq<char>),
    StringLiteral(Seq<char>),
    Variable(Seq<char>),
    TempVariable(Seq<char>),
    ArrayElement(Seq<char>, Box<OperandV>),
    ArrayVariable(Seq<char>, usize),
    Empty,
}

pub open spec fn operand_view(o: Operand) -> OperandV
    decreases o,
{
    match o {
        Operand::IntLiteral(v) => OperandV::IntLiteral(v),
        Operand::FloatLiteral(t) => OperandV::FloatLiteral(t@),
        Operand::StringLiteral(t) => OperandV::StringLiteral(t@),
        Operand::Variable(n) => OperandV::Variable(n@),
        Operand::TempVariable(n) => OperandV::TempVariable(n@),
        Operand::ArrayElement(n, i) => OperandV::ArrayElement(n@, Box::new(operand_view(*i))),
        Operand::ArrayVariable(n, s) => OperandV::ArrayVariable(n@, s),
        Operand::Empty => OperandV::Empty,
    }
}

impl View for Operand {
    type V = OperandV;

    open spec fn view(&self) -> OperandV {
        operand_view(*self)
    }
}

impl Operand {
    /// A copy of this operand.
    pub fn duplicate(&self) -> (r: Operand)
        ensures
            r@ == self@,
        decreases self,
    {
        match self {
            Operand::IntLiteral(v) => Operand::IntLiteral(*v),
            Operand::FloatLiteral(t) => Operand::FloatLiteral(t.clone()),
            Operand::StringLiteral(t) => Operand::StringLiteral(t.clone()),
            Operand::Variable(n) => Operand::Variable(n.clone()),
            Operand::TempVariable(n) => Operand::TempVariable(n.clone()),
            Operand::ArrayElement(n, i) => Operand::ArrayElement(n.clone(), Box::new(i.duplicate())),
            Operand::ArrayVariable(n, s) => Operand::ArrayVariable(n.clone(), *s),
            Operand::Empty => Operand::Empty,
        }
    }

    /// Is this the empty operand?
    pub fn is_empty(&self) -> (r: bool)
        ensures
            r == (self@ is Empty),
    {
        match self {
            Operand::Empty => true,
            _ => false,
        }
    }
}

impl Operation {
    /// A copy of this operation.
    pub fn duplicate(&self) -> (r: Operation)
        ensures
            r@ == self@,
    {
        match self {
            Operation::DeclareVariable(t) => Operation::DeclareVariable(*t),
            Operation::DeclareArray(t, n) => Operation::DeclareArray(*t, *n),
            Operation::Add => Operation::Add,
            Operation::Subtract => Operation::Subtract,
            Operation::Multiply => Operation::Multiply,
            Operation::Divide => Operation::Divide,
            Operation::Assign => Operation::Assign,
            Operation::ArrayStore => Operation::ArrayStore,
            Operation::ArrayLoad => Operation::ArrayLoad,
            Operation::Label(l) => Operation::Label(*l),
            Operation::Jump(l) => Operation::Jump(*l),
            Operation::JumpIfTrue(l) => Operation::JumpIfTrue(*l),
            Operation::JumpIfFalse(l) => Operation::JumpIfFalse(*l),
            Operation::Equal => Operation::Equal,
            Operation::NotEqual => Operation::NotEqual,
            Operation::LessThan => Operation::LessThan,
            Operation::GreaterThan => Operation::GreaterThan,
            Operation::LessEqual => Operation::LessEqual,
            Operation::GreaterEqual => Operation::GreaterEqual,
            Operation::And => Operation::And,
            Operation::Or => Operation::Or,
            Operation::Not => Operation::Not,
            Operation::Input => Operation::Input,
            Operation::Output => Operation::Output,
            Operation::Call(n) => Operation::Call(n.clone()),
            Operation::Return => Operation::Return,
        }
    }
}


/// How an operation is written: its mnemonic, with its type, size, label or
/// callee attached by `_`.
pub open spec fn operation_text(o: OperationV) -> Seq<char> {
    match o {
        OperationV::DeclareVariable(t) => "DECLARE_VAR_"@ + type_text(t),
        OperationV::DeclareArray(t, n) => "DECLARE_ARR_"@ + type_text(t) + "_"@ + decimal(n as nat),
        OperationV::Add => "ADD"@,
        OperationV::Subtract => "SUB"@,
        OperationV::Multiply => "MUL"@,
        OperationV::Divide => "DIV"@,
        OperationV::Assign => "ASSIGN"@,
        OperationV::ArrayStore => "ASTORE"@,
        OperationV::ArrayLoad => "ALOAD"@,
        OperationV::Label(l) => "LABEL_"@ + decimal(l as nat),
        OperationV::Jump(l) => "JUMP_"@ + decimal(l as nat),
        OperationV::JumpIfTrue(l) => "JMPT_"@ + decimal(l as nat),
        OperationV::JumpIfFalse(l) => "JMPF_"@ + decimal(l as nat),
        OperationV::Equal => "EQ"@,
        OperationV::NotEqual => "NEQ"@,
        OperationV::LessThan => "LT"@,
        OperationV::GreaterThan => "GT"@,
        OperationV::LessEqual => "LE"@,
        OperationV::GreaterEqual => "GE"@,
        OperationV::And => "AND"@,
        OperationV::Or => "OR"@,
        OperationV::Not => "NOT"@,
        OperationV::Input => "INPUT"@,
        OperationV::Output => "OUTPUT"@,
        OperationV::Call(n) => "CALL_"@ + n,
        OperationV::Return => "RETURN"@,
    }
}

/// How an operand is written: a number or name as it is, a string between
/// double quotes, an element as `name[index]`, a whole array as
/// `name[size]`, and the empty operand as `_`.
pub open spec fn operand_text(o: OperandV) -> Seq<char>
    decreases o,
{
    match o {
        OperandV::IntLiteral(v) => signed_decimal(v as int),
        OperandV::FloatLiteral(t) => t,
        OperandV::StringLiteral(t) => seq!['"'] + t + seq!['"'],
        OperandV::Variable(n) => n,
        OperandV::TempVariable(n) => n,
        OperandV::ArrayElement(n, i) => n + seq!['['] + operand_text(*i) + seq![']'],
        OperandV::ArrayVariable(n, size) => n + seq!['['] + decimal(size as nat) + seq![']'],
        OperandV::Empty => seq!['_'],
    }
}

/// How a quadruple is written: `(operation, operand1, operand2, result)`.
pub open spec fn quad_text(q: QuadV) -> Seq<char> {
    seq!['('] + operation_text(q.operation) + ", "@ + operand_text(q.operand1) + ", "@
        + operand_text(q.operand2) + ", "@ + operand_text(q.result) + seq![')']
}

/// One instruction of three-address code.
#[derive(Debug)]
pub struct Quadruple {
    pub operation: Operation,
    pub operand1: Operand,
    pub operand2: Operand,
    pub result: Operand,
}

pub struct QuadV {
    pub operation: OperationV,
    pub operand1: OperandV,
    pub operand2: OperandV,
    pub result: OperandV,
}

impl View for Quadruple {
    type V = QuadV;

    open spec fn view(&self) -> QuadV {
        QuadV {
            operation: self.operation@,
            operand1: self.operand1@,
            operand2: self.operand2@,
            result: self.result@,
        }
    }
}

impl Quadruple {
    /// A copy of this quadruple.
    pub fn duplicate(&self) -> (r: Quadruple)
        ensures
            r@ == self@,
    {
        Quadruple {
            operation: self.operation.duplicate(),
            operand1: self.operand1.duplicate(),
            operand2: self.operand2.duplicate(),
            result: self.result.duplicate(),
        }
    }
}

impl Operation {
    /// The operation as quadruple listings write it.
    pub fn text(&self) -> (r: String)
        ensures
            r@ == operation_text(self@),
    {
        match self {
            Operation::DeclareVariable(t) => {
                let mut r = String::from_str("DECLARE_VAR_");
                let n = t.name();
                r.append(n.as_str());
                r
            },
            Operation::DeclareArray(t, size) => {
                let mut r = String::from_str("DECLARE_ARR_");
                let n = t.name();
                r.append(n.as_str());
                push_char(&mut r, '_');
                push_decimal(&mut r, *size);
                proof {
                    reveal_strlit("_");
                }
                assert(r@ =~= operation_text(self@));
                r
            },
            Operation::Add => String::from_str("ADD"),
            Operation::Subtract => String::from_str("SUB"),
            Operation::Multiply => String::from_str("MUL"),
            Operation::Divide => String::from_str("DIV"),
            Operation::Assign => String::from_str("ASSIGN"),
            Operation::ArrayStore => String::from_str("ASTORE"),
            Operation::ArrayLoad => String::from_str("ALOAD"),
            Operation::Label(l) => {
                let mut r = String::from_str("LABEL_");
                push_decimal(&mut r, *l);
                r
            },
            Operation::Jump(l) => {
                let mut r = String::from_str("JUMP_");
                push_decimal(&mut r, *l);
                r
            },
            Operation::JumpIfTrue(l) => {
                let mut r = String::from_str("JMPT_");
                push_decimal(&mut r, *l);
                r
            },
            Operation::JumpIfFalse(l) => {
                let mut r = String::from_str("JMPF_");
                push_decimal(&mut r, *l);
                r
            },
            Operation::Equal => String::from_str("EQ"),
            Operation::NotEqual => String::from_str("NEQ"),
            Operation::LessThan => String::from_str("LT"),
            Operation::GreaterThan => String::from_str("GT"),
            Operation::LessEqual => String::from_str("LE"),
            Operation::GreaterEqual => String::from_str("GE"),
            Operation::And => String::from_str("AND"),
            Operation::Or => String::from_str("OR"),
            Operation::Not => String::from_str("NOT"),
            Operation::Input => String::from_str("INPUT"),
            Operation::Output => String::from_str("OUTPUT"),
            Operation::Call(n) => {
                let mut r = String::from_str("CALL_");
                r.append(n.as_str());
                r
            },
            Operation::Return => String::from_str("RETURN"),
        }
    }
}

impl Operand {
    /// Appends the operand, as quadruple listings write it, to `s`.
    pub fn push_text(&self, s: &mut String)
        ensures
            final(s)@ == old(s)@ + operand_text(self@),
        decreases self,
    {
        match self {
            Operand::IntLiteral(v) => {
                push_signed_decimal(s, *v);
            },
            Operand::FloatLiteral(t) => {
                s.append(t.as_str());
            },
            Operand::StringLiteral(t) => {
                push_char(s, '"');
                s.append(t.as_str());
                push_char(s, '"');
                assert(final(s)@ =~= old(s)@ + operand_text(self@));
            },
            Operand::Variable(n) => {
                s.append(n.as_str());
            },
            Operand::TempVariable(n) => {
                s.append(n.as_str());
            },
            Operand::ArrayElement(n, i) => {
                s.append(n.as_str());
                push_char(s, '[');
                i.push_text(s);
                push_char(s, ']');
                assert(final(s)@ =~= old(s)@ + operand_text(self@));
            },
            Operand::ArrayVariable(n, size) => {
                s.append(n.as_str());
                push_char(s, '[');
                push_decimal(s, *size);
                push_char(s, ']');
                assert(final(s)@ =~= old(s)@ + operand_text(self@));
            },
            Operand::Empty => {
                push_char(s, '_');
                assert(final(s)@ =~= old(s)@ + operand_text(self@));
            },
        }
    }

    /// The operand as quadruple listings write it.
    pub fn text(&self) -> (r: String)
        ensures
            r@ == operand_text(self@),
    {
        let mut r = String::new();
        self.push_text(&mut r);
        assert(r@ =~= operand_text(self@));
        r
    }
}

impl Quadruple {
    /// The quadruple as listings write it: `(operation, operand1, operand2, result)`.
    pub fn text(&self) -> (r: String)
        ensures
            r@ == quad_text(self@),
    {
        let mut r = String::new();
        push_char(&mut r, '(');
        let o = self.operation.text();
        r.append(o.as_str());
        r.append(", ");
        self.operand1.push_text(&mut r);
        r.append(", ");
        self.operand2.push_text(&mut r);
        r.append(", ");
        self.result.push_text(&mut r);
        push_char(&mut r, ')');
        assert(r@ =~= quad_text(self@));
        r
    }
}

/// What a program of quadruples is: its quadruples in order, and the numbers
/// of the next temporary and of the next label.
pub struct GState {
    pub quads: Seq<QuadV>,
    pub next_temp: usize,
    pub next_label: usize,
}

pub open spec fn quads_view(v: Seq<Quadruple>) -> Seq<QuadV> {
    v.map_values(|q: Quadruple| q@)
}

/// The name of temporary number `n`: `t` and the number.
pub open spec fn temp_name(n: usize) -> Seq<char> {
    seq!['t'] + decimal(n as nat)
}

/// Temporaries made from different counter values have different names, so
/// `new_temp` gives a fresh name until its counter wraps around.
pub proof fn lemma_temp_names_distinct(n: usize, m: usize)
    requires
        n != m,
    ensures
        temp_name(n) != temp_name(m),
{
    if temp_name(n) == temp_name(m) {
        assert(temp_name(n).drop_first() =~= decimal(n as nat));
        assert(temp_name(m).drop_first() =~= decimal(m as nat));
        lemma_decimal_injective(n as nat, m as nat);
    }
}

/// A program of quadruples under construction.
pub struct QuadrupleProgram {
    pub quadruples: Vec<Quadruple>,
    pub next_temp: usize,
    pub next_label: usize,
}

impl View for QuadrupleProgram {
    type V = GState;

    open spec fn view(&self) -> GState {
        GState { quads: quads_view(self.quadruples@), next_temp: self.next_temp, next_label: self.next_label }
    }
}

impl QuadrupleProgram {
    /// An empty program; temporaries and labels are numbered from 1.
    pub fn new() -> (r: QuadrupleProgram)
        ensures
            r@ == (GState { quads: Seq::empty(), next_temp: 1, next_label: 1 }),
    {
        let r = QuadrupleProgram { quadruples: Vec::new(), next_temp: 1, next_label: 1 };
        assert(quads_view(r.quadruples@) =~= Seq::<QuadV>::empty());
        r
    }

    /// Appends `quad`.
    pub fn add(&mut self, quad: Quadruple)
        ensures
            final(self)@ == (GState { quads: old(self)@.quads.push(quad@), ..old(self)@ }),
    {
        let ghost q = quad@;
        let ghost before = quads_view(self.quadruples@);
        self.quadruples.push(quad);
        assert(quads_view(self.quadruples@) =~= before.push(q));
    }

    /// A fresh temporary, `t` and the next number; the number wraps around
    /// past the largest `usize`.
    pub fn new_temp(&mut self) -> (r: Operand)
        ensures
            r@ == OperandV::TempVariable(temp_name(old(self).next_temp)),
            final(self)@ == (GState { next_temp: old(self).next_temp.wrapping_add(1), ..old(self)@ }),
    {
        let mut name = String::new();
        push_char(&mut name, 't');
        push_decimal(&mut name, self.next_temp);
        self.next_temp = self.next_temp.wrapping_add(1);
        assert(name@ =~= temp_name(old(self).next_temp));
        Operand::TempVariable(name)
    }

    /// A fresh label number; the number wraps around past the largest `usize`.
    pub fn new_label(&mut self) -> (r: usize)
        ensures
            r == old(self).next_label,
            final(self)@ == (GState { next_label: old(self).next_label.wrapping_add(1), ..old(self)@ }),
    {
        let label = self.next_label;
        self.next_label = self.next_label.wrapping_add(1);
        label
    }

    /// A copy of this program.
    pub fn duplicate(&self) -> (r: QuadrupleProgram)
        ensures
            r@ == self@,
    {
        let mut quads: Vec<Quadruple> = Vec::new();
        let mut i: usize = 0;
        while i < self.quadruples.len()
            invariant
                i <= self.quadruples@.len(),
                quads@.len() == i,
                forall|k: int| 0 <= k < i ==> (#[trigger] quads@[k])@ == self.quadruples@[k]@,
            decreases self.quadruples@.len() - i,
        {
            quads.push(self.quadruples[i].duplicate());
            i = i + 1;
        }
        assert(quads_view(quads@) =~= quads_view(self.quadruples@));
        QuadrupleProgram { quadruples: quads, next_temp: self.next_temp, next_label: self.next_label }
    }
}

} // verus!
