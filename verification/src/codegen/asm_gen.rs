//! Translation of quadruples into NASM assembly for x86-64 Linux.
//!
//! A float constant is written by the bits of its `f32` value; those bits
//! are handed in as a table from the float's text to its bits.
use vstd::prelude::*;
use crate::parser::ast::Type;
use crate::parser::error::strings_view;
use crate::text::{push_char, push_decimal, push_signed_decimal, decimal, signed_decimal, str_chars, join, join_strings};
use crate::parser::error::contains_string;
use crate::codegen::asm_text::{trim_text, trim_string};
use crate::codegen::quadruple::{Operation, OperationV, Operand, OperandV, Quadruple, QuadV, QuadrupleProgram, quads_view, operand_view};
use crate::codegen::assembly::{AssemblyGenerator, start_lines, end_lines, utility_data_lines, utility_code_lines};
use crate::codegen::asm_text::{hex8, push_hex8, escape_text, push_escaped, parse_i32_text, parse_i32};

verus! {

broadcast use vstd::std_specs::hash::group_hash_axioms;

/// What an assembly generator holds, as plain values.
pub struct AsmV {
    pub instructions: Seq<Seq<char>>,
    pub data: Seq<Seq<char>>,
    pub bss: Seq<Seq<char>>,
    pub labels: Map<usize, Seq<char>>,
    pub temp_label_counter: usize,
    pub floats: Map<u32, Seq<char>>,
    pub float_counter: usize,
    pub string_counter: usize,
    pub string_literals: Map<String, String>,
    pub defined: Seq<Seq<char>>,
    pub defined_labels: Set<String>,
    pub comparing: bool,
}

pub open spec fn asm_view(g: &AssemblyGenerator) -> AsmV {
    AsmV {
        instructions: strings_view(g.instructions@),
        data: strings_view(g.data_section@),
        bss: strings_view(g.bss_section@),
        labels: g.label_map@.map_values(|s: String| s@),
        temp_label_counter: g.temp_label_counter,
        floats: g.float_constants@.map_values(|s: String| s@),
        float_counter: g.float_counter,
        string_counter: g.string_counter,
        string_literals: g.string_literals@,
        defined: strings_view(g.defined_variables@),
        defined_labels: g.defined_labels@,
        comparing: g.current_operation_is_comparison,
    }
}

/// The bits of the float written `t`, from the table.
pub open spec fn bits_for(table: Seq<(Seq<char>, u32)>, t: Seq<char>) -> Option<u32>
    decreases table.len(),
{
    if table.len() == 0 {
        None
    } else if table[0].0 == t {
        Some(table[0].1)
    } else {
        bits_for(table.drop_first(), t)
    }
}

pub open spec fn table_view(table: Seq<(String, u32)>) -> Seq<(Seq<char>, u32)> {
    table.map_values(|e: (String, u32)| (e.0@, e.1))
}

/// Can `o` be written: its float has bits in the table, its temporary name
/// starts with an ASCII character?
pub open spec fn operand_ready(o: OperandV, table: Seq<(Seq<char>, u32)>) -> bool
    decreases o,
{
    match o {
        OperandV::FloatLiteral(t) => bits_for(table, t) is Some,
        OperandV::TempVariable(n) => n.len() > 0 && (n[0] as u32) < 128,
        OperandV::ArrayElement(_, i) => operand_ready(*i, table),
        _ => true,
    }
}

pub open spec fn quads_ready(qs: Seq<QuadV>, table: Seq<(Seq<char>, u32)>) -> bool {
    forall|i: int|
        0 <= i < qs.len() ==> operand_ready(#[trigger] qs[i].operand1, table) && operand_ready(qs[i].operand2, table)
            && operand_ready(qs[i].result, table)
}

/// The number a temporary is numbered by in its name (after its first
/// character), or 1 when the rest of the name is no number.
pub open spec fn temp_number(n: Seq<char>) -> i32 {
    match parse_i32_text(n.skip(1)) {
        Some(v) => v,
        None => 1,
    }
}

pub open spec fn bracket(t: Seq<char>) -> Seq<char> {
    seq!['['] + t + seq![']']
}

/// How an operand is written, and what writing it adds: a float used
/// directly in a comparison gets a labelled constant in the data section
/// (one per value), a string constant always gets one.
pub open spec fn asm_operand(st: AsmV, table: Seq<(Seq<char>, u32)>, o: OperandV) -> (AsmV, Seq<char>)
    decreases o,
{
    match o {
        OperandV::IntLiteral(v) => (st, signed_decimal(v as int)),
        OperandV::FloatLiteral(t) => {
            let b = bits_for(table, t)->0;
            if st.comparing {
                if st.floats.contains_key(b) {
                    (st, bracket(st.floats[b]))
                } else {
                    let label = "float_"@ + decimal(st.float_counter as nat);
                    (
                        AsmV {
                            float_counter: st.float_counter.wrapping_add(1),
                            data: st.data.push(label + ": dd 0x"@ + hex8(b)),
                            floats: st.floats.insert(b, label),
                            ..st
                        },
                        bracket(label),
                    )
                }
            } else {
                (st, "0x"@ + hex8(b))
            }
        },
        OperandV::Variable(n) => (st, bracket(n)),
        OperandV::TempVariable(n) => (st, "[rbp-"@ + signed_decimal((8i32).wrapping_mul(temp_number(n)) as int) + seq![']']),
        OperandV::ArrayVariable(n, _) => (st, n),
        OperandV::ArrayElement(n, i) => {
            let r = asm_operand(st, table, *i);
            (r.0, seq!['['] + n + seq!['+'] + r.1 + "*8]"@)
        },
        OperandV::Empty => (st, seq!['_']),
        OperandV::StringLiteral(s) => {
            let label = "str_"@ + decimal(st.string_counter as nat);
            (
                AsmV {
                    string_counter: st.string_counter.wrapping_add(1),
                    data: st.data.push(label + ": db \""@ + escape_text(s) + "\", 0"@),
                    ..st
                },
                label,
            )
        },
    }
}

/// Does `table` give bits for `t`? Which, if so.
pub fn lookup_bits(table: &Vec<(String, u32)>, t: &String) -> (r: Option<u32>)
    ensures
        r == bits_for(table_view(table@), t@),
{
    let ghost tv = table_view(table@);
    let mut i: usize = 0;
    assert(tv.skip(0) =~= tv);
    while i < table.len()
        invariant
            i <= table@.len(),
            tv == table_view(table@),
            bits_for(tv, t@) == bits_for(tv.skip(i as int), t@),
        decreases table@.len() - i,
    {
        let ghost rest = tv.skip(i as int);
        assert(rest[0] == (table@[i as int].0@, table@[i as int].1));
        if table[i].0 == *t {
            return Some(table[i].1);
        }
        assert(rest.drop_first() =~= tv.skip(i + 1));
        i = i + 1;
    }
    assert(tv.skip(i as int).len() == 0);
    None
}

fn bracketed(t: &String) -> (r: String)
    ensures
        r@ == bracket(t@),
{
    let mut r = String::new();
    push_char(&mut r, '[');
    r.append(t.as_str());
    push_char(&mut r, ']');
    assert(r@ =~= bracket(t@));
    r
}

impl AssemblyGenerator {
    /// How `op` is written in an instruction; a float used in a comparison
    /// or a string constant is added to the data section.
    pub fn operand_to_asm(&mut self, op: &Operand, table: &Vec<(String, u32)>) -> (r: String)
        requires
            operand_ready(op@, table_view(table@)),
        ensures
            (asm_view(final(self)), r@) == asm_operand(asm_view(old(self)), table_view(table@), op@),
            final(self).current_operation_is_comparison == old(self).current_operation_is_comparison,
            final(self).temp_label_counter == old(self).temp_label_counter,
            final(self).label_map == old(self).label_map,
        decreases op,
    {
        match op {
            Operand::IntLiteral(v) => {
                let mut r = String::new();
                push_signed_decimal(&mut r, *v);
                assert(r@ =~= signed_decimal(*v as int));
                r
            },
            Operand::FloatLiteral(t) => {
                let b = match lookup_bits(table, t) {
                    Some(b) => b,
                    None => 0,
                };
                if self.current_operation_is_comparison {
                    let known = match self.float_constants.get(&b) {
                        Some(label) => Some(label.clone()),
                        None => None,
                    };
                    match known {
                        Some(label) => bracketed(&label),
                        None => {
                            let mut label = String::new();
                            label.append("float_");
                            push_decimal(&mut label, self.float_counter);
                            self.float_counter = self.float_counter.wrapping_add(1);
                            let mut line = label.clone();
                            line.append(": dd 0x");
                            push_hex8(&mut line, b);
                            let ghost before = strings_view(self.data_section@);
                            self.data_section.push(line);
                            assert(strings_view(self.data_section@) =~= before.push(
                                "float_"@ + decimal(old(self).float_counter as nat) + ": dd 0x"@ + hex8(b),
                            ));
                            let r = bracketed(&label);
                            let ghost fv = self.float_constants@;
                            self.float_constants.insert(b, label);
                            assert(self.float_constants@.map_values(|s: String| s@) =~= fv.map_values(
                                |s: String| s@,
                            ).insert(b, "float_"@ + decimal(old(self).float_counter as nat)));
                            r
                        },
                    }
                } else {
                    let mut r = String::new();
                    r.append("0x");
                    push_hex8(&mut r, b);
                    r
                }
            },
            Operand::Variable(n) => bracketed(n),
            Operand::TempVariable(n) => {
                let cs = str_chars(n.as_str());
                let k = match parse_i32(&cs, 1) {
                    Some(v) => v,
                    None => 1,
                };
                let mut r = String::new();
                r.append("[rbp-");
                push_signed_decimal(&mut r, (8i32).wrapping_mul(k));
                push_char(&mut r, ']');
                r
            },
            Operand::ArrayVariable(n, _) => n.clone(),
            Operand::ArrayElement(n, i) => {
                let inner = self.operand_to_asm(i, table);
                let mut r = String::new();
                push_char(&mut r, '[');
                r.append(n.as_str());
                push_char(&mut r, '+');
                r.append(inner.as_str());
                r.append("*8]");
                r
            },
            Operand::Empty => {
                let mut r = String::new();
                push_char(&mut r, '_');
                r
            },
            Operand::StringLiteral(s) => {
                let id = self.get_next_string_id();
                let mut label = String::new();
                label.append("str_");
                push_decimal(&mut label, id);
                let mut line = label.clone();
                line.append(": db \"");
                push_escaped(&mut line, s);
                line.append("\", 0");
                let ghost before = strings_view(self.data_section@);
                self.data_section.push(line);
                assert(strings_view(self.data_section@) =~= before.push(
                    "str_"@ + decimal(id as nat) + ": db \""@ + escape_text(s@) + "\", 0"@,
                ));
                label
            },
        }
    }
}

// ----- Quadruples -----

pub open spec fn add_lines(st: AsmV, ls: Seq<Seq<char>>) -> AsmV {
    AsmV { instructions: st.instructions + ls, ..st }
}

pub open spec fn float_op_text(op: OperationV) -> Seq<char> {
    match op {
        OperationV::Add => "fadd dword "@,
        OperationV::Subtract => "fsub dword "@,
        OperationV::Multiply => "fmul dword "@,
        _ => "fdiv dword "@,
    }
}

pub open spec fn int_op_lines(op: OperationV, a2: Seq<char>) -> Seq<Seq<char>> {
    match op {
        OperationV::Add => seq!["add rax, "@ + a2],
        OperationV::Subtract => seq!["sub rax, "@ + a2],
        OperationV::Multiply => seq!["imul rax, "@ + a2],
        _ => seq!["cqo"@, "mov rbx, "@ + a2, "idiv rbx"@],
    }
}

/// An arithmetic quadruple: on the x87 unit when an operand is a float
/// constant, else on `rax`.
pub open spec fn arith_lines(op: OperationV, a1: Seq<char>, a2: Seq<char>, r: Seq<char>, float: bool) -> Seq<Seq<char>> {
    if float {
        seq!["fld dword "@ + a1, float_op_text(op) + a2, "fstp dword "@ + r]
    } else {
        seq!["mov rax, "@ + a1] + int_op_lines(op, a2) + seq!["mov "@ + r + ", rax"@]
    }
}

/// The condition of a conditional jump: signed ones after `cmp`, unsigned
/// ones after the x87 `fcomip`.
pub enum JumpCond {
    Equal,
    NotEqual,
    Less,
    Greater,
    LessEqual,
    GreaterEqual,
    Below,
    Above,
    AboveEqual,
    BelowEqual,
}

/// The instruction that jumps on condition `c`, padded as the output has it.
pub open spec fn cond_text(c: JumpCond) -> Seq<char> {
    match c {
        JumpCond::Equal => "    je    "@,
        JumpCond::NotEqual => "    jne   "@,
        JumpCond::Less => "    jl    "@,
        JumpCond::Greater => "    jg    "@,
        JumpCond::LessEqual => "    jle   "@,
        JumpCond::GreaterEqual => "    jge   "@,
        JumpCond::Below => "    jb    "@,
        JumpCond::Above => "    ja    "@,
        JumpCond::AboveEqual => "    jae   "@,
        JumpCond::BelowEqual => "    jbe   "@,
    }
}

/// Is a jump on `c` taken after the processor compared `x` with `y`: `cmp x, y`,
/// or `fcomip` with `x` in `st0` and `y` in `st1` (ordered values)?
pub open spec fn cond_taken(c: JumpCond, x: int, y: int) -> bool {
    match c {
        JumpCond::Equal => x == y,
        JumpCond::NotEqual => x != y,
        JumpCond::Less | JumpCond::Below => x < y,
        JumpCond::Greater | JumpCond::Above => x > y,
        JumpCond::LessEqual | JumpCond::BelowEqual => x <= y,
        JumpCond::GreaterEqual | JumpCond::AboveEqual => x >= y,
    }
}

/// The condition a comparison jumps on. On integers, `cmp rax, b` compares
/// the first operand with the second (signed jumps); on the x87 unit the
/// second operand is loaded last, so `fcomip` compares the second operand
/// with the first and the unsigned jumps are mirrored: `a < b` is `b > a`
/// (`ja`), `a <= b` is `b >= a` (`jae`).
pub open spec fn jump_cond(op: OperationV, float: bool) -> JumpCond {
    match op {
        OperationV::Equal => JumpCond::Equal,
        OperationV::NotEqual => JumpCond::NotEqual,
        OperationV::LessThan => if float { JumpCond::Above } else { JumpCond::Less },
        OperationV::GreaterThan => if float { JumpCond::Below } else { JumpCond::Greater },
        OperationV::LessEqual => if float { JumpCond::AboveEqual } else { JumpCond::LessEqual },
        _ => if float { JumpCond::BelowEqual } else { JumpCond::GreaterEqual },
    }
}

/// The conditional jump of a comparison.
pub open spec fn jump_text(op: OperationV, float: bool) -> Seq<char> {
    cond_text(jump_cond(op, float))
}

/// The relation a comparison quadruple tests between its operands.
pub open spec fn relation_holds(op: OperationV, a: int, b: int) -> bool {
    match op {
        OperationV::Equal => a == b,
        OperationV::NotEqual => a != b,
        OperationV::LessThan => a < b,
        OperationV::GreaterThan => a > b,
        OperationV::LessEqual => a <= b,
        _ => a >= b,
    }
}

/// A comparison sets its result to 1 exactly when its relation holds: the
/// jump it emits is taken after `cmp a, b` on integers, and after `fcomip`
/// with `b` in `st0` and `a` in `st1` on floats, exactly when `a op b`.
pub proof fn lemma_comparison_jump_correct(op: OperationV, a: int, b: int)
    requires
        op is Equal || op is NotEqual || op is LessThan || op is GreaterThan || op is LessEqual
            || op is GreaterEqual,
    ensures
        cond_taken(jump_cond(op, false), a, b) == relation_holds(op, a, b),
        cond_taken(jump_cond(op, true), b, a) == relation_holds(op, a, b),
{
}

pub open spec fn is_float(o: OperandV) -> bool {
    o is FloatLiteral
}

/// A comparison: the result is set to 0, then to 1 when the comparison
/// holds, with two fresh local labels.
pub open spec fn comparison_asm(st: AsmV, table: Seq<(Seq<char>, u32)>, q: QuadV) -> AsmV {
    let s0 = AsmV { comparing: true, ..st };
    let l = asm_operand(s0, table, q.operand1);
    let r = asm_operand(l.0, table, q.operand2);
    let d = asm_operand(r.0, table, q.result);
    let float = is_float(q.operand1) || is_float(q.operand2);
    let id = d.0.temp_label_counter;
    let s1 = AsmV { temp_label_counter: id.wrapping_add(1), ..d.0 };
    let tl = seq!['L'] + decimal(id as nat) + "_true"@;
    let el = seq!['L'] + decimal(id as nat) + "_end"@;
    let head = if float {
        seq![
            "    fld   dword "@ + l.1,
            "    fld  dword "@ + r.1,
            "    fcomip st0, st1"@,
            "     fstp st0"@,
            "    mov   qword "@ + d.1 + ", 0"@,
        ]
    } else {
        seq!["    mov   rax, "@ + l.1, "    cmp   rax, "@ + r.1, "    mov   qword "@ + d.1 + ", 0"@]
    };
    let lines = head + seq![
        jump_text(q.operation, float) + tl,
        "    jmp   "@ + el,
        tl + seq![':'],
        "    mov   qword "@ + d.1 + ", 1"@,
        el + seq![':'],
    ];
    AsmV { comparing: false, ..add_lines(s1, lines) }
}

/// A conditional jump on the first operand.
pub open spec fn cond_jump_asm(st: AsmV, table: Seq<(Seq<char>, u32)>, q: QuadV, id: usize, jump: Seq<char>) -> AsmV {
    let c = asm_operand(st, table, q.operand1);
    let s1 = add_lines(c.0, seq!["mov rax, "@ + c.1, "cmp rax, 0"@]);
    if s1.labels.contains_key(id) {
        add_lines(s1, seq![jump + s1.labels[id]])
    } else {
        s1
    }
}

/// A logical quadruple on `rax`.
pub open spec fn logic_asm(st: AsmV, table: Seq<(Seq<char>, u32)>, q: QuadV, instr: Seq<char>) -> AsmV {
    let l = asm_operand(st, table, q.operand1);
    let r = asm_operand(l.0, table, q.operand2);
    let d = asm_operand(r.0, table, q.result);
    add_lines(d.0, seq!["mov rax, "@ + l.1, instr + r.1, "mov "@ + d.1 + ", rax"@])
}

/// The quadruples other than labels, assignments and arithmetic.
pub open spec fn other_asm(st: AsmV, table: Seq<(Seq<char>, u32)>, q: QuadV) -> AsmV {
    match q.operation {
        OperationV::Jump(id) => if st.labels.contains_key(id) {
            add_lines(st, seq!["jmp "@ + st.labels[id]])
        } else {
            st
        },
        OperationV::JumpIfTrue(id) => cond_jump_asm(st, table, q, id, "jnz "@),
        OperationV::JumpIfFalse(id) => cond_jump_asm(st, table, q, id, "jz "@),
        OperationV::Equal | OperationV::NotEqual | OperationV::LessThan | OperationV::GreaterThan
        | OperationV::LessEqual | OperationV::GreaterEqual => comparison_asm(st, table, q),
        OperationV::ArrayStore => match q.result {
            OperandV::Variable(arr) => {
                let v = asm_operand(st, table, q.operand1);
                let i = asm_operand(v.0, table, q.operand2);
                add_lines(
                    i.0,
                    seq![
                        "push rax"@,
                        "push rbx"@,
                        "push rcx"@,
                        "mov rax, "@ + i.1,
                        "mov rbx, 8"@,
                        "imul rax, rbx"@,
                        "mov rbx, "@ + arr,
                        "mov rcx, "@ + v.1,
                        "mov [rbx+rax], rcx"@,
                        "pop rcx"@,
                        "pop rbx"@,
                        "pop rax"@,
                    ],
                )
            },
            _ => st,
        },
        OperationV::ArrayLoad => match q.operand1 {
            OperandV::Variable(arr) => {
                let i = asm_operand(st, table, q.operand2);
                let d = asm_operand(i.0, table, q.result);
                add_lines(
                    d.0,
                    seq![
                        "push rax"@,
                        "push rbx"@,
                        "push rdx"@,
                        "mov rax, "@ + i.1,
                        "shl rax, 3"@,
                        "lea rbx, [rel "@ + arr + "]"@,
                        "mov rdx, [rbx + rax]"@,
                        "mov "@ + d.1 + ", rdx"@,
                        "pop rdx"@,
                        "pop rbx"@,
                        "pop rax"@,
                    ],
                )
            },
            _ => st,
        },
        OperationV::Output => {
            let v = asm_operand(st, table, q.operand1);
            if q.operand1 is StringLiteral {
                add_lines(v.0, seq!["lea rax, ["@ + v.1 + "]"@, "push rax"@, "call print_string"@, "pop rax"@])
            } else {
                add_lines(v.0, seq!["mov rax, "@ + v.1, "push rax"@, "call print_int"@, "pop rax"@])
            }
        },
        OperationV::Input => {
            let d = asm_operand(st, table, q.result);
            add_lines(d.0, seq!["call read_int"@, "mov "@ + d.1 + ", rax"@])
        },
        OperationV::Call(n) => add_lines(st, seq!["call "@ + n]),
        OperationV::Return => add_lines(st, seq!["ret"@]),
        OperationV::And => logic_asm(st, table, q, "and rax, "@),
        OperationV::Or => logic_asm(st, table, q, "or rax, "@),
        OperationV::Not => {
            let o = asm_operand(st, table, q.operand1);
            let d = asm_operand(o.0, table, q.result);
            add_lines(d.0, seq!["mov rax, "@ + o.1, "not rax"@, "mov "@ + d.1 + ", rax"@])
        },
        _ => st,
    }
}

/// The instructions of one quadruple.
pub open spec fn quad_asm(st: AsmV, table: Seq<(Seq<char>, u32)>, q: QuadV) -> AsmV {
    match q.operation {
        OperationV::Label(id) => if st.labels.contains_key(id) {
            add_lines(st, seq![st.labels[id] + seq![':']])
        } else {
            st
        },
        OperationV::Assign => {
            let a = asm_operand(st, table, q.operand1);
            let d = asm_operand(a.0, table, q.result);
            add_lines(d.0, seq!["mov rax, "@ + a.1, "mov "@ + d.1 + ", rax"@])
        },
        OperationV::Add | OperationV::Subtract | OperationV::Multiply | OperationV::Divide => {
            let float = is_float(q.operand1) || is_float(q.operand2);
            let a1 = asm_operand(st, table, q.operand1);
            let a2 = asm_operand(a1.0, table, q.operand2);
            let r = asm_operand(a2.0, table, q.result);
            add_lines(r.0, arith_lines(q.operation, a1.1, a2.1, r.1, float))
        },
        _ => other_asm(st, table, q),
    }
}

pub open spec fn quads_asm(st: AsmV, table: Seq<(Seq<char>, u32)>, qs: Seq<QuadV>) -> AsmV
    decreases qs.len(),
{
    if qs.len() == 0 {
        st
    } else {
        quad_asm(quads_asm(st, table, qs.drop_last()), table, qs.last())
    }
}

/// Each label is named `L` and its number.
pub open spec fn labels_of(st: AsmV, qs: Seq<QuadV>) -> AsmV
    decreases qs.len(),
{
    if qs.len() == 0 {
        st
    } else {
        let prev = labels_of(st, qs.drop_last());
        match qs.last().operation {
            OperationV::Label(id) => AsmV { labels: prev.labels.insert(id, seq!['L'] + decimal(id as nat)), ..prev },
            _ => prev,
        }
    }
}

fn text2(a: &str, b: &String) -> (r: String)
    ensures
        r@ == a@ + b@,
{
    let mut r = String::from_str(a);
    r.append(b.as_str());
    r
}

fn text3(a: &str, b: &String, c: &str) -> (r: String)
    ensures
        r@ == a@ + b@ + c@,
{
    let mut r = String::from_str(a);
    r.append(b.as_str());
    r.append(c);
    r
}

fn line(a: &str) -> (r: String)
    ensures
        r@ == a@,
{
    String::from_str(a)
}

fn local_label(id: usize, suffix: &str) -> (r: String)
    ensures
        r@ == seq!['L'] + decimal(id as nat) + suffix@,
{
    let mut r = String::new();
    push_char(&mut r, 'L');
    push_decimal(&mut r, id);
    r.append(suffix);
    assert(r@ =~= seq!['L'] + decimal(id as nat) + suffix@);
    r
}

fn with_colon(t: &String) -> (r: String)
    ensures
        r@ == t@ + seq![':'],
{
    let mut r = t.clone();
    push_char(&mut r, ':');
    r
}

pub open spec fn quad_ready(q: QuadV, table: Seq<(Seq<char>, u32)>) -> bool {
    operand_ready(q.operand1, table) && operand_ready(q.operand2, table) && operand_ready(q.result, table)
}

impl AssemblyGenerator {
    fn emit_lines(&mut self, lines: Vec<String>)
        ensures
            asm_view(final(self)) == add_lines(asm_view(old(self)), strings_view(lines@)),
    {
        let mut lines = lines;
        let ghost before = strings_view(self.instructions@);
        let ghost added = strings_view(lines@);
        self.instructions.append(&mut lines);
        assert(strings_view(self.instructions@) =~= before + added);
    }

    fn label_of(&self, id: usize) -> (r: Option<String>)
        ensures
            match r {
                Some(l) => asm_view(self).labels.contains_key(id) && l@ == asm_view(self).labels[id],
                None => !asm_view(self).labels.contains_key(id),
            },
    {
        match self.label_map.get(&id) {
            Some(l) => Some(l.clone()),
            None => None,
        }
    }

    fn gen_comparison(&mut self, quad: &Quadruple, table: &Vec<(String, u32)>)
        requires
            quad_ready(quad@, table_view(table@)),
        ensures
            asm_view(final(self)) == comparison_asm(asm_view(old(self)), table_view(table@), quad@),
    {
        self.current_operation_is_comparison = true;
        let left = self.operand_to_asm(&quad.operand1, table);
        let right = self.operand_to_asm(&quad.operand2, table);
        let result = self.operand_to_asm(&quad.result, table);
        let float = match &quad.operand1 {
            Operand::FloatLiteral(_) => true,
            _ => false,
        } || match &quad.operand2 {
            Operand::FloatLiteral(_) => true,
            _ => false,
        };
        let id = self.get_next_temp_label();
        let tl = local_label(id, "_true");
        let el = local_label(id, "_end");
        let jump = match quad.operation {
            Operation::Equal => "    je    ",
            Operation::NotEqual => "    jne   ",
            Operation::LessThan => if float { "    ja    " } else { "    jl    " },
            Operation::GreaterThan => if float { "    jb    " } else { "    jg    " },
            Operation::LessEqual => if float { "    jae   " } else { "    jle   " },
            _ => if float { "    jbe   " } else { "    jge   " },
        };
        let mut lines: Vec<String> = if float {
            vec![
                text2("    fld   dword ", &left),
                text2("    fld  dword ", &right),
                line("    fcomip st0, st1"),
                line("     fstp st0"),
                text3("    mov   qword ", &result, ", 0"),
            ]
        } else {
            vec![
                text2("    mov   rax, ", &left),
                text2("    cmp   rax, ", &right),
                text3("    mov   qword ", &result, ", 0"),
            ]
        };
        let ghost head = strings_view(lines@);
        let mut tail: Vec<String> = vec![
            text2(jump, &tl),
            text2("    jmp   ", &el),
            with_colon(&tl),
            text3("    mov   qword ", &result, ", 1"),
            with_colon(&el),
        ];
        let ghost tail_v = strings_view(tail@);
        lines.append(&mut tail);
        assert(strings_view(lines@) =~= head + tail_v);
        self.emit_lines(lines);
        self.current_operation_is_comparison = false;
        proof {
            let st = asm_view(old(self));
            let tv = table_view(table@);
            let q = quad@;
            assert(jump@ == jump_text(q.operation, float));
            assert(head + tail_v =~= {
                let s0 = AsmV { comparing: true, ..st };
                let l = asm_operand(s0, tv, q.operand1);
                let r = asm_operand(l.0, tv, q.operand2);
                let d = asm_operand(r.0, tv, q.result);
                let tl = seq!['L'] + decimal(id as nat) + "_true"@;
                let el = seq!['L'] + decimal(id as nat) + "_end"@;
                let h = if float {
                    seq![
                        "    fld   dword "@ + l.1,
                        "    fld  dword "@ + r.1,
                        "    fcomip st0, st1"@,
                        "     fstp st0"@,
                        "    mov   qword "@ + d.1 + ", 0"@,
                    ]
                } else {
                    seq!["    mov   rax, "@ + l.1, "    cmp   rax, "@ + r.1, "    mov   qword "@ + d.1 + ", 0"@]
                };
                h + seq![
                    jump_text(q.operation, float) + tl,
                    "    jmp   "@ + el,
                    tl + seq![':'],
                    "    mov   qword "@ + d.1 + ", 1"@,
                    el + seq![':'],
                ]
            });
        }
    }
}

impl AssemblyGenerator {
    fn cond_jump(&mut self, quad: &Quadruple, table: &Vec<(String, u32)>, id: usize, jump: &str)
        requires
            quad_ready(quad@, table_view(table@)),
        ensures
            asm_view(final(self)) == cond_jump_asm(asm_view(old(self)), table_view(table@), quad@, id, jump@),
    {
        let cond = self.operand_to_asm(&quad.operand1, table);
        let lines = vec![text2("mov rax, ", &cond), line("cmp rax, 0")];
        assert(strings_view(lines@) =~= seq!["mov rax, "@ + cond@, "cmp rax, 0"@]);
        self.emit_lines(lines);
        match self.label_of(id) {
            Some(l) => {
                let lines = vec![text2(jump, &l)];
                assert(strings_view(lines@) =~= seq![jump@ + l@]);
                self.emit_lines(lines);
            },
            None => {},
        }
    }

    fn logic(&mut self, quad: &Quadruple, table: &Vec<(String, u32)>, instr: &str)
        requires
            quad_ready(quad@, table_view(table@)),
        ensures
            asm_view(final(self)) == logic_asm(asm_view(old(self)), table_view(table@), quad@, instr@),
    {
        let l = self.operand_to_asm(&quad.operand1, table);
        let r = self.operand_to_asm(&quad.operand2, table);
        let d = self.operand_to_asm(&quad.result, table);
        let lines = vec![text2("mov rax, ", &l), text2(instr, &r), text3("mov ", &d, ", rax")];
        assert(strings_view(lines@) =~= seq!["mov rax, "@ + l@, instr@ + r@, "mov "@ + d@ + ", rax"@]);
        self.emit_lines(lines);
    }

    fn emit_array_store(&mut self, quad: &Quadruple, table: &Vec<(String, u32)>)
        requires
            quad_ready(quad@, table_view(table@)),
            quad@.operation is ArrayStore,
        ensures
            asm_view(final(self)) == other_asm(asm_view(old(self)), table_view(table@), quad@),
    {
        if let Operand::Variable(arr) = &quad.result {
            let val = self.operand_to_asm(&quad.operand1, table);
            let idx = self.operand_to_asm(&quad.operand2, table);
            let lines = vec![
                line("push rax"),
                line("push rbx"),
                line("push rcx"),
                text2("mov rax, ", &idx),
                line("mov rbx, 8"),
                line("imul rax, rbx"),
                text2("mov rbx, ", arr),
                text2("mov rcx, ", &val),
                line("mov [rbx+rax], rcx"),
                line("pop rcx"),
                line("pop rbx"),
                line("pop rax"),
            ];
            assert(strings_view(lines@) =~= seq![
                "push rax"@,
                "push rbx"@,
                "push rcx"@,
                "mov rax, "@ + idx@,
                "mov rbx, 8"@,
                "imul rax, rbx"@,
                "mov rbx, "@ + arr@,
                "mov rcx, "@ + val@,
                "mov [rbx+rax], rcx"@,
                "pop rcx"@,
                "pop rbx"@,
                "pop rax"@,
            ]);
            self.emit_lines(lines);
        }
    }

    fn emit_array_load(&mut self, quad: &Quadruple, table: &Vec<(String, u32)>)
        requires
            quad_ready(quad@, table_view(table@)),
            quad@.operation is ArrayLoad,
        ensures
            asm_view(final(self)) == other_asm(asm_view(old(self)), table_view(table@), quad@),
    {
        if let Operand::Variable(arr) = &quad.operand1 {
            let idx = self.operand_to_asm(&quad.operand2, table);
            let dst = self.operand_to_asm(&quad.result, table);
            let lines = vec![
                line("push rax"),
                line("push rbx"),
                line("push rdx"),
                text2("mov rax, ", &idx),
                line("shl rax, 3"),
                text3("lea rbx, [rel ", arr, "]"),
                line("mov rdx, [rbx + rax]"),
                text3("mov ", &dst, ", rdx"),
                line("pop rdx"),
                line("pop rbx"),
                line("pop rax"),
            ];
            assert(strings_view(lines@) =~= seq![
                "push rax"@,
                "push rbx"@,
                "push rdx"@,
                "mov rax, "@ + idx@,
                "shl rax, 3"@,
                "lea rbx, [rel "@ + arr@ + "]"@,
                "mov rdx, [rbx + rax]"@,
                "mov "@ + dst@ + ", rdx"@,
                "pop rdx"@,
                "pop rbx"@,
                "pop rax"@,
            ]);
            self.emit_lines(lines);
        }
    }

    fn emit_output(&mut self, quad: &Quadruple, table: &Vec<(String, u32)>)
        requires
            quad_ready(quad@, table_view(table@)),
            quad@.operation is Output,
        ensures
            asm_view(final(self)) == other_asm(asm_view(old(self)), table_view(table@), quad@),
    {
        let v = self.operand_to_asm(&quad.operand1, table);
        let is_string = match &quad.operand1 {
            Operand::StringLiteral(_) => true,
            _ => false,
        };
        if is_string {
            let lines = vec![text3("lea rax, [", &v, "]"), line("push rax"), line("call print_string"), line("pop rax")];
            assert(strings_view(lines@) =~= seq![
                "lea rax, ["@ + v@ + "]"@,
                "push rax"@,
                "call print_string"@,
                "pop rax"@,
            ]);
            self.emit_lines(lines);
        } else {
            let lines = vec![text2("mov rax, ", &v), line("push rax"), line("call print_int"), line("pop rax")];
            assert(strings_view(lines@) =~= seq!["mov rax, "@ + v@, "push rax"@, "call print_int"@, "pop rax"@]);
            self.emit_lines(lines);
        }
    }

    /// The quadruples other than labels, assignments and arithmetic.
    fn generate_other(&mut self, quad: &Quadruple, table: &Vec<(String, u32)>)
        requires
            quad_ready(quad@, table_view(table@)),
        ensures
            asm_view(final(self)) == other_asm(asm_view(old(self)), table_view(table@), quad@),
    {
        match &quad.operation {
            Operation::Jump(id) => {
                match self.label_of(*id) {
                    Some(l) => {
                        let lines = vec![text2("jmp ", &l)];
                        assert(strings_view(lines@) =~= seq!["jmp "@ + l@]);
                        self.emit_lines(lines);
                    },
                    None => {},
                }
            },
            Operation::JumpIfTrue(id) => self.cond_jump(quad, table, *id, "jnz "),
            Operation::JumpIfFalse(id) => self.cond_jump(quad, table, *id, "jz "),
            Operation::Equal | Operation::NotEqual | Operation::LessThan | Operation::GreaterThan
            | Operation::LessEqual | Operation::GreaterEqual => self.gen_comparison(quad, table),
            Operation::ArrayStore => self.emit_array_store(quad, table),
            Operation::ArrayLoad => self.emit_array_load(quad, table),
            Operation::Output => self.emit_output(quad, table),
            Operation::Input => {
                let dst = self.operand_to_asm(&quad.result, table);
                let lines = vec![line("call read_int"), text3("mov ", &dst, ", rax")];
                assert(strings_view(lines@) =~= seq!["call read_int"@, "mov "@ + dst@ + ", rax"@]);
                self.emit_lines(lines);
            },
            Operation::Call(n) => {
                let lines = vec![text2("call ", n)];
                assert(strings_view(lines@) =~= seq!["call "@ + n@]);
                self.emit_lines(lines);
            },
            Operation::Return => {
                let lines = vec![line("ret")];
                assert(strings_view(lines@) =~= seq!["ret"@]);
                self.emit_lines(lines);
            },
            Operation::And => self.logic(quad, table, "and rax, "),
            Operation::Or => self.logic(quad, table, "or rax, "),
            Operation::Not => {
                let o = self.operand_to_asm(&quad.operand1, table);
                let d = self.operand_to_asm(&quad.result, table);
                let lines = vec![text2("mov rax, ", &o), line("not rax"), text3("mov ", &d, ", rax")];
                assert(strings_view(lines@) =~= seq!["mov rax, "@ + o@, "not rax"@, "mov "@ + d@ + ", rax"@]);
                self.emit_lines(lines);
            },
            _ => {},
        }
    }

    /// The instructions of one quadruple.
    fn quad_to_instructions(&mut self, quad: &Quadruple, table: &Vec<(String, u32)>)
        requires
            quad_ready(quad@, table_view(table@)),
        ensures
            asm_view(final(self)) == quad_asm(asm_view(old(self)), table_view(table@), quad@),
    {
        match &quad.operation {
            Operation::Label(id) => {
                match self.label_of(*id) {
                    Some(l) => {
                        let lines = vec![with_colon(&l)];
                        assert(strings_view(lines@) =~= seq![l@ + seq![':']]);
                        self.emit_lines(lines);
                    },
                    None => {},
                }
            },
            Operation::Assign => {
                let src = self.operand_to_asm(&quad.operand1, table);
                let dst = self.operand_to_asm(&quad.result, table);
                let lines = vec![text2("mov rax, ", &src), text3("mov ", &dst, ", rax")];
                assert(strings_view(lines@) =~= seq!["mov rax, "@ + src@, "mov "@ + dst@ + ", rax"@]);
                self.emit_lines(lines);
            },
            Operation::Add | Operation::Subtract | Operation::Multiply | Operation::Divide => {
                let float = match &quad.operand1 {
                    Operand::FloatLiteral(_) => true,
                    _ => false,
                } || match &quad.operand2 {
                    Operand::FloatLiteral(_) => true,
                    _ => false,
                };
                let a1 = self.operand_to_asm(&quad.operand1, table);
                let a2 = self.operand_to_asm(&quad.operand2, table);
                let res = self.operand_to_asm(&quad.result, table);
                let lines: Vec<String> = if float {
                    let op = match &quad.operation {
                        Operation::Add => "fadd dword ",
                        Operation::Subtract => "fsub dword ",
                        Operation::Multiply => "fmul dword ",
                        _ => "fdiv dword ",
                    };
                    let lines = vec![text2("fld dword ", &a1), text2(op, &a2), text2("fstp dword ", &res)];
                    assert(strings_view(lines@) =~= arith_lines(quad.operation@, a1@, a2@, res@, float));
                    lines
                } else {
                    let mut lines = vec![text2("mov rax, ", &a1)];
                    match &quad.operation {
                        Operation::Add => lines.push(text2("add rax, ", &a2)),
                        Operation::Subtract => lines.push(text2("sub rax, ", &a2)),
                        Operation::Multiply => lines.push(text2("imul rax, ", &a2)),
                        _ => {
                            lines.push(line("cqo"));
                            lines.push(text2("mov rbx, ", &a2));
                            lines.push(line("idiv rbx"));
                        },
                    }
                    lines.push(text3("mov ", &res, ", rax"));
                    assert(strings_view(lines@) =~= arith_lines(quad.operation@, a1@, a2@, res@, float));
                    lines
                };
                self.emit_lines(lines);
            },
            _ => self.generate_other(quad, table),
        }
    }
}

// ----- Declarations and whole programs -----

pub open spec fn directive_text(t: Type) -> Seq<char> {
    if t == Type::String { "db"@ } else { "dq"@ }
}

pub open spec fn reserve_text(t: Type) -> Seq<char> {
    if t == Type::String { "resb"@ } else { "resq"@ }
}

/// The storage of a declared name, once per name: a variable with a value
/// in the data section, one without in the bss section, an array in the
/// bss section with 8 bytes per element.
pub open spec fn decl_asm(st: AsmV, table: Seq<(Seq<char>, u32)>, q: QuadV) -> AsmV {
    match q.operation {
        OperationV::DeclareVariable(t) => match q.result {
            OperandV::Variable(name) => if st.defined.contains(name) {
                st
            } else {
                let st1 = if !(q.operand1 is Empty) {
                    let init = if q.operand1 is IntLiteral || q.operand1 is FloatLiteral {
                        asm_operand(st, table, q.operand1)
                    } else {
                        (st, Seq::empty())
                    };
                    AsmV { data: init.0.data.push(name + ": "@ + directive_text(t) + seq![' '] + init.1), ..init.0 }
                } else {
                    AsmV { bss: st.bss.push(name + seq![' '] + reserve_text(t) + seq![' '] + decimal(8)), ..st }
                };
                AsmV { defined: st1.defined.push(name), ..st1 }
            },
            _ => st,
        },
        OperationV::DeclareArray(t, size) => match q.result {
            OperandV::ArrayVariable(name, _) => if st.defined.contains(name) {
                st
            } else {
                AsmV {
                    bss: st.bss.push(
                        name + seq![' '] + reserve_text(t) + seq![' '] + decimal((8usize).wrapping_mul(size) as nat),
                    ),
                    defined: st.defined.push(name),
                    ..st
                }
            },
            _ => st,
        },
        _ => st,
    }
}

pub open spec fn decls_asm(st: AsmV, table: Seq<(Seq<char>, u32)>, qs: Seq<QuadV>) -> AsmV
    decreases qs.len(),
{
    if qs.len() == 0 {
        st
    } else {
        decl_asm(decls_asm(st, table, qs.drop_last()), table, qs.last())
    }
}

/// The assembly of a program of quadruples: the data and bss sections with
/// the storage of its names, then the text section with the entry, the
/// instructions of each quadruple, the exit and the helper routines.
pub open spec fn generate_asm(qs: Seq<QuadV>, table: Seq<(Seq<char>, u32)>) -> AsmV {
    let st0 = AsmV {
        instructions: Seq::empty(),
        data: seq!["section .data"@],
        bss: seq!["section .bss"@],
        labels: Map::empty(),
        temp_label_counter: 0,
        floats: Map::empty(),
        float_counter: 0,
        string_counter: 0,
        string_literals: Map::empty(),
        defined: Seq::empty(),
        defined_labels: Set::empty(),
        comparing: false,
    };
    let st1 = decls_asm(st0, table, qs);
    let st2 = add_lines(add_lines(st1, seq!["section .text"@]), start_lines());
    let st3 = quads_asm(labels_of(st2, qs), table, qs);
    let st4 = add_lines(st3, end_lines());
    AsmV { data: st4.data + utility_data_lines(), instructions: st4.instructions + utility_code_lines(), ..st4 }
}

/// The text of the assembly: the three sections, each line ended by a line
/// feed, without the white space at the two ends.
pub open spec fn assembly_text(g: AsmV) -> Seq<char> {
    trim_text(
        join(g.data, "\n"@) + "\n"@ + join(g.bss, "\n"@) + "\n"@ + join(g.instructions, "\n"@) + "\n"@,
    )
}

impl AssemblyGenerator {
    fn process_declaration(&mut self, quad: &Quadruple, table: &Vec<(String, u32)>)
        requires
            quad_ready(quad@, table_view(table@)),
        ensures
            asm_view(final(self)) == decl_asm(asm_view(old(self)), table_view(table@), quad@),
    {
        match &quad.operation {
            Operation::DeclareVariable(typ) => {
                if let Operand::Variable(name) = &quad.result {
                    if !contains_string(&self.defined_variables, name.as_str()) {
                        let directive = self.get_type_directive(typ);
                        if !quad.operand1.is_empty() {
                            let init = match &quad.operand1 {
                                Operand::IntLiteral(_) | Operand::FloatLiteral(_) => self.operand_to_asm(&quad.operand1, table),
                                _ => String::new(),
                            };
                            let mut entry = name.clone();
                            entry.append(": ");
                            entry.append(directive);
                            push_char(&mut entry, ' ');
                            entry.append(init.as_str());
                            assert(entry@ =~= name@ + ": "@ + directive_text(*typ) + seq![' '] + init@);
                            let ghost before = strings_view(self.data_section@);
                            self.data_section.push(entry);
                            assert(strings_view(self.data_section@) =~= before.push(entry@));
                        } else {
                            let size = self.get_type_size(typ);
                            let reserve = self.get_reserve_directive(typ);
                            let mut entry = name.clone();
                            push_char(&mut entry, ' ');
                            entry.append(reserve);
                            push_char(&mut entry, ' ');
                            push_decimal(&mut entry, size);
                            assert(entry@ =~= name@ + seq![' '] + reserve_text(*typ) + seq![' '] + decimal(8));
                            let ghost before = strings_view(self.bss_section@);
                            self.bss_section.push(entry);
                            assert(strings_view(self.bss_section@) =~= before.push(entry@));
                        }
                        let ghost before = strings_view(self.defined_variables@);
                        self.defined_variables.push(name.clone());
                        assert(strings_view(self.defined_variables@) =~= before.push(name@));
                    }
                }
            },
            Operation::DeclareArray(typ, size) => {
                if let Operand::ArrayVariable(name, _) = &quad.result {
                    if !contains_string(&self.defined_variables, name.as_str()) {
                        let bytes = self.get_type_size(typ).wrapping_mul(*size);
                        let reserve = self.get_reserve_directive(typ);
                        let mut entry = name.clone();
                        push_char(&mut entry, ' ');
                        entry.append(reserve);
                        push_char(&mut entry, ' ');
                        push_decimal(&mut entry, bytes);
                        assert(entry@ =~= name@ + seq![' '] + reserve_text(*typ) + seq![' '] + decimal((8usize).wrapping_mul(*size) as nat));
                        let ghost before = strings_view(self.bss_section@);
                        self.bss_section.push(entry);
                        assert(strings_view(self.bss_section@) =~= before.push(entry@));
                        let ghost defined = strings_view(self.defined_variables@);
                        self.defined_variables.push(name.clone());
                        assert(strings_view(self.defined_variables@) =~= defined.push(name@));
                    }
                }
            },
            _ => {},
        }
    }

    /// The storage of every declared name.
    pub fn process_declarations(&mut self, program: &QuadrupleProgram, table: &Vec<(String, u32)>)
        requires
            quads_ready(program@.quads, table_view(table@)),
        ensures
            asm_view(final(self)) == decls_asm(asm_view(old(self)), table_view(table@), program@.quads),
    {
        let ghost qs = program@.quads;
        let ghost st0 = asm_view(self);
        let mut i: usize = 0;
        assert(qs.take(0) =~= Seq::<QuadV>::empty());
        while i < program.quadruples.len()
            invariant
                i <= program.quadruples@.len(),
                qs == program@.quads,
                quads_ready(qs, table_view(table@)),
                st0 == asm_view(old(self)),
                asm_view(self) == decls_asm(st0, table_view(table@), qs.take(i as int)),
            decreases program.quadruples@.len() - i,
        {
            assert(qs[i as int] == program.quadruples@[i as int]@);
            assert(qs.take(i + 1).drop_last() =~= qs.take(i as int));
            self.process_declaration(&program.quadruples[i], table);
            i = i + 1;
        }
        assert(qs.take(qs.len() as int) =~= qs);
    }

    /// Names the labels, then writes the instructions of every quadruple.
    pub fn process_operations(&mut self, program: &QuadrupleProgram, table: &Vec<(String, u32)>)
        requires
            quads_ready(program@.quads, table_view(table@)),
        ensures
            asm_view(final(self)) == quads_asm(labels_of(asm_view(old(self)), program@.quads), table_view(table@), program@.quads),
    {
        let ghost qs = program@.quads;
        let ghost st0 = asm_view(self);
        let mut i: usize = 0;
        assert(qs.take(0) =~= Seq::<QuadV>::empty());
        while i < program.quadruples.len()
            invariant
                i <= program.quadruples@.len(),
                qs == program@.quads,
                st0 == asm_view(old(self)),
                asm_view(self) == labels_of(st0, qs.take(i as int)),
            decreases program.quadruples@.len() - i,
        {
            assert(qs[i as int] == program.quadruples@[i as int]@);
            assert(qs.take(i + 1).drop_last() =~= qs.take(i as int));
            if let Operation::Label(id) = program.quadruples[i].operation {
                let mut name = String::new();
                push_char(&mut name, 'L');
                push_decimal(&mut name, id);
                let ghost lv = self.label_map@;
                let ghost nv = name@;
                self.label_map.insert(id, name);
                assert(self.label_map@.map_values(|s: String| s@) =~= lv.map_values(|s: String| s@).insert(id, nv));
                assert(nv =~= seq!['L'] + decimal(id as nat));
            }
            i = i + 1;
        }
        assert(qs.take(qs.len() as int) =~= qs);
        let ghost st1 = asm_view(self);
        let mut i: usize = 0;
        assert(qs.take(0) =~= Seq::<QuadV>::empty());
        while i < program.quadruples.len()
            invariant
                i <= program.quadruples@.len(),
                qs == program@.quads,
                quads_ready(qs, table_view(table@)),
                st1 == labels_of(st0, qs),
                asm_view(self) == quads_asm(st1, table_view(table@), qs.take(i as int)),
            decreases program.quadruples@.len() - i,
        {
            assert(qs[i as int] == program.quadruples@[i as int]@);
            assert(qs.take(i + 1).drop_last() =~= qs.take(i as int));
            self.quad_to_instructions(&program.quadruples[i], table);
            i = i + 1;
        }
        assert(qs.take(qs.len() as int) =~= qs);
    }

    /// Translates `program` from scratch; `table` gives the bits of each
    /// float constant.
    pub fn generate(&mut self, program: &QuadrupleProgram, table: &Vec<(String, u32)>)
        requires
            quads_ready(program@.quads, table_view(table@)),
        ensures
            asm_view(final(self)) == generate_asm(program@.quads, table_view(table@)),
    {
        *self = AssemblyGenerator::new();
        self.data_section.insert(0, String::from_str("section .data"));
        self.bss_section.insert(0, String::from_str("section .bss"));
        assert(asm_view(self).labels =~= Map::<usize, Seq<char>>::empty());
        assert(asm_view(self).floats =~= Map::<u32, Seq<char>>::empty());
        assert(asm_view(self).data =~= seq!["section .data"@]);
        assert(asm_view(self).bss =~= seq!["section .bss"@]);
        assert(asm_view(self).instructions =~= Seq::<Seq<char>>::empty());
        assert(asm_view(self).defined =~= Seq::<Seq<char>>::empty());
        self.process_declarations(program, table);
        let ghost before = asm_view(self);
        self.instructions.push(String::from_str("section .text"));
        assert(asm_view(self) == add_lines(before, seq!["section .text"@])) by {
            assert(asm_view(self).instructions =~= before.instructions + seq!["section .text"@]);
        }
        self.generate_program_start();
        self.process_operations(program, table);
        self.generate_program_end();
        self.add_utility_functions();
    }

    /// The text of the assembly of `program`; it does not depend on what the
    /// generator held before.
    pub fn get_assambly(&mut self, program: &QuadrupleProgram, table: &Vec<(String, u32)>) -> (r: String)
        requires
            quads_ready(program@.quads, table_view(table@)),
        ensures
            asm_view(final(self)) == generate_asm(program@.quads, table_view(table@)),
            r@ == assembly_text(generate_asm(program@.quads, table_view(table@))),
            final(self).data_section@.len() >= 1 && final(self).data_section@[0]@ == "section .data"@,
            final(self).bss_section@.len() >= 1 && final(self).bss_section@[0]@ == "section .bss"@,
            final(self).instructions@.len() >= 1 && final(self).instructions@[0]@ == "section .text"@,
    {
        proof {
            lemma_assembly_sections(program@.quads, table_view(table@));
        }
        self.generate(program, table);
        let mut result = String::new();
        let data = join_strings(&self.data_section, "\n");
        result.append(data.as_str());
        result.append("\n");
        let bss = join_strings(&self.bss_section, "\n");
        result.append(bss.as_str());
        result.append("\n");
        let code = join_strings(&self.instructions, "\n");
        result.append(code.as_str());
        result.append("\n");
        trim_string(&result)
    }
}

// ----- What the translation needs -----

/// Can `o` be written with the float bits of `table`?
pub fn operand_is_ready(o: &Operand, table: &Vec<(String, u32)>) -> (r: bool)
    ensures
        r == operand_ready(o@, table_view(table@)),
    decreases o,
{
    match o {
        Operand::FloatLiteral(t) => match lookup_bits(table, t) {
            Some(_) => true,
            None => false,
        },
        Operand::TempVariable(n) => {
            let cs = str_chars(n.as_str());
            cs.len() > 0 && (cs[0] as u32) < 128
        },
        Operand::ArrayElement(_, i) => operand_is_ready(i, table),
        _ => true,
    }
}

/// Can every quadruple of `program` be written with the float bits of `table`?
pub fn assembly_ready(program: &QuadrupleProgram, table: &Vec<(String, u32)>) -> (r: bool)
    ensures
        r == quads_ready(program@.quads, table_view(table@)),
{
    let ghost qs = program@.quads;
    let mut i: usize = 0;
    while i < program.quadruples.len()
        invariant
            i <= program.quadruples@.len(),
            qs == program@.quads,
            forall|k: int| 0 <= k < i ==> quad_ready(#[trigger] qs[k], table_view(table@)),
        decreases program.quadruples@.len() - i,
    {
        let q = &program.quadruples[i];
        assert(qs[i as int] == q@);
        if !(operand_is_ready(&q.operand1, table) && operand_is_ready(&q.operand2, table) && operand_is_ready(&q.result, table)) {
            assert(!quad_ready(qs[i as int], table_view(table@)));
            assert(!(operand_ready(qs[i as int].operand1, table_view(table@)) && operand_ready(qs[i as int].operand2, table_view(table@))
                && operand_ready(qs[i as int].result, table_view(table@))));
            return false;
        }
        i = i + 1;
    }
    true
}

/// Does the float written `t` occur in `o`?
pub open spec fn float_in(o: OperandV, t: Seq<char>) -> bool
    decreases o,
{
    match o {
        OperandV::FloatLiteral(x) => x == t,
        OperandV::ArrayElement(_, i) => float_in(*i, t),
        _ => false,
    }
}

/// The float texts in `o`, outermost first.
pub open spec fn operand_floats(o: OperandV) -> Seq<Seq<char>>
    decreases o,
{
    match o {
        OperandV::FloatLiteral(x) => seq![x],
        OperandV::ArrayElement(_, i) => operand_floats(*i),
        _ => seq![],
    }
}

/// The float texts of `qs`, quadruple by quadruple, each from its first
/// operand, its second operand and its result.
pub open spec fn program_floats(qs: Seq<QuadV>) -> Seq<Seq<char>>
    decreases qs.len(),
{
    if qs.len() == 0 {
        seq![]
    } else {
        let q = qs.last();
        program_floats(qs.drop_last()) + operand_floats(q.operand1) + operand_floats(q.operand2)
            + operand_floats(q.result)
    }
}

/// Does the float written `t` occur in `q`?
pub open spec fn quad_has_float(q: QuadV, t: Seq<char>) -> bool {
    float_in(q.operand1, t) || float_in(q.operand2, t) || float_in(q.result, t)
}

proof fn lemma_float_in_listed(o: OperandV, t: Seq<char>)
    ensures
        float_in(o, t) <==> operand_floats(o).contains(t),
    decreases o,
{
    match o {
        OperandV::FloatLiteral(x) => {
            if x == t {
                assert(operand_floats(o)[0] == t);
            }
        },
        OperandV::ArrayElement(_, i) => lemma_float_in_listed(*i, t),
        _ => {},
    }
}

proof fn lemma_program_floats_listed(qs: Seq<QuadV>, t: Seq<char>)
    ensures
        program_floats(qs).contains(t) <==> exists|i: int| 0 <= i < qs.len() && #[trigger] quad_has_float(qs[i], t),
    decreases qs.len(),
{
    if qs.len() > 0 {
        let q = qs.last();
        let rest = qs.drop_last();
        lemma_program_floats_listed(rest, t);
        lemma_float_in_listed(q.operand1, t);
        lemma_float_in_listed(q.operand2, t);
        lemma_float_in_listed(q.result, t);
        let a = program_floats(rest);
        let b = operand_floats(q.operand1);
        let c = operand_floats(q.operand2);
        let d = operand_floats(q.result);
        assert(program_floats(qs) == a + b + c + d);
        if program_floats(qs).contains(t) {
            let j = choose|j: int| 0 <= j < program_floats(qs).len() && program_floats(qs)[j] == t;
            if j < a.len() {
                assert(a.contains(t));
                let i = choose|i: int| 0 <= i < rest.len() && #[trigger] quad_has_float(rest[i], t);
                assert(qs[i] == rest[i]);
            } else if j < a.len() + b.len() {
                assert(b[j - a.len()] == t);
                assert(quad_has_float(qs[qs.len() - 1], t));
            } else if j < a.len() + b.len() + c.len() {
                assert(c[j - a.len() - b.len()] == t);
                assert(quad_has_float(qs[qs.len() - 1], t));
            } else {
                assert(d[j - a.len() - b.len() - c.len()] == t);
                assert(quad_has_float(qs[qs.len() - 1], t));
            }
        }
        if exists|i: int| 0 <= i < qs.len() && #[trigger] quad_has_float(qs[i], t) {
            let i = choose|i: int| 0 <= i < qs.len() && #[trigger] quad_has_float(qs[i], t);
            if i < qs.len() - 1 {
                assert(rest[i] == qs[i]);
                assert(quad_has_float(rest[i], t));
                let j = choose|j: int| 0 <= j < a.len() && a[j] == t;
                assert(program_floats(qs)[j] == t);
            } else if float_in(q.operand1, t) {
                let j = choose|j: int| 0 <= j < b.len() && b[j] == t;
                assert(program_floats(qs)[a.len() + j] == t);
            } else if float_in(q.operand2, t) {
                let j = choose|j: int| 0 <= j < c.len() && c[j] == t;
                assert(program_floats(qs)[a.len() + b.len() + j] == t);
            } else {
                let j = choose|j: int| 0 <= j < d.len() && d[j] == t;
                assert(program_floats(qs)[a.len() + b.len() + c.len() + j] == t);
            }
        }
    }
}

/// Appends the float texts of `o` to `out`.
fn push_floats(out: &mut Vec<String>, o: &Operand)
    ensures
        strings_view(final(out)@) == strings_view(old(out)@) + operand_floats(o@),
    decreases o,
{
    match o {
        Operand::FloatLiteral(text) => {
            out.push(text.clone());
            assert(strings_view(out@) =~= strings_view(old(out)@) + operand_floats(o@));
        },
        Operand::ArrayElement(_, i) => {
            push_floats(out, i);
        },
        _ => {
            assert(strings_view(out@) =~= strings_view(old(out)@) + operand_floats(o@));
        },
    }
}

/// The texts of the float constants of `program`, one per occurrence, in
/// the order of the quadruples: the texts whose `f32` bits the translation
/// needs.
pub fn float_texts(program: &QuadrupleProgram) -> (r: Vec<String>)
    ensures
        strings_view(r@) == program_floats(program@.quads),
        forall|t: Seq<char>|
            strings_view(r@).contains(t) <==> exists|i: int|
                0 <= i < program@.quads.len() && #[trigger] quad_has_float(program@.quads[i], t),
{
    let ghost qs = program@.quads;
    let mut r: Vec<String> = Vec::new();
    let mut i: usize = 0;
    assert(qs.take(0) =~= Seq::<QuadV>::empty());
    assert(strings_view(r@) =~= Seq::<Seq<char>>::empty());
    while i < program.quadruples.len()
        invariant
            i <= program.quadruples@.len(),
            qs == program@.quads,
            strings_view(r@) == program_floats(qs.take(i as int)),
        decreases program.quadruples@.len() - i,
    {
        let q = &program.quadruples[i];
        assert(qs[i as int] == q@);
        push_floats(&mut r, &q.operand1);
        push_floats(&mut r, &q.operand2);
        push_floats(&mut r, &q.result);
        assert(qs.take(i + 1).drop_last() =~= qs.take(i as int));
        assert(qs.take(i + 1).last() == q@);
        i = i + 1;
    }
    assert(qs.take(qs.len() as int) =~= qs);
    proof {
        assert forall|t: Seq<char>|
            strings_view(r@).contains(t) <==> exists|k: int|
                0 <= k < qs.len() && #[trigger] quad_has_float(qs[k], t) by {
            lemma_program_floats_listed(qs, t);
        }
    }
    r
}


// ----- Laws of the output -----

/// `b` still begins each section with the line `a` began it with.
pub open spec fn keeps_heads(a: AsmV, b: AsmV) -> bool {
    &&& (a.data.len() >= 1 ==> b.data.len() >= 1 && b.data[0] == a.data[0])
    &&& (a.bss.len() >= 1 ==> b.bss.len() >= 1 && b.bss[0] == a.bss[0])
    &&& (a.instructions.len() >= 1 ==> b.instructions.len() >= 1 && b.instructions[0] == a.instructions[0])
}

proof fn lemma_keeps_heads_trans(a: AsmV, b: AsmV, c: AsmV)
    requires
        keeps_heads(a, b),
        keeps_heads(b, c),
    ensures
        keeps_heads(a, c),
{
}

proof fn lemma_add_lines_keeps(st: AsmV, ls: Seq<Seq<char>>)
    ensures
        keeps_heads(st, add_lines(st, ls)),
{
    let b = add_lines(st, ls);
    if st.instructions.len() >= 1 {
        assert(b.instructions[0] == st.instructions[0]);
    }
}

proof fn lemma_operand_keeps(st: AsmV, table: Seq<(Seq<char>, u32)>, o: OperandV)
    ensures
        keeps_heads(st, asm_operand(st, table, o).0),
        asm_operand(st, table, o).0.instructions == st.instructions,
        asm_operand(st, table, o).0.bss == st.bss,
    decreases o,
{
    let r = asm_operand(st, table, o).0;
    match o {
        OperandV::ArrayElement(_, i) => lemma_operand_keeps(st, table, *i),
        _ => {
            if st.data.len() >= 1 {
                assert(r.data[0] == st.data[0]);
            }
        },
    }
}

proof fn lemma_decls_keep(st: AsmV, table: Seq<(Seq<char>, u32)>, qs: Seq<QuadV>)
    ensures
        keeps_heads(st, decls_asm(st, table, qs)),
        decls_asm(st, table, qs).instructions == st.instructions,
    decreases qs.len(),
{
    if qs.len() > 0 {
        let prev = decls_asm(st, table, qs.drop_last());
        lemma_decls_keep(st, table, qs.drop_last());
        let q = qs.last();
        let r = decl_asm(prev, table, q);
        lemma_operand_keeps(prev, table, q.operand1);
        if prev.data.len() >= 1 {
            assert(r.data.len() >= 1 && r.data[0] == prev.data[0]);
        }
        if prev.bss.len() >= 1 {
            assert(r.bss.len() >= 1 && r.bss[0] == prev.bss[0]);
        }
        assert(keeps_heads(prev, r));
        lemma_keeps_heads_trans(st, prev, r);
    }
}

proof fn lemma_labels_keep(st: AsmV, qs: Seq<QuadV>)
    ensures
        labels_of(st, qs).data == st.data,
        labels_of(st, qs).bss == st.bss,
        labels_of(st, qs).instructions == st.instructions,
    decreases qs.len(),
{
    if qs.len() > 0 {
        lemma_labels_keep(st, qs.drop_last());
    }
}

proof fn lemma_two_operands_keep(st: AsmV, table: Seq<(Seq<char>, u32)>, a: OperandV, b: OperandV)
    ensures
        keeps_heads(st, asm_operand(asm_operand(st, table, a).0, table, b).0),
{
    let x = asm_operand(st, table, a).0;
    lemma_operand_keeps(st, table, a);
    lemma_operand_keeps(x, table, b);
    lemma_keeps_heads_trans(st, x, asm_operand(x, table, b).0);
}

proof fn lemma_three_operands_keep(st: AsmV, table: Seq<(Seq<char>, u32)>, a: OperandV, b: OperandV, c: OperandV)
    ensures
        keeps_heads(st, asm_operand(asm_operand(asm_operand(st, table, a).0, table, b).0, table, c).0),
{
    let y = asm_operand(asm_operand(st, table, a).0, table, b).0;
    lemma_two_operands_keep(st, table, a, b);
    lemma_operand_keeps(y, table, c);
    lemma_keeps_heads_trans(st, y, asm_operand(y, table, c).0);
}

proof fn lemma_quad_keeps(st: AsmV, table: Seq<(Seq<char>, u32)>, q: QuadV)
    ensures
        keeps_heads(st, quad_asm(st, table, q)),
{
    let r = quad_asm(st, table, q);
    match q.operation {
        OperationV::Label(id) => {
            lemma_add_lines_keeps(st, seq![st.labels[id] + seq![':']]);
        },
        OperationV::Assign => {
            let a = asm_operand(st, table, q.operand1);
            let d = asm_operand(a.0, table, q.result);
            lemma_two_operands_keep(st, table, q.operand1, q.result);
            lemma_add_lines_keeps(d.0, seq!["mov rax, "@ + a.1, "mov "@ + d.1 + ", rax"@]);
            lemma_keeps_heads_trans(st, d.0, r);
        },
        OperationV::Add | OperationV::Subtract | OperationV::Multiply | OperationV::Divide => {
            let float = is_float(q.operand1) || is_float(q.operand2);
            let a1 = asm_operand(st, table, q.operand1);
            let a2 = asm_operand(a1.0, table, q.operand2);
            let d = asm_operand(a2.0, table, q.result);
            lemma_three_operands_keep(st, table, q.operand1, q.operand2, q.result);
            lemma_add_lines_keeps(d.0, arith_lines(q.operation, a1.1, a2.1, d.1, float));
            lemma_keeps_heads_trans(st, d.0, r);
        },
        _ => lemma_other_keeps(st, table, q),
    }
}

proof fn lemma_other_keeps(st: AsmV, table: Seq<(Seq<char>, u32)>, q: QuadV)
    ensures
        keeps_heads(st, other_asm(st, table, q)),
{
    let r = other_asm(st, table, q);
    match q.operation {
        OperationV::Jump(id) => {
            lemma_add_lines_keeps(st, seq!["jmp "@ + st.labels[id]]);
        },
        OperationV::JumpIfTrue(id) | OperationV::JumpIfFalse(id) => {
            let c = asm_operand(st, table, q.operand1);
            lemma_operand_keeps(st, table, q.operand1);
            let s1 = add_lines(c.0, seq!["mov rax, "@ + c.1, "cmp rax, 0"@]);
            lemma_add_lines_keeps(c.0, seq!["mov rax, "@ + c.1, "cmp rax, 0"@]);
            lemma_keeps_heads_trans(st, c.0, s1);
            lemma_add_lines_keeps(s1, seq!["jnz "@ + s1.labels[id]]);
            lemma_add_lines_keeps(s1, seq!["jz "@ + s1.labels[id]]);
            lemma_keeps_heads_trans(st, s1, r);
        },
        OperationV::Equal | OperationV::NotEqual | OperationV::LessThan | OperationV::GreaterThan
        | OperationV::LessEqual | OperationV::GreaterEqual => {
            let s0 = AsmV { comparing: true, ..st };
            let l = asm_operand(s0, table, q.operand1);
            let rr = asm_operand(l.0, table, q.operand2);
            let d = asm_operand(rr.0, table, q.result);
            lemma_three_operands_keep(s0, table, q.operand1, q.operand2, q.result);
            let id = d.0.temp_label_counter;
            let s1 = AsmV { temp_label_counter: id.wrapping_add(1), ..d.0 };
            let float = is_float(q.operand1) || is_float(q.operand2);
            let tl = seq!['L'] + decimal(id as nat) + "_true"@;
            let el = seq!['L'] + decimal(id as nat) + "_end"@;
            let head = if float {
                seq![
                    "    fld   dword "@ + l.1,
                    "    fld  dword "@ + rr.1,
                    "    fcomip st0, st1"@,
                    "     fstp st0"@,
                    "    mov   qword "@ + d.1 + ", 0"@,
                ]
            } else {
                seq!["    mov   rax, "@ + l.1, "    cmp   rax, "@ + rr.1, "    mov   qword "@ + d.1 + ", 0"@]
            };
            let lines = head + seq![
                jump_text(q.operation, float) + tl,
                "    jmp   "@ + el,
                tl + seq![':'],
                "    mov   qword "@ + d.1 + ", 1"@,
                el + seq![':'],
            ];
            lemma_add_lines_keeps(s1, lines);
            assert(keeps_heads(s0, s1));
            lemma_keeps_heads_trans(s0, s1, add_lines(s1, lines));
            assert(r == AsmV { comparing: false, ..add_lines(s1, lines) });
        },
        OperationV::ArrayStore => {
            lemma_two_operands_keep(st, table, q.operand1, q.operand2);
            match q.result {
                OperandV::Variable(arr) => {
                    let v = asm_operand(st, table, q.operand1);
                    let i = asm_operand(v.0, table, q.operand2);
                    let ls = seq![
                        "push rax"@,
                        "push rbx"@,
                        "push rcx"@,
                        "mov rax, "@ + i.1,
                        "mov rbx, 8"@,
                        "imul rax, rbx"@,
                        "mov rbx, "@ + arr,
                        "mov rcx, "@ + v.1,
                        "mov [rbx+rax], rcx"@,
                        "pop rcx"@,
                        "pop rbx"@,
                        "pop rax"@,
                    ];
                    lemma_add_lines_keeps(i.0, ls);
                    lemma_keeps_heads_trans(st, i.0, r);
                },
                _ => {},
            }
        },
        OperationV::ArrayLoad => {
            lemma_two_operands_keep(st, table, q.operand2, q.result);
            match q.operand1 {
                OperandV::Variable(arr) => {
                    let i = asm_operand(st, table, q.operand2);
                    let d = asm_operand(i.0, table, q.result);
                    let ls = seq![
                        "push rax"@,
                        "push rbx"@,
                        "push rdx"@,
                        "mov rax, "@ + i.1,
                        "shl rax, 3"@,
                        "lea rbx, [rel "@ + arr + "]"@,
                        "mov rdx, [rbx + rax]"@,
                        "mov "@ + d.1 + ", rdx"@,
                        "pop rdx"@,
                        "pop rbx"@,
                        "pop rax"@,
                    ];
                    lemma_add_lines_keeps(d.0, ls);
                    lemma_keeps_heads_trans(st, d.0, r);
                },
                _ => {},
            }
        },
        OperationV::Output => {
            let v = asm_operand(st, table, q.operand1);
            lemma_operand_keeps(st, table, q.operand1);
            lemma_add_lines_keeps(v.0, seq!["lea rax, ["@ + v.1 + "]"@, "push rax"@, "call print_string"@, "pop rax"@]);
            lemma_add_lines_keeps(v.0, seq!["mov rax, "@ + v.1, "push rax"@, "call print_int"@, "pop rax"@]);
            lemma_keeps_heads_trans(st, v.0, r);
        },
        OperationV::Input => {
            let d = asm_operand(st, table, q.result);
            lemma_operand_keeps(st, table, q.result);
            lemma_add_lines_keeps(d.0, seq!["call read_int"@, "mov "@ + d.1 + ", rax"@]);
            lemma_keeps_heads_trans(st, d.0, r);
        },
        OperationV::Call(n) => lemma_add_lines_keeps(st, seq!["call "@ + n]),
        OperationV::Return => lemma_add_lines_keeps(st, seq!["ret"@]),
        OperationV::And | OperationV::Or => {
            let l = asm_operand(st, table, q.operand1);
            let rr = asm_operand(l.0, table, q.operand2);
            let d = asm_operand(rr.0, table, q.result);
            lemma_three_operands_keep(st, table, q.operand1, q.operand2, q.result);
            lemma_add_lines_keeps(d.0, seq!["mov rax, "@ + l.1, "and rax, "@ + rr.1, "mov "@ + d.1 + ", rax"@]);
            lemma_add_lines_keeps(d.0, seq!["mov rax, "@ + l.1, "or rax, "@ + rr.1, "mov "@ + d.1 + ", rax"@]);
            lemma_keeps_heads_trans(st, d.0, r);
        },
        OperationV::Not => {
            let o = asm_operand(st, table, q.operand1);
            let d = asm_operand(o.0, table, q.result);
            lemma_two_operands_keep(st, table, q.operand1, q.result);
            lemma_add_lines_keeps(d.0, seq!["mov rax, "@ + o.1, "not rax"@, "mov "@ + d.1 + ", rax"@]);
            lemma_keeps_heads_trans(st, d.0, r);
        },
        _ => {},
    }
}

proof fn lemma_quads_keep(st: AsmV, table: Seq<(Seq<char>, u32)>, qs: Seq<QuadV>)
    ensures
        keeps_heads(st, quads_asm(st, table, qs)),
    decreases qs.len(),
{
    if qs.len() > 0 {
        let prev = quads_asm(st, table, qs.drop_last());
        lemma_quads_keep(st, table, qs.drop_last());
        lemma_quad_keeps(prev, table, qs.last());
        lemma_keeps_heads_trans(st, prev, quads_asm(st, table, qs));
    }
}

/// The assembly of any program opens its data section with `section .data`,
/// its bss section with `section .bss` and its instructions with
/// `section .text`. What a generator held before plays no part: the
/// assembly is a function of the program and the float bits alone (see
/// `get_assambly`).
pub proof fn lemma_assembly_sections(qs: Seq<QuadV>, table: Seq<(Seq<char>, u32)>)
    ensures
        generate_asm(qs, table).data.len() >= 1,
        generate_asm(qs, table).data[0] == "section .data"@,
        generate_asm(qs, table).bss.len() >= 1,
        generate_asm(qs, table).bss[0] == "section .bss"@,
        generate_asm(qs, table).instructions.len() >= 1,
        generate_asm(qs, table).instructions[0] == "section .text"@,
{
    let st0 = AsmV {
        instructions: Seq::empty(),
        data: seq!["section .data"@],
        bss: seq!["section .bss"@],
        labels: Map::empty(),
        temp_label_counter: 0,
        floats: Map::empty(),
        float_counter: 0,
        string_counter: 0,
        string_literals: Map::empty(),
        defined: Seq::empty(),
        defined_labels: Set::empty(),
        comparing: false,
    };
    let st1 = decls_asm(st0, table, qs);
    lemma_decls_keep(st0, table, qs);
    let sa = add_lines(st1, seq!["section .text"@]);
    assert(sa.instructions[0] == "section .text"@);
    lemma_add_lines_keeps(st1, seq!["section .text"@]);
    lemma_keeps_heads_trans(st0, st1, sa);
    let st2 = add_lines(sa, start_lines());
    lemma_add_lines_keeps(sa, start_lines());
    lemma_keeps_heads_trans(st0, sa, st2);
    let sl = labels_of(st2, qs);
    lemma_labels_keep(st2, qs);
    let st3 = quads_asm(sl, table, qs);
    lemma_quads_keep(sl, table, qs);
    let st4 = add_lines(st3, end_lines());
    lemma_add_lines_keeps(st3, end_lines());
    let g = generate_asm(qs, table);
    assert(g.data[0] == st4.data[0]);
    assert(g.instructions[0] == st4.instructions[0]);
}

} // verus!

verus! {

/// What an integer instruction on `rax` with operand text `operand` leaves
/// in `rax`, when `rax` holds `x` and the operand holds `y`: `add` adds,
/// `sub` subtracts, `imul` multiplies; other lines are no such instruction.
pub open spec fn rax_after(line: Seq<char>, operand: Seq<char>, x: int, y: int) -> Option<int> {
    if line == "add rax, "@ + operand {
        Some(x + y)
    } else if line == "sub rax, "@ + operand {
        Some(x - y)
    } else if line == "imul rax, "@ + operand {
        Some(x * y)
    } else {
        None
    }
}

/// The value a quadruple of integer arithmetic computes from its operands.
pub open spec fn arith_value(op: OperationV, x: int, y: int) -> int {
    match op {
        OperationV::Add => x + y,
        OperationV::Subtract => x - y,
        _ => x * y,
    }
}

/// An integer addition, subtraction or multiplication loads its first
/// operand into `rax`, applies an instruction that leaves in `rax` the
/// first operand plus, minus or times the second (`x - y` for a
/// subtraction, never `y - x` or `x + y`), and stores `rax` into the result.
pub proof fn lemma_integer_arithmetic(st: AsmV, table: Seq<(Seq<char>, u32)>, q: QuadV, x: int, y: int)
    requires
        q.operation is Add || q.operation is Subtract || q.operation is Multiply,
        !is_float(q.operand1),
        !is_float(q.operand2),
    ensures
        ({
            let a1 = asm_operand(st, table, q.operand1);
            let a2 = asm_operand(a1.0, table, q.operand2);
            let d = asm_operand(a2.0, table, q.result);
            let before = d.0.instructions;
            let out = quad_asm(st, table, q).instructions;
            &&& out.len() == before.len() + 3
            &&& out.subrange(0, before.len() as int) == before
            &&& out[before.len() as int] == "mov rax, "@ + a1.1
            &&& rax_after(out[before.len() + 1int], a2.1, x, y) == Some(arith_value(q.operation, x, y))
            &&& out[before.len() + 2int] == "mov "@ + d.1 + ", rax"@
        }),
{
    reveal_strlit("add rax, ");
    reveal_strlit("sub rax, ");
    reveal_strlit("imul rax, ");
    let a1 = asm_operand(st, table, q.operand1);
    let a2 = asm_operand(a1.0, table, q.operand2);
    let d = asm_operand(a2.0, table, q.result);
    let before = d.0.instructions;
    let out = quad_asm(st, table, q).instructions;
    assert(out.subrange(0, before.len() as int) =~= before);
    let line = out[before.len() + 1int];
    let t = a2.1;
    assert(("add rax, "@ + t)[0] == 'a');
    assert(("sub rax, "@ + t)[0] == 's');
    assert(("imul rax, "@ + t)[0] == 'i');
    if q.operation is Subtract {
        assert(line == "sub rax, "@ + t);
        assert(line != "add rax, "@ + t);
    } else if q.operation is Multiply {
        assert(line == "imul rax, "@ + t);
        assert(line != "add rax, "@ + t);
        assert(line != "sub rax, "@ + t);
    }
}

} // verus!

verus! {

/// The operation that the x87 instruction `line`, with memory operand
/// `operand`, applies with `st0` as its left operand, leaving the result in
/// `st0`: `fsub` gives `st0 - operand`, `fdiv` gives `st0 / operand`.
pub open spec fn x87_operation(line: Seq<char>, operand: Seq<char>) -> Option<OperationV> {
    if line == "fadd dword "@ + operand {
        Some(OperationV::Add)
    } else if line == "fsub dword "@ + operand {
        Some(OperationV::Subtract)
    } else if line == "fmul dword "@ + operand {
        Some(OperationV::Multiply)
    } else if line == "fdiv dword "@ + operand {
        Some(OperationV::Divide)
    } else {
        None
    }
}

/// Arithmetic with a float constant runs on the x87 unit: it loads the first
/// operand into `st0`, applies the quadruple's own operation with the second
/// operand on the right, and stores `st0` into the result.
pub proof fn lemma_float_arithmetic(st: AsmV, table: Seq<(Seq<char>, u32)>, q: QuadV)
    requires
        q.operation is Add || q.operation is Subtract || q.operation is Multiply || q.operation is Divide,
        is_float(q.operand1) || is_float(q.operand2),
    ensures
        ({
            let a1 = asm_operand(st, table, q.operand1);
            let a2 = asm_operand(a1.0, table, q.operand2);
            let d = asm_operand(a2.0, table, q.result);
            let before = d.0.instructions;
            let out = quad_asm(st, table, q).instructions;
            &&& out.len() == before.len() + 3
            &&& out.subrange(0, before.len() as int) == before
            &&& out[before.len() as int] == "fld dword "@ + a1.1
            &&& x87_operation(out[before.len() + 1int], a2.1) == Some(q.operation)
            &&& out[before.len() + 2int] == "fstp dword "@ + d.1
        }),
{
    reveal_strlit("fadd dword ");
    reveal_strlit("fsub dword ");
    reveal_strlit("fmul dword ");
    reveal_strlit("fdiv dword ");
    let a1 = asm_operand(st, table, q.operand1);
    let a2 = asm_operand(a1.0, table, q.operand2);
    let d = asm_operand(a2.0, table, q.result);
    let before = d.0.instructions;
    let out = quad_asm(st, table, q).instructions;
    assert(out.subrange(0, before.len() as int) =~= before);
    let line = out[before.len() + 1int];
    let t = a2.1;
    assert(("fadd dword "@ + t)[1] == 'a');
    assert(("fsub dword "@ + t)[1] == 's');
    assert(("fmul dword "@ + t)[1] == 'm');
    assert(("fdiv dword "@ + t)[1] == 'd');
    if q.operation is Subtract {
        assert(line == "fsub dword "@ + t);
        assert(line != "fadd dword "@ + t);
    } else if q.operation is Multiply {
        assert(line == "fmul dword "@ + t);
        assert(line != "fadd dword "@ + t);
        assert(line != "fsub dword "@ + t);
    } else if q.operation is Divide {
        assert(line == "fdiv dword "@ + t);
        assert(line != "fadd dword "@ + t);
        assert(line != "fsub dword "@ + t);
        assert(line != "fmul dword "@ + t);
    }
}

/// An integer division loads the first operand into `rax` as the dividend,
/// sign-extends it into `rdx`, divides by the second operand through `rbx`,
/// and stores the quotient, left in `rax`, into the result.
pub proof fn lemma_integer_division(st: AsmV, table: Seq<(Seq<char>, u32)>, q: QuadV)
    requires
        q.operation is Divide,
        !is_float(q.operand1),
        !is_float(q.operand2),
    ensures
        ({
            let a1 = asm_operand(st, table, q.operand1);
            let a2 = asm_operand(a1.0, table, q.operand2);
            let d = asm_operand(a2.0, table, q.result);
            quad_asm(st, table, q).instructions == d.0.instructions + seq![
                "mov rax, "@ + a1.1,
                "cqo"@,
                "mov rbx, "@ + a2.1,
                "idiv rbx"@,
                "mov "@ + d.1 + ", rax"@,
            ]
        }),
{
    let a1 = asm_operand(st, table, q.operand1);
    let a2 = asm_operand(a1.0, table, q.operand2);
    let d = asm_operand(a2.0, table, q.result);
    assert(quad_asm(st, table, q).instructions =~= d.0.instructions + seq![
        "mov rax, "@ + a1.1,
        "cqo"@,
        "mov rbx, "@ + a2.1,
        "idiv rbx"@,
        "mov "@ + d.1 + ", rax"@,
    ]);
}

} // verus!

verus! {

proof fn lemma_operand_keeps_labels(st: AsmV, table: Seq<(Seq<char>, u32)>, o: OperandV)
    ensures
        asm_operand(st, table, o).0.labels == st.labels,
    decreases o,
{
    match o {
        OperandV::ArrayElement(_, i) => lemma_operand_keeps_labels(st, table, *i),
        _ => {},
    }
}

/// Is the jump `line` to `target` taken after `cmp rax, 0` with `v` in
/// `rax`: `jnz` when `v` is not zero, `jz` when it is; other lines are no
/// such jump.
pub open spec fn zero_test_jump_taken(line: Seq<char>, target: Seq<char>, v: int) -> Option<bool> {
    if line == "jnz "@ + target {
        Some(v != 0)
    } else if line == "jz "@ + target {
        Some(v == 0)
    } else {
        None
    }
}

/// A conditional jump loads its condition into `rax`, compares it with 0,
/// and jumps to its label exactly when the condition is true (non-zero) for
/// `JumpIfTrue`, and exactly when it is false (zero) for `JumpIfFalse`.
pub proof fn lemma_conditional_jump(st: AsmV, table: Seq<(Seq<char>, u32)>, q: QuadV, id: usize, v: int)
    requires
        q.operation == OperationV::JumpIfTrue(id) || q.operation == OperationV::JumpIfFalse(id),
        st.labels.contains_key(id),
    ensures
        ({
            let c = asm_operand(st, table, q.operand1);
            let before = c.0.instructions;
            let out = quad_asm(st, table, q).instructions;
            &&& out.len() == before.len() + 3
            &&& out.subrange(0, before.len() as int) == before
            &&& out[before.len() as int] == "mov rax, "@ + c.1
            &&& out[before.len() + 1int] == "cmp rax, 0"@
            &&& zero_test_jump_taken(out[before.len() + 2int], st.labels[id], v) == Some(
                if q.operation is JumpIfTrue { v != 0 } else { v == 0 },
            )
        }),
{
    reveal_strlit("jnz ");
    reveal_strlit("jz ");
    let c = asm_operand(st, table, q.operand1);
    let before = c.0.instructions;
    let out = quad_asm(st, table, q).instructions;
    lemma_operand_keeps_labels(st, table, q.operand1);
    assert(out.subrange(0, before.len() as int) =~= before);
    let t = st.labels[id];
    assert(("jnz "@ + t)[1] == 'n');
    assert(("jz "@ + t)[1] == 'z');
    if q.operation is JumpIfFalse {
        assert(out[before.len() + 2int] == "jz "@ + t);
        assert(out[before.len() + 2int] != "jnz "@ + t);
    }
}

} // verus!
