//! The parts of the x86-64 assembly output that do not depend on the program:
//! the entry, the exit, and the helper routines.
use vstd::prelude::*;
use std::collections::{HashMap, HashSet};
use crate::parser::ast::Type;
use crate::parser::error::strings_view;
use crate::codegen::asm_gen::{asm_view, add_lines};

verus! {

/// The state of a translation into NASM assembly: the three sections, and
/// the numbering of labels, floats and strings.
pub struct AssemblyGenerator {
    pub instructions: Vec<String>,
    pub data_section: Vec<String>,
    pub bss_section: Vec<String>,
    pub label_map: HashMap<usize, String>,
    pub temp_label_counter: usize,
    pub float_constants: HashMap<u32, String>,
    pub float_counter: usize,
    pub string_literals: HashMap<String, String>,
    pub string_counter: usize,
    pub defined_variables: Vec<String>,
    pub defined_labels: HashSet<String>,
    pub current_operation_is_comparison: bool,
}

/// The lines of the program's entry: set up a stack frame.
pub open spec fn start_lines() -> Seq<Seq<char>> {
    seq!["global _start"@, "_start:"@, "    push rbp"@, "    mov rbp, rsp"@, "    sub rsp, 1024"@]
}

/// The lines of the program's exit: the `exit(0)` system call.
pub open spec fn end_lines() -> Seq<Seq<char>> {
    seq!["    mov rax, 60"@, "    xor rdi, rdi"@, "    syscall"@]
}

/// The buffers the helper routines use.
pub open spec fn utility_data_lines() -> Seq<Seq<char>> {
    seq![
        "buffer: times 32 db 0"@,
        "newline: db 10, 0"@,
        "input_buffer: times 256 db 0"@,
        "float_format: db \"%f\", 0"@
    ]
}

/// The helper routines: printing and reading integers.
pub open spec fn utility_code_lines() -> Seq<Seq<char>> {
    seq![
        ""@,
        "; Function to print integers"@,
        "print_int:"@,
        "    push rbp"@,
        "    mov rbp, rsp"@,
        "    push rbx"@,
        "    push r12"@,
        "    push r13"@,
        "    mov rax, [rsp+40]"@,
        "    mov rcx, 10"@,
        "    mov rbx, buffer+31"@,
        "    mov byte [rbx], 0"@,
        "    dec rbx"@,
        "    mov r12, 0"@,
        "    cmp rax, 0"@,
        "    jge .positive"@,
        "    mov r12, 1"@,
        "    neg rax"@,
        ".positive:"@,
        ".loop:"@,
        "    xor rdx, rdx"@,
        "    div rcx"@,
        "    add dl, '0'"@,
        "    mov [rbx], dl"@,
        "    dec rbx"@,
        "    test rax, rax"@,
        "    jnz .loop"@,
        "    cmp r12, 1"@,
        "    jne .print"@,
        "    mov byte [rbx], '-'"@,
        "    dec rbx"@,
        ".print:"@,
        "    inc rbx"@,
        "    mov rax, 1"@,
        "    mov rdi, 1"@,
        "    mov rsi, rbx"@,
        "    mov rdx, buffer+31"@,
        "    sub rdx, rbx"@,
        "    syscall"@,
        "    mov rax, 1"@,
        "    mov rdi, 1"@,
        "    mov rsi, newline"@,
        "    mov rdx, 1"@,
        "    syscall"@,
        "    pop r13"@,
        "    pop r12"@,
        "    pop rbx"@,
        "    pop rbp"@,
        "    ret"@,
        ""@,
        "; Function to read integers"@,
        "read_int:"@,
        "    push rbp"@,
        "    mov rbp, rsp"@,
        "    push rbx"@,
        "    push r12"@,
        "    mov rax, 0"@,
        "    mov rdi, 0"@,
        "    mov rsi, input_buffer"@,
        "    mov rdx, 255"@,
        "    syscall"@,
        "    mov rcx, 0"@,
        "    mov rbx, input_buffer"@,
        "    mov r12, 0"@,
        "    cmp byte [rbx], '-'"@,
        "    jne .parse_loop"@,
        "    mov r12, 1"@,
        "    inc rbx"@,
        ".parse_loop:"@,
        "    movzx rax, byte [rbx]"@,
        "    cmp al, 10"@,
        "    je .parse_done"@,
        "    cmp al, 0"@,
        "    je .parse_done"@,
        "    sub al, '0'"@,
        "    imul rcx, 10"@,
        "    add rcx, rax"@,
        "    inc rbx"@,
        "    jmp .parse_loop"@,
        ".parse_done:"@,
        "    cmp r12, 1"@,
        "    jne .return"@,
        "    neg rcx"@,
        ".return:"@,
        "    mov rax, rcx"@,
        "    pop r12"@,
        "    pop rbx"@,
        "    pop rbp"@,
        "    ret"@,
        ""@,
        "; Function to print floats"@,
        "print_float:"@,
        "    push rbp"@,
        "    mov rbp, rsp"@,
        "    fstp qword [rsp-8]"@,
        "    sub rsp, 8"@,
        "    fld qword [rsp]"@,
        "    lea rbx, [buffer]"@,
        "    fld st0"@,
        "    frndint"@,
        "    fistp qword [rbx]"@,
        "    mov rax, [rbx]"@,
        "    push rax"@,
        "    call print_float_helper"@,
        "    add rsp, 8"@,
        "    add rsp, 8"@,
        "    pop rbp"@,
        "    ret"@,
        "print_float_helper:"@,
        "    push rbp"@,
        "    mov rbp, rsp"@,
        "    mov rax, [rsp+16]"@,
        "    push rax"@,
        "    call print_int"@,
        "    add rsp, 8"@,
        "    pop rbp"@,
        "    ret"@,
        ""@,
        "; Function to read floats"@,
        "read_float:"@,
        "    push rbp"@,
        "    mov rbp, rsp"@,
        "    call read_int"@,
        "    cvtsi2sd xmm0, rax"@,
        "    pop rbp"@,
        "    ret"@,
        ""@,
        "; Function to print strings"@,
        "print_string:"@,
        "    push rbp"@,
        "    mov rbp, rsp"@,
        "    push rbx"@,
        "    mov rbx, [rsp+24]"@,
        "    mov rdx, 0"@,
        ".strlen_loop:"@,
        "    cmp byte [rbx+rdx], 0"@,
        "    je .print_it"@,
        "    inc rdx"@,
        "    jmp .strlen_loop"@,
        ".print_it:"@,
        "    mov rax, 1"@,
        "    mov rdi, 1"@,
        "    mov rsi, rbx"@,
        "    syscall"@,
        "    pop rbx"@,
        "    pop rbp"@,
        "    ret"@,
        ""@,
        "; Function to read strings"@,
        "read_string:"@,
        "    push rbp"@,
        "    mov rbp, rsp"@,
        "    mov rsi, [rsp+16]"@,
        "    mov rdx, [rsp+24]"@,
        "    mov rax, 0"@,
        "    mov rdi, 0"@,
        "    syscall"@,
        "    mov rbx, rsi"@,
        "    add rbx, rax"@,
        "    dec rbx"@,
        "    cmp byte [rbx], 10"@,
        "    jne .done"@,
        "    mov byte [rbx], 0"@,
        ".done:"@,
        "    pop rbp"@,
        "    ret"@
    ]
}

fn push_lines(target: &mut Vec<String>, lines: &Vec<&str>)
    ensures
        strings_view(final(target)@) == strings_view(old(target)@) + lines@.map_values(|s: &str| s@),
{
    let ghost w = lines@.map_values(|s: &str| s@);
    let mut i: usize = 0;
    assert(strings_view(target@) =~= strings_view(old(target)@) + w.take(0));
    while i < lines.len()
        invariant
            i <= lines@.len(),
            w == lines@.map_values(|s: &str| s@),
            strings_view(target@) == strings_view(old(target)@) + w.take(i as int),
        decreases lines@.len() - i,
    {
        let ghost before = strings_view(target@);
        target.push(String::from_str(lines[i]));
        assert(strings_view(target@) =~= before.push(w[i as int]));
        assert(w.take(i + 1) =~= w.take(i as int).push(w[i as int]));
        i = i + 1;
    }
    assert(w.take(w.len() as int) =~= w);
}

impl AssemblyGenerator {
    /// A generator with empty sections, no label, float or string yet.
    pub fn new() -> (r: AssemblyGenerator)
        ensures
            r.instructions@.len() == 0,
            r.data_section@.len() == 0,
            r.bss_section@.len() == 0,
            r.label_map@ == Map::<usize, String>::empty(),
            r.float_constants@ == Map::<u32, String>::empty(),
            r.string_literals@ == Map::<String, String>::empty(),
            r.defined_variables@.len() == 0,
            r.defined_labels@ == Set::<String>::empty(),
            r.temp_label_counter == 0,
            r.float_counter == 0,
            r.string_counter == 0,
            !r.current_operation_is_comparison,
    {
        AssemblyGenerator {
            instructions: Vec::new(),
            data_section: Vec::new(),
            bss_section: Vec::new(),
            label_map: HashMap::new(),
            temp_label_counter: 0,
            float_constants: HashMap::new(),
            float_counter: 0,
            string_literals: HashMap::new(),
            string_counter: 0,
            defined_variables: Vec::new(),
            defined_labels: HashSet::new(),
            current_operation_is_comparison: false,
        }
    }

    /// Appends the program's entry to the instructions.
    pub fn generate_program_start(&mut self)
        ensures
            asm_view(final(self)) == add_lines(asm_view(old(self)), start_lines()),
            strings_view(final(self).instructions@) == strings_view(old(self).instructions@) + start_lines(),
            final(self).data_section == old(self).data_section,
            final(self).bss_section == old(self).bss_section,
    {
        let lines = vec!["global _start", "_start:", "    push rbp", "    mov rbp, rsp", "    sub rsp, 1024"];
        assert(lines@.map_values(|s: &str| s@) =~= start_lines());
        push_lines(&mut self.instructions, &lines);
    }

    /// Appends the program's exit to the instructions.
    pub fn generate_program_end(&mut self)
        ensures
            asm_view(final(self)) == add_lines(asm_view(old(self)), end_lines()),
            strings_view(final(self).instructions@) == strings_view(old(self).instructions@) + end_lines(),
            final(self).data_section == old(self).data_section,
            final(self).bss_section == old(self).bss_section,
    {
        let lines = vec!["    mov rax, 60", "    xor rdi, rdi", "    syscall"];
        assert(lines@.map_values(|s: &str| s@) =~= end_lines());
        push_lines(&mut self.instructions, &lines);
    }

    /// Appends the helper routines to the instructions and their buffers to
    /// the data section (the routines are those of `lemma_utility_routines`).
    pub fn add_utility_functions(&mut self)
        ensures
            asm_view(final(self)) == (crate::codegen::asm_gen::AsmV {
                data: asm_view(old(self)).data + utility_data_lines(),
                instructions: asm_view(old(self)).instructions + utility_code_lines(),
                ..asm_view(old(self))
            }),
            strings_view(final(self).data_section@) == strings_view(old(self).data_section@) + utility_data_lines(),
            strings_view(final(self).instructions@) == strings_view(old(self).instructions@) + utility_code_lines(),
            final(self).bss_section == old(self).bss_section,
    {
        let data = vec![
            "buffer: times 32 db 0",
            "newline: db 10, 0",
            "input_buffer: times 256 db 0",
            "float_format: db \"%f\", 0"
        ];
        assert(data@.map_values(|s: &str| s@) =~= utility_data_lines());
        push_lines(&mut self.data_section, &data);
        let code = vec![
            "",
            "; Function to print integers",
            "print_int:",
            "    push rbp",
            "    mov rbp, rsp",
            "    push rbx",
            "    push r12",
            "    push r13",
            "    mov rax, [rsp+40]",
            "    mov rcx, 10",
            "    mov rbx, buffer+31",
            "    mov byte [rbx], 0",
            "    dec rbx",
            "    mov r12, 0",
            "    cmp rax, 0",
            "    jge .positive",
            "    mov r12, 1",
            "    neg rax",
            ".positive:",
            ".loop:",
            "    xor rdx, rdx",
            "    div rcx",
            "    add dl, '0'",
            "    mov [rbx], dl",
            "    dec rbx",
            "    test rax, rax",
            "    jnz .loop",
            "    cmp r12, 1",
            "    jne .print",
            "    mov byte [rbx], '-'",
            "    dec rbx",
            ".print:",
            "    inc rbx",
            "    mov rax, 1",
            "    mov rdi, 1",
            "    mov rsi, rbx",
            "    mov rdx, buffer+31",
            "    sub rdx, rbx",
            "    syscall",
            "    mov rax, 1",
            "    mov rdi, 1",
            "    mov rsi, newline",
            "    mov rdx, 1",
            "    syscall",
            "    pop r13",
            "    pop r12",
            "    pop rbx",
            "    pop rbp",
            "    ret",
            "",
            "; Function to read integers",
            "read_int:",
            "    push rbp",
            "    mov rbp, rsp",
            "    push rbx",
            "    push r12",
            "    mov rax, 0",
            "    mov rdi, 0",
            "    mov rsi, input_buffer",
            "    mov rdx, 255",
            "    syscall",
            "    mov rcx, 0",
            "    mov rbx, input_buffer",
            "    mov r12, 0",
            "    cmp byte [rbx], '-'",
            "    jne .parse_loop",
            "    mov r12, 1",
            "    inc rbx",
            ".parse_loop:",
            "    movzx rax, byte [rbx]",
            "    cmp al, 10",
            "    je .parse_done",
            "    cmp al, 0",
            "    je .parse_done",
            "    sub al, '0'",
            "    imul rcx, 10",
            "    add rcx, rax",
            "    inc rbx",
            "    jmp .parse_loop",
            ".parse_done:",
            "    cmp r12, 1",
            "    jne .return",
            "    neg rcx",
            ".return:",
            "    mov rax, rcx",
            "    pop r12",
            "    pop rbx",
            "    pop rbp",
            "    ret",
            "",
            "; Function to print floats",
            "print_float:",
            "    push rbp",
            "    mov rbp, rsp",
            "    fstp qword [rsp-8]",
            "    sub rsp, 8",
            "    fld qword [rsp]",
            "    lea rbx, [buffer]",
            "    fld st0",
            "    frndint",
            "    fistp qword [rbx]",
            "    mov rax, [rbx]",
            "    push rax",
            "    call print_float_helper",
            "    add rsp, 8",
            "    add rsp, 8",
            "    pop rbp",
            "    ret",
            "print_float_helper:",
            "    push rbp",
            "    mov rbp, rsp",
            "    mov rax, [rsp+16]",
            "    push rax",
            "    call print_int",
            "    add rsp, 8",
            "    pop rbp",
            "    ret",
            "",
            "; Function to read floats",
            "read_float:",
            "    push rbp",
            "    mov rbp, rsp",
            "    call read_int",
            "    cvtsi2sd xmm0, rax",
            "    pop rbp",
            "    ret",
            "",
            "; Function to print strings",
            "print_string:",
            "    push rbp",
            "    mov rbp, rsp",
            "    push rbx",
            "    mov rbx, [rsp+24]",
            "    mov rdx, 0",
            ".strlen_loop:",
            "    cmp byte [rbx+rdx], 0",
            "    je .print_it",
            "    inc rdx",
            "    jmp .strlen_loop",
            ".print_it:",
            "    mov rax, 1",
            "    mov rdi, 1",
            "    mov rsi, rbx",
            "    syscall",
            "    pop rbx",
            "    pop rbp",
            "    ret",
            "",
            "; Function to read strings",
            "read_string:",
            "    push rbp",
            "    mov rbp, rsp",
            "    mov rsi, [rsp+16]",
            "    mov rdx, [rsp+24]",
            "    mov rax, 0",
            "    mov rdi, 0",
            "    syscall",
            "    mov rbx, rsi",
            "    add rbx, rax",
            "    dec rbx",
            "    cmp byte [rbx], 10",
            "    jne .done",
            "    mov byte [rbx], 0",
            ".done:",
            "    pop rbp",
            "    ret"
        ];
        assert(code@.map_values(|s: &str| s@) =~= utility_code_lines());
        push_lines(&mut self.instructions, &code);
    }

    /// A fresh number for a local label; the count wraps around past the
    /// largest `usize`.
    pub fn get_next_temp_label(&mut self) -> (r: usize)
        ensures
            r == old(self).temp_label_counter,
            final(self).temp_label_counter == old(self).temp_label_counter.wrapping_add(1),
            final(self).instructions == old(self).instructions,
            final(self).data_section == old(self).data_section,
            final(self).bss_section == old(self).bss_section,
            final(self).label_map == old(self).label_map,
            final(self).float_constants == old(self).float_constants,
            final(self).float_counter == old(self).float_counter,
            final(self).string_counter == old(self).string_counter,
            final(self).defined_variables == old(self).defined_variables,
            final(self).string_literals == old(self).string_literals,
            final(self).defined_labels == old(self).defined_labels,
            final(self).current_operation_is_comparison == old(self).current_operation_is_comparison,
    {
        let id = self.temp_label_counter;
        self.temp_label_counter = self.temp_label_counter.wrapping_add(1);
        id
    }

    /// Is a float constant used directly, in a comparison?
    pub fn is_direct_usage_context(&self) -> (r: bool)
        ensures
            r == self.current_operation_is_comparison,
    {
        self.current_operation_is_comparison
    }

    /// The data directive for a value of type `typ`.
    pub fn get_type_directive(&self, typ: &Type) -> (r: &'static str)
        ensures
            r@ == (if *typ == Type::String { "db"@ } else { "dq"@ }),
    {
        match typ {
            Type::Int => "dq",
            Type::Float => "dq",
            _ => "db",
        }
    }

    /// The reservation directive for a value of type `typ`.
    pub fn get_reserve_directive(&self, typ: &Type) -> (r: &'static str)
        ensures
            r@ == (if *typ == Type::String { "resb"@ } else { "resq"@ }),
    {
        match typ {
            Type::Int => "resq",
            Type::Float => "resq",
            _ => "resb",
        }
    }

    /// The size in bytes of a value of type `typ`: 8 for every type.
    pub fn get_type_size(&self, typ: &Type) -> (r: usize)
        ensures
            r == 8,
    {
        match typ {
            Type::Int => 8,
            Type::Float => 8,
            _ => 8,
        }
    }

    /// A fresh number for a string constant; the count wraps around past
    /// the largest `usize`.
    pub fn get_next_string_id(&mut self) -> (r: usize)
        ensures
            r == old(self).string_counter,
            final(self).string_counter == old(self).string_counter.wrapping_add(1),
            final(self).instructions == old(self).instructions,
            final(self).data_section == old(self).data_section,
            final(self).bss_section == old(self).bss_section,
            final(self).label_map == old(self).label_map,
            final(self).float_constants == old(self).float_constants,
            final(self).float_counter == old(self).float_counter,
            final(self).temp_label_counter == old(self).temp_label_counter,
            final(self).defined_variables == old(self).defined_variables,
            final(self).string_literals == old(self).string_literals,
            final(self).defined_labels == old(self).defined_labels,
            final(self).current_operation_is_comparison == old(self).current_operation_is_comparison,
    {
        let id = self.string_counter;
        self.string_counter = self.string_counter.wrapping_add(1);
        id
    }
}

} // verus!


verus! {

// ----- The helper routines -----

/// The names of the helper routines, in the order they are defined.
pub open spec fn routine_names() -> Seq<Seq<char>> {
    seq!["print_int"@, "read_int"@, "print_float"@, "print_float_helper"@, "read_float"@, "print_string"@, "read_string"@]
}

/// The place, among the helper lines, of the line that opens routine `j`.
pub open spec fn routine_line(j: int) -> int {
    if j == 0 { 2 }
    else if j == 1 { 51 }
    else if j == 2 { 91 }
    else if j == 3 { 108 }
    else if j == 4 { 119 }
    else if j == 5 { 128 }
    else { 149 }
}

/// Does line `l` open a routine: a name that starts with a letter, then `:`?
pub open spec fn is_routine_label(l: Seq<char>) -> bool {
    l.len() >= 2 && l.last() == ':' && 'a' <= l[0] && l[0] <= 'z'
}

/// Is line `l` a `call` instruction?
pub open spec fn is_call_line(l: Seq<char>) -> bool {
    l.len() >= 9 && l[0] == ' ' && l[1] == ' ' && l[2] == ' ' && l[3] == ' ' && l[4] == 'c' && l[5] == 'a'
        && l[6] == 'l' && l[7] == 'l' && l[8] == ' '
}

/// What holds of helper line `i`: it opens a routine only at the place of
/// one, and a call in it names a routine.
spec fn line_checked(i: int) -> bool {
    let l = utility_code_lines()[i];
    &&& (is_routine_label(l) ==> exists|j: int| 0 <= j < 7 && i == routine_line(j))
    &&& (is_call_line(l) ==> routine_names().contains(l.skip(9)))
}

proof fn lemma_lines_0_28()
    ensures
        forall|i: int| 0 <= i < 28 ==> #[trigger] line_checked(i),
{
    let u = utility_code_lines();
    let names = routine_names();
    reveal_strlit("");
    reveal_strlit("; Function to print integers");
    reveal_strlit("print_int:");
    reveal_strlit("    push rbp");
    reveal_strlit("    mov rbp, rsp");
    reveal_strlit("    push rbx");
    reveal_strlit("    push r12");
    reveal_strlit("    push r13");
    reveal_strlit("    mov rax, [rsp+40]");
    reveal_strlit("    mov rcx, 10");
    reveal_strlit("    mov rbx, buffer+31");
    reveal_strlit("    mov byte [rbx], 0");
    reveal_strlit("    dec rbx");
    reveal_strlit("    mov r12, 0");
    reveal_strlit("    cmp rax, 0");
    reveal_strlit("    jge .positive");
    reveal_strlit("    mov r12, 1");
    reveal_strlit("    neg rax");
    reveal_strlit(".positive:");
    reveal_strlit(".loop:");
    reveal_strlit("    xor rdx, rdx");
    reveal_strlit("    div rcx");
    reveal_strlit("    add dl, '0'");
    reveal_strlit("    mov [rbx], dl");
    reveal_strlit("    dec rbx");
    reveal_strlit("    test rax, rax");
    reveal_strlit("    jnz .loop");
    reveal_strlit("    cmp r12, 1");
    assert(line_checked(0));
    assert(line_checked(1));
    assert(routine_line(0) == 2);
    assert(line_checked(2));
    assert(line_checked(3));
    assert(line_checked(4));
    assert(line_checked(5));
    assert(line_checked(6));
    assert(line_checked(7));
    assert(line_checked(8));
    assert(line_checked(9));
    assert(line_checked(10));
    assert(line_checked(11));
    assert(line_checked(12));
    assert(line_checked(13));
    assert(line_checked(14));
    assert(line_checked(15));
    assert(line_checked(16));
    assert(line_checked(17));
    assert(line_checked(18));
    assert(line_checked(19));
    assert(line_checked(20));
    assert(line_checked(21));
    assert(line_checked(22));
    assert(line_checked(23));
    assert(line_checked(24));
    assert(line_checked(25));
    assert(line_checked(26));
    assert(line_checked(27));
    assert forall|i: int| 0 <= i < 28 implies #[trigger] line_checked(i) by {
        if i == 0 {
        } else if i == 1 {
        } else if i == 2 {
        } else if i == 3 {
        } else if i == 4 {
        } else if i == 5 {
        } else if i == 6 {
        } else if i == 7 {
        } else if i == 8 {
        } else if i == 9 {
        } else if i == 10 {
        } else if i == 11 {
        } else if i == 12 {
        } else if i == 13 {
        } else if i == 14 {
        } else if i == 15 {
        } else if i == 16 {
        } else if i == 17 {
        } else if i == 18 {
        } else if i == 19 {
        } else if i == 20 {
        } else if i == 21 {
        } else if i == 22 {
        } else if i == 23 {
        } else if i == 24 {
        } else if i == 25 {
        } else if i == 26 {
        } else if i == 27 {
        }
    }
}

proof fn lemma_lines_28_56()
    ensures
        forall|i: int| 28 <= i < 56 ==> #[trigger] line_checked(i),
{
    let u = utility_code_lines();
    let names = routine_names();
    reveal_strlit("    jne .print");
    reveal_strlit("    mov byte [rbx], '-'");
    reveal_strlit("    dec rbx");
    reveal_strlit(".print:");
    reveal_strlit("    inc rbx");
    reveal_strlit("    mov rax, 1");
    reveal_strlit("    mov rdi, 1");
    reveal_strlit("    mov rsi, rbx");
    reveal_strlit("    mov rdx, buffer+31");
    reveal_strlit("    sub rdx, rbx");
    reveal_strlit("    syscall");
    reveal_strlit("    mov rax, 1");
    reveal_strlit("    mov rdi, 1");
    reveal_strlit("    mov rsi, newline");
    reveal_strlit("    mov rdx, 1");
    reveal_strlit("    syscall");
    reveal_strlit("    pop r13");
    reveal_strlit("    pop r12");
    reveal_strlit("    pop rbx");
    reveal_strlit("    pop rbp");
    reveal_strlit("    ret");
    reveal_strlit("");
    reveal_strlit("; Function to read integers");
    reveal_strlit("read_int:");
    reveal_strlit("    push rbp");
    reveal_strlit("    mov rbp, rsp");
    reveal_strlit("    push rbx");
    reveal_strlit("    push r12");
    assert(line_checked(28));
    assert(line_checked(29));
    assert(line_checked(30));
    assert(line_checked(31));
    assert(line_checked(32));
    assert(line_checked(33));
    assert(line_checked(34));
    assert(line_checked(35));
    assert(line_checked(36));
    assert(line_checked(37));
    assert(line_checked(38));
    assert(line_checked(39));
    assert(line_checked(40));
    assert(line_checked(41));
    assert(line_checked(42));
    assert(line_checked(43));
    assert(line_checked(44));
    assert(line_checked(45));
    assert(line_checked(46));
    assert(line_checked(47));
    assert(line_checked(48));
    assert(line_checked(49));
    assert(line_checked(50));
    assert(routine_line(1) == 51);
    assert(line_checked(51));
    assert(line_checked(52));
    assert(line_checked(53));
    assert(line_checked(54));
    assert(line_checked(55));
    assert forall|i: int| 28 <= i < 56 implies #[trigger] line_checked(i) by {
        if i == 28 {
        } else if i == 29 {
        } else if i == 30 {
        } else if i == 31 {
        } else if i == 32 {
        } else if i == 33 {
        } else if i == 34 {
        } else if i == 35 {
        } else if i == 36 {
        } else if i == 37 {
        } else if i == 38 {
        } else if i == 39 {
        } else if i == 40 {
        } else if i == 41 {
        } else if i == 42 {
        } else if i == 43 {
        } else if i == 44 {
        } else if i == 45 {
        } else if i == 46 {
        } else if i == 47 {
        } else if i == 48 {
        } else if i == 49 {
        } else if i == 50 {
        } else if i == 51 {
        } else if i == 52 {
        } else if i == 53 {
        } else if i == 54 {
        } else if i == 55 {
        }
    }
}

proof fn lemma_lines_56_84()
    ensures
        forall|i: int| 56 <= i < 84 ==> #[trigger] line_checked(i),
{
    let u = utility_code_lines();
    let names = routine_names();
    reveal_strlit("    mov rax, 0");
    reveal_strlit("    mov rdi, 0");
    reveal_strlit("    mov rsi, input_buffer");
    reveal_strlit("    mov rdx, 255");
    reveal_strlit("    syscall");
    reveal_strlit("    mov rcx, 0");
    reveal_strlit("    mov rbx, input_buffer");
    reveal_strlit("    mov r12, 0");
    reveal_strlit("    cmp byte [rbx], '-'");
    reveal_strlit("    jne .parse_loop");
    reveal_strlit("    mov r12, 1");
    reveal_strlit("    inc rbx");
    reveal_strlit(".parse_loop:");
    reveal_strlit("    movzx rax, byte [rbx]");
    reveal_strlit("    cmp al, 10");
    reveal_strlit("    je .parse_done");
    reveal_strlit("    cmp al, 0");
    reveal_strlit("    je .parse_done");
    reveal_strlit("    sub al, '0'");
    reveal_strlit("    imul rcx, 10");
    reveal_strlit("    add rcx, rax");
    reveal_strlit("    inc rbx");
    reveal_strlit("    jmp .parse_loop");
    reveal_strlit(".parse_done:");
    reveal_strlit("    cmp r12, 1");
    reveal_strlit("    jne .return");
    reveal_strlit("    neg rcx");
    reveal_strlit(".return:");
    assert(line_checked(56));
    assert(line_checked(57));
    assert(line_checked(58));
    assert(line_checked(59));
    assert(line_checked(60));
    assert(line_checked(61));
    assert(line_checked(62));
    assert(line_checked(63));
    assert(line_checked(64));
    assert(line_checked(65));
    assert(line_checked(66));
    assert(line_checked(67));
    assert(line_checked(68));
    assert(line_checked(69));
    assert(line_checked(70));
    assert(line_checked(71));
    assert(line_checked(72));
    assert(line_checked(73));
    assert(line_checked(74));
    assert(line_checked(75));
    assert(line_checked(76));
    assert(line_checked(77));
    assert(line_checked(78));
    assert(line_checked(79));
    assert(line_checked(80));
    assert(line_checked(81));
    assert(line_checked(82));
    assert(line_checked(83));
    assert forall|i: int| 56 <= i < 84 implies #[trigger] line_checked(i) by {
        if i == 56 {
        } else if i == 57 {
        } else if i == 58 {
        } else if i == 59 {
        } else if i == 60 {
        } else if i == 61 {
        } else if i == 62 {
        } else if i == 63 {
        } else if i == 64 {
        } else if i == 65 {
        } else if i == 66 {
        } else if i == 67 {
        } else if i == 68 {
        } else if i == 69 {
        } else if i == 70 {
        } else if i == 71 {
        } else if i == 72 {
        } else if i == 73 {
        } else if i == 74 {
        } else if i == 75 {
        } else if i == 76 {
        } else if i == 77 {
        } else if i == 78 {
        } else if i == 79 {
        } else if i == 80 {
        } else if i == 81 {
        } else if i == 82 {
        } else if i == 83 {
        }
    }
}

proof fn lemma_lines_84_112()
    ensures
        forall|i: int| 84 <= i < 112 ==> #[trigger] line_checked(i),
{
    let u = utility_code_lines();
    let names = routine_names();
    reveal_strlit("    mov rax, rcx");
    reveal_strlit("    pop r12");
    reveal_strlit("    pop rbx");
    reveal_strlit("    pop rbp");
    reveal_strlit("    ret");
    reveal_strlit("");
    reveal_strlit("; Function to print floats");
    reveal_strlit("print_float:");
    reveal_strlit("    push rbp");
    reveal_strlit("    mov rbp, rsp");
    reveal_strlit("    fstp qword [rsp-8]");
    reveal_strlit("    sub rsp, 8");
    reveal_strlit("    fld qword [rsp]");
    reveal_strlit("    lea rbx, [buffer]");
    reveal_strlit("    fld st0");
    reveal_strlit("    frndint");
    reveal_strlit("    fistp qword [rbx]");
    reveal_strlit("    mov rax, [rbx]");
    reveal_strlit("    push rax");
    reveal_strlit("    call print_float_helper");
    reveal_strlit("    add rsp, 8");
    reveal_strlit("    add rsp, 8");
    reveal_strlit("    pop rbp");
    reveal_strlit("    ret");
    reveal_strlit("print_float_helper:");
    reveal_strlit("    push rbp");
    reveal_strlit("    mov rbp, rsp");
    reveal_strlit("    mov rax, [rsp+16]");
    assert(line_checked(84));
    assert(line_checked(85));
    assert(line_checked(86));
    assert(line_checked(87));
    assert(line_checked(88));
    assert(line_checked(89));
    assert(line_checked(90));
    assert(routine_line(2) == 91);
    assert(line_checked(91));
    assert(line_checked(92));
    assert(line_checked(93));
    assert(line_checked(94));
    assert(line_checked(95));
    assert(line_checked(96));
    assert(line_checked(97));
    assert(line_checked(98));
    assert(line_checked(99));
    assert(line_checked(100));
    assert(line_checked(101));
    assert(line_checked(102));
    reveal_strlit("print_float_helper");
    assert(u[103].skip(9) =~= names[3]);
    assert(line_checked(103));
    assert(line_checked(104));
    assert(line_checked(105));
    assert(line_checked(106));
    assert(line_checked(107));
    assert(routine_line(3) == 108);
    assert(line_checked(108));
    assert(line_checked(109));
    assert(line_checked(110));
    assert(line_checked(111));
    assert forall|i: int| 84 <= i < 112 implies #[trigger] line_checked(i) by {
        if i == 84 {
        } else if i == 85 {
        } else if i == 86 {
        } else if i == 87 {
        } else if i == 88 {
        } else if i == 89 {
        } else if i == 90 {
        } else if i == 91 {
        } else if i == 92 {
        } else if i == 93 {
        } else if i == 94 {
        } else if i == 95 {
        } else if i == 96 {
        } else if i == 97 {
        } else if i == 98 {
        } else if i == 99 {
        } else if i == 100 {
        } else if i == 101 {
        } else if i == 102 {
        } else if i == 103 {
        } else if i == 104 {
        } else if i == 105 {
        } else if i == 106 {
        } else if i == 107 {
        } else if i == 108 {
        } else if i == 109 {
        } else if i == 110 {
        } else if i == 111 {
        }
    }
}

proof fn lemma_lines_112_140()
    ensures
        forall|i: int| 112 <= i < 140 ==> #[trigger] line_checked(i),
{
    let u = utility_code_lines();
    let names = routine_names();
    reveal_strlit("    push rax");
    reveal_strlit("    call print_int");
    reveal_strlit("    add rsp, 8");
    reveal_strlit("    pop rbp");
    reveal_strlit("    ret");
    reveal_strlit("");
    reveal_strlit("; Function to read floats");
    reveal_strlit("read_float:");
    reveal_strlit("    push rbp");
    reveal_strlit("    mov rbp, rsp");
    reveal_strlit("    call read_int");
    reveal_strlit("    cvtsi2sd xmm0, rax");
    reveal_strlit("    pop rbp");
    reveal_strlit("    ret");
    reveal_strlit("");
    reveal_strlit("; Function to print strings");
    reveal_strlit("print_string:");
    reveal_strlit("    push rbp");
    reveal_strlit("    mov rbp, rsp");
    reveal_strlit("    push rbx");
    reveal_strlit("    mov rbx, [rsp+24]");
    reveal_strlit("    mov rdx, 0");
    reveal_strlit(".strlen_loop:");
    reveal_strlit("    cmp byte [rbx+rdx], 0");
    reveal_strlit("    je .print_it");
    reveal_strlit("    inc rdx");
    reveal_strlit("    jmp .strlen_loop");
    reveal_strlit(".print_it:");
    assert(line_checked(112));
    reveal_strlit("print_int");
    assert(u[113].skip(9) =~= names[0]);
    assert(line_checked(113));
    assert(line_checked(114));
    assert(line_checked(115));
    assert(line_checked(116));
    assert(line_checked(117));
    assert(line_checked(118));
    assert(routine_line(4) == 119);
    assert(line_checked(119));
    assert(line_checked(120));
    assert(line_checked(121));
    reveal_strlit("read_int");
    assert(u[122].skip(9) =~= names[1]);
    assert(line_checked(122));
    assert(line_checked(123));
    assert(line_checked(124));
    assert(line_checked(125));
    assert(line_checked(126));
    assert(line_checked(127));
    assert(routine_line(5) == 128);
    assert(line_checked(128));
    assert(line_checked(129));
    assert(line_checked(130));
    assert(line_checked(131));
    assert(line_checked(132));
    assert(line_checked(133));
    assert(line_checked(134));
    assert(line_checked(135));
    assert(line_checked(136));
    assert(line_checked(137));
    assert(line_checked(138));
    assert(line_checked(139));
    assert forall|i: int| 112 <= i < 140 implies #[trigger] line_checked(i) by {
        if i == 112 {
        } else if i == 113 {
        } else if i == 114 {
        } else if i == 115 {
        } else if i == 116 {
        } else if i == 117 {
        } else if i == 118 {
        } else if i == 119 {
        } else if i == 120 {
        } else if i == 121 {
        } else if i == 122 {
        } else if i == 123 {
        } else if i == 124 {
        } else if i == 125 {
        } else if i == 126 {
        } else if i == 127 {
        } else if i == 128 {
        } else if i == 129 {
        } else if i == 130 {
        } else if i == 131 {
        } else if i == 132 {
        } else if i == 133 {
        } else if i == 134 {
        } else if i == 135 {
        } else if i == 136 {
        } else if i == 137 {
        } else if i == 138 {
        } else if i == 139 {
        }
    }
}

proof fn lemma_lines_140_166()
    ensures
        forall|i: int| 140 <= i < 166 ==> #[trigger] line_checked(i),
{
    let u = utility_code_lines();
    let names = routine_names();
    reveal_strlit("    mov rax, 1");
    reveal_strlit("    mov rdi, 1");
    reveal_strlit("    mov rsi, rbx");
    reveal_strlit("    syscall");
    reveal_strlit("    pop rbx");
    reveal_strlit("    pop rbp");
    reveal_strlit("    ret");
    reveal_strlit("");
    reveal_strlit("; Function to read strings");
    reveal_strlit("read_string:");
    reveal_strlit("    push rbp");
    reveal_strlit("    mov rbp, rsp");
    reveal_strlit("    mov rsi, [rsp+16]");
    reveal_strlit("    mov rdx, [rsp+24]");
    reveal_strlit("    mov rax, 0");
    reveal_strlit("    mov rdi, 0");
    reveal_strlit("    syscall");
    reveal_strlit("    mov rbx, rsi");
    reveal_strlit("    add rbx, rax");
    reveal_strlit("    dec rbx");
    reveal_strlit("    cmp byte [rbx], 10");
    reveal_strlit("    jne .done");
    reveal_strlit("    mov byte [rbx], 0");
    reveal_strlit(".done:");
    reveal_strlit("    pop rbp");
    reveal_strlit("    ret");
    assert(line_checked(140));
    assert(line_checked(141));
    assert(line_checked(142));
    assert(line_checked(143));
    assert(line_checked(144));
    assert(line_checked(145));
    assert(line_checked(146));
    assert(line_checked(147));
    assert(line_checked(148));
    assert(routine_line(6) == 149);
    assert(line_checked(149));
    assert(line_checked(150));
    assert(line_checked(151));
    assert(line_checked(152));
    assert(line_checked(153));
    assert(line_checked(154));
    assert(line_checked(155));
    assert(line_checked(156));
    assert(line_checked(157));
    assert(line_checked(158));
    assert(line_checked(159));
    assert(line_checked(160));
    assert(line_checked(161));
    assert(line_checked(162));
    assert(line_checked(163));
    assert(line_checked(164));
    assert(line_checked(165));
    assert forall|i: int| 140 <= i < 166 implies #[trigger] line_checked(i) by {
        if i == 140 {
        } else if i == 141 {
        } else if i == 142 {
        } else if i == 143 {
        } else if i == 144 {
        } else if i == 145 {
        } else if i == 146 {
        } else if i == 147 {
        } else if i == 148 {
        } else if i == 149 {
        } else if i == 150 {
        } else if i == 151 {
        } else if i == 152 {
        } else if i == 153 {
        } else if i == 154 {
        } else if i == 155 {
        } else if i == 156 {
        } else if i == 157 {
        } else if i == 158 {
        } else if i == 159 {
        } else if i == 160 {
        } else if i == 161 {
        } else if i == 162 {
        } else if i == 163 {
        } else if i == 164 {
        } else if i == 165 {
        }
    }
}


/// The helper routines are `print_int`, `read_int`, `print_float`,
/// `print_float_helper`, `read_float`, `print_string` and `read_string`:
/// each is opened by its own line, once and in this order, no other line
/// opens a routine, and every `call` line (`    call ` and a name) names
/// one of them.
pub proof fn lemma_utility_routines()
    ensures
        forall|j: int| 0 <= j < 7 ==> utility_code_lines()[routine_line(j)] == #[trigger] routine_names()[j] + seq![':'],
        forall|j: int, k: int| 0 <= j < k < 7 ==> #[trigger] routine_line(j) < #[trigger] routine_line(k),
        forall|i: int|
            0 <= i < utility_code_lines().len() && is_routine_label(#[trigger] utility_code_lines()[i])
                ==> exists|j: int| 0 <= j < 7 && i == routine_line(j),
        forall|i: int|
            0 <= i < utility_code_lines().len() && is_call_line(#[trigger] utility_code_lines()[i])
                ==> routine_names().contains(utility_code_lines()[i].skip(9)),
{
    lemma_lines_0_28();
    lemma_lines_28_56();
    lemma_lines_56_84();
    lemma_lines_84_112();
    lemma_lines_112_140();
    lemma_lines_140_166();
    let u = utility_code_lines();
    let names = routine_names();
    reveal_strlit("print_int");
    reveal_strlit("print_int:");
    assert(u[2] =~= names[0] + seq![':']);
    reveal_strlit("read_int");
    reveal_strlit("read_int:");
    assert(u[51] =~= names[1] + seq![':']);
    reveal_strlit("print_float");
    reveal_strlit("print_float:");
    assert(u[91] =~= names[2] + seq![':']);
    reveal_strlit("print_float_helper");
    reveal_strlit("print_float_helper:");
    assert(u[108] =~= names[3] + seq![':']);
    reveal_strlit("read_float");
    reveal_strlit("read_float:");
    assert(u[119] =~= names[4] + seq![':']);
    reveal_strlit("print_string");
    reveal_strlit("print_string:");
    assert(u[128] =~= names[5] + seq![':']);
    reveal_strlit("read_string");
    reveal_strlit("read_string:");
    assert(u[149] =~= names[6] + seq![':']);
    assert forall|j: int| 0 <= j < 7 implies u[routine_line(j)] == #[trigger] names[j] + seq![':'] by {
        if j == 0 {} else if j == 1 {} else if j == 2 {} else if j == 3 {} else if j == 4 {} else if j == 5 {} else {}
    }
    assert forall|i: int| 0 <= i < u.len() && is_routine_label(#[trigger] u[i])
        implies exists|j: int| 0 <= j < 7 && i == routine_line(j) by {
        assert(line_checked(i));
    }
    assert forall|i: int| 0 <= i < u.len() && is_call_line(#[trigger] u[i]) implies names.contains(u[i].skip(9)) by {
        assert(line_checked(i));
    }
}

} // verus!
