use rust_compiler::codegen::asm_gen::{assembly_ready, float_texts, lookup_bits};
use rust_compiler::codegen::assembly::AssemblyGenerator;
use rust_compiler::codegen::quadruple::{Operand, Operation, Quadruple, QuadrupleProgram};
use rust_compiler::codegen::quadruple_gen::QuadrupleGenerator;
use rust_compiler::error_reporter::{format_code_context, ErrorReportFormatter, ErrorReporter};
use rust_compiler::lexer::error::LexicalErrorType;
use rust_compiler::lexer::lexer_core::tokenize;
use rust_compiler::lexer::token::Token;
use rust_compiler::parser::ast::{LiteralKind, Program, Type};
use rust_compiler::parser::error::SyntaxError;
use rust_compiler::parser::parser_core::{parse, parse_source};
use rust_compiler::semantics::analyzer_core::SemanticAnalyzer;
use rust_compiler::semantics::error::SemanticError;
use rust_compiler::semantics::source_map::SourceMap;
use rust_compiler::semantics::symbol_table::{Symbol, SymbolKind, SymbolTable, SymbolValue};
use rust_compiler::text::{
    contains_text, decimal_string, get_nth_line, join_strings, position_info, str_chars,
    trim_quote_marks,
};

fn program_of(source: &str) -> Program {
    match parse_source(source) {
        Ok(p) => p,
        Err(e) => panic!("Parse error: {}", e.report(Some(source))),
    }
}

fn analyzed(source: &str) -> SemanticAnalyzer {
    let program = program_of(source);
    let mut analyzer = SemanticAnalyzer::new(&source.to_string());
    analyzer.analyze(&program);
    analyzer
}

fn symbol(name: &str, line: usize) -> Symbol {
    Symbol {
        name: name.to_string(),
        kind: SymbolKind::Variable,
        symbol_type: Type::Int,
        value: SymbolValue::Uninitialized,
        is_constant: false,
        line,
        column: 1,
    }
}

const SMALL: &str = "MainPrgm t ; Var let x : Int ; BeginPg { x := 1 + 2 ; } EndPg ;";

// ----- Text utilities -----

#[test]
fn test_decimal_string_values() {
    assert_eq!(decimal_string(0), "0");
    assert_eq!(decimal_string(7), "7");
    assert_eq!(decimal_string(1024), "1024");
}

#[test]
fn test_position_info_counts_bytes() {
    let cs = str_chars("ab\ncd\nef");
    assert_eq!(position_info(&cs, 0), (1, 1));
    assert_eq!(position_info(&cs, 4), (2, 2));
    assert_eq!(position_info(&cs, 6), (3, 1));
    let accented = str_chars("é\nx");
    assert_eq!(position_info(&accented, 3), (2, 1));
}

#[test]
fn test_nth_line_like_lines() {
    let cs = str_chars("first\nsecond\r\nthird");
    assert_eq!(get_nth_line(&cs, 0), Some("first".to_string()));
    assert_eq!(get_nth_line(&cs, 1), Some("second".to_string()));
    assert_eq!(get_nth_line(&cs, 2), Some("third".to_string()));
    assert_eq!(get_nth_line(&cs, 3), None);
}

#[test]
fn test_join_and_contains() {
    let v = vec!["a".to_string(), "b".to_string(), "c".to_string()];
    assert_eq!(join_strings(&v, ", "), "a, b, c");
    assert_eq!(join_strings(&Vec::new(), ", "), "");
    assert!(contains_text("an invalid character here", "invalid character"));
    assert!(!contains_text("short", "longer text"));
}

#[test]
fn test_trim_quote_marks() {
    assert_eq!(trim_quote_marks(&"'hello'".to_string()), "hello");
    assert_eq!(trim_quote_marks(&"''x'".to_string()), "x");
    assert_eq!(trim_quote_marks(&"plain".to_string()), "plain");
}

// ----- Error reports -----

#[test]
fn test_format_code_context_underlines_token() {
    colored::control::set_override(false);
    let ctx = format_code_context("x := 10;", 6, 2);
    assert_eq!(ctx, " | x := 10;\n |      ^~\n");
    let one = format_code_context("y", 1, 0);
    assert_eq!(one, " | y\n | ^\n");
}

#[test]
fn test_report_lines_split_like_lines() {
    let lines = ErrorReportFormatter::report_lines("one\ntwo\n");
    assert_eq!(lines, vec!["one".to_string(), "two".to_string()]);
    assert!(ErrorReportFormatter::report_lines("").is_empty());
}

#[test]
fn test_lexical_error_report() {
    colored::control::set_override(false);
    let source = "x := 32768;";
    let (_, errors) = tokenize(source);
    assert_eq!(errors.len(), 1);
    let e = &errors[0];
    assert_eq!(e.error_type, LexicalErrorType::IntegerOutOfRange);
    let report = e.report(Some(source));
    assert_eq!(
        report,
        "Lexical Error: Integer '32768' is out of range\n--> line 1, column 5\n | x := 32768;\n |     ^~~~~\nSuggestion: Integer literals must be within the range of -32768 to 32767 (16-bit signed integer)\n"
    );
    assert_eq!(e.get_error_name(), "Lexical Error");
    assert_eq!(e.get_location_info(), (1, 5));
}

#[test]
fn test_lexical_error_kinds() {
    let cases = [
        ("\"open", LexicalErrorType::UnterminatedString),
        ("abcdefghijklmnopq", LexicalErrorType::IdentifierTooLong),
        ("ab__c", LexicalErrorType::ConsecutiveUnderscores),
        ("abc_", LexicalErrorType::TrailingUnderscore),
        ("aBc", LexicalErrorType::InvalidIdentifier),
        ("é", LexicalErrorType::NonAsciiCharacters),
        ("#", LexicalErrorType::InvalidToken),
    ];
    for (source, kind) in cases.iter() {
        let (_, errors) = tokenize(source);
        assert!(!errors.is_empty(), "no error for {}", source);
        assert_eq!(&errors[0].error_type, kind, "for {}", source);
    }
}

#[test]
fn test_lexical_suggestions() {
    let (_, errors) = tokenize("ab__c");
    assert_eq!(errors[0].get_suggestion(), Some("Use single underscores: 'ab_c'".to_string()));
    let (_, errors) = tokenize("abc__");
    assert_eq!(errors[0].error_type, LexicalErrorType::ConsecutiveUnderscores);
    let (_, errors) = tokenize("\"open");
    assert_eq!(errors[0].get_suggestion(), Some("Add a closing quote: \"open\"".to_string()));
}

#[test]
fn test_syntax_error_kinds() {
    let eof = parse_source("MainPrgm test ; Var let x : Int ;");
    match eof {
        Err(SyntaxError::UnexpectedEOF { .. }) => {}
        other => panic!("expected end of input error, got {:?}", other),
    }
    let unexpected = parse_source("MainPrgm test ; Var let x Int ; BeginPg { } EndPg ;");
    match unexpected {
        Err(SyntaxError::UnexpectedToken { ref token, line, column, .. }) => {
            assert_eq!(token, "Int");
            assert_eq!((line, column), (1, 27));
        }
        other => panic!("expected unexpected token error, got {:?}", other),
    }
    let extra = parse_source("MainPrgm test ; Var BeginPg { } EndPg ; x");
    match extra {
        Err(SyntaxError::ExtraToken { ref token, .. }) => assert_eq!(token, "x"),
        other => panic!("expected extra token error, got {:?}", other),
    }
}

#[test]
fn test_syntax_error_report_names_expected() {
    colored::control::set_override(false);
    let source = "MainPrgm test ; Var let x Int ; BeginPg { } EndPg ;";
    let err = parse_source(source).unwrap_err();
    let report = err.report(Some(source));
    assert!(report.starts_with("Syntax Error: "), "{}", report);
    assert!(report.contains("--> line 1, column 27\n"), "{}", report);
    assert!(report.contains("':'"), "{}", report);
}

#[test]
fn test_semantic_error_messages() {
    colored::control::set_override(false);
    let e = SemanticError::UndeclaredIdentifier { name: "y".to_string(), line: 2, column: 3 };
    assert_eq!(e.get_detailed_message(), "Undeclared identifier 'y'");
    assert_eq!(e.get_suggestion(), Some("Declare variable 'y' before using it".to_string()));
    assert_eq!(e.get_location_info(), (2, 3));
    let report = e.report(Some("a\nbcy\n"));
    assert_eq!(
        report,
        "Semantic Error: Undeclared identifier 'y'\n--> line 2, column 3\n | bcy\n |   ^\nSuggestion: Declare variable 'y' before using it\n"
    );
    let d = SemanticError::DivisionByZero { line: 1, column: 1 };
    assert_eq!(d.get_detailed_message(), "Division by zero detected");
    let empty = SemanticError::EmptyProgram;
    assert_eq!(empty.get_location_info(), (0, 0));
}

#[test]
fn test_invalid_array_size_error() {
    let source = "MainPrgm t ; Var let a : [Int ; 0] ; BeginPg { } EndPg ;";
    let analyzer = analyzed(source);
    let errors = analyzer.get_errors();
    assert!(errors.iter().any(|e| matches!(e, SemanticError::InvalidArraySize { size: 0, .. })), "{:?}", errors);
}

// ----- Symbol table -----

#[test]
fn test_symbol_table_read_after_write() {
    let mut table = SymbolTable::new();
    assert!(!table.contains("x"));
    assert!(table.add_symbol(symbol("x", 1)));
    assert!(table.contains("x"));
    assert_eq!(table.get("x").map(|s| s.line), Some(1));
    assert!(table.get("y").is_none());
}

#[test]
fn test_symbol_table_refuses_second_declaration() {
    let mut table = SymbolTable::new();
    assert!(table.add_symbol(symbol("x", 1)));
    assert!(!table.add_symbol(symbol("x", 2)));
    assert_eq!(table.get("x").map(|s| s.line), Some(1));
    assert_eq!(table.get_all().len(), 1);
}

#[test]
fn test_symbol_texts() {
    let mut s = symbol("a", 1);
    assert_eq!(s.kind_text(), "Variable");
    assert_eq!(s.value_text(), "<uninitialized>");
    s.kind = SymbolKind::Array(3);
    s.value = SymbolValue::Array(vec![LiteralKind::Int(1), LiteralKind::Int(-2)]);
    assert_eq!(s.kind_text(), "Array[3]");
    assert_eq!(s.value_text(), "[1, -2]");
    s.value = SymbolValue::Array(Vec::new());
    assert_eq!(s.value_text(), "[]");
    s.kind = SymbolKind::Constant;
    s.value = SymbolValue::Single(LiteralKind::String("hi".to_string()));
    assert_eq!(s.kind_text(), "Constant");
    assert_eq!(s.value_text(), "\"hi\"");
}

// ----- Semantic analysis -----

#[test]
fn test_error_reported_once() {
    let mut analyzer = SemanticAnalyzer::new(&String::new());
    analyzer.add_error(SemanticError::DivisionByZero { line: 1, column: 2 });
    analyzer.add_error(SemanticError::DivisionByZero { line: 1, column: 2 });
    assert_eq!(analyzer.get_errors().len(), 1);
    analyzer.add_error(SemanticError::DivisionByZero { line: 1, column: 3 });
    assert_eq!(analyzer.get_errors().len(), 2);
}

#[test]
fn test_analysis_declares_names() {
    let analyzer = analyzed(SMALL);
    assert!(analyzer.get_errors().is_empty());
    let table = analyzer.get_symbol_table();
    let x = table.get("x").expect("x is declared");
    assert_eq!(x.symbol_type, Type::Int);
    assert_eq!(x.line, 1);
}

#[test]
fn test_source_map_agrees_with_lexer() {
    let source = "let\n  x := 10";
    let map = SourceMap::new(&source.to_string());
    let (tokens, _) = tokenize(source);
    let x = &tokens[1];
    assert_eq!(x.value, "x");
    assert_eq!(map.get_line(&x.span), x.line);
    assert_eq!(map.get_line_column(&x.span), (2, 3));
    assert_eq!(map.get_column(&x.span), x.column + 1);
}

#[test]
fn test_tokenize_spans_within_text() {
    let source = "MainPrgm é ; x := \"s\" ;";
    let (tokens, errors) = tokenize(source);
    for t in tokens.iter() {
        assert!(t.span.start <= t.span.end && t.span.end <= source.len());
        assert_eq!(&source[t.span.clone()], t.value);
    }
    assert_eq!(errors.len(), 1);
}

// ----- Token and tree text -----

#[test]
fn test_token_text() {
    assert_eq!(Token::Semicolon.text(), "Semicolon");
    assert_eq!(Token::MainPrgm.text(), "MainPrgm");
    assert_eq!(Token::IntLiteral(-5).text(), "IntLiteral(-5)");
    assert_eq!(Token::Identifier("x".to_string()).text(), "Identifier(x)");
    assert_eq!(Token::StringLiteral("hi".to_string()).text(), "StringLiteral(\"hi\")");
}

#[test]
fn test_pretty_print_small_program() {
    let program = program_of(SMALL);
    let expected = "Program: t\n\
├── Declarations:\n\
│   ├── Variable: [\"x\"] : Int\n\
└── Statements:\n    \
└── Assignment:\n        \
├── Identifier: x\n        \
└── BinaryOp: Add\n            \
├── Literal: Int(1)\n            \
└── Literal: Int(2)\n";
    assert_eq!(program.pretty_print(), expected);
}

#[test]
fn test_pretty_print_last_declaration() {
    let program = program_of("MainPrgm t ; Var let x , y : Float ; BeginPg { } EndPg ;");
    let expected = "Program: t\n├── Declarations:\n│   └── Variable: [\"x\", \"y\"] : Float\n└── Statements:\n";
    assert_eq!(program.pretty_print(), expected);
}

// ----- Quadruples -----

#[test]
fn test_quadruples_of_small_program() {
    let program = program_of(SMALL);
    let mut generator = QuadrupleGenerator::new();
    let quads = generator.generate_quadruples(&program).expect("quadruples");
    let texts: Vec<String> = quads.quadruples.iter().map(|q| q.text()).collect();
    assert_eq!(
        texts,
        vec![
            "(DECLARE_VAR_Int, _, _, x)".to_string(),
            "(ADD, 1, 2, t1)".to_string(),
            "(ASSIGN, t1, _, x)".to_string(),
        ]
    );
    assert_eq!(quads.next_temp, 2);
}

#[test]
fn test_quadruple_program_counters() {
    let mut p = QuadrupleProgram::new();
    match p.new_temp() {
        Operand::TempVariable(n) => assert_eq!(n, "t1"),
        other => panic!("expected a temporary, got {:?}", other),
    }
    assert_eq!(p.new_label(), 1);
    assert_eq!(p.new_label(), 2);
    p.add(Quadruple {
        operation: Operation::Label(2),
        operand1: Operand::Empty,
        operand2: Operand::Empty,
        result: Operand::Empty,
    });
    assert_eq!(p.quadruples.len(), 1);
    assert_eq!(p.quadruples[0].text(), "(LABEL_2, _, _, _)");
}

#[test]
fn test_operand_and_operation_text() {
    let element = Operand::ArrayElement("a".to_string(), Box::new(Operand::IntLiteral(3)));
    assert_eq!(element.text(), "a[3]");
    assert_eq!(Operand::StringLiteral("s".to_string()).text(), "\"s\"");
    assert_eq!(Operation::DeclareArray(Type::Float, 4).text(), "DECLARE_ARR_Float_4");
    assert_eq!(Operation::JumpIfFalse(7).text(), "JMPF_7");
    assert_eq!(Operation::Call("f".to_string()).text(), "CALL_f");
}

// ----- Assembly -----

#[test]
fn test_assembly_of_small_program() {
    let program = program_of(SMALL);
    let mut generator = QuadrupleGenerator::new();
    let quads = generator.generate_quadruples(&program).expect("quadruples");
    let table: Vec<(String, u32)> = Vec::new();
    assert!(assembly_ready(&quads, &table));
    let mut assembler = AssemblyGenerator::new();
    let text = assembler.get_assambly(&quads, &table);
    let lines: Vec<&str> = text.lines().collect();
    assert_eq!(lines[0], "section .data");
    assert!(lines.contains(&"section .bss"));
    assert!(lines.contains(&"x resq 8"));
    assert!(lines.contains(&"global _start"));
    let start = lines.iter().position(|l| *l == "mov rax, 1").expect("addition");
    assert_eq!(lines[start + 1], "add rax, 2");
    assert_eq!(lines[start + 2], "mov [rbp-8], rax");
    assert_eq!(lines[start + 3], "mov rax, [rbp-8]");
    assert_eq!(lines[start + 4], "mov [x], rax");
}

#[test]
fn test_float_constants_need_bits() {
    let program = program_of("MainPrgm t ; Var let z : Float ; BeginPg { z := 1.5 ; } EndPg ;");
    let mut generator = QuadrupleGenerator::new();
    let quads = generator.generate_quadruples(&program).expect("quadruples");
    let floats = float_texts(&quads);
    assert_eq!(floats, vec!["1.5".to_string()]);
    assert!(!assembly_ready(&quads, &Vec::new()));
    let table = vec![("1.5".to_string(), 1.5f32.to_bits())];
    assert_eq!(lookup_bits(&table, &"1.5".to_string()), Some(0x3FC0_0000));
    assert!(assembly_ready(&quads, &table));
    let mut assembler = AssemblyGenerator::new();
    let text = assembler.get_assambly(&quads, &table);
    assert!(text.contains("mov rax, 0x3fc00000"), "{}", text);
}

#[test]
fn test_pretty_print_if_else() {
    let program = program_of(
        "MainPrgm t ; Var let x : Int ; BeginPg { if (x > 1) then { x := 1 ; } else { } } EndPg ;",
    );
    let expected = "Program: t\n\
├── Declarations:\n\
│   ├── Variable: [\"x\"] : Int\n\
└── Statements:\n    \
└── IfThenElse:\n        \
├── BinaryOp: GreaterThan\n        \
│   ├── Identifier: x\n        \
│   └── Literal: Int(1)\n        \
├── Then:\n            \
└── Assignment:\n                \
├── Identifier: x\n                \
└── Literal: Int(1)\n        \
└── Else:\n";
    assert_eq!(program.pretty_print(), expected);
}

#[test]
fn test_new_temps_are_fresh() {
    let mut p = QuadrupleProgram::new();
    let a = p.new_temp().text();
    let b = p.new_temp().text();
    assert_eq!(a, "t1");
    assert_eq!(b, "t2");
    assert_ne!(a, b);
}

#[test]
fn test_if_else_quadruples_run_one_branch() {
    let program = program_of(
        "MainPrgm t ; Var let x : Int ; BeginPg { if (x > 1) then { x := 1 ; } else { x := 2 ; } } EndPg ;",
    );
    let mut generator = QuadrupleGenerator::new();
    let quads = generator.generate_quadruples(&program).expect("quadruples");
    let texts: Vec<String> = quads.quadruples.iter().map(|q| q.text()).collect();
    assert_eq!(
        texts,
        vec![
            "(DECLARE_VAR_Int, _, _, x)".to_string(),
            "(GT, x, 1, t1)".to_string(),
            "(JMPF_1, t1, _, _)".to_string(),
            "(ASSIGN, 1, _, x)".to_string(),
            "(JUMP_2, _, _, _)".to_string(),
            "(LABEL_1, _, _, _)".to_string(),
            "(ASSIGN, 2, _, x)".to_string(),
            "(LABEL_2, _, _, _)".to_string(),
        ]
    );
}

#[test]
fn test_float_comparison_jumps() {
    let program = program_of(
        "MainPrgm t ; Var let z : Float ; BeginPg { if (z < 1.5) then { } if (z > 1.5) then { } } EndPg ;",
    );
    let mut generator = QuadrupleGenerator::new();
    let quads = generator.generate_quadruples(&program).expect("quadruples");
    let table = vec![("1.5".to_string(), 1.5f32.to_bits())];
    let mut assembler = AssemblyGenerator::new();
    let text = assembler.get_assambly(&quads, &table);
    assert!(text.contains("    fcomip st0, st1\n"), "{}", text);
    assert!(text.contains("    ja    L0_true\n"), "{}", text);
    assert!(text.contains("    jb    L1_true\n"), "{}", text);
}

#[test]
fn test_assembly_sections_open_with_headers() {
    let program = program_of(SMALL);
    let mut generator = QuadrupleGenerator::new();
    let quads = generator.generate_quadruples(&program).expect("quadruples");
    let mut assembler = AssemblyGenerator::new();
    let first = assembler.get_assambly(&quads, &Vec::new());
    assert_eq!(assembler.data_section[0], "section .data");
    assert_eq!(assembler.bss_section[0], "section .bss");
    assert_eq!(assembler.instructions[0], "section .text");
    let second = assembler.get_assambly(&quads, &Vec::new());
    assert_eq!(first, second);
}

#[test]
fn test_source_map_laws() {
    let source = "ab\ncd\n";
    let map = SourceMap::new(&source.to_string());
    assert_eq!(map.get_line_column(&(0..1)), (1, 1));
    assert_eq!(map.get_line_column(&(1..2)), (1, 2));
    assert_eq!(map.get_line_column(&(3..4)), (2, 1));
    assert_eq!(map.get_line(&(6..6)), 3);
}

#[test]
fn test_reports_coloured_on_a_terminal() {
    colored::control::set_override(true);
    let ctx = format_code_context("x := 10;", 6, 2);
    assert_eq!(ctx, "\u{1b}[34m | \u{1b}[0mx := 10;\n |      \u{1b}[1;91m^~\u{1b}[0m\n");
    let e = SemanticError::DivisionByZero { line: 1, column: 1 };
    let report = e.report(None);
    assert_eq!(
        report,
        "\u{1b}[1;31mSemantic Error\u{1b}[0m: Division by zero detected\n\u{1b}[34m-->\u{1b}[0m line 1, column 1\n\u{1b}[1;36mSuggestion\u{1b}[0m: Check for division by zero or ensure denominators are non-zero\n"
    );
    colored::control::set_override(false);
    let plain = e.report(None);
    assert_eq!(
        plain,
        "Semantic Error: Division by zero detected\n--> line 1, column 1\nSuggestion: Check for division by zero or ensure denominators are non-zero\n"
    );
}
