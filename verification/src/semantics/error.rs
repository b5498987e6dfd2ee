//! Semantic errors.
use vstd::prelude::*;
use vstd::utf8::encode_utf8;
use crate::text::{push_char, push_decimal, push_signed_decimal, decimal, signed_decimal, str_chars, get_nth_line, nth_line};
use crate::error_reporter::{ErrorReporter, code_context, push_location, location_line, push_code_context, push_painted, Paint, Coloring, shown};

verus! {

/// An error found by the semantic analysis, with its line and column (from 1).
#[derive(Debug)]
#[allow(inconsistent_fields)]
pub enum SemanticError {
    /// Array size and declaration mismatch
    ArraySizeMismatch { name: String, expected: usize, actual: usize, line: usize, column: usize },
    /// Name used before it is declared
    UndeclaredIdentifier { name: String, line: usize, column: usize },
    /// Name declared twice
    DuplicateDeclaration {
        name: String,
        line: usize,
        column: usize,
        original_line: usize,
        original_column: usize,
    },
    /// Types that do not fit together
    TypeMismatch {
        expected: String,
        found: String,
        line: usize,
        column: usize,
        context: Option<String>,
    },
    /// Division by a constant zero
    DivisionByZero { line: usize, column: usize },
    /// Assignment to a constant
    ConstantModification { name: String, line: usize, column: usize },
    /// Constant index outside an array
    ArrayIndexOutOfBounds { name: String, index: usize, size: usize, line: usize, column: usize },
    /// Condition that is not 1 or 0
    InvalidConditionValue { found: String, line: usize, column: usize },
    /// Index on a name that is not an array
    NonArrayIndexing { var_name: String, line: usize, column: usize },
    /// Array declared with a size that is not positive
    InvalidArraySize { name: String, size: i32, line: usize, column: usize },
    /// Assignment to a whole array
    AssignmentToArray { name: String, line: usize, column: usize },
    /// Program without declarations and statements
    EmptyProgram,
}

#[allow(inconsistent_fields)]
pub enum SemanticErrorV {
    ArraySizeMismatch { name: Seq<char>, expected: int, actual: int, line: int, column: int },
    UndeclaredIdentifier { name: Seq<char>, line: int, column: int },
    DuplicateDeclaration {
        name: Seq<char>,
        line: int,
        column: int,
        original_line: int,
        original_column: int,
    },
    TypeMismatch {
        expected: Seq<char>,
        found: Seq<char>,
        line: int,
        column: int,
        context: Option<Seq<char>>,
    },
    DivisionByZero { line: int, column: int },
    ConstantModification { name: Seq<char>, line: int, column: int },
    ArrayIndexOutOfBounds { name: Seq<char>, index: int, size: int, line: int, column: int },
    InvalidConditionValue { found: Seq<char>, line: int, column: int },
    NonArrayIndexing { var_name: Seq<char>, line: int, column: int },
    InvalidArraySize { name: Seq<char>, size: int, line: int, column: int },
    AssignmentToArray { name: Seq<char>, line: int, column: int },
    EmptyProgram,
}

pub open spec fn opt_string_view(o: Option<String>) -> Option<Seq<char>> {
    match o {
        Some(s) => Some(s@),
        None => None,
    }
}

impl View for SemanticError {
    type V = SemanticErrorV;

    open spec fn view(&self) -> SemanticErrorV {
        match self {
            SemanticError::ArraySizeMismatch { name, expected, actual, line, column } =>
                SemanticErrorV::ArraySizeMismatch {
                    name: name@,
                    expected: *expected as int,
                    actual: *actual as int,
                    line: *line as int,
                    column: *column as int,
                },
            SemanticError::UndeclaredIdentifier { name, line, column } =>
                SemanticErrorV::UndeclaredIdentifier { name: name@, line: *line as int, column: *column as int },
            SemanticError::DuplicateDeclaration { name, line, column, original_line, original_column } =>
                SemanticErrorV::DuplicateDeclaration {
                    name: name@,
                    line: *line as int,
                    column: *column as int,
                    original_line: *original_line as int,
                    original_column: *original_column as int,
                },
            SemanticError::TypeMismatch { expected, found, line, column, context } =>
                SemanticErrorV::TypeMismatch {
                    expected: expected@,
                    found: found@,
                    line: *line as int,
                    column: *column as int,
                    context: opt_string_view(*context),
                },
            SemanticError::DivisionByZero { line, column } =>
                SemanticErrorV::DivisionByZero { line: *line as int, column: *column as int },
            SemanticError::ConstantModification { name, line, column } =>
                SemanticErrorV::ConstantModification { name: name@, line: *line as int, column: *column as int },
            SemanticError::ArrayIndexOutOfBounds { name, index, size, line, column } =>
                SemanticErrorV::ArrayIndexOutOfBounds {
                    name: name@,
                    index: *index as int,
                    size: *size as int,
                    line: *line as int,
                    column: *column as int,
                },
            SemanticError::InvalidConditionValue { found, line, column } =>
                SemanticErrorV::InvalidConditionValue { found: found@, line: *line as int, column: *column as int },
            SemanticError::NonArrayIndexing { var_name, line, column } =>
                SemanticErrorV::NonArrayIndexing { var_name: var_name@, line: *line as int, column: *column as int },
            SemanticError::InvalidArraySize { name, size, line, column } =>
                SemanticErrorV::InvalidArraySize {
                    name: name@,
                    size: *size as int,
                    line: *line as int,
                    column: *column as int,
                },
            SemanticError::AssignmentToArray { name, line, column } =>
                SemanticErrorV::AssignmentToArray { name: name@, line: *line as int, column: *column as int },
            SemanticError::EmptyProgram => SemanticErrorV::EmptyProgram,
        }
    }
}

fn same_opt(a: &Option<String>, b: &Option<String>) -> (r: bool)
    ensures
        r == (opt_string_view(*a) == opt_string_view(*b)),
{
    match (a, b) {
        (Some(x), Some(y)) => *x == *y,
        (None, None) => true,
        _ => false,
    }
}

impl SemanticError {
    /// Are the two errors the same, field by field?
    pub fn same_as(&self, other: &SemanticError) -> (r: bool)
        ensures
            r == (self@ == other@),
    {
        match (self, other) {
            (
                SemanticError::ArraySizeMismatch { name: a1, expected: a2, actual: a3, line: a4, column: a5 },
                SemanticError::ArraySizeMismatch { name: b1, expected: b2, actual: b3, line: b4, column: b5 },
            ) => *a1 == *b1 && a2 == b2 && a3 == b3 && a4 == b4 && a5 == b5,
            (
                SemanticError::UndeclaredIdentifier { name: a1, line: a2, column: a3 },
                SemanticError::UndeclaredIdentifier { name: b1, line: b2, column: b3 },
            ) => *a1 == *b1 && a2 == b2 && a3 == b3,
            (
                SemanticError::DuplicateDeclaration { name: a1, line: a2, column: a3, original_line: a4, original_column: a5 },
                SemanticError::DuplicateDeclaration { name: b1, line: b2, column: b3, original_line: b4, original_column: b5 },
            ) => *a1 == *b1 && a2 == b2 && a3 == b3 && a4 == b4 && a5 == b5,
            (
                SemanticError::TypeMismatch { expected: a1, found: a2, line: a3, column: a4, context: a5 },
                SemanticError::TypeMismatch { expected: b1, found: b2, line: b3, column: b4, context: b5 },
            ) => *a1 == *b1 && *a2 == *b2 && a3 == b3 && a4 == b4 && same_opt(a5, b5),
            (
                SemanticError::DivisionByZero { line: a1, column: a2 },
                SemanticError::DivisionByZero { line: b1, column: b2 },
            ) => a1 == b1 && a2 == b2,
            (
                SemanticError::ConstantModification { name: a1, line: a2, column: a3 },
                SemanticError::ConstantModification { name: b1, line: b2, column: b3 },
            ) => *a1 == *b1 && a2 == b2 && a3 == b3,
            (
                SemanticError::ArrayIndexOutOfBounds { name: a1, index: a2, size: a3, line: a4, column: a5 },
                SemanticError::ArrayIndexOutOfBounds { name: b1, index: b2, size: b3, line: b4, column: b5 },
            ) => *a1 == *b1 && a2 == b2 && a3 == b3 && a4 == b4 && a5 == b5,
            (
                SemanticError::InvalidConditionValue { found: a1, line: a2, column: a3 },
                SemanticError::InvalidConditionValue { found: b1, line: b2, column: b3 },
            ) => *a1 == *b1 && a2 == b2 && a3 == b3,
            (
                SemanticError::NonArrayIndexing { var_name: a1, line: a2, column: a3 },
                SemanticError::NonArrayIndexing { var_name: b1, line: b2, column: b3 },
            ) => *a1 == *b1 && a2 == b2 && a3 == b3,
            (
                SemanticError::InvalidArraySize { name: a1, size: a2, line: a3, column: a4 },
                SemanticError::InvalidArraySize { name: b1, size: b2, line: b3, column: b4 },
            ) => *a1 == *b1 && a2 == b2 && a3 == b3 && a4 == b4,
            (
                SemanticError::AssignmentToArray { name: a1, line: a2, column: a3 },
                SemanticError::AssignmentToArray { name: b1, line: b2, column: b3 },
            ) => *a1 == *b1 && a2 == b2 && a3 == b3,
            (SemanticError::EmptyProgram, SemanticError::EmptyProgram) => true,
            _ => false,
        }
    }
}

/// `'n'`: a name in single quotes.
pub open spec fn quoted(n: Seq<char>) -> Seq<char> {
    seq!['\''] + n + seq!['\'']
}

/// The message of an error.
pub open spec fn detailed_message(e: SemanticErrorV) -> Seq<char> {
    match e {
        SemanticErrorV::ArraySizeMismatch { name, expected, actual, .. } =>
            "Array size mismatch for "@ + quoted(name) + ": expected "@ + decimal(expected as nat)
                + ", found "@ + decimal(actual as nat),
        SemanticErrorV::UndeclaredIdentifier { name, .. } => "Undeclared identifier "@ + quoted(name),
        SemanticErrorV::DuplicateDeclaration { name, original_line, original_column, .. } =>
            "Duplicate declaration of "@ + quoted(name) + " (originally declared at line "@
                + decimal(original_line as nat) + ", column "@ + decimal(original_column as nat) + seq![')'],
        SemanticErrorV::TypeMismatch { expected, found, context, .. } => match context {
            Some(ctx) => "Type mismatch in "@ + ctx + ": expected "@ + expected + ", found "@ + found,
            None => "Type mismatch: expected "@ + expected + ", found "@ + found,
        },
        SemanticErrorV::DivisionByZero { .. } => "Division by zero detected"@,
        SemanticErrorV::ConstantModification { name, .. } => "Attempt to modify constant "@ + quoted(name),
        SemanticErrorV::ArrayIndexOutOfBounds { name, index, size, .. } =>
            "Array index out of bounds: index "@ + decimal(index as nat) + " exceeds size "@
                + decimal(size as nat) + " for array "@ + quoted(name),
        SemanticErrorV::InvalidConditionValue { found, .. } =>
            "Invalid condition value: expected 1 or 0, found "@ + quoted(found),
        SemanticErrorV::NonArrayIndexing { var_name, .. } => "Attempt to index non-array variable "@ + quoted(var_name),
        SemanticErrorV::InvalidArraySize { name, size, .. } =>
            "Invalid size "@ + signed_decimal(size) + " for array "@ + quoted(name),
        SemanticErrorV::AssignmentToArray { name, .. } => "Assignment to the whole array "@ + quoted(name),
        SemanticErrorV::EmptyProgram => "Program is empty. Add some code."@,
    }
}

/// Where an error is: its line and column, or (0, 0) for an empty program.
pub open spec fn location_of(e: SemanticErrorV) -> (int, int) {
    match e {
        SemanticErrorV::ArraySizeMismatch { line, column, .. } => (line, column),
        SemanticErrorV::UndeclaredIdentifier { line, column, .. } => (line, column),
        SemanticErrorV::DuplicateDeclaration { line, column, .. } => (line, column),
        SemanticErrorV::TypeMismatch { line, column, .. } => (line, column),
        SemanticErrorV::DivisionByZero { line, column } => (line, column),
        SemanticErrorV::ConstantModification { line, column, .. } => (line, column),
        SemanticErrorV::ArrayIndexOutOfBounds { line, column, .. } => (line, column),
        SemanticErrorV::InvalidConditionValue { line, column, .. } => (line, column),
        SemanticErrorV::NonArrayIndexing { line, column, .. } => (line, column),
        SemanticErrorV::InvalidArraySize { line, column, .. } => (line, column),
        SemanticErrorV::AssignmentToArray { line, column, .. } => (line, column),
        SemanticErrorV::EmptyProgram => (0, 0),
    }
}

/// How many bytes of the source line the report underlines: the bytes of
/// the name involved, or one.
pub open spec fn token_length(e: SemanticErrorV) -> int {
    match e {
        SemanticErrorV::ArraySizeMismatch { name, .. } => encode_utf8(name).len() as int,
        SemanticErrorV::UndeclaredIdentifier { name, .. } => encode_utf8(name).len() as int,
        SemanticErrorV::DuplicateDeclaration { name, .. } => encode_utf8(name).len() as int,
        SemanticErrorV::TypeMismatch { .. } => 1,
        SemanticErrorV::DivisionByZero { .. } => 1,
        SemanticErrorV::ConstantModification { name, .. } => encode_utf8(name).len() as int,
        SemanticErrorV::ArrayIndexOutOfBounds { name, .. } => encode_utf8(name).len() as int,
        SemanticErrorV::InvalidConditionValue { found, .. } => encode_utf8(found).len() as int,
        SemanticErrorV::NonArrayIndexing { var_name, .. } => encode_utf8(var_name).len() as int,
        SemanticErrorV::InvalidArraySize { name, .. } => encode_utf8(name).len() as int,
        SemanticErrorV::AssignmentToArray { name, .. } => encode_utf8(name).len() as int,
        SemanticErrorV::EmptyProgram => 0,
    }
}

/// The hint that goes with an error. The last valid index of an array of
/// size `size` is written `size - 1`, wrapping around for an empty array.
pub open spec fn suggestion(e: SemanticErrorV) -> Seq<char> {
    match e {
        SemanticErrorV::ArraySizeMismatch { name, expected, actual, .. } =>
            "Expected array size "@ + decimal(expected as nat) + " but found "@ + decimal(actual as nat)
                + " for "@ + quoted(name),
        SemanticErrorV::UndeclaredIdentifier { name, .. } =>
            "Declare variable "@ + quoted(name) + " before using it"@,
        SemanticErrorV::DuplicateDeclaration { name, .. } =>
            "Use a different name for the second declaration of "@ + quoted(name),
        SemanticErrorV::TypeMismatch { expected, found, context, .. } => {
            if context == Some("assignment"@) {
                "Make sure the types match. Try converting from "@ + quoted(found) + " to "@ + quoted(expected)
            } else if context == Some("condition"@) {
                "Conditions must be of boolean type, found "@ + quoted(found) + " instead"@
            } else if context == Some("arithmetic"@) {
                "Cannot perform arithmetic operation between "@ + quoted(expected) + " and "@ + quoted(found)
            } else {
                "Expected type "@ + quoted(expected) + ", but found "@ + quoted(found)
                    + ". Consider adding a type conversion"@
            }
        },
        SemanticErrorV::DivisionByZero { .. } =>
            "Check for division by zero or ensure denominators are non-zero"@,
        SemanticErrorV::ConstantModification { name, .. } =>
            quoted(name) + " is a constant and cannot be modified. Consider using a variable instead"@,
        SemanticErrorV::ArrayIndexOutOfBounds { name, size, .. } =>
            "Array "@ + quoted(name) + " has size "@ + decimal(size as nat) + ". Use indices from 0 to "@
                + decimal((if size >= 1 { size - 1 } else { usize::MAX as int }) as nat),
        SemanticErrorV::NonArrayIndexing { var_name, .. } =>
            quoted(var_name) + " is not an array. Use a valid array variable"@,
        SemanticErrorV::InvalidConditionValue { found, .. } =>
            "Condition must return 1 or 0, found "@ + quoted(found),
        SemanticErrorV::InvalidArraySize { name, .. } =>
            "Declare "@ + quoted(name) + " with a positive size"@,
        SemanticErrorV::AssignmentToArray { name, .. } =>
            "Assign to the elements of "@ + quoted(name) + " one at a time"@,
        SemanticErrorV::EmptyProgram => "Program is empty. Add some code."@,
    }
}

fn push_quoted(s: &mut String, n: &String)
    ensures
        final(s)@ == old(s)@ + quoted(n@),
{
    push_char(s, '\'');
    s.append(n.as_str());
    push_char(s, '\'');
    assert(final(s)@ =~= old(s)@ + quoted(n@));
}

fn byte_length(n: &String) -> (r: usize)
    ensures
        r as int == encode_utf8(n@).len(),
{
    let b = n.as_str().as_bytes();
    b.len()
}

impl SemanticError {
    /// The message of this error.
    pub fn get_detailed_message(&self) -> (r: String)
        ensures
            r@ == detailed_message(self@),
    {
        let mut r = String::new();
        match self {
            SemanticError::ArraySizeMismatch { name, expected, actual, .. } => {
                r.append("Array size mismatch for ");
                push_quoted(&mut r, name);
                r.append(": expected ");
                push_decimal(&mut r, *expected);
                r.append(", found ");
                push_decimal(&mut r, *actual);
            },
            SemanticError::UndeclaredIdentifier { name, .. } => {
                r.append("Undeclared identifier ");
                push_quoted(&mut r, name);
            },
            SemanticError::DuplicateDeclaration { name, original_line, original_column, .. } => {
                r.append("Duplicate declaration of ");
                push_quoted(&mut r, name);
                r.append(" (originally declared at line ");
                push_decimal(&mut r, *original_line);
                r.append(", column ");
                push_decimal(&mut r, *original_column);
                push_char(&mut r, ')');
            },
            SemanticError::TypeMismatch { expected, found, context, .. } => {
                match context {
                    Some(ctx) => {
                        r.append("Type mismatch in ");
                        r.append(ctx.as_str());
                        r.append(": expected ");
                    },
                    None => {
                        r.append("Type mismatch: expected ");
                    },
                }
                r.append(expected.as_str());
                r.append(", found ");
                r.append(found.as_str());
            },
            SemanticError::DivisionByZero { .. } => {
                r.append("Division by zero detected");
            },
            SemanticError::ConstantModification { name, .. } => {
                r.append("Attempt to modify constant ");
                push_quoted(&mut r, name);
            },
            SemanticError::ArrayIndexOutOfBounds { name, index, size, .. } => {
                r.append("Array index out of bounds: index ");
                push_decimal(&mut r, *index);
                r.append(" exceeds size ");
                push_decimal(&mut r, *size);
                r.append(" for array ");
                push_quoted(&mut r, name);
            },
            SemanticError::InvalidConditionValue { found, .. } => {
                r.append("Invalid condition value: expected 1 or 0, found ");
                push_quoted(&mut r, found);
            },
            SemanticError::NonArrayIndexing { var_name, .. } => {
                r.append("Attempt to index non-array variable ");
                push_quoted(&mut r, var_name);
            },
            SemanticError::InvalidArraySize { name, size, .. } => {
                r.append("Invalid size ");
                push_signed_decimal(&mut r, *size);
                r.append(" for array ");
                push_quoted(&mut r, name);
            },
            SemanticError::AssignmentToArray { name, .. } => {
                r.append("Assignment to the whole array ");
                push_quoted(&mut r, name);
            },
            SemanticError::EmptyProgram => {
                r.append("Program is empty. Add some code.");
            },
        }
        assert(r@ =~= detailed_message(self@));
        r
    }

    /// How many bytes of the source line the report underlines.
    pub fn get_token_length(&self) -> (r: usize)
        ensures
            r as int == token_length(self@),
    {
        match self {
            SemanticError::ArraySizeMismatch { name, .. } => byte_length(name),
            SemanticError::UndeclaredIdentifier { name, .. } => byte_length(name),
            SemanticError::DuplicateDeclaration { name, .. } => byte_length(name),
            SemanticError::TypeMismatch { .. } => 1,
            SemanticError::DivisionByZero { .. } => 1,
            SemanticError::ConstantModification { name, .. } => byte_length(name),
            SemanticError::ArrayIndexOutOfBounds { name, .. } => byte_length(name),
            SemanticError::InvalidConditionValue { found, .. } => byte_length(found),
            SemanticError::NonArrayIndexing { var_name, .. } => byte_length(var_name),
            SemanticError::InvalidArraySize { name, .. } => byte_length(name),
            SemanticError::AssignmentToArray { name, .. } => byte_length(name),
            SemanticError::EmptyProgram => 0,
        }
    }
}

pub open spec fn str_opt_view(o: Option<&str>) -> Option<Seq<char>> {
    match o {
        Some(s) => Some(s@),
        None => None,
    }
}

/// The part of a report that quotes the source: the line of the error with
/// the culprit underlined and, for a duplicate declaration, the line of the
/// first one. Nothing without a source, or when the line is not in it.
/// Where a name declared twice was first declared: the line number, then
/// that line of the source; nothing for other errors.
pub open spec fn first_declared_part(e: SemanticErrorV, src: Seq<char>, note: bool, note_gutter: bool) -> Seq<char> {
    match e {
        SemanticErrorV::DuplicateDeclaration { original_line, .. } =>
            if original_line >= 1 && nth_line(src, original_line - 1) is Some {
                seq!['\n'] + shown(note, Paint::Yellow, "First declared at line:"@) + seq![' ']
                    + decimal(original_line as nat) + seq!['\n']
                    + shown(note_gutter, Paint::Blue, seq![' ', '|', ' ']) + nth_line(src, original_line - 1)->0
                    + seq!['\n']
            } else {
                Seq::empty()
            },
        _ => Seq::empty(),
    }
}

pub open spec fn source_part(e: SemanticErrorV, source: Option<Seq<char>>, c: Coloring) -> Seq<char> {
    let (line, column) = location_of(e);
    match source {
        None => Seq::empty(),
        Some(src) => if line >= 1 && nth_line(src, line - 1) is Some {
            code_context(nth_line(src, line - 1)->0, column, token_length(e), c.gutter, c.underline)
                + first_declared_part(e, src, c.note, c.note_gutter)
        } else {
            Seq::empty()
        },
    }
}

/// The full report of a semantic error.
pub open spec fn semantic_report(e: SemanticErrorV, source: Option<Seq<char>>, c: Coloring) -> Seq<char> {
    let (line, column) = location_of(e);
    shown(c.header, Paint::RedBold, "Semantic Error"@) + ": "@ + detailed_message(e) + seq!['\n']
        + location_line(line, column, c.arrow) + source_part(e, source, c)
        + shown(c.suggestion, Paint::CyanBold, "Suggestion"@) + ": "@ + suggestion(e) + seq!['\n']
}

impl SemanticError {
    fn get_suggestion_text(&self) -> (r: String)
        ensures
            r@ == suggestion(self@),
    {
        let mut r = String::new();
        match self {
            SemanticError::ArraySizeMismatch { name, expected, actual, .. } => {
                r.append("Expected array size ");
                push_decimal(&mut r, *expected);
                r.append(" but found ");
                push_decimal(&mut r, *actual);
                r.append(" for ");
                push_quoted(&mut r, name);
            },
            SemanticError::UndeclaredIdentifier { name, .. } => {
                r.append("Declare variable ");
                push_quoted(&mut r, name);
                r.append(" before using it");
            },
            SemanticError::DuplicateDeclaration { name, .. } => {
                r.append("Use a different name for the second declaration of ");
                push_quoted(&mut r, name);
            },
            SemanticError::TypeMismatch { expected, found, context, .. } => {
                let assignment = String::from_str("assignment");
                let condition = String::from_str("condition");
                let arithmetic = String::from_str("arithmetic");
                let (is_assignment, is_condition, is_arithmetic) = match context {
                    Some(ctx) => (*ctx == assignment, *ctx == condition, *ctx == arithmetic),
                    None => (false, false, false),
                };
                if is_assignment {
                    r.append("Make sure the types match. Try converting from ");
                    push_quoted(&mut r, found);
                    r.append(" to ");
                    push_quoted(&mut r, expected);
                } else if is_condition {
                    r.append("Conditions must be of boolean type, found ");
                    push_quoted(&mut r, found);
                    r.append(" instead");
                } else if is_arithmetic {
                    r.append("Cannot perform arithmetic operation between ");
                    push_quoted(&mut r, expected);
                    r.append(" and ");
                    push_quoted(&mut r, found);
                } else {
                    r.append("Expected type ");
                    push_quoted(&mut r, expected);
                    r.append(", but found ");
                    push_quoted(&mut r, found);
                    r.append(". Consider adding a type conversion");
                }
            },
            SemanticError::DivisionByZero { .. } => {
                r.append("Check for division by zero or ensure denominators are non-zero");
            },
            SemanticError::ConstantModification { name, .. } => {
                push_quoted(&mut r, name);
                r.append(" is a constant and cannot be modified. Consider using a variable instead");
            },
            SemanticError::ArrayIndexOutOfBounds { name, size, .. } => {
                r.append("Array ");
                push_quoted(&mut r, name);
                r.append(" has size ");
                push_decimal(&mut r, *size);
                r.append(". Use indices from 0 to ");
                push_decimal(&mut r, size.wrapping_sub(1));
            },
            SemanticError::NonArrayIndexing { var_name, .. } => {
                push_quoted(&mut r, var_name);
                r.append(" is not an array. Use a valid array variable");
            },
            SemanticError::InvalidConditionValue { found, .. } => {
                r.append("Condition must return 1 or 0, found ");
                push_quoted(&mut r, found);
            },
            SemanticError::InvalidArraySize { name, .. } => {
                r.append("Declare ");
                push_quoted(&mut r, name);
                r.append(" with a positive size");
            },
            SemanticError::AssignmentToArray { name, .. } => {
                r.append("Assign to the elements of ");
                push_quoted(&mut r, name);
                r.append(" one at a time");
            },
            SemanticError::EmptyProgram => {
                r.append("Program is empty. Add some code.");
            },
        }
        assert(r@ =~= suggestion(self@));
        r
    }

    fn location(&self) -> (r: (usize, usize))
        ensures
            (r.0 as int, r.1 as int) == location_of(self@),
    {
        match self {
            SemanticError::ArraySizeMismatch { line, column, .. } => (*line, *column),
            SemanticError::UndeclaredIdentifier { line, column, .. } => (*line, *column),
            SemanticError::DuplicateDeclaration { line, column, .. } => (*line, *column),
            SemanticError::TypeMismatch { line, column, .. } => (*line, *column),
            SemanticError::DivisionByZero { line, column } => (*line, *column),
            SemanticError::ConstantModification { line, column, .. } => (*line, *column),
            SemanticError::ArrayIndexOutOfBounds { line, column, .. } => (*line, *column),
            SemanticError::InvalidConditionValue { line, column, .. } => (*line, *column),
            SemanticError::NonArrayIndexing { line, column, .. } => (*line, *column),
            SemanticError::InvalidArraySize { line, column, .. } => (*line, *column),
            SemanticError::AssignmentToArray { line, column, .. } => (*line, *column),
            SemanticError::EmptyProgram => (0, 0),
        }
    }

    #[verifier::rlimit(60)]
    fn push_source_part(&self, r: &mut String, source: &str) -> (c: Ghost<Coloring>)
        ensures
            final(r)@ == old(r)@ + source_part(self@, Some(source@), c@),
            c@.header == false && c@.arrow == false && c@.listing == false && c@.suggestion == false,
    {
        let (line, column) = self.location();
        let src = str_chars(source);
        let ghost none = Coloring {
            header: false,
            arrow: false,
            gutter: false,
            underline: false,
            listing: false,
            note: false,
            note_gutter: false,
            suggestion: false,
        };
        if line < 1 {
            assert(source_part(self@, Some(source@), none) =~= Seq::<char>::empty());
            assert(final(r)@ =~= old(r)@ + Seq::<char>::empty());
            return Ghost(none);
        }
        match get_nth_line(&src, line - 1) {
            None => {
                assert(source_part(self@, Some(source@), none) =~= Seq::<char>::empty());
                assert(final(r)@ =~= old(r)@ + Seq::<char>::empty());
                Ghost(none)
            },
            Some(content) => {
                let tl = self.get_token_length();
                let ctx = push_code_context(r, content.as_str(), column, tl);
                let ghost here = r@;
                let marks = self.push_first_declared_part(r, &src);
                let ghost c = Coloring { gutter: ctx@.0, underline: ctx@.1, note: marks@.0, note_gutter: marks@.1, ..none };
                proof {
                    assert(location_of(self@) == (line as int, column as int));
                    assert(nth_line(source@, line - 1) == Some(content@));
                }
                assert(final(r)@ =~= old(r)@ + source_part(self@, Some(source@), c));
                Ghost(c)
            },
        }
    }
}

impl SemanticError {
    /// Appends where a name declared twice was first declared; tells which
    /// parts came out coloured.
    fn push_first_declared_part(&self, r: &mut String, src: &Vec<char>) -> (c: Ghost<(bool, bool)>)
        ensures
            final(r)@ == old(r)@ + first_declared_part(self@, src@, c@.0, c@.1),
    {
        if let SemanticError::DuplicateDeclaration { original_line, .. } = self {
            if *original_line >= 1 {
                match get_nth_line(src, *original_line - 1) {
                    Some(first) => {
                        proof {
                            reveal_strlit(" | ");
                            assert(" | "@ =~= seq![' ', '|', ' ']);
                        }
                        push_char(r, '\n');
                        let note = push_painted(r, "First declared at line:", Paint::Yellow);
                        push_char(r, ' ');
                        push_decimal(r, *original_line);
                        push_char(r, '\n');
                        let bar = push_painted(r, " | ", Paint::Blue);
                        r.append(first.as_str());
                        push_char(r, '\n');
                        assert(r@ =~= old(r)@ + first_declared_part(self@, src@, note@, bar@));
                        return Ghost((note@, bar@));
                    },
                    None => {},
                }
            }
        }
        assert(r@ =~= old(r)@ + first_declared_part(self@, src@, false, false));
        Ghost((false, false))
    }
}

impl ErrorReporter for SemanticError {
    /// The report: the message, the place, the source line when a source is
    /// given, and the suggestion.
    fn report(&self, source_code: Option<&str>) -> (r: String)
        ensures
            exists|c: Coloring| r@ == semantic_report(self@, str_opt_view(source_code), c),
    {
        let mut r = String::new();
        let header = push_painted(&mut r, "Semantic Error", Paint::RedBold);
        r.append(": ");
        let message = self.get_detailed_message();
        r.append(message.as_str());
        push_char(&mut r, '\n');
        let (line, column) = self.location();
        let arrow = push_location(&mut r, line, column);
        let ghost mut c = Coloring {
            header: header@,
            arrow: arrow@,
            gutter: false,
            underline: false,
            listing: false,
            note: false,
            note_gutter: false,
            suggestion: false,
        };
        match source_code {
            Some(source) => {
                let part = self.push_source_part(&mut r, source);
                proof {
                    c = Coloring { header: header@, arrow: arrow@, ..part@ };
                }
            },
            None => {},
        }
        let hint = push_painted(&mut r, "Suggestion", Paint::CyanBold);
        r.append(": ");
        let text = self.get_suggestion_text();
        r.append(text.as_str());
        push_char(&mut r, '\n');
        proof {
            c = Coloring { suggestion: hint@, ..c };
            if source_code is None {
                assert(source_part(self@, None, c) =~= Seq::<char>::empty());
            }
        }
        assert(r@ =~= semantic_report(self@, str_opt_view(source_code), c));
        r
    }

    /// Every semantic error has a suggestion.
    fn get_suggestion(&self) -> (r: Option<String>)
        ensures
            r matches Some(t) && t@ == suggestion(self@),
    {
        Some(self.get_suggestion_text())
    }

    fn get_error_name(&self) -> (r: String)
        ensures
            r@ == "Semantic Error"@,
    {
        String::from_str("Semantic Error")
    }

    fn get_location_info(&self) -> (r: (usize, usize))
        ensures
            (r.0 as int, r.1 as int) == location_of(self@),
    {
        self.location()
    }
}

} // verus!
