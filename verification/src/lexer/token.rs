use vstd::prelude::*;
use crate::text::{push_char, push_signed_decimal, signed_decimal};

verus! {

/// The tokens of MiniSoft.
///
/// A float literal keeps the text of the number (sign included, parentheses
/// removed); its numeric value is read by the caller.
#[derive(Debug, Clone, PartialEq)]
pub enum Token {
    MainPrgm,
    Var,
    BeginPg,
    EndPg,
    Let,
    Int,
    Float,
    If,
    Then,
    Else,
    While,
    For,
    Do,
    From,
    To,
    Step,
    Input,
    Output,
    Define,
    Const,
    Semicolon,
    Comma,
    Colon,
    OpenBracket,
    CloseBracket,
    OpenBrace,
    CloseBrace,
    OpenParen,
    CloseParen,
    Assign,
    Equals,
    Plus,
    Minus,
    Multiply,
    Divide,
    GreaterThan,
    LessThan,
    GreaterEqual,
    LessEqual,
    Equal,
    NotEqual,
    And,
    Or,
    Not,
    IntLiteral(i32),
    FloatLiteral(String),
    StringLiteral(String),
    Identifier(String),
    Comment,
    Error,
}

/// Mathematical view of a token: the fixed tokens are numbered by their
/// position in the table of fixed texts (see `fixed_text`).
pub enum TokenV {
    Fixed(int),
    IntLiteral(i32),
    FloatLiteral(Seq<char>),
    StringLiteral(Seq<char>),
    Identifier(Seq<char>),
    Comment,
    Error,
}

/// Number of tokens spelled by a fixed text.
pub open spec fn num_fixed() -> int {
    44
}

impl View for Token {
    type V = TokenV;

    open spec fn view(&self) -> TokenV {
        match self {
            Token::MainPrgm => TokenV::Fixed(0),
            Token::Var => TokenV::Fixed(1),
            Token::BeginPg => TokenV::Fixed(2),
            Token::EndPg => TokenV::Fixed(3),
            Token::Let => TokenV::Fixed(4),
            Token::Int => TokenV::Fixed(5),
            Token::Float => TokenV::Fixed(6),
            Token::If => TokenV::Fixed(7),
            Token::Then => TokenV::Fixed(8),
            Token::Else => TokenV::Fixed(9),
            Token::While => TokenV::Fixed(10),
            Token::For => TokenV::Fixed(11),
            Token::Do => TokenV::Fixed(12),
            Token::From => TokenV::Fixed(13),
            Token::To => TokenV::Fixed(14),
            Token::Step => TokenV::Fixed(15),
            Token::Input => TokenV::Fixed(16),
            Token::Output => TokenV::Fixed(17),
            Token::Define => TokenV::Fixed(18),
            Token::Const => TokenV::Fixed(19),
            Token::Semicolon => TokenV::Fixed(20),
            Token::Comma => TokenV::Fixed(21),
            Token::Colon => TokenV::Fixed(22),
            Token::OpenBracket => TokenV::Fixed(23),
            Token::CloseBracket => TokenV::Fixed(24),
            Token::OpenBrace => TokenV::Fixed(25),
            Token::CloseBrace => TokenV::Fixed(26),
            Token::OpenParen => TokenV::Fixed(27),
            Token::CloseParen => TokenV::Fixed(28),
            Token::Assign => TokenV::Fixed(29),
            Token::Equals => TokenV::Fixed(30),
            Token::Plus => TokenV::Fixed(31),
            Token::Minus => TokenV::Fixed(32),
            Token::Multiply => TokenV::Fixed(33),
            Token::Divide => TokenV::Fixed(34),
            Token::GreaterThan => TokenV::Fixed(35),
            Token::LessThan => TokenV::Fixed(36),
            Token::GreaterEqual => TokenV::Fixed(37),
            Token::LessEqual => TokenV::Fixed(38),
            Token::Equal => TokenV::Fixed(39),
            Token::NotEqual => TokenV::Fixed(40),
            Token::And => TokenV::Fixed(41),
            Token::Or => TokenV::Fixed(42),
            Token::Not => TokenV::Fixed(43),
            Token::IntLiteral(v) => TokenV::IntLiteral(*v),
            Token::FloatLiteral(s) => TokenV::FloatLiteral(s@),
            Token::StringLiteral(s) => TokenV::StringLiteral(s@),
            Token::Identifier(s) => TokenV::Identifier(s@),
            Token::Comment => TokenV::Comment,
            Token::Error => TokenV::Error,
        }
    }
}

/// The text that spells fixed token number `k`.
pub open spec fn fixed_text(k: int) -> Seq<char> {
    if k == 0 { seq!['M', 'a', 'i', 'n', 'P', 'r', 'g', 'm'] }
    else if k == 1 { seq!['V', 'a', 'r'] }
    else if k == 2 { seq!['B', 'e', 'g', 'i', 'n', 'P', 'g'] }
    else if k == 3 { seq!['E', 'n', 'd', 'P', 'g'] }
    else if k == 4 { seq!['l', 'e', 't'] }
    else if k == 5 { seq!['I', 'n', 't'] }
    else if k == 6 { seq!['F', 'l', 'o', 'a', 't'] }
    else if k == 7 { seq!['i', 'f'] }
    else if k == 8 { seq!['t', 'h', 'e', 'n'] }
    else if k == 9 { seq!['e', 'l', 's', 'e'] }
    else if k == 10 { seq!['w', 'h', 'i', 'l', 'e'] }
    else if k == 11 { seq!['f', 'o', 'r'] }
    else if k == 12 { seq!['d', 'o'] }
    else if k == 13 { seq!['f', 'r', 'o', 'm'] }
    else if k == 14 { seq!['t', 'o'] }
    else if k == 15 { seq!['s', 't', 'e', 'p'] }
    else if k == 16 { seq!['i', 'n', 'p', 'u', 't'] }
    else if k == 17 { seq!['o', 'u', 't', 'p', 'u', 't'] }
    else if k == 18 { seq!['@', 'd', 'e', 'f', 'i', 'n', 'e'] }
    else if k == 19 { seq!['C', 'o', 'n', 's', 't'] }
    else if k == 20 { seq![';'] }
    else if k == 21 { seq![','] }
    else if k == 22 { seq![':'] }
    else if k == 23 { seq!['['] }
    else if k == 24 { seq![']'] }
    else if k == 25 { seq!['{'] }
    else if k == 26 { seq!['}'] }
    else if k == 27 { seq!['('] }
    else if k == 28 { seq![')'] }
    else if k == 29 { seq![':', '='] }
    else if k == 30 { seq!['='] }
    else if k == 31 { seq!['+'] }
    else if k == 32 { seq!['-'] }
    else if k == 33 { seq!['*'] }
    else if k == 34 { seq!['/'] }
    else if k == 35 { seq!['>'] }
    else if k == 36 { seq!['<'] }
    else if k == 37 { seq!['>', '='] }
    else if k == 38 { seq!['<', '='] }
    else if k == 39 { seq!['=', '='] }
    else if k == 40 { seq!['!', '='] }
    else if k == 41 { seq!['A', 'N', 'D'] }
    else if k == 42 { seq!['O', 'R'] }
    else if k == 43 { seq!['!'] }
    else { seq![] }
}

/// The executable table of fixed texts.
pub fn fixed_texts() -> (r: Vec<Vec<char>>)
    ensures
        r@.len() == num_fixed(),
        forall|k: int| 0 <= k < num_fixed() ==> (#[trigger] r@[k])@ == fixed_text(k),
{
    let r = vec![
        vec!['M', 'a', 'i', 'n', 'P', 'r', 'g', 'm'],
        vec!['V', 'a', 'r'],
        vec!['B', 'e', 'g', 'i', 'n', 'P', 'g'],
        vec!['E', 'n', 'd', 'P', 'g'],
        vec!['l', 'e', 't'],
        vec!['I', 'n', 't'],
        vec!['F', 'l', 'o', 'a', 't'],
        vec!['i', 'f'],
        vec!['t', 'h', 'e', 'n'],
        vec!['e', 'l', 's', 'e'],
        vec!['w', 'h', 'i', 'l', 'e'],
        vec!['f', 'o', 'r'],
        vec!['d', 'o'],
        vec!['f', 'r', 'o', 'm'],
        vec!['t', 'o'],
        vec!['s', 't', 'e', 'p'],
        vec!['i', 'n', 'p', 'u', 't'],
        vec!['o', 'u', 't', 'p', 'u', 't'],
        vec!['@', 'd', 'e', 'f', 'i', 'n', 'e'],
        vec!['C', 'o', 'n', 's', 't'],
        vec![';'],
        vec![','],
        vec![':'],
        vec!['['],
        vec![']'],
        vec!['{'],
        vec!['}'],
        vec!['('],
        vec![')'],
        vec![':', '='],
        vec!['='],
        vec!['+'],
        vec!['-'],
        vec!['*'],
        vec!['/'],
        vec!['>'],
        vec!['<'],
        vec!['>', '='],
        vec!['<', '='],
        vec!['=', '='],
        vec!['!', '='],
        vec!['A', 'N', 'D'],
        vec!['O', 'R'],
        vec!['!'],
    ];
    assert forall|k: int| 0 <= k < num_fixed() implies (#[trigger] r@[k])@ == fixed_text(k) by {
        assert(r@[k]@ =~= fixed_text(k));
    }
    r
}

/// The fixed token number `k`.
pub fn fixed_token(k: usize) -> (t: Token)
    requires
        k < num_fixed(),
    ensures
        t@ == TokenV::Fixed(k as int),
{
    match k {
        0 => Token::MainPrgm,
        1 => Token::Var,
        2 => Token::BeginPg,
        3 => Token::EndPg,
        4 => Token::Let,
        5 => Token::Int,
        6 => Token::Float,
        7 => Token::If,
        8 => Token::Then,
        9 => Token::Else,
        10 => Token::While,
        11 => Token::For,
        12 => Token::Do,
        13 => Token::From,
        14 => Token::To,
        15 => Token::Step,
        16 => Token::Input,
        17 => Token::Output,
        18 => Token::Define,
        19 => Token::Const,
        20 => Token::Semicolon,
        21 => Token::Comma,
        22 => Token::Colon,
        23 => Token::OpenBracket,
        24 => Token::CloseBracket,
        25 => Token::OpenBrace,
        26 => Token::CloseBrace,
        27 => Token::OpenParen,
        28 => Token::CloseParen,
        29 => Token::Assign,
        30 => Token::Equals,
        31 => Token::Plus,
        32 => Token::Minus,
        33 => Token::Multiply,
        34 => Token::Divide,
        35 => Token::GreaterThan,
        36 => Token::LessThan,
        37 => Token::GreaterEqual,
        38 => Token::LessEqual,
        39 => Token::Equal,
        40 => Token::NotEqual,
        41 => Token::And,
        42 => Token::Or,
        _ => Token::Not,
    }
}

/// The name of fixed token number `k`, as the token type spells it.
pub open spec fn fixed_name(k: int) -> Seq<char> {
    if k == 0 { "MainPrgm"@ }
    else if k == 1 { "Var"@ }
    else if k == 2 { "BeginPg"@ }
    else if k == 3 { "EndPg"@ }
    else if k == 4 { "Let"@ }
    else if k == 5 { "Int"@ }
    else if k == 6 { "Float"@ }
    else if k == 7 { "If"@ }
    else if k == 8 { "Then"@ }
    else if k == 9 { "Else"@ }
    else if k == 10 { "While"@ }
    else if k == 11 { "For"@ }
    else if k == 12 { "Do"@ }
    else if k == 13 { "From"@ }
    else if k == 14 { "To"@ }
    else if k == 15 { "Step"@ }
    else if k == 16 { "Input"@ }
    else if k == 17 { "Output"@ }
    else if k == 18 { "Define"@ }
    else if k == 19 { "Const"@ }
    else if k == 20 { "Semicolon"@ }
    else if k == 21 { "Comma"@ }
    else if k == 22 { "Colon"@ }
    else if k == 23 { "OpenBracket"@ }
    else if k == 24 { "CloseBracket"@ }
    else if k == 25 { "OpenBrace"@ }
    else if k == 26 { "CloseBrace"@ }
    else if k == 27 { "OpenParen"@ }
    else if k == 28 { "CloseParen"@ }
    else if k == 29 { "Assign"@ }
    else if k == 30 { "Equals"@ }
    else if k == 31 { "Plus"@ }
    else if k == 32 { "Minus"@ }
    else if k == 33 { "Multiply"@ }
    else if k == 34 { "Divide"@ }
    else if k == 35 { "GreaterThan"@ }
    else if k == 36 { "LessThan"@ }
    else if k == 37 { "GreaterEqual"@ }
    else if k == 38 { "LessEqual"@ }
    else if k == 39 { "Equal"@ }
    else if k == 40 { "NotEqual"@ }
    else if k == 41 { "And"@ }
    else if k == 42 { "Or"@ }
    else { "Not"@ }
}

/// How a token is written in listings: a literal or an identifier with its
/// kind and value (a string between double quotes), any other token by the
/// name of its kind.
pub open spec fn token_text(t: TokenV) -> Seq<char> {
    match t {
        TokenV::Fixed(k) => fixed_name(k),
        TokenV::IntLiteral(n) => "IntLiteral("@ + signed_decimal(n as int) + seq![')'],
        TokenV::FloatLiteral(x) => "FloatLiteral("@ + x + seq![')'],
        TokenV::StringLiteral(x) => "StringLiteral(\""@ + x + "\")"@,
        TokenV::Identifier(x) => "Identifier("@ + x + seq![')'],
        TokenV::Comment => "Comment"@,
        TokenV::Error => "Error"@,
    }
}

impl Token {
    /// The token as listings write it.
    pub fn text(&self) -> (r: String)
        ensures
            r@ == token_text(self@),
    {
        match self {
            Token::MainPrgm => String::from_str("MainPrgm"),
            Token::Var => String::from_str("Var"),
            Token::BeginPg => String::from_str("BeginPg"),
            Token::EndPg => String::from_str("EndPg"),
            Token::Let => String::from_str("Let"),
            Token::Int => String::from_str("Int"),
            Token::Float => String::from_str("Float"),
            Token::If => String::from_str("If"),
            Token::Then => String::from_str("Then"),
            Token::Else => String::from_str("Else"),
            Token::While => String::from_str("While"),
            Token::For => String::from_str("For"),
            Token::Do => String::from_str("Do"),
            Token::From => String::from_str("From"),
            Token::To => String::from_str("To"),
            Token::Step => String::from_str("Step"),
            Token::Input => String::from_str("Input"),
            Token::Output => String::from_str("Output"),
            Token::Define => String::from_str("Define"),
            Token::Const => String::from_str("Const"),
            Token::Semicolon => String::from_str("Semicolon"),
            Token::Comma => String::from_str("Comma"),
            Token::Colon => String::from_str("Colon"),
            Token::OpenBracket => String::from_str("OpenBracket"),
            Token::CloseBracket => String::from_str("CloseBracket"),
            Token::OpenBrace => String::from_str("OpenBrace"),
            Token::CloseBrace => String::from_str("CloseBrace"),
            Token::OpenParen => String::from_str("OpenParen"),
            Token::CloseParen => String::from_str("CloseParen"),
            Token::Assign => String::from_str("Assign"),
            Token::Equals => String::from_str("Equals"),
            Token::Plus => String::from_str("Plus"),
            Token::Minus => String::from_str("Minus"),
            Token::Multiply => String::from_str("Multiply"),
            Token::Divide => String::from_str("Divide"),
            Token::GreaterThan => String::from_str("GreaterThan"),
            Token::LessThan => String::from_str("LessThan"),
            Token::GreaterEqual => String::from_str("GreaterEqual"),
            Token::LessEqual => String::from_str("LessEqual"),
            Token::Equal => String::from_str("Equal"),
            Token::NotEqual => String::from_str("NotEqual"),
            Token::And => String::from_str("And"),
            Token::Or => String::from_str("Or"),
            Token::Not => String::from_str("Not"),
            Token::IntLiteral(n) => {
                let mut r = String::from_str("IntLiteral(");
                push_signed_decimal(&mut r, *n);
                push_char(&mut r, ')');
                assert(r@ =~= token_text(self@));
                r
            },
            Token::FloatLiteral(x) => {
                let mut r = String::from_str("FloatLiteral(");
                r.append(x.as_str());
                push_char(&mut r, ')');
                assert(r@ =~= token_text(self@));
                r
            },
            Token::StringLiteral(x) => {
                let mut r = String::from_str("StringLiteral(\"");
                r.append(x.as_str());
                r.append("\")");
                r
            },
            Token::Identifier(x) => {
                let mut r = String::from_str("Identifier(");
                r.append(x.as_str());
                push_char(&mut r, ')');
                assert(r@ =~= token_text(self@));
                r
            },
            Token::Comment => String::from_str("Comment"),
            Token::Error => String::from_str("Error"),
        }
    }
}

/// The line a lexer is on: its number (from 1) and the byte where it starts.
#[derive(Debug, Clone, Copy, PartialEq, Eq, Structural)]
pub struct Line {
    pub line_number: usize,
    pub line_start: usize,
}

impl Default for Line {
    /// The first line, which starts at byte 0.
    fn default() -> (r: Line)
        ensures
            r == (Line { line_number: 1, line_start: 0 }),
    {
        Line { line_number: 1, line_start: 0 }
    }
}

} // verus!
