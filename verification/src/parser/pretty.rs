//! The syntax tree drawn as text, one node per line, with branches.
use vstd::prelude::*;
use crate::parser::ast::{
    Declaration, DeclarationKind, Expression, ExpressionKind, LiteralKind, Operator, Program,
    Statement, StatementKind, Type, type_text, names_view, expr_view, exprs_view, stmt_view,
    stmts_view, decl_view, decls_view, lemma_stmts_view_index, Loc, LitV, ExprV, StmtV, DeclV,
    ProgramV,
};
use crate::parser::grammar::binop_at;
use crate::lexer::token::{Token, TokenV};
use crate::text::{push_char, push_signed_decimal, signed_decimal, join, join_strings, str_chars};

verus! {

// ----- How values are written -----

/// A character as it stands in a quoted, escaped string: tab, carriage
/// return, line feed, backslash, double quote and NUL get a backslash.
pub open spec fn escaped_char(c: char) -> Seq<char> {
    if c == '\t' {
        seq!['\\', 't']
    } else if c == '\r' {
        seq!['\\', 'r']
    } else if c == '\n' {
        seq!['\\', 'n']
    } else if c == '\\' {
        seq!['\\', '\\']
    } else if c == '"' {
        seq!['\\', '"']
    } else if c == '\0' {
        seq!['\\', '0']
    } else {
        seq![c]
    }
}

/// The characters of `s`, each escaped.
pub open spec fn escaped(s: Seq<char>) -> Seq<char>
    decreases s.len(),
{
    if s.len() == 0 {
        seq![]
    } else {
        escaped(s.drop_last()) + escaped_char(s.last())
    }
}

/// `s` escaped, between double quotes.
pub open spec fn quoted(s: Seq<char>) -> Seq<char> {
    seq!['"'] + escaped(s) + seq!['"']
}

/// A list of names: each quoted, separated by `, `, between brackets.
pub open spec fn names_text(ns: Seq<Seq<char>>) -> Seq<char> {
    seq!['['] + join(ns.map_values(|n: Seq<char>| quoted(n)), ", "@) + seq![']']
}

/// A literal: its kind and its value in parentheses.
pub open spec fn literal_text(l: LitV) -> Seq<char> {
    match l {
        LitV::Int(v) => "Int("@ + signed_decimal(v as int) + seq![')'],
        LitV::Float(t) => "Float("@ + t + seq![')'],
        LitV::Str(t) => "String("@ + quoted(t) + seq![')'],
    }
}

/// The name of a binary operator.
pub open spec fn operator_text(op: Operator) -> Seq<char> {
    match op {
        Operator::Add => "Add"@,
        Operator::Subtract => "Subtract"@,
        Operator::Multiply => "Multiply"@,
        Operator::Divide => "Divide"@,
        Operator::GreaterThan => "GreaterThan"@,
        Operator::LessThan => "LessThan"@,
        Operator::GreaterEqual => "GreaterEqual"@,
        Operator::LessEqual => "LessEqual"@,
        Operator::Equal => "Equal"@,
        Operator::NotEqual => "NotEqual"@,
        Operator::And => "And"@,
        Operator::Or => "Or"@,
    }
}

/// Different binary operators are drawn with different labels, so the tree
/// text tells every operator apart; and a binary node's line carries the
/// label of its own operator after `BinaryOp: `.
pub proof fn lemma_operator_labels_distinct(op1: Operator, op2: Operator)
    requires
        op1 != op2,
    ensures
        operator_text(op1) != operator_text(op2),
{
    reveal_strlit("Add");
    reveal_strlit("Subtract");
    reveal_strlit("Multiply");
    reveal_strlit("Divide");
    reveal_strlit("GreaterThan");
    reveal_strlit("LessThan");
    reveal_strlit("GreaterEqual");
    reveal_strlit("LessEqual");
    reveal_strlit("Equal");
    reveal_strlit("NotEqual");
    reveal_strlit("And");
    reveal_strlit("Or");
    let a = operator_text(op1);
    let b = operator_text(op2);
    if a == b {
        assert(a.len() == b.len());
        assert(a[0] == b[0]);
        assert(a[a.len() - 1] == b[b.len() - 1]);
        if a.len() >= 3 {
            assert(a[1] == b[1]);
            assert(a[2] == b[2]);
        }
        if a.len() >= 8 {
            assert(a[7] == b[7]);
        }
    }
}

/// The operator that the parser reads from token `t`, whatever its rank.
pub open spec fn token_operator(t: TokenV) -> Option<Operator> {
    match t {
        TokenV::Fixed(k) => if binop_at(k, 1) is Some {
            binop_at(k, 1)
        } else if binop_at(k, 2) is Some {
            binop_at(k, 2)
        } else if binop_at(k, 3) is Some {
            binop_at(k, 3)
        } else if binop_at(k, 4) is Some {
            binop_at(k, 4)
        } else {
            binop_at(k, 5)
        },
        _ => None,
    }
}

/// The label under which the node read from operator token `t` is drawn.
pub open spec fn token_label(t: TokenV) -> Option<Seq<char>> {
    match token_operator(t) {
        Some(op) => Some(operator_text(op)),
        None => None,
    }
}

/// A binary node is labelled with the name of the operator variant that its
/// token is read as: `-` is drawn as `Subtract`, never as another operator.
pub proof fn lemma_token_labels()
    ensures
        token_label(Token::Plus@) == Some("Add"@),
        token_label(Token::Minus@) == Some("Subtract"@),
        token_label(Token::Multiply@) == Some("Multiply"@),
        token_label(Token::Divide@) == Some("Divide"@),
        token_label(Token::GreaterThan@) == Some("GreaterThan"@),
        token_label(Token::LessThan@) == Some("LessThan"@),
        token_label(Token::GreaterEqual@) == Some("GreaterEqual"@),
        token_label(Token::LessEqual@) == Some("LessEqual"@),
        token_label(Token::Equal@) == Some("Equal"@),
        token_label(Token::NotEqual@) == Some("NotEqual"@),
        token_label(Token::And@) == Some("And"@),
        token_label(Token::Or@) == Some("Or"@),
{
}

/// The line of a binary node is its branch, `BinaryOp: ` and the label of
/// its operator; its two operands follow.
pub proof fn lemma_binary_node_line(e: Loc<ExprV>, prefix: Seq<char>, last: bool)
    requires
        e.node is Binary,
    ensures
        expr_tree(e, prefix, last).subrange(0, node_line(prefix, last, "BinaryOp: "@ + operator_text(e.node->Binary_1)).len() as int)
            == node_line(prefix, last, "BinaryOp: "@ + operator_text(e.node->Binary_1)),
{
    let line = node_line(prefix, last, "BinaryOp: "@ + operator_text(e.node->Binary_1));
    assert(expr_tree(e, prefix, last).subrange(0, line.len() as int) =~= line);
}

// ----- The tree -----

/// The branch that leads to a node: the last child of its parent gets a
/// corner, the others a tee.
pub open spec fn branch(last: bool) -> Seq<char> {
    if last { "└──"@ } else { "├──"@ }
}

/// The prefix of the children of a node drawn under `prefix`: blank below
/// a last child, a vertical bar below the others.
pub open spec fn child_prefix(prefix: Seq<char>, last: bool) -> Seq<char> {
    prefix + if last { "    "@ } else { "│   "@ }
}

/// The line of a node: prefix, branch, a space, the label and a line feed.
pub open spec fn node_line(prefix: Seq<char>, last: bool, label: Seq<char>) -> Seq<char> {
    prefix + branch(last) + seq![' '] + label + seq!['\n']
}

/// An expression and its operands below it.
pub open spec fn expr_tree(e: Loc<ExprV>, prefix: Seq<char>, last: bool) -> Seq<char>
    decreases e,
{
    let np = child_prefix(prefix, last);
    match e.node {
        ExprV::Ident(n) => node_line(prefix, last, "Identifier: "@ + n),
        ExprV::Access(n, i) => node_line(prefix, last, "ArrayAccess: "@ + n) + expr_tree(*i, np, true),
        ExprV::Lit(l) => node_line(prefix, last, "Literal: "@ + literal_text(l.node)),
        ExprV::Binary(l, op, r) => node_line(prefix, last, "BinaryOp: "@ + operator_text(op))
            + expr_tree(*l, np, false) + expr_tree(*r, np, true),
        ExprV::Unary(op, x) => node_line(prefix, last, "UnaryOp: Not"@) + expr_tree(*x, np, true),
    }
}

/// Expressions one after the other under `prefix`; the last one is drawn as
/// a last child when `mark_last` holds.
pub open spec fn exprs_tree(es: Seq<Loc<ExprV>>, prefix: Seq<char>, mark_last: bool) -> Seq<char>
    decreases es.len(),
{
    if es.len() == 0 {
        seq![]
    } else {
        exprs_tree(es.drop_last(), prefix, false) + expr_tree(es.last(), prefix, mark_last)
    }
}

/// A statement, with its conditions, operands and blocks below it. Of an
/// if-else, the branches are drawn as `Then:` and `Else:` with their
/// statements under them.
pub open spec fn stmt_tree(s: Loc<StmtV>, prefix: Seq<char>, last: bool) -> Seq<char>
    decreases s, 0int,
{
    let np = child_prefix(prefix, last);
    match s.node {
        StmtV::Assign(l, r) => node_line(prefix, last, "Assignment:"@) + expr_tree(l, np, false)
            + expr_tree(r, np, true),
        StmtV::IfThen(c, b) => node_line(prefix, last, "IfThen:"@) + expr_tree(c, np, false)
            + stmts_tree(b, np, true),
        StmtV::IfThenElse(c, b1, b2) => {
            let then_prefix = if b2.len() == 0 && b1.len() > 0 { np + "    "@ } else { np + "│   "@ };
            node_line(prefix, last, "IfThenElse:"@) + expr_tree(c, np, false)
                + np + "├── Then:"@ + seq!['\n'] + stmts_tree(b1, then_prefix, true)
                + np + "└── Else:"@ + seq!['\n'] + stmts_tree(b2, np + "    "@, true)
        },
        StmtV::DoWhile(b, c) => node_line(prefix, last, "DoWhile:"@) + stmts_tree(b, np, false)
            + expr_tree(c, np, true),
        StmtV::For(v, a, b, c, body) => node_line(prefix, last, "For:"@) + expr_tree(v, np, false)
            + expr_tree(a, np, false) + expr_tree(b, np, false) + expr_tree(c, np, false)
            + stmts_tree(body, np, true),
        StmtV::Input(e) => node_line(prefix, last, "Input:"@) + expr_tree(e, np, true),
        StmtV::Output(es) => node_line(prefix, last, "Output:"@) + exprs_tree(es, np, true),
        StmtV::Scope(b) => node_line(prefix, last, "Scope:"@) + stmts_tree(b, np, true),
        StmtV::Empty => node_line(prefix, last, "Empty"@),
    }
}

/// Statements one after the other under `prefix`; the last one is drawn as
/// a last child when `mark_last` holds.
pub open spec fn stmts_tree(ss: Seq<Loc<StmtV>>, prefix: Seq<char>, mark_last: bool) -> Seq<char>
    decreases ss, 1int,
{
    if ss.len() == 0 {
        seq![]
    } else {
        stmts_tree(ss.drop_last(), prefix, false) + stmt_tree(ss.last(), prefix, mark_last)
    }
}

/// A declaration: its kind, names and type (and size), with the initial
/// values below it.
pub open spec fn decl_tree(d: Loc<DeclV>, prefix: Seq<char>, last: bool) -> Seq<char> {
    let np = child_prefix(prefix, last);
    match d.node {
        DeclV::Variable(ns, t) => node_line(prefix, last, "Variable: "@ + names_text(ns) + " : "@ + type_text(t)),
        DeclV::Array(ns, t, n) => node_line(
            prefix,
            last,
            "Array: "@ + names_text(ns) + " : "@ + type_text(t) + " ["@ + signed_decimal(n as int) + seq![']'],
        ),
        DeclV::VariableWithInit(ns, t, e) => node_line(
            prefix,
            last,
            "VariableWithInit: "@ + names_text(ns) + " : "@ + type_text(t),
        ) + expr_tree(e, np, true),
        DeclV::ArrayWithInit(ns, t, n, es) => node_line(
            prefix,
            last,
            "ArrayWithInit: "@ + names_text(ns) + " : "@ + type_text(t) + " ["@ + signed_decimal(n as int) + seq![']'],
        ) + exprs_tree(es, np, true),
        DeclV::Constant(n, t, l) => node_line(
            prefix,
            last,
            "Constant: "@ + n + " : "@ + type_text(t) + " = "@ + literal_text(l.node),
        ),
    }
}

/// Declarations one after the other under `prefix`; the last one is drawn
/// as a last child when `mark_last` holds.
pub open spec fn decls_tree(ds: Seq<Loc<DeclV>>, prefix: Seq<char>, mark_last: bool) -> Seq<char>
    decreases ds.len(),
{
    if ds.len() == 0 {
        seq![]
    } else {
        decls_tree(ds.drop_last(), prefix, false) + decl_tree(ds.last(), prefix, mark_last)
    }
}

/// A program: its name, then its declarations and its statements, each
/// group under a heading. The last declaration is drawn as a last child
/// only when no statement follows.
pub open spec fn program_tree(p: ProgramV) -> Seq<char> {
    "Program: "@ + p.name + seq!['\n'] + "├── Declarations:"@ + seq!['\n']
        + decls_tree(p.declarations, "│   "@, p.statements.len() == 0)
        + "└── Statements:"@ + seq!['\n'] + stmts_tree(p.statements, "    "@, true)
}

// ----- Writing the tree -----

/// Appends `s` escaped and between double quotes.
fn push_quoted(out: &mut String, s: &String)
    ensures
        final(out)@ == old(out)@ + quoted(s@),
{
    let cs = str_chars(s.as_str());
    push_char(out, '"');
    let mut i: usize = 0;
    assert(cs@.take(0) =~= Seq::<char>::empty());
    while i < cs.len()
        invariant
            i <= cs@.len(),
            cs@ == s@,
            out@ == old(out)@ + seq!['"'] + escaped(cs@.take(i as int)),
        decreases cs@.len() - i,
    {
        let c = cs[i];
        if c == '\t' {
            push_char(out, '\\');
            push_char(out, 't');
        } else if c == '\r' {
            push_char(out, '\\');
            push_char(out, 'r');
        } else if c == '\n' {
            push_char(out, '\\');
            push_char(out, 'n');
        } else if c == '\\' {
            push_char(out, '\\');
            push_char(out, '\\');
        } else if c == '"' {
            push_char(out, '\\');
            push_char(out, '"');
        } else if c == '\0' {
            push_char(out, '\\');
            push_char(out, '0');
        } else {
            push_char(out, c);
        }
        assert(cs@.take(i + 1).drop_last() =~= cs@.take(i as int));
        assert(out@ =~= old(out)@ + seq!['"'] + escaped(cs@.take(i + 1)));
        i = i + 1;
    }
    assert(cs@.take(cs@.len() as int) =~= s@);
    push_char(out, '"');
    assert(out@ =~= old(out)@ + quoted(s@));
}

/// Appends a list of names, each quoted, between brackets.
fn push_names(out: &mut String, names: &Vec<String>)
    ensures
        final(out)@ == old(out)@ + names_text(names_view(names@)),
{
    let mut qs: Vec<String> = Vec::new();
    let mut i: usize = 0;
    while i < names.len()
        invariant
            i <= names@.len(),
            qs@.len() == i,
            forall|k: int| 0 <= k < i ==> (#[trigger] qs@[k])@ == quoted(names@[k]@),
        decreases names@.len() - i,
    {
        let mut q = String::new();
        push_quoted(&mut q, &names[i]);
        assert(q@ =~= quoted(names@[i as int]@));
        qs.push(q);
        i = i + 1;
    }
    let j = join_strings(&qs, ", ");
    assert(qs@.map_values(|s: String| s@) =~= names_view(names@).map_values(|n: Seq<char>| quoted(n)));
    push_char(out, '[');
    out.append(j.as_str());
    push_char(out, ']');
    assert(out@ =~= old(out)@ + names_text(names_view(names@)));
}

/// Appends a literal: its kind and its value in parentheses.
fn push_literal(out: &mut String, l: &LiteralKind)
    ensures
        final(out)@ == old(out)@ + literal_text(l@),
{
    match l {
        LiteralKind::Int(v) => {
            out.append("Int(");
            push_signed_decimal(out, *v);
            push_char(out, ')');
        },
        LiteralKind::Float(t) => {
            out.append("Float(");
            out.append(t.as_str());
            push_char(out, ')');
        },
        LiteralKind::String(t) => {
            out.append("String(");
            push_quoted(out, t);
            push_char(out, ')');
        },
    }
    assert(out@ =~= old(out)@ + literal_text(l@));
}

/// The name of a binary operator.
fn operator_name(op: Operator) -> (r: &'static str)
    ensures
        r@ == operator_text(op),
{
    match op {
        Operator::Add => "Add",
        Operator::Subtract => "Subtract",
        Operator::Multiply => "Multiply",
        Operator::Divide => "Divide",
        Operator::GreaterThan => "GreaterThan",
        Operator::LessThan => "LessThan",
        Operator::GreaterEqual => "GreaterEqual",
        Operator::LessEqual => "LessEqual",
        Operator::Equal => "Equal",
        Operator::NotEqual => "NotEqual",
        Operator::And => "And",
        Operator::Or => "Or",
    }
}

/// Appends the prefix and the branch of a node, and a space.
fn push_head(out: &mut String, prefix: &str, last: bool)
    ensures
        final(out)@ == old(out)@ + prefix@ + branch(last) + seq![' '],
{
    out.append(prefix);
    if last {
        out.append("└──");
    } else {
        out.append("├──");
    }
    push_char(out, ' ');
    assert(out@ =~= old(out)@ + prefix@ + branch(last) + seq![' ']);
}

/// The prefix of the children of a node drawn under `prefix`.
fn child_prefix_text(prefix: &str, last: bool) -> (r: String)
    ensures
        r@ == child_prefix(prefix@, last),
{
    let mut r = String::from_str(prefix);
    if last {
        r.append("    ");
    } else {
        r.append("│   ");
    }
    r
}

/// Appends the line of a node whose label is `label`.
fn push_node_line(out: &mut String, prefix: &str, last: bool, label: &str)
    ensures
        final(out)@ == old(out)@ + node_line(prefix@, last, label@),
{
    push_head(out, prefix, last);
    out.append(label);
    push_char(out, '\n');
    assert(out@ =~= old(out)@ + node_line(prefix@, last, label@));
}

/// Appends an expression and its operands below it.
pub fn push_expr_tree(out: &mut String, e: &Expression, prefix: &str, last: bool)
    ensures
        final(out)@ == old(out)@ + expr_tree(expr_view(*e), prefix@, last),
    decreases e,
{
    let np = child_prefix_text(prefix, last);
    let mut label = String::new();
    match &e.node {
        ExpressionKind::Identifier(n) => {
            label.append("Identifier: ");
            label.append(n.as_str());
            push_node_line(out, prefix, last, label.as_str());
        },
        ExpressionKind::ArrayAccess(n, i) => {
            label.append("ArrayAccess: ");
            label.append(n.as_str());
            push_node_line(out, prefix, last, label.as_str());
            push_expr_tree(out, i, np.as_str(), true);
        },
        ExpressionKind::Literal(l) => {
            label.append("Literal: ");
            push_literal(&mut label, &l.node);
            push_node_line(out, prefix, last, label.as_str());
        },
        ExpressionKind::BinaryOp(l, op, r) => {
            label.append("BinaryOp: ");
            label.append(operator_name(*op));
            push_node_line(out, prefix, last, label.as_str());
            push_expr_tree(out, l, np.as_str(), false);
            push_expr_tree(out, r, np.as_str(), true);
        },
        ExpressionKind::UnaryOp(_, x) => {
            label.append("UnaryOp: Not");
            push_node_line(out, prefix, last, label.as_str());
            push_expr_tree(out, x, np.as_str(), true);
        },
    }
    assert(out@ =~= old(out)@ + expr_tree(expr_view(*e), prefix@, last));
}

/// Appends expressions one after the other; the last one is drawn as a
/// last child when `mark_last` holds.
fn push_exprs_tree(out: &mut String, es: &Vec<Expression>, prefix: &str, mark_last: bool)
    ensures
        final(out)@ == old(out)@ + exprs_tree(exprs_view(es@), prefix@, mark_last),
{
    let ghost v = exprs_view(es@);
    let mut i: usize = 0;
    assert(v.take(0) =~= Seq::<Loc<ExprV>>::empty());
    while i < es.len()
        invariant
            i <= es@.len(),
            v == exprs_view(es@),
            out@ == old(out)@ + exprs_tree(v.take(i as int), prefix@, mark_last && i == es@.len()),
        decreases es@.len() - i,
    {
        let flag = mark_last && i + 1 == es.len();
        push_expr_tree(out, &es[i], prefix, flag);
        assert(v.take(i + 1).drop_last() =~= v.take(i as int));
        assert(v.take(i + 1).last() == expr_view(es@[i as int]));
        i = i + 1;
    }
    assert(v.take(v.len() as int) =~= v);
}

/// Appends an if-else statement: its condition, then the `Then:` and
/// `Else:` branches with their statements.
fn push_if_else_tree(out: &mut String, s: &Statement, prefix: &str, last: bool)
    requires
        s.node is IfThenElse,
    ensures
        final(out)@ == old(out)@ + stmt_tree(stmt_view(*s), prefix@, last),
    decreases s, 0int,
{
    let (c, b1, b2) = match &s.node {
        StatementKind::IfThenElse(c, b1, b2) => (c, b1, b2),
        _ => {
            return;
        },
    };
    let np = child_prefix_text(prefix, last);
    push_node_line(out, prefix, last, "IfThenElse:");
    push_expr_tree(out, c, np.as_str(), false);
    out.append(np.as_str());
    out.append("├── Then:");
    push_char(out, '\n');
    let mut then_prefix = np.clone();
    proof {
        lemma_stmts_view_index(b1@);
        lemma_stmts_view_index(b2@);
    }
    if b2.len() == 0 && b1.len() > 0 {
        then_prefix.append("    ");
    } else {
        then_prefix.append("│   ");
    }
    push_stmts_tree(out, b1, then_prefix.as_str(), true);
    out.append(np.as_str());
    out.append("└── Else:");
    push_char(out, '\n');
    let mut else_prefix = np.clone();
    else_prefix.append("    ");
    push_stmts_tree(out, b2, else_prefix.as_str(), true);
    assert(out@ =~= old(out)@ + stmt_tree(stmt_view(*s), prefix@, last));
}

/// Appends a statement, with its conditions, operands and blocks below it.
pub fn push_stmt_tree(out: &mut String, s: &Statement, prefix: &str, last: bool)
    ensures
        final(out)@ == old(out)@ + stmt_tree(stmt_view(*s), prefix@, last),
    decreases s, 1int,
{
    let ghost sv = stmt_view(*s);
    let np = child_prefix_text(prefix, last);
    match &s.node {
        StatementKind::Assignment(l, r) => {
            push_node_line(out, prefix, last, "Assignment:");
            push_expr_tree(out, l, np.as_str(), false);
            push_expr_tree(out, r, np.as_str(), true);
            assert(out@ =~= old(out)@ + stmt_tree(sv, prefix@, last));
        },
        StatementKind::IfThen(c, b) => {
            push_node_line(out, prefix, last, "IfThen:");
            push_expr_tree(out, c, np.as_str(), false);
            push_stmts_tree(out, b, np.as_str(), true);
            assert(out@ =~= old(out)@ + stmt_tree(sv, prefix@, last));
        },
        StatementKind::IfThenElse(..) => {
            push_if_else_tree(out, s, prefix, last);
        },
        StatementKind::DoWhile(b, c) => {
            push_node_line(out, prefix, last, "DoWhile:");
            push_stmts_tree(out, b, np.as_str(), false);
            push_expr_tree(out, c, np.as_str(), true);
            assert(out@ =~= old(out)@ + stmt_tree(sv, prefix@, last));
        },
        StatementKind::For(v, a, b, c, body) => {
            push_node_line(out, prefix, last, "For:");
            push_expr_tree(out, v, np.as_str(), false);
            push_expr_tree(out, a, np.as_str(), false);
            push_expr_tree(out, b, np.as_str(), false);
            push_expr_tree(out, c, np.as_str(), false);
            push_stmts_tree(out, body, np.as_str(), true);
            assert(out@ =~= old(out)@ + stmt_tree(sv, prefix@, last));
        },
        StatementKind::Input(e) => {
            push_node_line(out, prefix, last, "Input:");
            push_expr_tree(out, e, np.as_str(), true);
            assert(out@ =~= old(out)@ + stmt_tree(sv, prefix@, last));
        },
        StatementKind::Output(es) => {
            push_node_line(out, prefix, last, "Output:");
            push_exprs_tree(out, es, np.as_str(), true);
            assert(out@ =~= old(out)@ + stmt_tree(sv, prefix@, last));
        },
        StatementKind::Scope(b) => {
            push_node_line(out, prefix, last, "Scope:");
            push_stmts_tree(out, b, np.as_str(), true);
            assert(out@ =~= old(out)@ + stmt_tree(sv, prefix@, last));
        },
        StatementKind::Empty => {
            push_node_line(out, prefix, last, "Empty");
        },
    }
}

/// Appends statements one after the other; the last one is drawn as a last
/// child when `mark_last` holds.
fn push_stmts_tree(out: &mut String, block: &Vec<Statement>, prefix: &str, mark_last: bool)
    ensures
        final(out)@ == old(out)@ + stmts_tree(stmts_view(block@), prefix@, mark_last),
    decreases block, 2int,
{
    let ghost v = stmts_view(block@);
    proof {
        lemma_stmts_view_index(block@);
    }
    let mut i: usize = 0;
    assert(v.take(0) =~= Seq::<Loc<StmtV>>::empty());
    while i < block.len()
        invariant
            i <= block@.len(),
            v == stmts_view(block@),
            v.len() == block@.len(),
            forall|k: int| 0 <= k < block@.len() ==> #[trigger] v[k] == stmt_view(block@[k]),
            out@ == old(out)@ + stmts_tree(v.take(i as int), prefix@, mark_last && i == block@.len()),
        decreases block@.len() - i,
    {
        let flag = mark_last && i + 1 == block.len();
        push_stmt_tree(out, &block[i], prefix, flag);
        assert(v.take(i + 1).drop_last() =~= v.take(i as int));
        assert(v.take(i + 1).last() == v[i as int]);
        i = i + 1;
    }
    assert(v.take(v.len() as int) =~= v);
}

/// Appends a declaration, with its initial values below it.
fn push_decl_tree(out: &mut String, d: &Declaration, prefix: &str, last: bool)
    ensures
        final(out)@ == old(out)@ + decl_tree(decl_view(*d), prefix@, last),
{
    let np = child_prefix_text(prefix, last);
    let mut label = String::new();
    match &d.node {
        DeclarationKind::Variable(ns, t) => {
            label.append("Variable: ");
            push_names(&mut label, ns);
            label.append(" : ");
            let tn = t.name();
            label.append(tn.as_str());
            push_node_line(out, prefix, last, label.as_str());
        },
        DeclarationKind::Array(ns, t, n) => {
            label.append("Array: ");
            push_names(&mut label, ns);
            label.append(" : ");
            let tn = t.name();
            label.append(tn.as_str());
            label.append(" [");
            push_signed_decimal(&mut label, *n);
            push_char(&mut label, ']');
            push_node_line(out, prefix, last, label.as_str());
        },
        DeclarationKind::VariableWithInit(ns, t, e) => {
            label.append("VariableWithInit: ");
            push_names(&mut label, ns);
            label.append(" : ");
            let tn = t.name();
            label.append(tn.as_str());
            push_node_line(out, prefix, last, label.as_str());
            push_expr_tree(out, e, np.as_str(), true);
        },
        DeclarationKind::ArrayWithInit(ns, t, n, es) => {
            label.append("ArrayWithInit: ");
            push_names(&mut label, ns);
            label.append(" : ");
            let tn = t.name();
            label.append(tn.as_str());
            label.append(" [");
            push_signed_decimal(&mut label, *n);
            push_char(&mut label, ']');
            push_node_line(out, prefix, last, label.as_str());
            push_exprs_tree(out, es, np.as_str(), true);
        },
        DeclarationKind::Constant(n, t, l) => {
            label.append("Constant: ");
            label.append(n.as_str());
            label.append(" : ");
            let tn = t.name();
            label.append(tn.as_str());
            label.append(" = ");
            push_literal(&mut label, &l.node);
            push_node_line(out, prefix, last, label.as_str());
        },
    }
    assert(out@ =~= old(out)@ + decl_tree(decl_view(*d), prefix@, last));
}

impl Program {
    /// The syntax tree of the program, drawn one node per line.
    pub fn pretty_print(&self) -> (r: String)
        ensures
            r@ == program_tree(self@),
    {
        let mut out = String::new();
        out.append("Program: ");
        out.append(self.name.as_str());
        push_char(&mut out, '\n');
        out.append("├── Declarations:");
        push_char(&mut out, '\n');
        let ghost v = decls_view(self.declarations@);
        let none_after = self.statements.len() == 0;
        proof {
            lemma_stmts_view_index(self.statements@);
        }
        let ghost start = out@;
        let mut i: usize = 0;
        assert(v.take(0) =~= Seq::<Loc<DeclV>>::empty());
        while i < self.declarations.len()
            invariant
                i <= self.declarations@.len(),
                v == decls_view(self.declarations@),
                out@ == start + decls_tree(v.take(i as int), "│   "@, none_after && i == self.declarations@.len()),
            decreases self.declarations@.len() - i,
        {
            let flag = none_after && i + 1 == self.declarations.len();
            push_decl_tree(&mut out, &self.declarations[i], "│   ", flag);
            assert(v.take(i + 1).drop_last() =~= v.take(i as int));
            assert(v.take(i + 1).last() == decl_view(self.declarations@[i as int]));
            i = i + 1;
        }
        assert(v.take(v.len() as int) =~= v);
        out.append("└── Statements:");
        push_char(&mut out, '\n');
        push_stmts_tree(&mut out, &self.statements, "    ", true);
        assert(out@ =~= program_tree(self@));
        out
    }
}

} // verus!
