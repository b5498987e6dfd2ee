//! The symbols a program declares.
use vstd::prelude::*;
use crate::parser::ast::{LiteralKind, LitV, Type};
use crate::text::{push_char, push_decimal, push_signed_decimal, decimal, signed_decimal, join, join_strings};

verus! {

/// What a name stands for.
#[derive(Debug, Clone, Copy, PartialEq, Eq, Structural)]
pub enum SymbolKind {
    Variable,
    Constant,
    Array(usize),
}

/// The value known for a name at compile time.
#[derive(Debug)]
pub enum SymbolValue {
    Single(LiteralKind),
    Array(Vec<LiteralKind>),
    Uninitialized,
}

pub enum SymbolValueV {
    Single(LitV),
    Array(Seq<LitV>),
    Uninitialized,
}

impl View for SymbolValue {
    type V = SymbolValueV;

    open spec fn view(&self) -> SymbolValueV {
        match self {
            SymbolValue::Single(l) => SymbolValueV::Single(l@),
            SymbolValue::Array(v) => SymbolValueV::Array(v@.map_values(|l: LiteralKind| l@)),
            SymbolValue::Uninitialized => SymbolValueV::Uninitialized,
        }
    }
}

/// A declared name with what is known of it and where it was declared.
#[derive(Debug)]
pub struct Symbol {
    pub name: String,
    pub kind: SymbolKind,
    pub symbol_type: Type,
    pub value: SymbolValue,
    pub is_constant: bool,
    pub line: usize,
    pub column: usize,
}

pub struct SymbolV {
    pub name: Seq<char>,
    pub kind: SymbolKind,
    pub symbol_type: Type,
    pub value: SymbolValueV,
    pub is_constant: bool,
    pub line: int,
    pub column: int,
}

impl View for Symbol {
    type V = SymbolV;

    open spec fn view(&self) -> SymbolV {
        SymbolV {
            name: self.name@,
            kind: self.kind,
            symbol_type: self.symbol_type,
            value: self.value@,
            is_constant: self.is_constant,
            line: self.line as int,
            column: self.column as int,
        }
    }
}

impl Default for Symbol {
    /// An uninitialized `Int` variable with an empty name at line 0, column 0.
    fn default() -> (r: Symbol)
        ensures
            r@ == (SymbolV {
                name: Seq::<char>::empty(),
                kind: SymbolKind::Variable,
                symbol_type: Type::Int,
                value: SymbolValueV::Uninitialized,
                is_constant: false,
                line: 0,
                column: 0,
            }),
    {
        Symbol {
            name: String::new(),
            kind: SymbolKind::Variable,
            symbol_type: Type::Int,
            value: SymbolValue::Uninitialized,
            is_constant: false,
            line: 0,
            column: 0,
        }
    }
}

/// A known value as listings write it: a number as it is, a string between
/// double quotes.
pub open spec fn value_text(l: LitV) -> Seq<char> {
    match l {
        LitV::Int(v) => signed_decimal(v as int),
        LitV::Float(t) => t,
        LitV::Str(t) => seq!['"'] + t + seq!['"'],
    }
}

/// The kind of a symbol as listings write it; an array shows its size.
pub open spec fn kind_text(k: SymbolKind) -> Seq<char> {
    match k {
        SymbolKind::Variable => "Variable"@,
        SymbolKind::Constant => "Constant"@,
        SymbolKind::Array(n) => "Array["@ + decimal(n as nat) + seq![']'],
    }
}

/// What is known of a symbol's value, as listings write it: the value, the
/// values of an array between brackets and separated by `, `, or
/// `<uninitialized>`.
pub open spec fn symbol_value_text(v: SymbolValueV) -> Seq<char> {
    match v {
        SymbolValueV::Single(l) => value_text(l),
        SymbolValueV::Array(ls) => if ls.len() == 0 {
            "[]"@
        } else {
            seq!['['] + join(ls.map_values(|l: LitV| value_text(l)), ", "@) + seq![']']
        },
        SymbolValueV::Uninitialized => "<uninitialized>"@,
    }
}

/// The value as listings write it.
fn literal_value(l: &LiteralKind) -> (r: String)
    ensures
        r@ == value_text(l@),
{
    let mut r = String::new();
    match l {
        LiteralKind::Int(v) => push_signed_decimal(&mut r, *v),
        LiteralKind::Float(t) => r.append(t.as_str()),
        LiteralKind::String(t) => {
            push_char(&mut r, '"');
            r.append(t.as_str());
            push_char(&mut r, '"');
        },
    }
    assert(r@ =~= value_text(l@));
    r
}

impl Symbol {
    /// The kind of the symbol as listings write it.
    pub fn kind_text(&self) -> (r: String)
        ensures
            r@ == kind_text(self.kind),
    {
        match self.kind {
            SymbolKind::Variable => String::from_str("Variable"),
            SymbolKind::Constant => String::from_str("Constant"),
            SymbolKind::Array(n) => {
                let mut r = String::from_str("Array[");
                push_decimal(&mut r, n);
                push_char(&mut r, ']');
                assert(r@ =~= kind_text(self.kind));
                r
            },
        }
    }

    /// What is known of the symbol's value, as listings write it.
    pub fn value_text(&self) -> (r: String)
        ensures
            r@ == symbol_value_text(self.value@),
    {
        match &self.value {
            SymbolValue::Single(l) => literal_value(l),
            SymbolValue::Array(ls) => {
                if ls.len() == 0 {
                    String::from_str("[]")
                } else {
                    let mut parts: Vec<String> = Vec::new();
                    let mut i: usize = 0;
                    while i < ls.len()
                        invariant
                            i <= ls@.len(),
                            parts@.len() == i,
                            forall|k: int| 0 <= k < i ==> (#[trigger] parts@[k])@ == value_text(ls@[k]@),
                        decreases ls@.len() - i,
                    {
                        parts.push(literal_value(&ls[i]));
                        i = i + 1;
                    }
                    let j = join_strings(&parts, ", ");
                    assert(parts@.map_values(|s: String| s@)
                        =~= ls@.map_values(|l: LiteralKind| l@).map_values(|l: LitV| value_text(l)));
                    let mut r = String::new();
                    push_char(&mut r, '[');
                    r.append(j.as_str());
                    push_char(&mut r, ']');
                    assert(r@ =~= symbol_value_text(self.value@));
                    r
                }
            },
            SymbolValue::Uninitialized => String::from_str("<uninitialized>"),
        }
    }
}

/// The symbol named `name` among `entries`, the latest one if several are.
pub open spec fn find(entries: Seq<SymbolV>, name: Seq<char>) -> Option<SymbolV>
    decreases entries.len(),
{
    if entries.len() == 0 {
        None
    } else if entries.last().name == name {
        Some(entries.last())
    } else {
        find(entries.drop_last(), name)
    }
}

/// The declared symbols, by name; no name is declared twice.
pub struct SymbolTable {
    symbols: Vec<Symbol>,
}

impl SymbolTable {
    /// The symbols in the order they were added.
    pub closed spec fn entries(&self) -> Seq<SymbolV> {
        self.symbols@.map_values(|s: Symbol| s@)
    }

    /// An empty table.
    pub fn new() -> (r: SymbolTable)
        ensures
            r.entries() == Seq::<SymbolV>::empty(),
    {
        let r = SymbolTable { symbols: Vec::new() };
        assert(r.entries() =~= Seq::<SymbolV>::empty());
        r
    }

    /// Adds `symbol` unless its name is already declared; tells whether it did.
    pub fn add_symbol(&mut self, symbol: Symbol) -> (r: bool)
        ensures
            r == (find(old(self).entries(), symbol@.name) is None),
            r ==> final(self).entries() == old(self).entries().push(symbol@),
            !r ==> final(self).entries() == old(self).entries(),
    {
        if self.contains(symbol.name.as_str()) {
            return false;
        }
        let ghost sv = symbol@;
        let ghost before = self.entries();
        self.symbols.push(symbol);
        assert(self.entries() =~= before.push(sv));
        true
    }

    /// Is `name` declared?
    pub fn contains(&self, name: &str) -> (r: bool)
        ensures
            r == (find(self.entries(), name@) is Some),
    {
        match self.get(name) {
            Some(_) => true,
            None => false,
        }
    }

    /// The symbol declared as `name`.
    pub fn get(&self, name: &str) -> (r: Option<&Symbol>)
        ensures
            match r {
                Some(s) => find(self.entries(), name@) == Some(s@),
                None => find(self.entries(), name@) is None,
            },
    {
        let key = String::from_str(name);
        let mut i = self.symbols.len();
        assert(self.entries().take(i as int) =~= self.entries());
        while i > 0
            invariant
                i <= self.symbols@.len(),
                key@ == name@,
                find(self.entries(), name@) == find(self.entries().take(i as int), name@),
            decreases i,
        {
            let ghost e = self.entries().take(i as int);
            assert(e.drop_last() =~= self.entries().take(i - 1));
            assert(e.last() == self.symbols@[i - 1]@);
            if self.symbols[i - 1].name == key {
                return Some(&self.symbols[i - 1]);
            }
            i = i - 1;
        }
        None
    }

    /// All the symbols, in the order they were added.
    pub fn get_all(&self) -> (r: Vec<&Symbol>)
        ensures
            r@.len() == self.entries().len(),
            forall|i: int| 0 <= i < r@.len() ==> (#[trigger] r@[i])@ == self.entries()[i],
    {
        let mut r: Vec<&Symbol> = Vec::new();
        let mut i: usize = 0;
        while i < self.symbols.len()
            invariant
                i <= self.symbols@.len(),
                r@.len() == i,
                forall|k: int| 0 <= k < i ==> (#[trigger] r@[k])@ == self.entries()[k],
            decreases self.symbols@.len() - i,
        {
            r.push(&self.symbols[i]);
            i = i + 1;
        }
        r
    }
}

} // verus!
