use vstd::prelude::*;

verus! {

/// The bracketing of a token group.
#[derive(Clone, Copy, Debug, PartialEq, Eq, Structural)]
pub enum Delimiter {
    Parenthesis,
    Brace,
    Bracket,
    /// A group with no visible delimiters.
    Invisible,
}

/// Whether a punctuation mark is glued to the token after it (`::`, `->`).
#[derive(Clone, Copy, Debug, PartialEq, Eq, Structural)]
pub enum Spacing {
    Alone,
    Joint,
}

/// One node of a token sequence: a leaf or a delimited group.
#[derive(Debug)]
pub enum TokenTree {
    Group(Delimiter, Vec<TokenTree>),
    Ident(String),
    Punct(char, Spacing),
    /// A literal, held as its source text (`"a\n"`, `42u8`).
    Literal(String),
}

/// Whether an attribute applies to its enclosing unit (`#![..]`) or to the next item (`#[..]`).
#[derive(Clone, Copy, Debug, PartialEq, Eq, Structural)]
pub enum AttrStyle {
    Outer,
    Inner,
}

/// An attribute: its path (`doc`, `allow`) and the tokens that follow the path.
#[derive(Debug)]
pub struct Attribute {
    pub style: AttrStyle,
    pub path: String,
    pub tokens: Vec<TokenTree>,
}

/// One top-level member of a unit, as its token sequence.
#[derive(Debug)]
pub struct Item {
    pub tokens: Vec<TokenTree>,
}

/// A compilation unit: optional interpreter line, unit-level attributes, members.
#[derive(Debug)]
pub struct SourceFile {
    pub shebang: Option<String>,
    pub attrs: Vec<Attribute>,
    pub items: Vec<Item>,
}

/// Every attribute of the unit is unit-level (inner).
pub open spec fn all_inner(attrs: Seq<Attribute>) -> bool {
    forall|i: int| 0 <= i < attrs.len() ==> (#[trigger] attrs[i]).style == AttrStyle::Inner
}

} // verus!
