//! The plain syntax model the analyzer consumes.
//!
//! The analyzer works on one already-parsed source file.  The parser
//! itself is an external collaborator; what the analyzer reads of the
//! tree is captured here as plain values: item names, source lines,
//! attribute text, the outer and inner names of path types, and the
//! shape of expressions as far as the division rule needs it.

use vstd::prelude::*;

verus! {

/// One attribute attached to an item or a field, rendered to text.
#[derive(Debug, Clone, PartialEq)]
pub struct Attr {
    /// The attribute's path when it is a single identifier (`account`,
    /// `derive`, `instruction`), empty otherwise.
    pub path: String,
    /// The whole attribute rendered to text, tokens separated by
    /// single spaces, e.g. `# [account (init , payer = user)]`.
    pub text: String,
    /// The argument tokens of a list attribute rendered to text,
    /// e.g. `seed : u64 , id : String`; empty for non-list attributes.
    pub arg_text: String,
}

/// One generic argument of a path segment.
#[derive(Debug, Clone, PartialEq)]
pub enum GenericArg {
    /// A lifetime argument, without the leading apostrophe.
    Lifetime(String),
    /// A type argument that is itself a path; carries the identifier
    /// of the path's last segment.
    TypeName(String),
    /// Any other argument shape.
    Other,
}

/// A plain path type, reduced to its first and last segment.  For a
/// single-segment path the two sides carry the same data.
#[derive(Debug, Clone, PartialEq)]
pub struct PathType {
    /// Identifier of the first segment, e.g. `Account`.
    pub first_ident: String,
    /// Generic arguments of the first segment.
    pub first_args: Vec<GenericArg>,
    /// Identifier of the last segment.
    pub last_ident: String,
    /// Generic arguments of the last segment.
    pub last_args: Vec<GenericArg>,
}

/// One named struct field.
#[derive(Debug, Clone, PartialEq)]
pub struct FieldDecl {
    pub name: String,
    /// The field's type when it is a plain path type, `None` otherwise.
    pub ty: Option<PathType>,
    pub attrs: Vec<Attr>,
    /// Source line of the field name.
    pub line: usize,
}

/// One struct item.
#[derive(Debug, Clone, PartialEq)]
pub struct StructDecl {
    pub name: String,
    pub attrs: Vec<Attr>,
    pub fields: Vec<FieldDecl>,
    /// Source line of the struct name.
    pub line: usize,
}

/// One function parameter.
#[derive(Debug, Clone, PartialEq)]
pub enum Param {
    /// A parameter bound by a simple identifier pattern to a plain
    /// path type.
    Typed { name: String, ty: PathType },
    /// A parameter whose pattern or type has any other shape; the
    /// normalizer skips it with a diagnostic.
    Opaque,
}

/// The shape of an expression, as far as the division rule reads it:
/// bare identifier references, binary divisions, nested function items,
/// and the sub-expressions of everything else.
#[derive(Debug, PartialEq)]
pub enum ExprTree {
    /// A reference to a single bare identifier.
    Ident(String),
    /// A binary division: source line, left operand, right operand.
    Div(usize, Box<ExprTree>, Box<ExprTree>),
    /// A function item nested inside a body: its name and its body's
    /// expressions in source order.
    Func(String, Vec<ExprTree>),
    /// Any other expression: its sub-expressions in source order.
    Node(Vec<ExprTree>),
}

/// One function item.
#[derive(Debug, PartialEq)]
pub struct FnDecl {
    pub name: String,
    pub params: Vec<Param>,
    /// The expressions of the function body, in source order.
    pub body: Vec<ExprTree>,
    /// Source line of the function name.
    pub line: usize,
}

/// One module item: its name and the items it contains.
#[derive(Debug, PartialEq)]
pub struct ModDecl {
    pub name: String,
    pub items: Vec<Item>,
}

/// One top-level or nested item.
#[derive(Debug, PartialEq)]
pub enum Item {
    Struct(StructDecl),
    Module(ModDecl),
    Function(FnDecl),
    /// Any other item kind; the analyzer does not read it.
    Other,
}

/// One parsed source file: its items in source order.
#[derive(Debug, PartialEq)]
pub struct SourceFile {
    pub items: Vec<Item>,
}

} // verus!
