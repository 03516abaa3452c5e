//! The input model: an already-parsed enum declaration.
//!
//! The host's front end parses source text; this library only consumes the
//! result. A declaration is the type's identifier, its visibility and
//! generic-parameter text carried through verbatim, and the ordered list of
//! variants. Each variant carries its identifier, the shape of its field
//! list, and the ordered list of metadata entries attached to it. Every
//! node carries an opaque span token so an error can point back at the
//! offending source location.

use vstd::prelude::*;

verus! {

/// One parsed metadata tree, as the host's attribute syntax provides it.
/// A `groups` attribute arrives as `List` whose path is the single segment
/// `groups`; its arguments are again `Meta` values.
pub enum Meta {
    /// A bare path such as `odd` or `a::b`, given by its segments.
    Path { segments: Vec<String>, span: u64 },
    /// A parenthesized list such as `outer(inner, more)`.
    List { segments: Vec<String>, path_span: u64, args: Vec<Meta>, span: u64 },
    /// Any other metadata form (a literal, a name-value pair).
    Other { span: u64 },
}

/// One variant of the declared enum.
pub struct VariantDecl {
    pub ident: String,
    pub shape: crate::FieldShape,
    pub attrs: Vec<Meta>,
    pub span: u64,
}

/// What kind of data the declared type holds. Only enums are accepted.
pub enum TypeData {
    Enum { variants: Vec<VariantDecl> },
    Struct,
    Union,
}

/// The declared type, as handed over by the host.
pub struct TypeDecl {
    /// Visibility text, carried through to every generated function.
    pub visibility: String,
    pub ident: String,
    /// Generic-parameter text, carried through to the impl block.
    pub generics: String,
    pub data: TypeData,
    pub span: u64,
}

/// Why a generation pass failed.
#[derive(Clone, Copy, PartialEq, Eq, Structural, Debug)]
pub enum ErrorKind {
    NotAnEnum,
    UnknownGroupItem,
    EmptyGroupList,
    DuplicateGroupAttribute,
    InvalidLabelCharacters,
    LabelStartsWithUnderscore,
    LabelEndsWithUnderscore,
    GroupNameEqualsVariantName,
}

/// A structured diagnostic: what went wrong, anchored at the span of the
/// offending token.
#[derive(Clone, Copy, PartialEq, Eq, Structural, Debug)]
pub struct GroupError {
    pub kind: ErrorKind,
    pub span: u64,
}

/// A well-formed enum declaration names each variant once. The host's
/// language guarantees this; proofs about generated predicates rely on it.
pub open spec fn distinct_variant_idents(vs: Seq<VariantDecl>) -> bool {
    forall|i: int, j: int| 0 <= i < j < vs.len() ==> vs[i].ident@ != vs[j].ident@
}

} // verus!
