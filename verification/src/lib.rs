//! Build-time generator for enum group predicates.
//!
//! Given the declaration of an enum whose variants carry `groups(...)`
//! attributes, the library resolves each attribute into a list of group
//! labels, inverts the variant-to-label relation into a label-to-variants
//! index, and produces, as data, the method declarations that a host would
//! splice into an `impl` block for the enum: one `is_<label>` predicate per
//! group label, one `is_<variant>` predicate per variant, and a
//! `variant_name` accessor.

use vstd::prelude::*;

pub mod ast;
pub mod context;
pub mod index;
pub mod laws;
pub mod output;
pub mod parse;
pub mod text;

verus! {

/// The three shapes a variant's field list can take. Generated match
/// patterns bind every field in wildcard fashion, so only the shape is
/// needed, never the fields themselves.
#[derive(Clone, Copy, PartialEq, Eq, Structural, Debug)]
pub enum FieldShape {
    /// No fields at all: the pattern is the bare variant identifier.
    Unit,
    /// Positional fields: the pattern is `Ident(..)`.
    Unnamed,
    /// Named fields: the pattern is `Ident{..}`.
    Named,
}

} // verus!
