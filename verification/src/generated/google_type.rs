//! Common types of Google APIs.
use vstd::prelude::*;

verus! {

/// Represents a textual expression in the Common Expression Language (CEL) syntax. CEL is a
/// C-like expression language.
#[derive(Clone, PartialEq, Debug, Default)]
pub struct Expr {
    /// Textual representation of an expression in Common Expression Language syntax.
    pub expression: String,
    /// Optional. Title for the expression, i.e. a short string describing its purpose.
    pub title: String,
    /// Optional. Description of the expression.
    pub description: String,
    /// Optional. String indicating the location of the expression for error reporting.
    pub location: String,
}

} // verus!
