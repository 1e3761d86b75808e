//! The typed error a failed compilation returns: what was expected, the
//! offending token's text, and its source line.

use vstd::prelude::*;

verus! {

/// What the failing site expected, against what it found.
#[derive(Clone, Copy, PartialEq, Eq, Structural, Debug)]
pub enum ErrorReason {
    /// A line began with a token that opens no declaration.
    UnexpectedToken,
    /// A numeric type identifier was expected.
    ExpectedNumber,
    /// An identifier was expected.
    ExpectedIdentifier,
    /// A data line names another entity than the currently open one.
    NameMismatch,
    /// A field-type token that the keyword table does not know and that
    /// cannot open a TLV-stream reference.
    UnknownFieldType,
    /// A numeric literal that does not fit in 64 bits.
    NumberOutOfRange,
    /// A declaration reuses a name the symbol table already holds.
    DuplicateName,
    /// The token sequence ended without its end-of-input marker.
    UnexpectedEnd,
    /// A TLV-stream reference that no symbol table entry resolves.
    UnresolvedReference,
    /// A TLV-stream reference that resolves to something other than a
    /// TLV record.
    NotATlvRecord,
}

/// A structural error: the compilation fails as a whole and reports the
/// offending token and its line.
#[derive(PartialEq, Debug)]
pub struct StructuralError {
    pub reason: ErrorReason,
    pub found: String,
    pub line: Option<u64>,
}

/// The model of a structural error.
#[verifier::ext_equal]
pub struct ErrModel {
    pub reason: ErrorReason,
    pub found: Seq<char>,
    pub line: Option<u64>,
}

impl View for StructuralError {
    type V = ErrModel;

    open spec fn view(&self) -> ErrModel {
        ErrModel { reason: self.reason, found: self.found@, line: self.line }
    }
}

impl StructuralError {
    /// Builds an error for `reason` at the given token text and line.
    pub fn new(reason: ErrorReason, found: &str, line: Option<u64>) -> (r: StructuralError)
        ensures
            r@ == (ErrModel { reason, found: found@, line }),
    {
        StructuralError { reason, found: found.to_owned(), line }
    }
}

impl Clone for StructuralError {
    fn clone(&self) -> (r: Self)
        ensures
            r == *self,
    {
        StructuralError { reason: self.reason, found: self.found.clone(), line: self.line }
    }
}

} // verus!
