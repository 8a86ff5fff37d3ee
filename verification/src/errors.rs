//! The engine's error taxonomy.

use vstd::prelude::*;

verus! {

/// Every failure the engine can report.
///
/// Schema derivation errors (`AmbiguousOrMissingField`, `SourceNotFound`) are
/// recoverable and surface to the caller of plan construction; evaluation-time
/// errors (`TypeMismatch`, `NullValueAccessed`, `UnsupportedType`,
/// `IndexOutOfBounds`) propagate per batch and stop the operator tree.
#[derive(Clone, Copy, Debug, PartialEq, Eq, Structural)]
pub enum EngineError {
    /// An operation (build, cast, compare) was invoked with a type pairing
    /// outside the supported matrix.
    UnsupportedType,
    /// Two operands of a binary expression have different concrete types.
    TypeMismatch,
    /// A concrete value was required where the underlying slot is null.
    NullValueAccessed,
    /// A builder or vector access lies beyond the declared length.
    IndexOutOfBounds,
    /// A schema selection found zero or more than one field for a name.
    AmbiguousOrMissingField,
    /// The backing resource for a data source cannot be opened.
    SourceNotFound,
}

} // verus!
