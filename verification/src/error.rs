//! The errors that the runtime reports.

use vstd::prelude::*;

verus! {

/// Why an artifact was refused when it was loaded.
#[derive(Clone, Copy, Debug, PartialEq, Eq, Structural)]
pub enum LoadError {
    /// A function, type or field name is not valid displayable text.
    InvalidText,
    /// Two exported functions, or two structs, share a name.
    DuplicateName,
    /// A type reference points nowhere, or a struct layout breaks the layout
    /// invariant.
    Malformed,
    /// The artifact declares more structs than the registry can still
    /// number.
    TooLarge,
}

/// The errors of invocation, field access and reload.
#[derive(Clone, Copy, Debug, PartialEq, Eq, Structural)]
pub enum Error {
    /// The artifact could not be loaded.
    Load(LoadError),
    /// No exported function has the requested name.
    FunctionNotFound,
    /// The number of arguments differs from the number of parameters.
    ArityMismatch,
    /// An argument, a return value or a field value does not have the
    /// declared type. A struct reference that is not valid (a handle to no
    /// object, an inline copy of the wrong size) reports no type at all and
    /// is refused in the same way.
    TypeMismatch,
    /// The struct has no field of the requested name.
    FieldNotFound,
    /// The new artifact changes the signature of a function it keeps, or
    /// retypes a field of a struct that has live instances to a type with no
    /// conversion.
    IncompatibleReload,
    /// A live instance cannot be carried over to the new artifact: its
    /// struct is declared anew as a value struct, so that it can no longer
    /// live in the collector.
    MigrationFailure,
}

} // verus!
