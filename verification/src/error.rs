//! The failures a binding can report, and the symbol the host sees for each.
use vstd::prelude::*;

verus! {

/// Why a binding failed. The glue raises each variant to the host as the
/// symbol that `error_atom` names.
#[derive(Clone, Copy, Debug, PartialEq, Eq, Structural)]
pub enum NifError {
    /// The caller handed a value of the wrong shape.
    BadArg,
    /// The requested protocol is not one the bindings support.
    UnsupportedProtocol,
    /// The engine context could not be created or configured.
    ContextInitialization,
    /// The engine reported an error while performing the operation.
    OperationFailed,
    /// No key matched the query.
    NotFound,
}

/// The name of the symbol each error is reported as.
pub open spec fn error_atom(e: NifError) -> Seq<char> {
    match e {
        NifError::BadArg => "badarg"@,
        NifError::UnsupportedProtocol => "unsupported_protocol"@,
        NifError::ContextInitialization => "context_initialization"@,
        NifError::OperationFailed => "error"@,
        NifError::NotFound => "not_found"@,
    }
}

impl NifError {
    /// The name of the symbol this error is reported as.
    pub fn atom_name(&self) -> (s: String)
        ensures
            s@ == error_atom(*self),
    {
        match self {
            NifError::BadArg => "badarg".to_owned(),
            NifError::UnsupportedProtocol => "unsupported_protocol".to_owned(),
            NifError::ContextInitialization => "context_initialization".to_owned(),
            NifError::OperationFailed => "error".to_owned(),
            NifError::NotFound => "not_found".to_owned(),
        }
    }
}

} // verus!
