use vstd::prelude::*;

verus! {

/// The error taxonomy of the query core.
///
/// `FieldNotFound`, `UnknownFunction` and `TypeMismatch` are static errors of
/// compilation and function resolution. `LogicalError` marks a contract
/// violation by the caller: an expression kind that must have been rewritten
/// before it reaches this layer. `BadState` marks a corrupt serialized
/// partial-aggregate payload, `BadBytes` a malformed textual number, and
/// `EmptyInput` an operator executed without wiring.
#[derive(Debug, Clone, PartialEq, Eq)]
pub enum ErrorCode {
    FieldNotFound(String),
    UnknownFunction(String),
    LogicalError(String),
    TypeMismatch(String),
    BadState(String),
    BadBytes(String),
    EmptyInput(String),
}

impl ErrorCode {
    /// The human-readable reason carried by the error.
    pub fn message(&self) -> (r: &String)
        ensures
            r@ == self.message_spec(),
    {
        match self {
            ErrorCode::FieldNotFound(m) => m,
            ErrorCode::UnknownFunction(m) => m,
            ErrorCode::LogicalError(m) => m,
            ErrorCode::TypeMismatch(m) => m,
            ErrorCode::BadState(m) => m,
            ErrorCode::BadBytes(m) => m,
            ErrorCode::EmptyInput(m) => m,
        }
    }

    pub open spec fn message_spec(&self) -> Seq<char> {
        match self {
            ErrorCode::FieldNotFound(m) => m@,
            ErrorCode::UnknownFunction(m) => m@,
            ErrorCode::LogicalError(m) => m@,
            ErrorCode::TypeMismatch(m) => m@,
            ErrorCode::BadState(m) => m@,
            ErrorCode::BadBytes(m) => m@,
            ErrorCode::EmptyInput(m) => m@,
        }
    }
}

/// The class of an error, without its message: what the mathematical
/// models of compilation and execution speak of.
#[derive(Debug, Clone, Copy, PartialEq, Eq, Structural)]
pub enum ErrClass {
    FieldNotFound,
    UnknownFunction,
    LogicalError,
    TypeMismatch,
    BadState,
    BadBytes,
    EmptyInput,
}

/// The class an error belongs to.
pub open spec fn error_class(e: ErrorCode) -> ErrClass {
    match e {
        ErrorCode::FieldNotFound(_) => ErrClass::FieldNotFound,
        ErrorCode::UnknownFunction(_) => ErrClass::UnknownFunction,
        ErrorCode::LogicalError(_) => ErrClass::LogicalError,
        ErrorCode::TypeMismatch(_) => ErrClass::TypeMismatch,
        ErrorCode::BadState(_) => ErrClass::BadState,
        ErrorCode::BadBytes(_) => ErrClass::BadBytes,
        ErrorCode::EmptyInput(_) => ErrClass::EmptyInput,
    }
}

} // verus!
