use vstd::prelude::*;

verus! {

/// The recoverable failures that the service reports. Every fallible
/// operation returns exactly one of these instead of stopping the process.
#[derive(Debug, Clone, PartialEq, Eq)]
pub enum ServiceError {
    /// The requested file or user does not exist.
    NotFound { key: String },
    /// A file holds more bytes than the store accepts.
    TooLarge { actual: u64, limit: u64 },
    /// The filesystem refused access, or the name would leave the base directory.
    PermissionDenied { key: String },
    /// The bytes of a file are not valid UTF-8 text.
    InvalidEncoding { key: String },
    /// Any other filesystem failure, with the system's own description.
    IoFailure { key: String, cause: String },
    /// Another user already has this e-mail address.
    DuplicateEmail { email: String },
    /// The e-mail address is malformed.
    InvalidEmail { email: String },
    /// A required setting was absent or unusable.
    ConfigMissing { variable: String },
}

/// The kinds of filesystem failure that the store tells apart.
#[derive(Debug, Clone, Copy, PartialEq, Eq)]
pub enum IoKind {
    NotFound,
    PermissionDenied,
    InvalidData,
    Other,
}

/// The file operations, which differ in the errors they report.
#[derive(Debug, Clone, Copy, PartialEq, Eq)]
pub enum FileOp {
    Read,
    Write,
    Delete,
}

/// The error that a filesystem failure of `kind` on `key` during `op` is
/// reported as. A read tells all four kinds apart; a write reports only
/// `PermissionDenied` or `IoFailure`; a delete only `NotFound` or `IoFailure`.
pub open spec fn io_error(op: FileOp, kind: IoKind, key: String, cause: String) -> ServiceError {
    match (op, kind) {
        (FileOp::Read, IoKind::NotFound) => ServiceError::NotFound { key },
        (FileOp::Read, IoKind::PermissionDenied) => ServiceError::PermissionDenied { key },
        (FileOp::Read, IoKind::InvalidData) => ServiceError::InvalidEncoding { key },
        (FileOp::Write, IoKind::PermissionDenied) => ServiceError::PermissionDenied { key },
        (FileOp::Delete, IoKind::NotFound) => ServiceError::NotFound { key },
        _ => ServiceError::IoFailure { key, cause },
    }
}

impl ServiceError {
    /// An equal, independently owned error.
    pub fn duplicate(&self) -> (r: ServiceError)
        ensures
            r == *self,
    {
        match self {
            ServiceError::NotFound { key } => ServiceError::NotFound { key: key.clone() },
            ServiceError::TooLarge { actual, limit } => ServiceError::TooLarge { actual: *actual, limit: *limit },
            ServiceError::PermissionDenied { key } => ServiceError::PermissionDenied { key: key.clone() },
            ServiceError::InvalidEncoding { key } => ServiceError::InvalidEncoding { key: key.clone() },
            ServiceError::IoFailure { key, cause } => ServiceError::IoFailure { key: key.clone(), cause: cause.clone() },
            ServiceError::DuplicateEmail { email } => ServiceError::DuplicateEmail { email: email.clone() },
            ServiceError::InvalidEmail { email } => ServiceError::InvalidEmail { email: email.clone() },
            ServiceError::ConfigMissing { variable } => ServiceError::ConfigMissing { variable: variable.clone() },
        }
    }

    /// Classifies a filesystem failure of `op` on `key`; `cause`, the
    /// system's description, is kept for the failures without a kind of their own.
    pub fn from_io(op: FileOp, kind: IoKind, key: String, cause: String) -> (r: ServiceError)
        ensures
            r == io_error(op, kind, key, cause),
    {
        match (op, kind) {
            (FileOp::Read, IoKind::NotFound) => ServiceError::NotFound { key },
            (FileOp::Read, IoKind::PermissionDenied) => ServiceError::PermissionDenied { key },
            (FileOp::Read, IoKind::InvalidData) => ServiceError::InvalidEncoding { key },
            (FileOp::Write, IoKind::PermissionDenied) => ServiceError::PermissionDenied { key },
            (FileOp::Delete, IoKind::NotFound) => ServiceError::NotFound { key },
            _ => ServiceError::IoFailure { key, cause },
        }
    }
}

} // verus!
