//! Error taxonomy of the library.
//!
//! Every failure the orchestrator can surface is one of these variants:
//! version-control failures, link failures, configuration and I/O failures,
//! lock contention, hook failures, and the name-based lookup errors.

use vstd::prelude::*;

verus! {

/// The error type shared by the whole library.
#[derive(Debug, Clone)]
pub enum TwinError {
    /// A version-control operation failed.
    Git { message: String },
    /// Creating, removing or validating a link failed.
    Symlink { message: String, path: Option<String> },
    /// Reading, parsing or writing a configuration or registry document failed.
    Config { message: String, path: Option<String> },
    /// An environment-level failure.
    Environment { message: String, agent_name: Option<String> },
    /// A filesystem operation failed.
    Io { message: String, path: Option<String> },
    /// Lock acquisition failed (reserved for concurrency control).
    Lock { message: String, lock_path: Option<String> },
    /// A lifecycle hook failed: nonzero exit, spawn failure, or timeout.
    Hook { message: String, hook_type: String, exit_code: Option<i32> },
    /// The named resource already exists.
    AlreadyExists { resource: String, name: String },
    /// The named resource does not exist.
    NotFound { resource: String, name: String },
    /// An argument was rejected before any side effect.
    InvalidArgument { message: String },
    /// Any other failure.
    Other(String),
}

impl TwinError {
    /// Build a version-control error.
    pub fn git(message: String) -> (r: TwinError)
        ensures
            r matches TwinError::Git { message: m } && m@ == message@,
    {
        TwinError::Git { message }
    }

    /// Build a link error.
    pub fn symlink(message: String, path: Option<String>) -> (r: TwinError)
        ensures
            r matches TwinError::Symlink { message: m, path: p } && m@ == message@ && p == path,
    {
        TwinError::Symlink { message, path }
    }

    /// Build a configuration error.
    pub fn config(message: String, path: Option<String>) -> (r: TwinError)
        ensures
            r matches TwinError::Config { message: m, path: p } && m@ == message@ && p == path,
    {
        TwinError::Config { message, path }
    }

    /// Build an environment error.
    pub fn environment(message: String, agent_name: Option<String>) -> (r: TwinError)
        ensures
            r matches TwinError::Environment { message: m, agent_name: a } && m@ == message@
                && a == agent_name,
    {
        TwinError::Environment { message, agent_name }
    }

    /// Build a filesystem error.
    pub fn io(message: String, path: Option<String>) -> (r: TwinError)
        ensures
            r matches TwinError::Io { message: m, path: p } && m@ == message@ && p == path,
    {
        TwinError::Io { message, path }
    }

    /// Build a lock error.
    pub fn lock(message: String, lock_path: Option<String>) -> (r: TwinError)
        ensures
            r matches TwinError::Lock { message: m, lock_path: p } && m@ == message@
                && p == lock_path,
    {
        TwinError::Lock { message, lock_path }
    }

    /// Build a hook error.
    pub fn hook(message: String, hook_type: String, exit_code: Option<i32>) -> (r: TwinError)
        ensures
            r matches TwinError::Hook { message: m, hook_type: h, exit_code: e } && m@ == message@
                && h@ == hook_type@ && e == exit_code,
    {
        TwinError::Hook { message, hook_type, exit_code }
    }

    /// Build an already-exists error.
    pub fn already_exists(resource: String, name: String) -> (r: TwinError)
        ensures
            r matches TwinError::AlreadyExists { resource: re, name: n } && re@ == resource@
                && n@ == name@,
    {
        TwinError::AlreadyExists { resource, name }
    }

    /// Build a not-found error.
    pub fn not_found(resource: String, name: String) -> (r: TwinError)
        ensures
            r matches TwinError::NotFound { resource: re, name: n } && re@ == resource@
                && n@ == name@,
    {
        TwinError::NotFound { resource, name }
    }

    /// Build an invalid-argument error.
    pub fn invalid_argument(message: String) -> (r: TwinError)
        ensures
            r matches TwinError::InvalidArgument { message: m } && m@ == message@,
    {
        TwinError::InvalidArgument { message }
    }

    /// Build a generic error.
    pub fn other(message: String) -> (r: TwinError)
        ensures
            r matches TwinError::Other(m) && m@ == message@,
    {
        TwinError::Other(message)
    }

    /// Whether a caller may reasonably retry after this error.
    pub fn is_retryable(&self) -> (r: bool)
        ensures
            r == (self matches TwinError::Lock { .. } || self matches TwinError::Io { .. }),
    {
        match self {
            TwinError::Lock { .. } => true,
            TwinError::Io { .. } => true,
            _ => false,
        }
    }

    /// Whether this error ends the operation outright.
    pub fn is_fatal(&self) -> (r: bool)
        ensures
            r == !(self matches TwinError::Hook { .. } || self matches TwinError::Lock { .. }),
    {
        match self {
            TwinError::Hook { .. } => false,
            TwinError::Lock { .. } => false,
            _ => true,
        }
    }
}

} // verus!

verus! {

/// The one-line rendering of an error.
pub open spec fn spec_display(e: TwinError) -> Seq<char> {
    match e {
        TwinError::Git { message } => "Git error: "@ + message@,
        TwinError::Symlink { message, .. } => "Symlink error: "@ + message@,
        TwinError::Config { message, .. } => "Config error: "@ + message@,
        TwinError::Environment { message, .. } => "Environment error: "@ + message@,
        TwinError::Io { message, .. } => "IO error: "@ + message@,
        TwinError::Lock { message, .. } => "Lock error: "@ + message@,
        TwinError::Hook { message, .. } => "Hook execution failed: "@ + message@,
        TwinError::AlreadyExists { resource, name } => resource@ + " already exists: "@ + name@,
        TwinError::NotFound { resource, name } => resource@ + " not found: "@ + name@,
        TwinError::InvalidArgument { message } => "Invalid argument: "@ + message@,
        TwinError::Other(message) => message@,
    }
}

impl TwinError {
    /// Render the error as one line, naming its kind and its message.
    pub fn display_string(&self) -> (r: String)
        ensures
            r@ == spec_display(*self),
    {
        match self {
            TwinError::Git { message } => crate::text::concat2("Git error: ", message.as_str()),
            TwinError::Symlink { message, .. } => crate::text::concat2(
                "Symlink error: ",
                message.as_str(),
            ),
            TwinError::Config { message, .. } => crate::text::concat2(
                "Config error: ",
                message.as_str(),
            ),
            TwinError::Environment { message, .. } => crate::text::concat2(
                "Environment error: ",
                message.as_str(),
            ),
            TwinError::Io { message, .. } => crate::text::concat2(
                "IO error: ",
                message.as_str(),
            ),
            TwinError::Lock { message, .. } => crate::text::concat2(
                "Lock error: ",
                message.as_str(),
            ),
            TwinError::Hook { message, .. } => crate::text::concat2(
                "Hook execution failed: ",
                message.as_str(),
            ),
            TwinError::AlreadyExists { resource, name } => crate::text::concat3(
                resource.as_str(),
                " already exists: ",
                name.as_str(),
            ),
            TwinError::NotFound { resource, name } => crate::text::concat3(
                resource.as_str(),
                " not found: ",
                name.as_str(),
            ),
            TwinError::InvalidArgument { message } => crate::text::concat2(
                "Invalid argument: ",
                message.as_str(),
            ),
            TwinError::Other(message) => crate::text::str_to_string(message.as_str()),
        }
    }
}

} // verus!

verus! {

/// The standard I/O error type, declared so that values of it can cross
/// the library's boundary.
#[verifier::external_type_specification]
#[verifier::external_body]
pub struct ExIoError(std::io::Error);

/// Relies on `std::io::Error`'s `Display` through `ToString::to_string`:
/// the error's own description of itself.
#[verifier::external_body]
fn io_error_message(err: &std::io::Error) -> String {
    err.to_string()
}

impl From<std::io::Error> for TwinError {
    /// An I/O failure, carrying the error's own description.
    fn from(err: std::io::Error) -> (r: TwinError)
        ensures
            r is Io,
    {
        TwinError::Io { message: io_error_message(&err), path: None }
    }
}

/// What the conversion returns is stated on `from` itself; nothing is
/// promised through the trait's specification.
impl vstd::std_specs::convert::FromSpecImpl<std::io::Error> for TwinError {
    open spec fn obeys_from_spec() -> bool {
        false
    }

    open spec fn from_spec(err: std::io::Error) -> TwinError {
        TwinError::Other(arbitrary())
    }
}

} // verus!
