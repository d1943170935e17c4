//! Error taxonomy of the supervisor.
//!
//! Filesystem, port-allocation and spawn failures propagate to the caller as
//! descriptive values; a configuration that fails to parse is non-fatal and
//! makes the store fall back to the default workspace.

use vstd::prelude::*;

verus! {

/// A recoverable failure of the supervisor or of the I/O performed on its
/// behalf.  The payload is the description of the underlying failure.
#[derive(Debug, PartialEq, Eq)]
pub enum SupError {
    /// A directory or file could not be created, read or written.
    Filesystem(String),
    /// A loopback port could not be reserved or its number discovered.
    PortAllocation(String),
    /// The worker executable was missing or the OS refused to launch it.
    Spawn(String),
    /// The persisted configuration could not be parsed.
    ConfigParse(String),
}

/// The descriptive message of an error: a fixed prefix naming the category,
/// followed by the underlying description.
pub open spec fn describe_spec(e: SupError) -> Seq<char> {
    match e {
        SupError::Filesystem(m) => "filesystem failure: "@ + m@,
        SupError::PortAllocation(m) => "port allocation failed: "@ + m@,
        SupError::Spawn(m) => "failed to start backend: "@ + m@,
        SupError::ConfigParse(m) => "workspace config unparsable: "@ + m@,
    }
}

impl SupError {
    /// A human-readable description of the error.
    pub fn describe(&self) -> (r: String)
        ensures
            r@ == describe_spec(*self),
    {
        match self {
            SupError::Filesystem(m) => {
                let mut s = String::from_str("filesystem failure: ");
                s.append(m.as_str());
                s
            },
            SupError::PortAllocation(m) => {
                let mut s = String::from_str("port allocation failed: ");
                s.append(m.as_str());
                s
            },
            SupError::Spawn(m) => {
                let mut s = String::from_str("failed to start backend: ");
                s.append(m.as_str());
                s
            },
            SupError::ConfigParse(m) => {
                let mut s = String::from_str("workspace config unparsable: ");
                s.append(m.as_str());
                s
            },
        }
    }
}

} // verus!
