//! The closed error taxonomy of the coordination core.
//!
//! The retry policy pattern-matches on these variants, so they form a closed
//! sum type rather than a class hierarchy: only `Connection` is ever retried,
//! and only on the losing-candidate path.

use vstd::prelude::*;

verus! {

/// Everything that can go wrong while electing a leader or forwarding a
/// launch request to one.
#[derive(Debug, PartialEq, Eq)]
pub enum CoreError {
    /// Transport-level failure reaching or talking to the leader; retryable
    /// under the bounded policy of the losing-candidate path.
    Connection(String),
    /// The request could not be turned into its wire form; fatal, never
    /// retried.
    Serialization(String),
    /// The leader explicitly rejected or failed the request; the message is
    /// surfaced to the user verbatim, never retried.
    ServerReported(String),
    /// A missing or malformed resource (runtime directory, lock file,
    /// unparseable port); fatal.
    Configuration(String),
    /// The lock is held by someone, yet no usable port is published; fatal,
    /// and distinct from a connection failure because retrying cannot help.
    LeadershipAmbiguous,
}

pub open spec fn spec_message(e: CoreError) -> Seq<char> {
    match e {
        CoreError::Connection(m) => "could not connect to krun server: "@ + m@,
        CoreError::Serialization(m) => "could not serialize into JSON: "@ + m@,
        CoreError::ServerReported(m) => "krun server returned an error: "@ + m@,
        CoreError::Configuration(m) => m@,
        CoreError::LeadershipAmbiguous => "krun is already running but couldn't find its server port, bailing out"@,
    }
}

impl CoreError {
    /// The user-facing description of this error.
    pub fn message(&self) -> (r: String)
        ensures
            r@ == spec_message(*self),
    {
        match self {
            CoreError::Connection(m) => String::from_str(
                "could not connect to krun server: ",
            ).concat(m.as_str()),
            CoreError::Serialization(m) => String::from_str(
                "could not serialize into JSON: ",
            ).concat(m.as_str()),
            CoreError::ServerReported(m) => String::from_str(
                "krun server returned an error: ",
            ).concat(m.as_str()),
            CoreError::Configuration(m) => m.clone(),
            CoreError::LeadershipAmbiguous => String::from_str(
                "krun is already running but couldn't find its server port, bailing out",
            ),
        }
    }

    /// Whether the bounded retry policy may try again after this error.
    pub fn is_connection(&self) -> (r: bool)
        ensures
            r == (self is Connection),
    {
        match self {
            CoreError::Connection(_) => true,
            _ => false,
        }
    }
}

} // verus!
