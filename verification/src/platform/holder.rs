//! What a platform can say about who holds a port, and how a query of it
//! fails.

use vstd::prelude::*;

use crate::text::{decimal, owned, push_numeral, push_str};

verus! {

/// Who holds a listening TCP port, as far as this platform will say: a
/// ladder of decreasing certainty, every rung of which the caller phrases.
#[derive(Debug, Clone, PartialEq, Eq)]
pub enum PortHolder {
    /// A process this user may inspect, with the name it runs under.
    Named {
        /// The holding process.
        pid: u32,
        /// Its short command name, not a full path.
        name: String,
    },
    /// The holding process is known but the system would not name it.
    Unnamed {
        /// The holding process.
        pid: u32,
    },
    /// Held by another account, which this user may not inspect.
    OtherUser {
        /// The account that opened the socket.
        uid: u32,
    },
    /// The platform was asked and reported no listener on that port. Not the
    /// same as "free": a socket can appear or vanish between the two calls.
    NotListed,
    /// This platform has no way to answer the question.
    Unsupported {
        /// The target the binary was built for, e.g. `"macos"`.
        platform: &'static str,
    },
}

/// An operating-system network query failed.
#[derive(Debug)]
pub enum PlatformError {
    /// AutoNet has no backend for this operating system yet.
    Unsupported {
        /// The target the binary was built for, e.g. `"macos"`.
        platform: &'static str,
    },
    /// A query to the kernel failed.
    Query {
        /// What was being attempted, phrased to complete "could not ...".
        operation: &'static str,
        /// The operating system's own explanation.
        message: String,
    },
}

/// The message a [`PlatformError`] prints.
pub open spec fn platform_error_text(e: PlatformError) -> Seq<char> {
    match e {
        PlatformError::Unsupported { platform } => "AutoNet has no network backend for "@
            + platform@ + " yet"@,
        PlatformError::Query { operation, message } => "could not "@ + operation@ + ": "@
            + message@,
    }
}

impl PlatformError {
    /// A failed query, with the operation that produced it.
    pub fn query(operation: &'static str, message: String) -> (e: PlatformError)
        ensures
            e == (PlatformError::Query { operation, message }),
    {
        PlatformError::Query { operation, message }
    }

    /// The human-readable message for this error.
    pub fn message(&self) -> (s: String)
        ensures
            s@ == platform_error_text(*self),
    {
        let mut s = String::new();
        match self {
            PlatformError::Unsupported { platform } => {
                push_str(&mut s, "AutoNet has no network backend for ");
                push_str(&mut s, platform);
                push_str(&mut s, " yet");
            },
            PlatformError::Query { operation, message } => {
                push_str(&mut s, "could not ");
                push_str(&mut s, operation);
                push_str(&mut s, ": ");
                push_str(&mut s, message.as_str());
            },
        }
        s
    }
}

} // verus!
