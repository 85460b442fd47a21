//! Errors produced by the model, configuration and selection engine.

use vstd::prelude::*;

use crate::text::{debug_quote, debug_quoted, push_str};

verus! {

/// Errors produced by the core model, configuration, and selection engine.
///
/// These are always about data — malformed configuration, an unparsable
/// value, or a network state in which no address can legitimately be
/// selected — never about the operating system.
#[derive(Debug, Clone, PartialEq, Eq)]
pub enum CoreError {
    /// No address survived the selection engine's filters; `reason` says why.
    NoAddressFound { reason: String },
    /// A configuration file could not be parsed.
    InvalidConfig(String),
    /// A configuration file could not be read from disk.
    ConfigIo { path: String, message: String },
    /// A value could not be parsed into the type it names.
    Parse { kind: String, value: String },
}

/// The message a [`CoreError`] prints.
pub open spec fn core_error_text(e: CoreError) -> Seq<char> {
    match e {
        CoreError::NoAddressFound { reason } => "no usable address found: "@ + reason@,
        CoreError::InvalidConfig(m) => "invalid configuration: "@ + m@,
        CoreError::ConfigIo { path, message } => "could not read configuration file "@ + path@
            + ": "@ + message@,
        CoreError::Parse { kind, value } => "could not parse "@ + kind@ + " from "@ + debug_quoted(
            value@,
        ),
    }
}

impl CoreError {
    /// The human-readable message for this error.
    pub fn message(&self) -> (s: String)
        ensures
            s@ == core_error_text(*self),
    {
        let mut out = String::new();
        match self {
            CoreError::NoAddressFound { reason } => {
                push_str(&mut out, "no usable address found: ");
                push_str(&mut out, reason.as_str());
            },
            CoreError::InvalidConfig(m) => {
                push_str(&mut out, "invalid configuration: ");
                push_str(&mut out, m.as_str());
            },
            CoreError::ConfigIo { path, message } => {
                push_str(&mut out, "could not read configuration file ");
                push_str(&mut out, path.as_str());
                push_str(&mut out, ": ");
                push_str(&mut out, message.as_str());
            },
            CoreError::Parse { kind, value } => {
                push_str(&mut out, "could not parse ");
                push_str(&mut out, kind.as_str());
                push_str(&mut out, " from ");
                let quoted = debug_quote(value.as_str());
                push_str(&mut out, quoted.as_str());
            },
        }
        out
    }
}

} // verus!
