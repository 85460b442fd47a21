//! Process exit codes, and the errors that stop a command.

use vstd::prelude::*;

use crate::error::{core_error_text, CoreError};
use crate::platform::holder::{platform_error_text, PlatformError};
use crate::text::{owned, push_str};

verus! {

/// No address was selectable.
pub const NO_ADDRESS: u8 = 1;

/// A command failed.
pub const FAILED: u8 = 2;

/// Anything that stops a command from completing.
#[derive(Debug)]
pub enum CliError {
    /// The selection engine found nothing, and explained why.
    NoAddress(String),
    /// The operating system could not be queried.
    Platform(PlatformError),
    /// Configuration could not be loaded.
    Config(CoreError),
    /// The command was asked for something that does not exist.
    Usage(String),
    /// A child launched by `run` exited non-zero. Not an AutoNet failure.
    ChildExit(u8),
    /// `doctor` completed and something failed; the checklist is the message.
    Unhealthy,
    /// A streaming command ended for an ordinary reason (a closed pipe, a
    /// Ctrl-C): exit code zero, nothing on stderr.
    Stopped,
}

/// The exit code for an error.
pub open spec fn exit_code_of(e: CliError) -> u8 {
    match e {
        CliError::Stopped => 0,
        CliError::NoAddress(_) | CliError::Unhealthy => NO_ADDRESS,
        CliError::Platform(_) | CliError::Config(_) | CliError::Usage(_) => FAILED,
        CliError::ChildExit(code) => code,
    }
}

/// The line an error prints on stderr, if any. A child's failure and an
/// unhealthy checklist have already said everything.
pub open spec fn error_line(e: CliError) -> Option<Seq<char>> {
    match e {
        CliError::NoAddress(reason) => Some("no usable address: "@ + reason@),
        CliError::Platform(error) => Some(platform_error_text(error)),
        CliError::Config(error) => Some(core_error_text(error)),
        CliError::Usage(message) => Some(message@),
        CliError::ChildExit(_) | CliError::Unhealthy | CliError::Stopped => None,
    }
}

impl CliError {
    /// The process exit code for this error.
    pub fn exit_code(&self) -> (c: u8)
        ensures
            c == exit_code_of(*self),
    {
        match self {
            CliError::Stopped => 0,
            CliError::NoAddress(_) | CliError::Unhealthy => NO_ADDRESS,
            CliError::Platform(_) | CliError::Config(_) | CliError::Usage(_) => FAILED,
            CliError::ChildExit(code) => *code,
        }
    }

    /// The line to print on stderr, if there is one.
    pub fn message(&self) -> (m: Option<String>)
        ensures
            match m {
                Some(s) => error_line(*self) == Some(s@),
                None => error_line(*self) is None,
            },
    {
        match self {
            CliError::NoAddress(reason) => {
                let mut s = owned("no usable address: ");
                push_str(&mut s, reason.as_str());
                Some(s)
            },
            CliError::Platform(error) => Some(error.message()),
            CliError::Config(error) => Some(error.message()),
            CliError::Usage(message) => Some(owned(message.as_str())),
            CliError::ChildExit(_) | CliError::Unhealthy | CliError::Stopped => None,
        }
    }
}

} // verus!
