//! Native notification that the network moved, where a platform has one.

use vstd::prelude::*;

use crate::platform::holder::PlatformError;

verus! {

/// Something that can say the network may have changed, so that a watch
/// looks at once instead of at its next poll. Nothing is promised of what
/// it reports: a wake-up is a reason to look, never a claim about what
/// will be found.
pub trait ChangeSource {
    /// Block for at most `timeout_ms` milliseconds, and say whether a change
    /// was reported in that time.
    fn wait(&mut self, timeout_ms: u64) -> Result<bool, PlatformError>;

    /// What this source is called in reports, for example `netlink`.
    fn source_name(&self) -> &'static str;
}

} // verus!
