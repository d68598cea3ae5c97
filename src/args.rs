//! The requests that a client can make.

use vstd::prelude::*;

verus! {

/// Which cached field of a register a request reports.
#[derive(Debug, Clone, Copy, PartialEq, Eq)]
pub enum Output {
    Title,
    AppId,
}

/// One client request.
#[derive(Debug, Clone, Copy, PartialEq, Eq)]
pub enum Action {
    /// Bind the register to the focused window, or toggle its window.
    Create {
        scratchpad_number: i32,
        output: Option<Output>,
        /// Float the window at the moment it is bound or summoned.
        as_float: bool,
        /// Let layout changes accompany stash and summon.
        animations: bool,
    },
    /// Summon the register's window, then forget the register.
    Delete { scratchpad_number: i32, output: Option<Output> },
    /// Report a cached field of the register, after a full sync.
    Get { scratchpad_number: i32, output: Output },
    /// Run a full sync.
    Sync,
    /// Probe for a listening daemon; answered with nothing.
    Daemon,
}

/// The parsed command line.
#[derive(Debug, Clone, Copy, PartialEq, Eq)]
pub struct Args {
    pub action: Action,
}

} // verus!
