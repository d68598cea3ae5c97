//! Layout-mode commands for a single window.

use vstd::prelude::*;
use crate::compositor::Command;

verus! {

/// Asks for window `window_id` to float.
pub fn set_floating(window_id: u64) -> (r: Command)
    ensures
        r == (Command::SetFloating { window_id }),
{
    Command::SetFloating { window_id }
}

/// Asks for window `window_id` to be tiled.
pub fn set_tiling(window_id: u64) -> (r: Command)
    ensures
        r == (Command::SetTiling { window_id }),
{
    Command::SetTiling { window_id }
}

} // verus!
