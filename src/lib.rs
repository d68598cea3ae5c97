//! A register store for parking and recalling compositor windows, and the
//! verified decision logic that binds, stashes, summons and rebinds registers.

pub mod args;
pub mod compositor;
pub mod daemon;
pub mod scratchpad_action;
pub mod state;
pub mod utils;
