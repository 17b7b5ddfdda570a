//! Settings of the assistant's agent loop.

use vstd::prelude::*;
use core::time::Duration;

verus! {

/// How the agent loop runs: its step budget, whether tool calls run without
/// asking, how long one step may take, and how many characters of a tool's
/// output are kept in the history.
#[derive(Debug)]
pub struct AgentOptions {
    pub max_steps: usize,
    pub yolo: bool,
    pub step_timeout: Duration,
    pub observation_clip: usize,
}

} // verus!
