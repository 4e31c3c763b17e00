//! Agent configuration options.

use vstd::prelude::*;

verus! {

/// Configuration for agent behavior.
#[derive(Debug, Clone, Copy)]
pub struct AgentConfig {
    /// Maximum number of tool-call iterations before giving up.
    pub tool_max_iterations: usize,
    /// Maximum number of messages to keep in conversation history.
    pub max_messages: usize,
}

impl Default for AgentConfig {
    fn default() -> (res: Self)
        ensures
            res.tool_max_iterations == 10,
            res.max_messages == 40,
    {
        AgentConfig { tool_max_iterations: 10, max_messages: 40 }
    }
}

impl AgentConfig {
    /// Set the maximum number of tool iterations.
    pub fn with_tool_max_iterations(self, max: usize) -> (res: Self)
        ensures
            res.tool_max_iterations == max,
            res.max_messages == self.max_messages,
    {
        AgentConfig { tool_max_iterations: max, ..self }
    }

    /// Set the maximum number of messages to retain.
    pub fn with_max_messages(self, max: usize) -> (res: Self)
        ensures
            res.max_messages == max,
            res.tool_max_iterations == self.tool_max_iterations,
    {
        AgentConfig { max_messages: max, ..self }
    }
}

} // verus!
