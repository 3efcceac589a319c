//! The hook invocation's input: one JSON object read from standard
//! input, already decoded to plain values by the surrounding binary.

use vstd::prelude::*;

verus! {

/// Input from the hook system for one invocation.
#[derive(Debug)]
pub struct HookInput {
    pub hook_event_name: String,
    pub cwd: String,
    pub session_id: String,
    pub transcript_path: String,
    /// Tool name, present only for tool-related events.
    pub tool_name: Option<String>,
}

} // verus!
