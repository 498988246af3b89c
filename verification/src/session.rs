//! What the interface knows of a session.
use vstd::prelude::*;

verus! {

/// How queued messages are delivered.
#[derive(Clone, Copy, Debug, PartialEq, Eq, Structural)]
pub enum QueueMode {
    All,
    OneAtATime,
}

/// A model.
#[derive(Clone, Debug, PartialEq, Eq)]
pub struct ModelInfo {
    pub provider: String,
    pub id: String,
    pub name: String,
    pub reasoning: bool,
    pub context_window: u64,
}

/// The state of a session.
#[derive(Clone, Debug, PartialEq, Eq)]
pub struct SessionState {
    pub model: Option<ModelInfo>,
    pub thinking_level: String,
    pub session_name: Option<String>,
    pub session_file: Option<String>,
    pub auto_compaction_enabled: bool,
    pub steering_mode: QueueMode,
    pub follow_up_mode: QueueMode,
}

/// How many tokens a session has used.
#[derive(Clone, Copy, Debug, PartialEq, Eq, Structural)]
pub struct TokenStats {
    pub input: u64,
    pub output: u64,
    pub cache_read: u64,
    pub cache_write: u64,
    pub total: u64,
}

/// What a session has cost: whether it is more than nothing, and the amount as text.
#[derive(Clone, Debug, PartialEq, Eq)]
pub struct Cost {
    pub positive: bool,
    pub amount: String,
}

/// What a session has done so far.
#[derive(Clone, Debug, PartialEq, Eq)]
pub struct SessionStats {
    pub session_file: Option<String>,
    pub session_id: String,
    pub user_messages: u64,
    pub assistant_messages: u64,
    pub tool_calls: u64,
    pub tool_results: u64,
    pub total_messages: u64,
    pub tokens: TokenStats,
    pub cost: Cost,
}

} // verus!
