use std::collections::HashMap;
use vstd::prelude::*;

verus! {

/// A compile job as it travels between daemons: one source file, what to
/// compile it with, and the flags to pass.
pub struct CompileTask {
    pub task_id: String,
    pub source_filename: String,
    pub source_content: Vec<u8>,
    pub compiler_flags: Vec<String>,
    pub compiler_version: String,
    pub target_triple: String,
    pub env_vars: HashMap<String, String>,
}

/// What a worker sends back for a `CompileTask`.
pub struct CompileResponse {
    pub task_id: String,
    pub exit_code: i32,
    pub object_file: Vec<u8>,
    pub stdout_logs: String,
    pub stderr_logs: String,
    pub duration_ms: u64,
}

/// A worker's answer to a ping.
pub struct NodeStatus {
    pub accepts_tasks: bool,
    pub active_jobs: u32,
    pub max_concurrency: u32,
}

} // verus!
