//! Parameter records for the orchestration management tools: plain data
//! that a management front-end fills in and hands to the run loop.

use vstd::prelude::*;

verus! {

/// Parameters for starting a run.
#[derive(Debug, Clone)]
pub struct RunParams {
    /// The prompt or task description to execute.
    pub prompt: String,
    /// Optional path to the configuration file.
    pub config: Option<String>,
    /// Optional working directory for the session.
    pub working_dir: Option<String>,
}

/// Parameters for checking a session's status.
#[derive(Debug, Clone)]
pub struct StatusParams {
    /// Session to check the status of.
    pub session_id: String,
}

/// Parameters for stopping a session.
#[derive(Debug, Clone)]
pub struct StopParams {
    /// Session to stop.
    pub session_id: String,
}

/// Parameters for listing the configured hats.
#[derive(Debug, Clone)]
pub struct ListHatsParams {
    /// Optional path to the configuration file.
    pub config: Option<String>,
}

} // verus!
