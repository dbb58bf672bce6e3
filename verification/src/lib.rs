//! Ralph: a verified orchestration core for driving a command-line coding
//! agent in a bounded iteration loop.
//!
//! The library covers the control plane only: routing topics, parsing
//! `<event ...>...</event>` blocks and completion sentinels out of agent
//! output, composing role-specific prompts, the pseudo-terminal control
//! state machines, and the dispatch loop that ties them together.

pub mod text;
pub mod topic;
pub mod event;
pub mod parser;
pub mod pty;
pub mod keys;
pub mod input;
pub mod scroll;
pub mod hat;
pub mod config;
pub mod compose;
pub mod hatless;
pub mod journal;
pub mod dispatch;
pub mod params;
