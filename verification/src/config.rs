//! Core configuration injected into every prompt, and per-topic metadata
//! used when a hat's instructions are derived from its contract.

use vstd::prelude::*;

verus! {

/// Paths and guardrails injected into every prompt.
#[derive(Debug, Clone)]
pub struct CoreConfig {
    /// Path of the shared scratchpad file, quoted verbatim in prompts.
    pub scratchpad: String,
    /// Path of the specs directory, quoted verbatim in prompts.
    pub specs_dir: String,
    /// Extra rules enumerated in every prompt.
    pub guardrails: Vec<String>,
}

impl Default for CoreConfig {
    /// `.agent/scratchpad.md`, `./specs/`, and the two standing
    /// guardrails.
    fn default() -> (c: CoreConfig)
        ensures
            c.scratchpad@ == ".agent/scratchpad.md"@,
            c.specs_dir@ == "./specs/"@,
            c.guardrails@.len() == 2,
            c.guardrails@[0]@ == "Don't assume features aren't implemented—search first."@,
            c.guardrails@[1]@
                == "Backpressure: tests, lint, and typecheck must pass before every commit."@,
    {
        let mut guardrails: Vec<String> = Vec::new();
        guardrails.push(String::from_str("Don't assume features aren't implemented—search first."));
        guardrails.push(
            String::from_str(
                "Backpressure: tests, lint, and typecheck must pass before every commit.",
            ),
        );
        CoreConfig {
            scratchpad: String::from_str(".agent/scratchpad.md"),
            specs_dir: String::from_str("./specs/"),
            guardrails,
        }
    }
}

/// Optional per-topic instruction texts consulted when a hat has no
/// explicit instructions.
#[derive(Debug, Clone)]
pub struct EventMetadata {
    /// What to do when an event with this topic triggers the hat.
    pub on_trigger: String,
    /// When to publish an event with this topic.
    pub on_publish: String,
}

impl EventMetadata {
    /// Metadata with both texts given.
    pub fn new(on_trigger: String, on_publish: String) -> (m: EventMetadata)
        ensures
            m.on_trigger@ == on_trigger@,
            m.on_publish@ == on_publish@,
    {
        EventMetadata { on_trigger, on_publish }
    }
}

} // verus!
