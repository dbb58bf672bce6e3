use ralph::config::CoreConfig;
use ralph::hat::{Hat, HatRegistry};
use ralph::hatless::HatlessRalph;
use ralph::topic::Topic;

fn topics(keys: &[&str]) -> Vec<Topic> {
    keys.iter().map(|k| Topic::new(k.to_string())).collect()
}

#[test]
fn test_prompt_without_hats() {
    let registry = HatRegistry::new();
    let ralph = HatlessRalph::new("LOOP_COMPLETE".to_string(), CoreConfig::default(), &registry);

    let prompt = ralph.build_prompt("");

    assert!(prompt.contains("I'm Ralph. Fresh context each iteration."));

    assert!(prompt.contains("### 0a. ORIENTATION"));
    assert!(prompt.contains("Study"));
    assert!(prompt.contains("Don't assume features aren't implemented"));

    assert!(prompt.contains("### 0b. SCRATCHPAD"));
    assert!(prompt.contains("Task markers:"));
    assert!(prompt.contains("- `[ ]` pending"));
    assert!(prompt.contains("- `[x]` done"));
    assert!(prompt.contains("- `[~]` cancelled"));

    assert!(prompt.contains("## WORKFLOW"));
    assert!(prompt.contains("### 1. GAP ANALYSIS"));
    assert!(prompt.contains("Use parallel subagents (up to 10)"));
    assert!(prompt.contains("### 2. PLAN"));
    assert!(prompt.contains("### 3. IMPLEMENT"));
    assert!(prompt.contains("Only 1 subagent for build/tests"));
    assert!(prompt.contains("### 4. COMMIT"));
    assert!(prompt.contains("Capture the why"));
    assert!(prompt.contains("### 5. REPEAT"));

    assert!(!prompt.contains("## HATS"));

    assert!(prompt.contains("## EVENT WRITING"));
    assert!(prompt.contains(".agent/events.jsonl"));
    assert!(prompt.contains("LOOP_COMPLETE"));
}

#[test]
fn test_prompt_with_hats() {
    let mut registry = HatRegistry::new();
    registry.add(
        Hat::new("planner".to_string(), "Planner".to_string())
            .with_subscriptions(topics(&["task.start", "build.done", "build.blocked"]))
            .with_publishes(topics(&["build.task"])),
    );
    registry.add(
        Hat::new("builder".to_string(), "Builder".to_string())
            .with_subscriptions(topics(&["build.task"]))
            .with_publishes(topics(&["build.done", "build.blocked"])),
    );
    let ralph = HatlessRalph::new("LOOP_COMPLETE".to_string(), CoreConfig::default(), &registry);

    let prompt = ralph.build_prompt("");

    assert!(prompt.contains("I'm Ralph. Fresh context each iteration."));

    assert!(prompt.contains("### 0a. ORIENTATION"));
    assert!(prompt.contains("### 0b. SCRATCHPAD"));

    assert!(prompt.contains("## WORKFLOW"));
    assert!(prompt.contains("### 1. GAP ANALYSIS"));

    assert!(prompt.contains("## HATS"));
    assert!(prompt.contains("Delegate via events"));
    assert!(prompt.contains("| Hat | Triggers On | Publishes |"));

    assert!(prompt.contains("## EVENT WRITING"));
    assert!(prompt.contains("LOOP_COMPLETE"));
}

#[test]
fn test_should_handle_always_true() {
    let registry = HatRegistry::new();
    let ralph = HatlessRalph::new("LOOP_COMPLETE".to_string(), CoreConfig::default(), &registry);

    assert!(ralph.should_handle(&Topic::new("any.topic".to_string())));
    assert!(ralph.should_handle(&Topic::new("build.task".to_string())));
    assert!(ralph.should_handle(&Topic::new("unknown.event".to_string())));
}

#[test]
fn test_ghuntley_patterns_present() {
    let registry = HatRegistry::new();
    let ralph = HatlessRalph::new("LOOP_COMPLETE".to_string(), CoreConfig::default(), &registry);

    let prompt = ralph.build_prompt("");

    assert!(prompt.contains("Study"), "Should use 'study' verb");
    assert!(
        prompt.contains("Don't assume features aren't implemented"),
        "Should have 'don't assume' guardrail"
    );
    assert!(
        prompt.contains("parallel subagents"),
        "Should mention parallel subagents for reads"
    );
    assert!(
        prompt.contains("Only 1 subagent"),
        "Should limit to 1 subagent for builds"
    );
    assert!(
        prompt.contains("Capture the why"),
        "Should emphasize 'why' in commits"
    );

    assert!(prompt.contains("### GUARDRAILS"), "Should have guardrails section");
    assert!(prompt.contains("999."), "Guardrails should use high numbers");
}

#[test]
fn test_scratchpad_format_documented() {
    let registry = HatRegistry::new();
    let ralph = HatlessRalph::new("LOOP_COMPLETE".to_string(), CoreConfig::default(), &registry);

    let prompt = ralph.build_prompt("");

    assert!(prompt.contains("- `[ ]` pending"));
    assert!(prompt.contains("- `[x]` done"));
    assert!(prompt.contains("- `[~]` cancelled (with reason)"));
}

#[test]
fn test_hat_table_lists_each_hat() {
    let mut registry = HatRegistry::new();
    registry.add(
        Hat::new("auditor".to_string(), "Code Auditor".to_string())
            .with_subscriptions(topics(&["review.request"]))
            .with_publishes(topics(&["review.approved", "review.changes_requested"])),
    );
    let ralph = HatlessRalph::new("DONE".to_string(), CoreConfig::default(), &registry);
    let prompt = ralph.build_prompt("");
    assert!(prompt.contains("| Code Auditor | review.request | review.approved, review.changes_requested |"));
}

#[test]
fn test_event_loop_uses_custom_template_when_configured() {
    let registry = HatRegistry::new();
    let ralph = HatlessRalph::new("LOOP_COMPLETE".to_string(), CoreConfig::default(), &registry)
        .with_initial_prompt_template(
            "# CUSTOM ORIENTATION\n\nYou are a specialized assistant.\n\n## CUSTOM INSTRUCTIONS\nWork from {scratchpad}.".to_string(),
        );

    let prompt = ralph.build_prompt("Test context");

    assert!(
        prompt.contains("CUSTOM ORIENTATION"),
        "Prompt should reflect custom template content when configured"
    );
    assert!(
        prompt.contains("specialized assistant"),
        "Prompt should include custom template text"
    );
    assert!(
        prompt.contains("CUSTOM INSTRUCTIONS"),
        "Prompt should include custom instructions section"
    );
}

#[test]
fn test_build_prompt_returns_custom_template_content() {
    let registry = HatRegistry::new();
    let ralph = HatlessRalph::new("LOOP_COMPLETE".to_string(), CoreConfig::default(), &registry)
        .with_initial_prompt_template(
            "# My Custom Prompt Template\n\nGuidelines:\n- Be thorough\n- Complete one task at a time".to_string(),
        );

    let prompt = ralph.build_prompt("Implement login feature");

    assert!(
        prompt.contains("My Custom Prompt Template"),
        "build_prompt should return template content"
    );
    assert!(
        prompt.contains("Be thorough"),
        "build_prompt should include template guidelines"
    );
    assert!(
        prompt.contains("Complete one task at a time"),
        "build_prompt should include all template content"
    );
}

#[test]
fn test_custom_template_in_solo_mode() {
    let registry = HatRegistry::new();
    let ralph = HatlessRalph::new("LOOP_COMPLETE".to_string(), CoreConfig::default(), &registry)
        .with_initial_prompt_template(
            "# SOLO MODE TEMPLATE\n\nHandle all tasks yourself.".to_string(),
        );

    let prompt = ralph.build_prompt("Solo mode task");

    assert!(prompt.contains("SOLO MODE TEMPLATE"), "Template should work in solo mode");
    assert!(
        prompt.contains("Handle all tasks yourself"),
        "Prompt should reflect solo mode template"
    );
}

#[test]
fn test_custom_template_in_multi_hat_mode() {
    let mut registry = HatRegistry::new();
    registry.add(
        Hat::new("planner".to_string(), "Planner".to_string())
            .with_subscriptions(topics(&["task.start"]))
            .with_publishes(topics(&["build.task"])),
    );
    let ralph = HatlessRalph::new("LOOP_COMPLETE".to_string(), CoreConfig::default(), &registry)
        .with_initial_prompt_template(
            "# MULTI-HAT TEMPLATE\n\nDelegate appropriately.".to_string(),
        );

    let prompt = ralph.build_prompt("Multi-hat coordination task");

    assert!(prompt.contains("MULTI-HAT TEMPLATE"), "Template should work in multi-hat mode");
    assert!(
        prompt.contains("Delegate appropriately"),
        "Prompt should reflect multi-hat template"
    );
}

#[test]
fn test_template_substitutes_scratchpad() {
    let registry = HatRegistry::new();
    let ralph = HatlessRalph::new("DONE".to_string(), CoreConfig::default(), &registry)
        .with_initial_prompt_template("Work from {scratchpad}; update {scratchpad}.".to_string());
    let prompt = ralph.build_prompt("");
    assert_eq!(prompt, "Work from .agent/scratchpad.md; update .agent/scratchpad.md.");
}
