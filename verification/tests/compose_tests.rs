use ralph::compose::InstructionBuilder;
use ralph::config::{CoreConfig, EventMetadata};
use ralph::hat::Hat;
use ralph::topic::Topic;

fn default_builder(promise: &str) -> InstructionBuilder {
    InstructionBuilder::new(promise.to_string(), CoreConfig::default())
}

#[test]
fn test_planner_hat_plans_not_implements() {
    let builder = default_builder("LOOP_COMPLETE");
    let instructions = builder.build_coordinator("Build a CLI tool");

    assert!(instructions.contains("You are Ralph"));
    assert!(instructions.contains("planner hat"));
    assert!(instructions.contains("Build a CLI tool"));

    assert!(instructions.contains("## PLANNER MODE"));
    assert!(instructions.contains("planning, not building"));

    assert!(instructions.contains("Gap analysis"));
    assert!(instructions.contains("Own the scratchpad"));
    assert!(instructions.contains("Dispatch work"));
    assert!(instructions.contains("build.task"));
    assert!(instructions.contains("ONE AT A TIME"));
    assert!(instructions.contains("Validate"));
    assert!(instructions.contains("./specs/"));

    assert!(instructions.contains("[ ]"));
    assert!(instructions.contains("[x]"));
    assert!(instructions.contains("[~]"));

    assert!(instructions.contains("LOOP_COMPLETE"));

    assert!(instructions.contains("❌ Write implementation code"));
    assert!(instructions.contains("❌ Run tests or make commits"));
    assert!(instructions.contains("❌ Pick tasks to implement yourself"));

    assert!(instructions.contains("Prerequisites"));
    assert!(instructions.contains("Scratchpad exists with at least one task"));
    assert!(instructions.contains("dispatched work to the builder at least once"));
}

#[test]
fn test_builder_hat_implements_not_plans() {
    let builder = default_builder("LOOP_COMPLETE");
    let instructions = builder.build_ralph("Build a CLI tool");

    assert!(instructions.contains("You are Ralph"));
    assert!(instructions.contains("builder hat"));
    assert!(instructions.contains("Build a CLI tool"));

    assert!(instructions.contains("## BUILDER MODE"));
    assert!(instructions.contains("building, not planning"));

    assert!(instructions.contains("Pick ONE task"));
    assert!(instructions.contains("Known Issues are HIGH PRIORITY"));
    assert!(instructions.contains("ISSUES.md"));
    assert!(instructions.contains("remove the issue from"));
    assert!(instructions.contains("Implement"));
    assert!(instructions.contains("Validate"));
    assert!(instructions.contains("backpressure"));
    assert!(instructions.contains("Commit"));
    assert!(instructions.contains("Exit"));
    assert!(instructions.contains("build.done"));

    assert!(instructions.contains("❌ Create the scratchpad (planner does that)"));
    assert!(instructions.contains("❌ Decide what tasks to add (planner does that)"));
    assert!(instructions.contains("❌ Output the completion promise (planner does that)"));

    assert!(instructions.contains("## STUCK?"));
    assert!(instructions.contains("build.blocked"));

    assert!(!instructions.contains("LOOP_COMPLETE"));
}

#[test]
fn test_coordinator_and_ralph_share_guardrails() {
    let builder = default_builder("DONE");
    let coordinator = builder.build_coordinator("test");
    let ralph = builder.build_ralph("test");

    assert!(coordinator.contains(".agent/scratchpad.md"));
    assert!(ralph.contains(".agent/scratchpad.md"));

    assert!(coordinator.contains("search first"));
    assert!(ralph.contains("search first"));
    assert!(coordinator.contains("Backpressure"));
    assert!(ralph.contains("Backpressure"));

    assert!(coordinator.contains("[x]"));
    assert!(ralph.contains("[x]"));
    assert!(coordinator.contains("[~]"));
}

#[test]
fn test_separation_of_concerns() {
    let builder = default_builder("DONE");
    let planner = builder.build_coordinator("test");
    let builder_hat = builder.build_ralph("test");

    assert!(planner.contains("Gap analysis"));
    assert!(planner.contains("PLANNER MODE"));
    assert!(!planner.contains("BUILDER MODE"));

    assert!(builder_hat.contains("BUILDER MODE"));
    assert!(!builder_hat.contains("Gap analysis"));

    assert!(planner.contains("output: DONE"));
    assert!(!builder_hat.contains("output: DONE"));
}

#[test]
fn test_custom_hat_for_extended_teams() {
    let builder = default_builder("DONE");
    let hat = Hat::new("auditor".to_string(), "Code Auditor".to_string())
        .with_instructions("Review PRs for quality and correctness.".to_string());

    let instructions = builder.build_custom_hat(&hat, "PR #123 ready for review");

    assert!(instructions.contains("Code Auditor"));
    assert!(instructions.contains("Review PRs for quality"));

    assert!(instructions.contains("PR #123 ready for review"));
    assert!(instructions.contains("<event topic="));

    assert!(instructions.contains("CORE BEHAVIORS"));
    assert!(instructions.contains(".agent/scratchpad.md"));
}

#[test]
fn test_custom_guardrails_injected() {
    let custom_core = CoreConfig {
        scratchpad: ".workspace/plan.md".to_string(),
        specs_dir: "./specifications/".to_string(),
        guardrails: vec![
            "Custom rule one".to_string(),
            "Custom rule two".to_string(),
        ],
    };
    let builder = InstructionBuilder::new("DONE".to_string(), custom_core);

    let coordinator = builder.build_coordinator("test");
    let ralph = builder.build_ralph("test");

    assert!(coordinator.contains(".workspace/plan.md"));
    assert!(ralph.contains(".workspace/plan.md"));

    assert!(coordinator.contains("./specifications/"));

    assert!(coordinator.contains("Custom rule one"));
    assert!(coordinator.contains("Custom rule two"));
    assert!(ralph.contains("Custom rule one"));
    assert!(ralph.contains("Custom rule two"));
}

#[test]
fn test_must_publish_injected_for_explicit_instructions() {
    let builder = default_builder("DONE");
    let hat = Hat::new("auditor".to_string(), "Code Auditor".to_string())
        .with_instructions("Review PRs for quality and correctness.".to_string())
        .with_publishes(vec![
            Topic::new("review.approved".to_string()),
            Topic::new("review.changes_requested".to_string()),
        ]);

    let instructions = builder.build_custom_hat(&hat, "PR #123 ready");

    assert!(
        instructions.contains("You MUST publish one of these events"),
        "Must-publish rule should be injected for custom hats with publishes"
    );
    assert!(instructions.contains("`review.approved`"));
    assert!(instructions.contains("`review.changes_requested`"));
    assert!(instructions.contains("Failure to publish will terminate the loop"));
}

#[test]
fn test_must_publish_not_injected_when_no_publishes() {
    let builder = default_builder("DONE");
    let hat = Hat::new("observer".to_string(), "Silent Observer".to_string())
        .with_instructions("Observe and log, but do not emit events.".to_string());

    let instructions = builder.build_custom_hat(&hat, "Observe this");

    assert!(
        !instructions.contains("You MUST publish"),
        "Must-publish rule should NOT be injected when hat has no publishes"
    );
}

#[test]
fn test_derived_instructions_from_contract() {
    let builder = default_builder("DONE");
    let hat = Hat::new("builder".to_string(), "Builder".to_string())
        .with_subscriptions(vec![Topic::new("build.task".to_string())])
        .with_publishes(vec![Topic::new("build.done".to_string())]);

    let instructions = builder.build_custom_hat(&hat, "go");

    assert!(instructions.contains("### Derived Behaviors"));
    assert!(instructions.contains("**On `build.task`:** Implement the assigned task."));
    assert!(instructions.contains(
        "**Publish `build.done`:** When implementation is finished and tests pass."
    ));
    assert!(instructions.contains(
        "**IMPORTANT:** Every iteration MUST publish one of: `build.done` or the loop will terminate."
    ));
}

#[test]
fn test_derived_instructions_prefer_event_metadata() {
    let events = vec![(
        "custom.go".to_string(),
        EventMetadata::new("Do the custom thing.".to_string(), String::new()),
    )];
    let builder =
        InstructionBuilder::with_events("DONE".to_string(), CoreConfig::default(), events);
    let hat = Hat::new("worker".to_string(), "Worker".to_string())
        .with_subscriptions(vec![Topic::new("custom.go".to_string())]);

    let instructions = builder.build_custom_hat(&hat, "go");
    assert!(instructions.contains("**On `custom.go`:** Do the custom thing."));
}

#[test]
fn test_unknown_contract_falls_back() {
    let builder = default_builder("DONE");
    let hat = Hat::new("watcher".to_string(), "Watcher".to_string())
        .with_subscriptions(vec![Topic::new("totally.unknown".to_string())]);

    let instructions = builder.build_custom_hat(&hat, "go");
    assert!(instructions.contains("Follow the incoming event instructions."));
}
