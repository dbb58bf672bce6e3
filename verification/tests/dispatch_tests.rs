use ralph::dispatch::{choose_handler, exit_code_of, LoopState, RunReason};
use ralph::hat::{Hat, HatRegistry};
use ralph::pty::TerminationType;
use ralph::topic::Topic;

fn topics(keys: &[&str]) -> Vec<Topic> {
    keys.iter().map(|k| Topic::new(k.to_string())).collect()
}

fn planner_builder_registry() -> HatRegistry {
    let mut registry = HatRegistry::new();
    registry.add(
        Hat::new("planner".to_string(), "Planner".to_string())
            .with_subscriptions(topics(&["task.start", "build.done", "build.blocked"]))
            .with_publishes(topics(&["build.task"])),
    );
    registry.add(
        Hat::new("builder".to_string(), "Builder".to_string())
            .with_subscriptions(topics(&["build.task"]))
            .with_publishes(topics(&["build.done", "build.blocked"])),
    );
    registry
}

#[test]
fn happy_path_with_hats_completes_in_three_iterations() {
    let registry = planner_builder_registry();
    let mut state = LoopState::new("Add feature X".to_string());

    // Iteration 1: the planner handles task.start and dispatches work.
    let event = state.next_event().unwrap();
    assert_eq!(event.topic.as_str(), "task.start");
    let handler = choose_handler(&registry, &event.topic).unwrap();
    assert_eq!(handler.as_str(), "planner");
    state.set_active_hat(Some(handler));
    state.process_output(
        "<event topic=\"build.task\">impl X</event>",
        &TerminationType::Natural,
        "LOOP_COMPLETE",
        0,
        0,
    );
    assert!(state.done.is_none());

    // Iteration 2: the builder implements and reports full evidence.
    let event = state.next_event().unwrap();
    assert_eq!(event.topic.as_str(), "build.task");
    let handler = choose_handler(&registry, &event.topic).unwrap();
    assert_eq!(handler.as_str(), "builder");
    state.set_active_hat(Some(handler));
    state.process_output(
        "<event topic=\"build.done\">tests: pass\nlint: pass\ntypecheck: pass</event>",
        &TerminationType::Natural,
        "LOOP_COMPLETE",
        0,
        0,
    );
    assert!(state.done.is_none());

    // Iteration 3: the planner validates and emits the sentinel.
    let event = state.next_event().unwrap();
    assert_eq!(event.topic.as_str(), "build.done");
    let handler = choose_handler(&registry, &event.topic).unwrap();
    assert_eq!(handler.as_str(), "planner");
    state.set_active_hat(Some(handler));
    state.process_output("LOOP_COMPLETE", &TerminationType::Natural, "LOOP_COMPLETE", 0, 0);

    assert_eq!(state.done, Some(RunReason::Completed));
    assert_eq!(exit_code_of(&RunReason::Completed), 0);
    assert_eq!(state.iteration, 3);
    assert_eq!(state.journal.entries.len(), 2);
    assert!(state.journal.entries[0].contains("build.task"));
    assert!(state.journal.entries[1].contains("build.done"));
}

#[test]
fn backpressure_rejection_synthesises_blocked() {
    let registry = planner_builder_registry();
    let mut state = LoopState::new("obj".to_string());
    let seed = state.next_event().unwrap();
    state.set_active_hat(choose_handler(&registry, &seed.topic));

    state.process_output(
        "<event topic=\"build.done\">tests: pass\nlint: fail\ntypecheck: pass</event>",
        &TerminationType::Natural,
        "LOOP_COMPLETE",
        0,
        0,
    );

    assert_eq!(state.queue.len(), 1);
    assert_eq!(state.queue[0].topic.as_str(), "build.blocked");
    assert!(state.queue[0].payload.contains("lint"));
    assert!(!state.queue[0].payload.contains("typecheck"));

    // The planner receives the synthesised event next.
    let next = state.next_event().unwrap();
    let handler = choose_handler(&registry, &next.topic).unwrap();
    assert_eq!(handler.as_str(), "planner");
}

#[test]
fn build_done_without_evidence_is_rejected() {
    let mut state = LoopState::new("obj".to_string());
    state.next_event().unwrap();
    state.process_output(
        "<event topic=\"build.done\">all good, trust me</event>",
        &TerminationType::Natural,
        "LOOP_COMPLETE",
        0,
        0,
    );
    assert_eq!(state.queue[0].topic.as_str(), "build.blocked");
    assert!(state.queue[0].payload.contains("tests"));
    assert!(state.queue[0].payload.contains("lint"));
    assert!(state.queue[0].payload.contains("typecheck"));
}

#[test]
fn sentinel_inside_event_payload_does_not_complete() {
    let mut state = LoopState::new("obj".to_string());
    state.next_event().unwrap();
    state.process_output(
        "<event topic=\"build.task\">Fix LOOP_COMPLETE detection</event>",
        &TerminationType::Natural,
        "LOOP_COMPLETE",
        0,
        0,
    );
    assert!(state.done.is_none());
    assert_eq!(state.queue.len(), 1);
}

#[test]
fn idle_timeout_ends_the_run() {
    let mut state = LoopState::new("obj".to_string());
    state.next_event().unwrap();
    state.process_output("", &TerminationType::IdleTimeout, "LOOP_COMPLETE", 0, 0);
    assert_eq!(state.done, Some(RunReason::IdleTimeout));
    assert_ne!(exit_code_of(&RunReason::IdleTimeout), 0);
    assert!(state.journal.entries.is_empty());
}

#[test]
fn user_interrupt_ends_the_run() {
    let mut state = LoopState::new("obj".to_string());
    state.next_event().unwrap();
    state.process_output("partial", &TerminationType::UserInterrupt, "LOOP_COMPLETE", 0, 0);
    assert_eq!(state.done, Some(RunReason::UserInterrupt));
    assert_ne!(exit_code_of(&RunReason::UserInterrupt), 0);
}

#[test]
fn unknown_topic_routes_to_specific_before_wildcard() {
    let mut registry = HatRegistry::new();
    registry.add(
        Hat::new("catchall".to_string(), "Catch All".to_string())
            .with_subscriptions(topics(&["*"])),
    );
    registry.add(
        Hat::new("auditor".to_string(), "Code Auditor".to_string())
            .with_subscriptions(topics(&["review.*"])),
    );

    // The specific subscriber wins even though the wildcard registered first.
    let handler = choose_handler(&registry, &Topic::new("review.request".to_string()));
    assert_eq!(handler.unwrap().as_str(), "auditor");

    // Without a specific match the wildcard is the fallback.
    let handler = choose_handler(&registry, &Topic::new("totally.unknown".to_string()));
    assert_eq!(handler.unwrap().as_str(), "catchall");
}

#[test]
fn no_subscriber_leaves_hatless_fallback() {
    let registry = HatRegistry::new();
    let handler = choose_handler(&registry, &Topic::new("anything".to_string()));
    assert!(handler.is_none());
}

#[test]
fn empty_queue_terminates_with_no_progress() {
    let mut state = LoopState::new("obj".to_string());
    state.next_event().unwrap();
    assert!(state.next_event().is_none());
    assert_eq!(state.done, Some(RunReason::NoProgress));
    assert_ne!(exit_code_of(&RunReason::NoProgress), 0);
}

#[test]
fn iteration_cap_terminates_the_run() {
    let mut state = LoopState::new("obj".to_string());
    state.next_event().unwrap();
    state.process_output(
        "<event topic=\"misc.note\">still going</event>",
        &TerminationType::Natural,
        "LOOP_COMPLETE",
        1,
        0,
    );
    assert_eq!(state.done, Some(RunReason::MaxIterations));
    assert_ne!(exit_code_of(&RunReason::MaxIterations), 0);
}

#[test]
fn accepted_events_carry_the_active_hat_as_source() {
    let mut state = LoopState::new("obj".to_string());
    state.next_event().unwrap();
    state.set_active_hat(Some(ralph::event::HatId::new("planner".to_string())));
    state.process_output(
        "<event topic=\"build.task\">work</event>",
        &TerminationType::Natural,
        "LOOP_COMPLETE",
        0,
        0,
    );
    assert_eq!(state.queue[0].source.as_ref().unwrap().as_str(), "planner");
    assert!(state.journal.entries[0].contains("\"source\": \"planner\""));
}

#[test]
fn journal_lines_are_json_objects_in_order() {
    let mut state = LoopState::new("obj".to_string());
    state.next_event().unwrap();
    state.process_output(
        "<event topic=\"a.one\">first</event><event topic=\"a.two\">second</event>",
        &TerminationType::Natural,
        "LOOP_COMPLETE",
        0,
        0,
    );
    assert_eq!(state.journal.entries.len(), 2);
    assert_eq!(
        state.journal.entries[0],
        "{\"topic\": \"a.one\", \"payload\": \"first\", \"ts\": 0}"
    );
    assert_eq!(
        state.journal.entries[1],
        "{\"topic\": \"a.two\", \"payload\": \"second\", \"ts\": 0}"
    );
}

#[test]
fn accepted_events_are_stamped_with_the_clock() {
    let mut state = LoopState::new("obj".to_string());
    state.next_event().unwrap();
    state.process_output(
        "<event topic=\"build.task\">work</event>",
        &TerminationType::Natural,
        "LOOP_COMPLETE",
        0,
        1234,
    );
    assert_eq!(state.queue[0].ts, 1234);
    assert!(state.journal.entries[0].contains("\"ts\": 1234"));
}
