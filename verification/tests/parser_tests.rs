use ralph::event::{Event, HatId};
use ralph::parser::{serialise_events, EventParser};
use ralph::topic::Topic;

#[test]
fn test_parse_single_event() {
    let output = r#"
Some preamble text.
<event topic="impl.done">
Implemented the authentication module.
</event>
Some trailing text.
"#;
    let parser = EventParser::new();
    let events = parser.parse(output);

    assert_eq!(events.len(), 1);
    assert_eq!(events[0].topic.as_str(), "impl.done");
    assert!(events[0].payload.contains("authentication module"));
}

#[test]
fn test_parse_event_with_target() {
    let output = r#"<event topic="handoff" target="auditor">Please review</event>"#;
    let parser = EventParser::new();
    let events = parser.parse(output);

    assert_eq!(events.len(), 1);
    assert_eq!(events[0].target.as_ref().unwrap().as_str(), "auditor");
}

#[test]
fn test_parse_multiple_events() {
    let output = r#"
<event topic="impl.started">Starting work</event>
Working on implementation...
<event topic="impl.done">Finished</event>
"#;
    let parser = EventParser::new();
    let events = parser.parse(output);

    assert_eq!(events.len(), 2);
    assert_eq!(events[0].topic.as_str(), "impl.started");
    assert_eq!(events[1].topic.as_str(), "impl.done");
}

#[test]
fn test_parse_with_source() {
    let output = r#"<event topic="impl.done">Done</event>"#;
    let parser = EventParser::new().with_source("implementer".to_string());
    let events = parser.parse(output);

    assert_eq!(events[0].source.as_ref().unwrap().as_str(), "implementer");
}

#[test]
fn test_no_events() {
    let output = "Just regular output with no events.";
    let parser = EventParser::new();
    let events = parser.parse(output);

    assert!(events.is_empty());
}

#[test]
fn test_contains_promise() {
    assert!(EventParser::contains_promise("LOOP_COMPLETE", "LOOP_COMPLETE"));
    assert!(EventParser::contains_promise("prefix LOOP_COMPLETE suffix", "LOOP_COMPLETE"));
    assert!(!EventParser::contains_promise("No promise here", "LOOP_COMPLETE"));
}

#[test]
fn test_contains_promise_ignores_event_payloads() {
    let output = r#"<event topic="build.task">Fix LOOP_COMPLETE detection</event>"#;
    assert!(!EventParser::contains_promise(output, "LOOP_COMPLETE"));

    let output = r#"<event topic="build.task">
## Task: Fix completion promise detection
- Given LOOP_COMPLETE appears inside an event tag
- Then it should be ignored
</event>"#;
    assert!(!EventParser::contains_promise(output, "LOOP_COMPLETE"));
}

#[test]
fn test_contains_promise_detects_outside_events() {
    let output = r#"<event topic="build.done">Task complete</event>
All done! LOOP_COMPLETE"#;
    assert!(EventParser::contains_promise(output, "LOOP_COMPLETE"));

    let output = r#"LOOP_COMPLETE
<event topic="summary">Final summary</event>"#;
    assert!(EventParser::contains_promise(output, "LOOP_COMPLETE"));
}

#[test]
fn test_contains_promise_mixed_content() {
    let output = r#"Working on task...
<event topic="build.task">Fix LOOP_COMPLETE bug</event>
Still working..."#;
    assert!(!EventParser::contains_promise(output, "LOOP_COMPLETE"));

    let output = r#"All tasks done. LOOP_COMPLETE
<event topic="summary">Completed LOOP_COMPLETE task</event>"#;
    assert!(EventParser::contains_promise(output, "LOOP_COMPLETE"));
}

#[test]
fn test_strip_event_tags() {
    let output = r#"before <event topic="test">payload</event> after"#;
    let stripped = EventParser::strip_event_tags(output);
    assert_eq!(stripped, "before  after");
    assert!(!stripped.contains("payload"));

    let output = r#"start <event topic="a">one</event> middle <event topic="b">two</event> end"#;
    let stripped = EventParser::strip_event_tags(output);
    assert_eq!(stripped, "start  middle  end");

    let output = "just plain text";
    let stripped = EventParser::strip_event_tags(output);
    assert_eq!(stripped, "just plain text");
}

#[test]
fn test_parse_backpressure_evidence_all_pass() {
    let payload = "tests: pass\nlint: pass\ntypecheck: pass";
    let evidence = EventParser::parse_backpressure_evidence(payload).unwrap();
    assert!(evidence.tests_passed);
    assert!(evidence.lint_passed);
    assert!(evidence.typecheck_passed);
    assert!(evidence.all_passed());
}

#[test]
fn test_parse_backpressure_evidence_some_fail() {
    let payload = "tests: pass\nlint: fail\ntypecheck: pass";
    let evidence = EventParser::parse_backpressure_evidence(payload).unwrap();
    assert!(evidence.tests_passed);
    assert!(!evidence.lint_passed);
    assert!(evidence.typecheck_passed);
    assert!(!evidence.all_passed());
}

#[test]
fn test_parse_backpressure_evidence_missing() {
    let payload = "Task completed successfully";
    let evidence = EventParser::parse_backpressure_evidence(payload);
    assert!(evidence.is_none());
}

#[test]
fn test_parse_backpressure_evidence_partial() {
    let payload = "tests: pass\nSome other text";
    let evidence = EventParser::parse_backpressure_evidence(payload).unwrap();
    assert!(evidence.tests_passed);
    assert!(!evidence.lint_passed);
    assert!(!evidence.typecheck_passed);
    assert!(!evidence.all_passed());
}

#[test]
fn test_serialise_then_parse_round_trip() {
    let events = vec![
        Event::new(Topic::new("build.task".to_string()), "implement feature X".to_string()),
        Event::new(Topic::new("handoff".to_string()), "please review".to_string())
            .with_target(HatId::new("auditor".to_string())),
        Event::new(Topic::new("build.done".to_string()), "tests: pass".to_string()),
    ];
    let wire = serialise_events(&events);
    let parsed = EventParser::new().parse(wire.as_str());

    assert_eq!(parsed.len(), 3);
    for (orig, back) in events.iter().zip(parsed.iter()) {
        assert_eq!(orig.topic.as_str(), back.topic.as_str());
        assert_eq!(orig.payload, back.payload);
        match (&orig.target, &back.target) {
            (None, None) => {}
            (Some(a), Some(b)) => assert_eq!(a.as_str(), b.as_str()),
            _ => panic!("target lost in round trip"),
        }
    }
}

#[test]
fn test_empty_output_parses_to_nothing() {
    let parser = EventParser::new();
    assert!(parser.parse("").is_empty());
    assert!(!EventParser::contains_promise("", "LOOP_COMPLETE"));
    assert!(EventParser::contains_promise("", ""));
}

#[test]
fn test_malformed_open_tag_is_skipped() {
    // No `>` anywhere after the token: the fragment is skipped.
    let output = r#"prefix <event topic="broken" with no closing bracket at all"#;
    let parser = EventParser::new();
    assert!(parser.parse(output).is_empty());

    // The scan resumes past each malformed token instead of aborting.
    let output = "<event <event <event ";
    assert!(parser.parse(output).is_empty());
}

#[test]
fn test_missing_closer_is_skipped() {
    let output = r#"<event topic="unterminated">payload with no closer"#;
    let parser = EventParser::new();
    assert!(parser.parse(output).is_empty());
}

#[test]
fn test_missing_topic_is_skipped() {
    let output = r#"<event target="someone">no topic attribute</event>"#;
    let parser = EventParser::new();
    assert!(parser.parse(output).is_empty());
}

#[test]
fn test_trailing_unclosed_block_is_stripped() {
    assert_eq!(EventParser::strip_event_tags("abc<event xyz"), "abc");
    assert_eq!(
        EventParser::strip_event_tags(r#"a <event topic="t">done</event> b<event topic="u">cut"#),
        "a  b"
    );
}

#[test]
fn test_sentinel_in_unclosed_payload_is_not_detected() {
    // Output cut off inside an event payload that mentions the sentinel.
    let output = r#"working <event topic="build.task">Fix LOOP_COMPLETE"#;
    assert!(!EventParser::contains_promise(output, "LOOP_COMPLETE"));
}

#[test]
fn test_strip_is_idempotent_on_plain_results() {
    for output in [
        "no events at all",
        r#"a <event topic="t">p</event> b"#,
        r#"<event topic="x">1</event><event topic="y">2</event> tail"#,
        "cut off <event topic=\"t\">mid payload",
    ] {
        let once = EventParser::strip_event_tags(output);
        let twice = EventParser::strip_event_tags(once.as_str());
        assert_eq!(once, twice);
    }
}

#[test]
fn test_payload_is_trimmed() {
    let output = "<event topic=\"t\">  \n padded payload \n\t</event>";
    let parser = EventParser::new();
    let events = parser.parse(output);
    assert_eq!(events[0].payload, "padded payload");
}
