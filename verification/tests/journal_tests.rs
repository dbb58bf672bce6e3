use ralph::event::{Event, HatId};
use ralph::journal::{event_to_json, Journal};
use ralph::topic::Topic;

#[test]
fn json_line_has_all_fields() {
    let e = Event::new(Topic::new("build.task".to_string()), "do it".to_string())
        .with_source(HatId::new("planner".to_string()))
        .with_target(HatId::new("builder".to_string()))
        .with_ts(1234);
    assert_eq!(
        event_to_json(&e),
        "{\"topic\": \"build.task\", \"payload\": \"do it\", \"ts\": 1234, \
         \"source\": \"planner\", \"target\": \"builder\"}"
    );
}

#[test]
fn json_escapes_quotes_backslashes_and_newlines() {
    let e = Event::new(
        Topic::new("t".to_string()),
        "say \"hi\"\\\nnext\tline\r".to_string(),
    );
    assert_eq!(
        event_to_json(&e),
        "{\"topic\": \"t\", \"payload\": \"say \\\"hi\\\"\\\\\\nnext\\tline\\r\", \"ts\": 0}"
    );
}

#[test]
fn journal_appends_in_order_and_keeps_entries() {
    let mut journal = Journal::new();
    journal.append_event(&Event::new(Topic::new("a".to_string()), "1".to_string()));
    journal.append_event(&Event::new(Topic::new("b".to_string()), "2".to_string()));
    assert_eq!(journal.len(), 2);
    assert!(journal.entries[0].contains("\"a\""));
    assert!(journal.entries[1].contains("\"b\""));
}

#[test]
fn event_builders_set_fields() {
    let e = Event::new(Topic::new("x.y".to_string()), "p".to_string());
    assert_eq!(e.topic.as_str(), "x.y");
    assert_eq!(e.payload, "p");
    assert_eq!(e.ts, 0);
    assert!(e.source.is_none());
    assert!(e.target.is_none());

    let e = e.with_ts(42);
    assert_eq!(e.ts, 42);
}
