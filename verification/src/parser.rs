//! Extracting `<event ...>...</event>` blocks, completion-promise
//! sentinels, and backpressure evidence from agent output.
//!
//! The scan never fails on malformed input: a fragment with no `>`, no
//! closing tag, or no `topic` attribute is skipped and the scan resumes
//! past it.

use vstd::prelude::*;
use crate::event::{Event, HatId};
use crate::text::{
    contains_str, find_from, lemma_contains_prefix, lemma_find_at_start, lemma_find_exact,
    lemma_find_found, lemma_occurs_contains, occurs_at, spec_contains, spec_find, spec_trim,
    trimmed_range,
};
use crate::topic::Topic;

verus! {

/// One event as it stands on the wire: the topic and optional target from
/// the opening tag, and the trimmed payload.
pub ghost struct WireEvent {
    pub topic: Seq<char>,
    pub target: Option<Seq<char>>,
    pub payload: Seq<char>,
}

/// The quoted value of attribute `name` inside an opening tag: the text
/// between `name="` and the next `"`, when both are present.
pub open spec fn spec_attr(tag: Seq<char>, name: Seq<char>) -> Option<Seq<char>> {
    let pat = name + "=\""@;
    let start = spec_find(tag, pat, 0);
    if start == -1 {
        None
    } else {
        let vstart = start + pat.len();
        let end = spec_find(tag, "\""@, vstart);
        if end == -1 {
            None
        } else {
            Some(tag.subrange(vstart, end))
        }
    }
}

/// The events of `s` from scan position `pos` on, in the order their
/// opening `<event ` tokens appear. At each token: the opening tag runs to
/// the first `>`; a missing `>`, a missing `topic` attribute, or a missing
/// `</event>` closer skips the fragment; otherwise the text up to the
/// closer, trimmed, is the payload.
pub open spec fn spec_parse_from(s: Seq<char>, pos: int) -> Seq<WireEvent>
    decreases s.len() - pos when 0 <= pos via spec_parse_from_decreases
{
    let st = spec_find(s, "<event "@, pos);
    if st == -1 {
        Seq::empty()
    } else {
        let gt = spec_find(s, ">"@, st);
        if gt == -1 {
            spec_parse_from(s, st + "<event "@.len())
        } else {
            let tag = s.subrange(st, gt + 1);
            match spec_attr(tag, "topic"@) {
                None => spec_parse_from(s, gt + 1),
                Some(topic) => {
                    let close = spec_find(s, "</event>"@, gt + 1);
                    if close == -1 {
                        spec_parse_from(s, gt + 1)
                    } else {
                        seq![
                            WireEvent {
                                topic: topic,
                                target: spec_attr(tag, "target"@),
                                payload: spec_trim(s.subrange(gt + 1, close)),
                            },
                        ] + spec_parse_from(s, close + "</event>"@.len())
                    }
                },
            }
        }
    }
}

#[via_fn]
proof fn spec_parse_from_decreases(s: Seq<char>, pos: int) {
    reveal_strlit("<event ");
    reveal_strlit(">");
    reveal_strlit("</event>");
    let st = spec_find(s, "<event "@, pos);
    if st != -1 {
        lemma_find_found(s, "<event "@, pos);
        let gt = spec_find(s, ">"@, st);
        if gt != -1 {
            lemma_find_found(s, ">"@, st);
            let close = spec_find(s, "</event>"@, gt + 1);
            if close != -1 {
                lemma_find_found(s, "</event>"@, gt + 1);
            }
        }
    }
}

/// The events of `s`, in the order their opening `<event ` tokens appear.
pub open spec fn spec_parse(s: Seq<char>) -> Seq<WireEvent> {
    spec_parse_from(s, 0)
}

/// `s` from scan position `pos` on, with every `<event ...>...</event>`
/// block removed; a trailing block with no closer is removed to the end
/// of the output.
pub open spec fn spec_strip_from(s: Seq<char>, pos: int) -> Seq<char>
    decreases s.len() - pos when 0 <= pos via spec_strip_from_decreases
{
    let st = spec_find(s, "<event "@, pos);
    if st == -1 {
        s.subrange(pos, s.len() as int)
    } else {
        let close = spec_find(s, "</event>"@, st);
        if close == -1 {
            s.subrange(pos, st)
        } else {
            s.subrange(pos, st) + spec_strip_from(s, close + "</event>"@.len())
        }
    }
}

#[via_fn]
proof fn spec_strip_from_decreases(s: Seq<char>, pos: int) {
    reveal_strlit("<event ");
    reveal_strlit("</event>");
    let st = spec_find(s, "<event "@, pos);
    if st != -1 {
        lemma_find_found(s, "<event "@, pos);
        let close = spec_find(s, "</event>"@, st);
        if close != -1 {
            lemma_find_found(s, "</event>"@, st);
        }
    }
}

/// `s` with every event block removed, a trailing unclosed one included.
pub open spec fn spec_strip(s: Seq<char>) -> Seq<char> {
    spec_strip_from(s, 0)
}

/// Evidence of backpressure checks parsed from a `build.done` payload.
#[derive(Debug, Clone, PartialEq, Eq, Structural)]
pub struct BackpressureEvidence {
    pub tests_passed: bool,
    pub lint_passed: bool,
    pub typecheck_passed: bool,
}

impl BackpressureEvidence {
    /// Returns true if all checks passed.
    pub fn all_passed(&self) -> (r: bool)
        ensures
            r == (self.tests_passed && self.lint_passed && self.typecheck_passed),
    {
        self.tests_passed && self.lint_passed && self.typecheck_passed
    }
}

/// The evidence carried by a payload: present as soon as one of the
/// `tests:` / `lint:` / `typecheck:` tokens is mentioned, and each check
/// counts as passed exactly when its `...: pass` form occurs.
pub open spec fn spec_evidence(p: Seq<char>) -> Option<BackpressureEvidence> {
    if spec_contains(p, "tests:"@) || spec_contains(p, "lint:"@) || spec_contains(
        p,
        "typecheck:"@,
    ) {
        Some(
            BackpressureEvidence {
                tests_passed: spec_contains(p, "tests: pass"@),
                lint_passed: spec_contains(p, "lint: pass"@),
                typecheck_passed: spec_contains(p, "typecheck: pass"@),
            },
        )
    } else {
        None
    }
}

/// The wire-level value of an already-built event record.
pub open spec fn wire_of(e: Event) -> WireEvent {
    WireEvent { topic: e@.topic, target: e@.target, payload: e@.payload }
}

/// Parser for extracting events from agent output, optionally attributing
/// each event to a source hat.
#[derive(Debug)]
pub struct EventParser {
    source: Option<HatId>,
}

impl View for EventParser {
    type V = Option<Seq<char>>;

    closed spec fn view(&self) -> Option<Seq<char>> {
        match self.source {
            Some(h) => Some(h@),
            None => None,
        }
    }
}

/// Extracts the quoted value of attribute `name` from an opening tag.
fn extract_attr(tag: &str, name: &str) -> (r: Option<String>)
    ensures
        match r {
            Some(v) => spec_attr(tag@, name@) == Some(v@),
            None => spec_attr(tag@, name@) == None::<Seq<char>>,
        },
{
    let mut pat = name.to_owned();
    pat.append("=\"");
    let pat_len = pat.as_str().unicode_len();
    let tag_len = tag.unicode_len();
    match find_from(tag, pat.as_str(), 0) {
        None => None,
        Some(start) => {
            proof {
                lemma_find_found(tag@, pat@, 0);
                assert(start + pat_len <= tag_len);
            }
            let vstart = start + pat_len;
            match find_from(tag, "\"", vstart) {
                None => None,
                Some(end) => {
                    proof {
                        lemma_find_found(tag@, "\""@, vstart as int);
                    }
                    Some(tag.substring_char(vstart, end).to_owned())
                },
            }
        },
    }
}

impl EventParser {
    /// Creates a new event parser with no source attribution.
    pub fn new() -> (p: EventParser)
        ensures
            p@ == None::<Seq<char>>,
    {
        EventParser { source: None }
    }

    /// Sets the source hat attached to every parsed event.
    pub fn with_source(self, source: String) -> (p: EventParser)
        ensures
            p@ == Some(source@),
    {
        EventParser { source: Some(HatId::new(source)) }
    }

    /// Parses events from agent output: one record per well-formed
    /// `<event ...>...</event>` block, in the order the opening tokens
    /// appear, each carrying this parser's source and a zero timestamp.
    pub fn parse(&self, output: &str) -> (events: Vec<Event>)
        ensures
            events@.map_values(|e: Event| wire_of(e)) == spec_parse(output@),
            forall|i: int|
                0 <= i < events@.len() ==> (#[trigger] events@[i])@.source == self@
                    && events@[i]@.ts == 0,
    {
        let len = output.unicode_len();
        let mut events: Vec<Event> = Vec::new();
        let mut pos: usize = 0;
        proof {
            reveal_strlit("<event ");
            reveal_strlit(">");
            reveal_strlit("</event>");
        }
        loop
            invariant
                0 <= pos <= len,
                len == output@.len(),
                "<event "@.len() == 7,
                ">"@.len() == 1,
                "</event>"@.len() == 8,
                spec_parse(output@) =~= events@.map_values(|e: Event| wire_of(e))
                    + spec_parse_from(output@, pos as int),
                forall|i: int|
                    0 <= i < events@.len() ==> (#[trigger] events@[i])@.source == self@
                        && events@[i]@.ts == 0,
            decreases len - pos,
        {
            let ghost prev_events = events@;
            let ghost gpos = pos as int;
            let st = match find_from(output, "<event ", pos) {
                None => {
                    assert(spec_parse_from(output@, gpos) =~= Seq::<WireEvent>::empty());
                    assert(spec_parse(output@) =~= events@.map_values(|e: Event| wire_of(e)));
                    return events;
                },
                Some(st) => st,
            };
            proof {
                lemma_find_found(output@, "<event "@, gpos);
            }
            let gt = match find_from(output, ">", st) {
                None => {
                    pos = st + 7;
                    assert(spec_parse_from(output@, gpos) == spec_parse_from(output@, pos as int));
                    continue;
                },
                Some(gt) => gt,
            };
            proof {
                lemma_find_found(output@, ">"@, st as int);
            }
            let tag = output.substring_char(st, gt + 1);
            assert(tag@ == output@.subrange(st as int, gt + 1));
            let topic_str = match extract_attr(tag, "topic") {
                None => {
                    pos = gt + 1;
                    assert(spec_parse_from(output@, gpos) == spec_parse_from(output@, pos as int));
                    continue;
                },
                Some(t) => t,
            };
            let close = match find_from(output, "</event>", gt + 1) {
                None => {
                    pos = gt + 1;
                    assert(spec_parse_from(output@, gpos) == spec_parse_from(output@, pos as int));
                    continue;
                },
                Some(close) => close,
            };
            proof {
                lemma_find_found(output@, "</event>"@, gt + 1);
            }
            let payload = trimmed_range(output, gt + 1, close);
            let target = extract_attr(tag, "target");
            let mut event = Event::new(Topic::new(topic_str), payload);
            if let Some(src) = &self.source {
                event = event.with_source(src.duplicate());
            }
            if let Some(tgt) = target {
                event = event.with_target(HatId::new(tgt));
            }
            events.push(event);
            pos = close + 8;
            proof {
                let w = spec_parse_from(output@, gpos)[0];
                assert(spec_parse_from(output@, gpos) =~= seq![w] + spec_parse_from(
                    output@,
                    pos as int,
                ));
                assert(wire_of(event) == w);
                assert(events@.map_values(|e: Event| wire_of(e)) =~= prev_events.map_values(
                    |e: Event| wire_of(e),
                ).push(wire_of(event)));
            }
        }
    }

    /// Parses backpressure evidence from a `build.done` payload: `None`
    /// when none of the check tokens is mentioned, otherwise one boolean
    /// per check, true exactly when `<name>: pass` occurs as a substring.
    pub fn parse_backpressure_evidence(payload: &str) -> (r: Option<BackpressureEvidence>)
        ensures
            r == spec_evidence(payload@),
    {
        let tests_passed = contains_str(payload, "tests: pass");
        let lint_passed = contains_str(payload, "lint: pass");
        let typecheck_passed = contains_str(payload, "typecheck: pass");
        if contains_str(payload, "tests:") || contains_str(payload, "lint:") || contains_str(
            payload,
            "typecheck:",
        ) {
            Some(BackpressureEvidence { tests_passed, lint_passed, typecheck_passed })
        } else {
            None
        }
    }

    /// Checks whether the output contains the completion promise outside
    /// any event block: every event block is stripped first, a trailing
    /// one with no closer included, so a sentinel inside an event payload
    /// never counts.
    pub fn contains_promise(output: &str, promise: &str) -> (r: bool)
        ensures
            r == spec_contains(spec_strip(output@), promise@),
    {
        let stripped = Self::strip_event_tags(output);
        contains_str(stripped.as_str(), promise)
    }

    /// Strips all `<event ...>...</event>` blocks from the output; a
    /// trailing block with no closer is stripped to the end of the
    /// output.
    pub fn strip_event_tags(output: &str) -> (r: String)
        ensures
            r@ == spec_strip(output@),
    {
        let len = output.unicode_len();
        let mut result = String::new();
        let mut pos: usize = 0;
        proof {
            reveal_strlit("<event ");
            reveal_strlit("</event>");
        }
        loop
            invariant
                0 <= pos <= len,
                len == output@.len(),
                "<event "@.len() == 7,
                "</event>"@.len() == 8,
                spec_strip(output@) =~= result@ + spec_strip_from(output@, pos as int),
            decreases len - pos,
        {
            let ghost gpos = pos as int;
            let st = match find_from(output, "<event ", pos) {
                None => {
                    let rest = output.substring_char(pos, len);
                    result.append(rest);
                    assert(spec_strip_from(output@, gpos) == output@.subrange(gpos, len as int));
                    return result;
                },
                Some(st) => st,
            };
            proof {
                lemma_find_found(output@, "<event "@, gpos);
            }
            let close = match find_from(output, "</event>", st) {
                None => {
                    let piece = output.substring_char(pos, st);
                    result.append(piece);
                    assert(spec_strip_from(output@, gpos) == output@.subrange(gpos, st as int));
                    return result;
                },
                Some(close) => close,
            };
            proof {
                lemma_find_found(output@, "</event>"@, st as int);
            }
            let piece = output.substring_char(pos, st);
            result.append(piece);
            pos = close + 8;
        }
    }
}

/// A payload's evidence reports all checks passed exactly when the payload
/// contains each of `tests: pass`, `lint: pass`, and `typecheck: pass`.
pub proof fn lemma_evidence_all_passed(p: Seq<char>)
    ensures
        (match spec_evidence(p) {
            Some(ev) => ev.tests_passed && ev.lint_passed && ev.typecheck_passed,
            None => false,
        }) <==> (spec_contains(p, "tests: pass"@) && spec_contains(p, "lint: pass"@)
            && spec_contains(p, "typecheck: pass"@)),
{
    if spec_contains(p, "tests: pass"@) {
        reveal_strlit("tests:");
        reveal_strlit("tests: pass");
        assert("tests:"@ =~= "tests: pass"@.subrange(0, 6));
        lemma_contains_prefix(p, "tests: pass"@, "tests:"@);
    }
}

/// Empty output parses to no events at all.
pub proof fn lemma_parse_empty_output()
    ensures
        spec_parse(Seq::<char>::empty()) == Seq::<WireEvent>::empty(),
{
    reveal_strlit("<event ");
    assert(spec_find(Seq::<char>::empty(), "<event "@, 0) == -1);
}

/// On empty output the promise is detected only when the sentinel itself
/// is the empty string.
pub proof fn lemma_promise_in_empty_output(sentinel: Seq<char>)
    ensures
        spec_contains(spec_strip(Seq::<char>::empty()), sentinel) <==> sentinel.len() == 0,
{
    reveal_strlit("<event ");
    let empty = Seq::<char>::empty();
    assert(spec_find(empty, "<event "@, 0) == -1);
    assert(spec_strip(empty) =~= empty);
    if sentinel.len() == 0 {
        assert(empty.subrange(0, 0) =~= sentinel);
    }
}

/// Output without any `<event ` token is left unchanged by the strip.
pub proof fn lemma_strip_fixed_point(s: Seq<char>)
    requires
        !spec_contains(s, "<event "@),
    ensures
        spec_strip(s) == s,
{
    assert(s.subrange(0, s.len() as int) =~= s);
}

/// Stripping event blocks is idempotent on every output whose stripped
/// form holds no further `<event ` token; a second pass then has nothing
/// left to remove.
pub proof fn lemma_strip_idempotent(s: Seq<char>)
    requires
        !spec_contains(spec_strip(s), "<event "@),
    ensures
        spec_strip(spec_strip(s)) == spec_strip(s),
{
    lemma_strip_fixed_point(spec_strip(s));
}

/// The opening tag of one event on the wire.
pub open spec fn spec_tag(w: WireEvent) -> Seq<char> {
    "<event topic=\""@ + w.topic + (match w.target {
        None => "\">"@,
        Some(t) => "\" target=\""@ + t + "\">"@,
    })
}

/// One event in wire form: opening tag, payload, closer.
pub open spec fn spec_serialise_event(w: WireEvent) -> Seq<char> {
    spec_tag(w) + w.payload + "</event>"@
}

/// A list of events in wire form, one after the other.
pub open spec fn spec_serialise(ws: Seq<WireEvent>) -> Seq<char>
    decreases ws.len(),
{
    if ws.len() == 0 {
        Seq::empty()
    } else {
        spec_serialise_event(ws[0]) + spec_serialise(ws.subrange(1, ws.len() as int))
    }
}

/// A value fit for a quoted attribute: free of `"` and `>`.
pub open spec fn attr_value_ok(v: Seq<char>) -> bool {
    forall|i: int| 0 <= i < v.len() ==> v[i] != '"' && v[i] != '>'
}

/// An event that survives the wire unchanged: attribute values free of
/// `"` and `>`, a topic that does not end in `target=` when a target is
/// present, and a payload that holds no closer and carries no whitespace
/// margins.
pub open spec fn wf_wire_event(w: WireEvent) -> bool {
    &&& attr_value_ok(w.topic)
    &&& (match w.target {
        Some(t) => attr_value_ok(t) && !(w.topic.len() >= 7 && w.topic.subrange(
            w.topic.len() - 7,
            w.topic.len() as int,
        ) == "target="@),
        None => true,
    })
    &&& !spec_contains(w.payload, "</event>"@)
    &&& spec_trim(w.payload) == w.payload
}

/// Serialises events into the wire form that `parse` reads back.
pub fn serialise_events(events: &Vec<Event>) -> (r: String)
    ensures
        r@ == spec_serialise(events@.map_values(|e: Event| wire_of(e))),
{
    let ghost ws = events@.map_values(|e: Event| wire_of(e));
    let mut r = String::new();
    let mut i: usize = 0;
    while i < events.len()
        invariant
            0 <= i <= events@.len(),
            ws == events@.map_values(|e: Event| wire_of(e)),
            r@ == spec_serialise(ws.subrange(0, i as int)),
        decreases events@.len() - i,
    {
        let ghost prefix = ws.subrange(0, i as int);
        let e = &events[i];
        r.append("<event topic=\"");
        r.append(e.topic.as_str());
        match &e.target {
            None => {
                r.append("\">");
            },
            Some(t) => {
                r.append("\" target=\"");
                r.append(t.as_str());
                r.append("\">");
            },
        }
        r.append(e.payload.as_str());
        r.append("</event>");
        proof {
            lemma_serialise_push(prefix, ws[i as int]);
            assert(ws.subrange(0, i + 1) =~= prefix.push(ws[i as int]));
            assert(r@ =~= spec_serialise(prefix) + spec_serialise_event(ws[i as int]));
        }
        i += 1;
    }
    proof {
        assert(ws.subrange(0, ws.len() as int) =~= ws);
    }
    r
}

/// Serialising one more event appends its wire form.
proof fn lemma_serialise_push(ws: Seq<WireEvent>, w: WireEvent)
    ensures
        spec_serialise(ws.push(w)) == spec_serialise(ws) + spec_serialise_event(w),
    decreases ws.len(),
{
    reveal_with_fuel(spec_serialise, 3);
    if ws.len() == 0 {
        assert(ws.push(w)[0] == w);
        assert(ws.push(w).subrange(1, 1) =~= Seq::<WireEvent>::empty());
        assert(spec_serialise(ws.push(w)) =~= spec_serialise(ws) + spec_serialise_event(w));
    } else {
        let tail = ws.subrange(1, ws.len() as int);
        lemma_serialise_push(tail, w);
        assert(ws.push(w)[0] == ws[0]);
        assert(ws.push(w).subrange(1, ws.len() as int + 1) =~= tail.push(w));
        assert(spec_serialise(ws.push(w)) =~= spec_serialise(ws) + spec_serialise_event(w));
    }
}

/// The quote positions, the single `>`, and the attribute values of a
/// well-formed event's opening tag.
proof fn lemma_tag_shape(w: WireEvent)
    requires
        wf_wire_event(w),
    ensures
        spec_tag(w).len() == (match w.target {
            None => 16 + w.topic.len(),
            Some(t) => 26 + w.topic.len() + t.len(),
        }),
        forall|j: int| 0 <= j < spec_tag(w).len() - 1 ==> spec_tag(w)[j] != '>',
        spec_tag(w)[spec_tag(w).len() - 1] == '>',
        spec_attr(spec_tag(w), "topic"@) == Some(w.topic),
        spec_attr(spec_tag(w), "target"@) == w.target,
{
    reveal_strlit("<event topic=\"");
    reveal_strlit("\">");
    reveal_strlit("\" target=\"");
    reveal_strlit("topic");
    reveal_strlit("target");
    reveal_strlit("=\"");
    reveal_strlit("\"");
    let tag = spec_tag(w);
    let tl = w.topic.len() as int;
    let pat_topic = "topic"@ + "=\""@;
    let pat_target = "target"@ + "=\""@;
    assert(pat_topic.len() == 7);
    assert(pat_target.len() == 8);
    match w.target {
        None => {
            assert(tag.len() == 16 + tl);
            // Where the quotes and the closing `>` stand.
            assert(forall|j: int| 14 <= j < 14 + tl ==> tag[j] == w.topic[j - 14]);
            assert(tag[13] == '"');
            assert(tag[14 + tl] == '"');
            assert(tag[15 + tl] == '>');
            assert(forall|j: int| 0 <= j < tag.len() ==> tag[j] == '"' ==> j == 13 || j == 14
                + tl);
            assert(forall|j: int| 0 <= j < tag.len() - 1 ==> tag[j] != '>');
            // topic: the pattern first occurs at 7, its value runs to the
            // quote at 14 + |topic|.
            assert(tag.subrange(7, 14) =~= pat_topic);
            assert forall|k: int| 0 <= k < 7 implies !occurs_at(tag, pat_topic, k) by {
                if occurs_at(tag, pat_topic, k) {
                    assert(tag.subrange(k, k + 7)[0] == tag[k]);
                    assert(tag.subrange(k, k + 7)[1] == tag[k + 1]);
                }
            }
            lemma_find_exact(tag, pat_topic, 0, 7);
            assert forall|k: int| 14 <= k < 14 + tl implies !occurs_at(tag, "\""@, k) by {
                if occurs_at(tag, "\""@, k) {
                    assert(tag.subrange(k, k + 1)[0] == tag[k]);
                }
            }
            assert(occurs_at(tag, "\""@, 14 + tl)) by {
                assert(tag.subrange(14 + tl, 15 + tl) =~= "\""@);
            }
            lemma_find_exact(tag, "\""@, 14, 14 + tl);
            assert(tag.subrange(14, 14 + tl) =~= w.topic);
            // target: any match must put the pattern's closing quote on a
            // quote of the tag, and the only fit leaves no quote after it.
            let f = spec_find(tag, pat_target, 0);
            if f != -1 {
                lemma_find_found(tag, pat_target, 0);
                assert(tag.subrange(f, f + 8)[0] == tag[f]);
                assert(tag.subrange(f, f + 8)[7] == tag[f + 7]);
                assert(tag[f + 7] == '"');
                assert(f != 6) by {
                    if f == 6 {
                        assert(tag[6] == ' ');
                    }
                }
                assert(f == 7 + tl);
                let vstart = f + 8;
                assert(vstart == 15 + tl);
                if spec_find(tag, "\""@, vstart) != -1 {
                    lemma_find_found(tag, "\""@, vstart);
                    let e = spec_find(tag, "\""@, vstart);
                    assert(tag.subrange(e, e + 1)[0] == tag[e]);
                    assert(tag[e] == '"');
                    assert(false);
                }
            }
        },
        Some(g) => {
            let gl = g.len() as int;
            assert(tag.len() == 26 + tl + gl);
            assert(forall|j: int| 14 <= j < 14 + tl ==> tag[j] == w.topic[j - 14]);
            assert(forall|j: int|
                14 + tl <= j < 24 + tl ==> tag[j] == "\" target=\""@[j - 14 - tl]);
            assert(forall|j: int| 24 + tl <= j < 24 + tl + gl ==> tag[j] == g[j - 24 - tl]);
            assert(tag[24 + tl + gl] == '"');
            assert(tag[25 + tl + gl] == '>');
            assert(tag[13] == '"');
            assert(tag[14 + tl] == '"');
            assert(tag[23 + tl] == '"');
            assert(forall|j: int|
                0 <= j < tag.len() ==> tag[j] == '"' ==> j == 13 || j == 14 + tl || j == 23 + tl
                    || j == 24 + tl + gl);
            assert(forall|j: int| 0 <= j < tag.len() - 1 ==> tag[j] != '>');
            // topic as in the target-free case.
            assert(tag.subrange(7, 14) =~= pat_topic);
            assert forall|k: int| 0 <= k < 7 implies !occurs_at(tag, pat_topic, k) by {
                if occurs_at(tag, pat_topic, k) {
                    assert(tag.subrange(k, k + 7)[0] == tag[k]);
                    assert(tag.subrange(k, k + 7)[1] == tag[k + 1]);
                }
            }
            lemma_find_exact(tag, pat_topic, 0, 7);
            assert forall|k: int| 14 <= k < 14 + tl implies !occurs_at(tag, "\""@, k) by {
                if occurs_at(tag, "\""@, k) {
                    assert(tag.subrange(k, k + 1)[0] == tag[k]);
                }
            }
            assert(occurs_at(tag, "\""@, 14 + tl)) by {
                assert(tag.subrange(14 + tl, 15 + tl) =~= "\""@);
            }
            lemma_find_exact(tag, "\""@, 14, 14 + tl);
            assert(tag.subrange(14, 14 + tl) =~= w.topic);
            // target: the pattern first occurs right inside ` target="`.
            assert(occurs_at(tag, pat_target, 16 + tl)) by {
                assert(tag.subrange(16 + tl, 24 + tl) =~= pat_target);
            }
            assert forall|k: int| 0 <= k < 16 + tl implies !occurs_at(tag, pat_target, k) by {
                if occurs_at(tag, pat_target, k) {
                    assert(tag.subrange(k, k + 8)[0] == tag[k]);
                    assert(tag.subrange(k, k + 8)[1] == tag[k + 1]);
                    assert(tag.subrange(k, k + 8)[7] == tag[k + 7]);
                    assert(tag[k + 7] == '"');
                    if k + 7 == 14 + tl {
                        assert(k == 7 + tl);
                        if tl >= 7 {
                            assert(w.topic.subrange(tl - 7, tl) =~= tag.subrange(
                                7 + tl,
                                14 + tl,
                            ));
                            assert(w.topic.subrange(tl - 7, tl) =~= pat_target.subrange(0, 7));
                            assert(w.topic.subrange(tl - 7, tl) =~= "target="@) by {
                                reveal_strlit("target=");
                            }
                        } else {
                            if tl == 0 {
                                assert(tag[k + 1] == 'o');
                            } else {
                                assert(tag[k] == w.topic[tl - 1] || tag[k] != 't'
                                    || k >= 14) by {}
                                assert(7 + tl >= 8);
                                assert(tag[7 + tl] == "<event topic=\""@[7 + tl]);
                                assert(tag[7 + tl] != 't');
                            }
                        }
                    }
                }
            }
            lemma_find_exact(tag, pat_target, 0, 16 + tl);
            assert forall|k: int| 24 + tl <= k < 24 + tl + gl implies !occurs_at(
                tag,
                "\""@,
                k,
            ) by {
                if occurs_at(tag, "\""@, k) {
                    assert(tag.subrange(k, k + 1)[0] == tag[k]);
                }
            }
            assert(occurs_at(tag, "\""@, 24 + tl + gl)) by {
                assert(tag.subrange(24 + tl + gl, 25 + tl + gl) =~= "\""@);
            }
            lemma_find_exact(tag, "\""@, 24 + tl, 24 + tl + gl);
            assert(tag.subrange(24 + tl, 24 + tl + gl) =~= g);
        },
    }
}

/// Parsing a serialised list of well-formed events gives the list back.
pub proof fn lemma_parse_serialise(ws: Seq<WireEvent>)
    requires
        forall|i: int| 0 <= i < ws.len() ==> wf_wire_event(#[trigger] ws[i]),
    ensures
        spec_parse(spec_serialise(ws)) == ws,
{
    let s = spec_serialise(ws);
    assert(s.subrange(0, s.len() as int) =~= s);
    lemma_parse_serialise_from(s, 0, ws);
}

/// The scan at `pos` over a string whose tail from `pos` is the wire form
/// of `ws` yields exactly `ws`.
proof fn lemma_parse_serialise_from(s: Seq<char>, pos: int, ws: Seq<WireEvent>)
    requires
        0 <= pos <= s.len(),
        s.subrange(pos, s.len() as int) == spec_serialise(ws),
        forall|i: int| 0 <= i < ws.len() ==> wf_wire_event(#[trigger] ws[i]),
    ensures
        spec_parse_from(s, pos) == ws,
    decreases ws.len(),
{
    reveal_strlit("<event ");
    reveal_strlit(">");
    reveal_strlit("</event>");
    reveal_strlit("<event topic=\"");
    let len = s.len() as int;
    let suffix = s.subrange(pos, len);
    assert forall|j: int| 0 <= j < suffix.len() implies s[pos + j] == suffix[j] by {
        assert(s.subrange(pos, len)[j] == s[pos + j]);
    }
    if ws.len() == 0 {
        assert(suffix.len() == 0);
        assert(spec_find(s, "<event "@, pos) == -1) by {
            if spec_find(s, "<event "@, pos) != -1 {
                lemma_find_found(s, "<event "@, pos);
            }
        }
        assert(spec_parse_from(s, pos) =~= ws);
    } else {
        let w = ws[0];
        let rest = ws.subrange(1, ws.len() as int);
        assert(wf_wire_event(w));
        assert forall|i: int| 0 <= i < rest.len() implies wf_wire_event(#[trigger] rest[i]) by {
            assert(rest[i] == ws[i + 1]);
        }
        lemma_tag_shape(w);
        let tag = spec_tag(w);
        let taglen = tag.len() as int;
        let pl = w.payload.len() as int;
        let rs = spec_serialise(rest);
        assert(suffix == spec_serialise_event(w) + rs);
        let ev = spec_serialise_event(w);
        assert(ev == spec_tag(w) + w.payload + "</event>"@);
        assert(ev.len() == taglen + pl + 8);
        assert(suffix.len() == taglen + pl + 8 + rs.len());
        assert forall|j: int| 0 <= j < taglen implies suffix[j] == tag[j] by {
            assert(suffix[j] == ev[j]);
            assert(ev[j] == (spec_tag(w) + w.payload)[j]);
        }
        assert forall|j: int| 0 <= j < pl implies suffix[taglen + j] == w.payload[j] by {
            assert(suffix[taglen + j] == ev[taglen + j]);
            assert(ev[taglen + j] == (spec_tag(w) + w.payload)[taglen + j]);
        }
        assert forall|j: int| 0 <= j < 8 implies suffix[taglen + pl + j] == "</event>"@[j] by {
            assert(suffix[taglen + pl + j] == ev[taglen + pl + j]);
        }
        assert forall|j: int| 0 <= j < rs.len() implies suffix[taglen + pl + 8 + j] == rs[j] by {
            assert(suffix[taglen + pl + 8 + j] == (ev + rs)[taglen + pl + 8 + j]);
        }
        // The scan finds the opening token exactly at `pos`.
        assert(occurs_at(s, "<event "@, pos)) by {
            assert forall|j: int| 0 <= j < 7 implies s.subrange(pos, pos + 7)[j]
                == "<event "@[j] by {
                assert(s.subrange(pos, pos + 7)[j] == s[pos + j]);
                assert(tag[j] == "<event topic=\""@[j]);
            }
            assert(s.subrange(pos, pos + 7) =~= "<event "@);
        }
        lemma_find_at_start(s, "<event "@, pos);
        // The first `>` closes the opening tag.
        let gt = pos + taglen - 1;
        assert(occurs_at(s, ">"@, gt)) by {
            assert(s[gt] == tag[taglen - 1]);
            assert(s.subrange(gt, gt + 1) =~= ">"@);
        }
        assert forall|k: int| pos <= k < gt implies !occurs_at(s, ">"@, k) by {
            if occurs_at(s, ">"@, k) {
                assert(s.subrange(k, k + 1)[0] == s[k]);
                assert(s[k] == tag[k - pos]);
            }
        }
        lemma_find_exact(s, ">"@, pos, gt);
        assert(s.subrange(pos, gt + 1) =~= tag);
        // The first closer after the tag ends the payload.
        let close_pos = pos + taglen + pl;
        assert(occurs_at(s, "</event>"@, close_pos)) by {
            assert forall|j: int| 0 <= j < 8 implies s.subrange(close_pos, close_pos + 8)[j]
                == "</event>"@[j] by {
                assert(s.subrange(close_pos, close_pos + 8)[j] == s[close_pos + j]);
            }
            assert(s.subrange(close_pos, close_pos + 8) =~= "</event>"@);
        }
        assert(s.subrange(pos + taglen, close_pos) =~= w.payload);
        assert forall|k: int| gt + 1 <= k < close_pos implies !occurs_at(s, "</event>"@, k) by {
            if occurs_at(s, "</event>"@, k) {
                if k + 8 <= close_pos {
                    assert forall|j: int| 0 <= j < 8 implies #[trigger] w.payload.subrange(
                        k - pos - taglen,
                        k - pos - taglen + 8,
                    )[j] == s.subrange(k, k + 8)[j] by {
                        assert(w.payload.subrange(k - pos - taglen, k - pos - taglen + 8)[j]
                            == w.payload[k - pos - taglen + j]);
                        assert(s.subrange(k, k + 8)[j] == s[k + j]);
                    }
                    assert(w.payload.subrange(k - pos - taglen, k - pos - taglen + 8)
                        =~= "</event>"@);
                    assert(occurs_at(w.payload, "</event>"@, k - pos - taglen));
                    lemma_occurs_contains(w.payload, "</event>"@, k - pos - taglen);
                } else {
                    assert(s.subrange(k, k + 8)[close_pos - k] == s[close_pos]);
                    assert(s.subrange(close_pos, close_pos + 8)[0] == s[close_pos]);
                    assert(s[close_pos] == '<');
                }
            }
        }
        lemma_find_exact(s, "</event>"@, gt + 1, close_pos);
        // The trimmed payload is the payload itself.
        assert(spec_trim(s.subrange(gt + 1, close_pos)) == w.payload);
        // The scan continues right at the next event's wire form.
        let rest_pos = close_pos + 8;
        assert forall|j: int| 0 <= j < rs.len() implies s.subrange(rest_pos, len)[j] == rs[j] by {
            assert(s.subrange(rest_pos, len)[j] == s[rest_pos + j]);
        }
        assert(s.subrange(rest_pos, len) =~= rs);
        lemma_parse_serialise_from(s, rest_pos, rest);
        assert(spec_attr(s.subrange(pos, gt + 1), "topic"@) == Some(w.topic));
        assert(spec_attr(s.subrange(pos, gt + 1), "target"@) == w.target);
        assert(spec_parse_from(s, pos) == seq![
            WireEvent { topic: w.topic, target: w.target, payload: w.payload },
        ] + spec_parse_from(s, rest_pos));
        assert(WireEvent { topic: w.topic, target: w.target, payload: w.payload } == w);
        assert(spec_parse_from(s, pos) =~= ws);
    }
}

/// Output that wraps `inner` in one event block between `a` and `c`.
pub open spec fn spec_block_output(a: Seq<char>, inner: Seq<char>, c: Seq<char>) -> Seq<char> {
    a + "<event "@ + inner + "</event>"@ + c
}

/// A sentinel that appears only inside one well-formed event block is not
/// detected: stripping removes the whole block, and the sentinel does not
/// occur in what surrounds it.
pub proof fn lemma_promise_inside_block(
    a: Seq<char>,
    inner: Seq<char>,
    c: Seq<char>,
    sentinel: Seq<char>,
)
    requires
        !spec_contains(a, "<event "@),
        !spec_contains(inner, "</event>"@),
        !spec_contains(c, "<event "@),
        !spec_contains(a + c, sentinel),
    ensures
        !spec_contains(spec_strip(spec_block_output(a, inner, c)), sentinel),
{
    reveal_strlit("<event ");
    reveal_strlit("</event>");
    let o = spec_block_output(a, inner, c);
    let al = a.len() as int;
    let il = inner.len() as int;
    let cl = c.len() as int;
    let len = o.len() as int;
    assert(len == al + 7 + il + 8 + cl);
    assert forall|j: int| 0 <= j < al implies o[j] == a[j] by {
        assert(o[j] == ((a + "<event "@ + inner + "</event>"@) + c)[j]);
        assert((a + "<event "@ + inner + "</event>"@)[j] == ((a + "<event "@ + inner)
            + "</event>"@)[j]);
        assert((a + "<event "@ + inner)[j] == ((a + "<event "@) + inner)[j]);
        assert((a + "<event "@)[j] == a[j]);
    }
    assert forall|j: int| 0 <= j < 7 implies o[al + j] == "<event "@[j] by {
        assert(o[al + j] == ((a + "<event "@ + inner + "</event>"@) + c)[al + j]);
        assert((a + "<event "@ + inner + "</event>"@)[al + j] == ((a + "<event "@ + inner)
            + "</event>"@)[al + j]);
        assert((a + "<event "@ + inner)[al + j] == ((a + "<event "@) + inner)[al + j]);
        assert((a + "<event "@)[al + j] == "<event "@[j]);
    }
    assert forall|j: int| 0 <= j < il implies o[al + 7 + j] == inner[j] by {
        assert(o[al + 7 + j] == ((a + "<event "@ + inner + "</event>"@) + c)[al + 7 + j]);
        assert((a + "<event "@ + inner + "</event>"@)[al + 7 + j] == ((a + "<event "@ + inner)
            + "</event>"@)[al + 7 + j]);
        assert((a + "<event "@ + inner)[al + 7 + j] == inner[j]);
    }
    assert forall|j: int| 0 <= j < 8 implies o[al + 7 + il + j] == "</event>"@[j] by {
        assert(o[al + 7 + il + j] == ((a + "<event "@ + inner + "</event>"@) + c)[al + 7 + il
            + j]);
        assert((a + "<event "@ + inner + "</event>"@)[al + 7 + il + j] == "</event>"@[j]);
    }
    assert forall|j: int| 0 <= j < cl implies o[al + 7 + il + 8 + j] == c[j] by {
        assert(o[al + 7 + il + 8 + j] == ((a + "<event "@ + inner + "</event>"@) + c)[al + 7
            + il + 8 + j]);
    }
    // The block's token is the first `<event ` of the output.
    assert(occurs_at(o, "<event "@, al)) by {
        assert forall|j: int| 0 <= j < 7 implies o.subrange(al, al + 7)[j] == "<event "@[j] by {
            assert(o.subrange(al, al + 7)[j] == o[al + j]);
        }
        assert(o.subrange(al, al + 7) =~= "<event "@);
    }
    assert forall|k: int| 0 <= k < al implies !occurs_at(o, "<event "@, k) by {
        if occurs_at(o, "<event "@, k) {
            if k + 7 <= al {
                assert forall|j: int| 0 <= j < 7 implies #[trigger] a.subrange(k, k + 7)[j]
                    == o.subrange(k, k + 7)[j] by {
                    assert(a.subrange(k, k + 7)[j] == a[k + j]);
                    assert(o.subrange(k, k + 7)[j] == o[k + j]);
                }
                assert(a.subrange(k, k + 7) =~= "<event "@);
                assert(occurs_at(a, "<event "@, k));
                lemma_occurs_contains(a, "<event "@, k);
            } else {
                assert(o.subrange(k, k + 7)[al - k] == o[al]);
                assert(o[al] == '<');
            }
        }
    }
    lemma_find_exact(o, "<event "@, 0, al);
    // The block's closer is the first `</event>` after the token.
    let close = al + 7 + il;
    assert(occurs_at(o, "</event>"@, close)) by {
        assert forall|j: int| 0 <= j < 8 implies o.subrange(close, close + 8)[j]
            == "</event>"@[j] by {
            assert(o.subrange(close, close + 8)[j] == o[close + j]);
        }
        assert(o.subrange(close, close + 8) =~= "</event>"@);
    }
    assert forall|k: int| al <= k < close implies !occurs_at(o, "</event>"@, k) by {
        if occurs_at(o, "</event>"@, k) {
            if k < al + 7 {
                assert(o.subrange(k, k + 8)[0] == o[k]);
                if k == al {
                    assert(o.subrange(k, k + 8)[1] == o[k + 1]);
                }
            } else if k + 8 <= close {
                assert forall|j: int| 0 <= j < 8 implies #[trigger] inner.subrange(
                    k - al - 7,
                    k - al - 7 + 8,
                )[j] == o.subrange(k, k + 8)[j] by {
                    assert(inner.subrange(k - al - 7, k - al - 7 + 8)[j] == inner[k - al - 7
                        + j]);
                    assert(o.subrange(k, k + 8)[j] == o[k + j]);
                }
                assert(inner.subrange(k - al - 7, k - al - 7 + 8) =~= "</event>"@);
                assert(occurs_at(inner, "</event>"@, k - al - 7));
                lemma_occurs_contains(inner, "</event>"@, k - al - 7);
            } else {
                assert(o.subrange(k, k + 8)[close - k] == o[close]);
                assert(o.subrange(close, close + 8)[0] == o[close]);
                assert(o[close] == '<');
            }
        }
    }
    lemma_find_exact(o, "</event>"@, al, close);
    // Nothing after the block opens another one, so the strip keeps `c`.
    let rest_pos = close + 8;
    assert(spec_find(o, "<event "@, rest_pos) == -1) by {
        if spec_find(o, "<event "@, rest_pos) != -1 {
            lemma_find_found(o, "<event "@, rest_pos);
            let k = spec_find(o, "<event "@, rest_pos);
            assert forall|j: int| 0 <= j < 7 implies #[trigger] c.subrange(
                k - rest_pos,
                k - rest_pos + 7,
            )[j] == o.subrange(k, k + 7)[j] by {
                assert(c.subrange(k - rest_pos, k - rest_pos + 7)[j] == c[k - rest_pos + j]);
                assert(o.subrange(k, k + 7)[j] == o[k + j]);
            }
            assert(c.subrange(k - rest_pos, k - rest_pos + 7) =~= "<event "@);
            assert(occurs_at(c, "<event "@, k - rest_pos));
            lemma_occurs_contains(c, "<event "@, k - rest_pos);
        }
    }
    assert(spec_strip_from(o, rest_pos) == o.subrange(rest_pos, len));
    assert(o.subrange(rest_pos, len) =~= c) by {
        assert forall|j: int| 0 <= j < cl implies o.subrange(rest_pos, len)[j] == c[j] by {
            assert(o.subrange(rest_pos, len)[j] == o[rest_pos + j]);
        }
    }
    assert(o.subrange(0, al) =~= a) by {
        assert forall|j: int| 0 <= j < al implies o.subrange(0, al)[j] == a[j] by {
            assert(o.subrange(0, al)[j] == o[j]);
        }
    }
    assert(spec_strip(o) == a + c);
}

/// The opening-token position of each event that
/// `spec_parse_from(s, pos)` accepts, mirroring its scan.
pub open spec fn spec_event_starts(s: Seq<char>, pos: int) -> Seq<int>
    decreases s.len() - pos when 0 <= pos via spec_event_starts_decreases
{
    let st = spec_find(s, "<event "@, pos);
    if st == -1 {
        Seq::empty()
    } else {
        let gt = spec_find(s, ">"@, st);
        if gt == -1 {
            spec_event_starts(s, st + "<event "@.len())
        } else {
            let tag = s.subrange(st, gt + 1);
            match spec_attr(tag, "topic"@) {
                None => spec_event_starts(s, gt + 1),
                Some(topic) => {
                    let close = spec_find(s, "</event>"@, gt + 1);
                    if close == -1 {
                        spec_event_starts(s, gt + 1)
                    } else {
                        seq![st] + spec_event_starts(s, close + "</event>"@.len())
                    }
                },
            }
        }
    }
}

#[via_fn]
proof fn spec_event_starts_decreases(s: Seq<char>, pos: int) {
    reveal_strlit("<event ");
    reveal_strlit(">");
    reveal_strlit("</event>");
    let st = spec_find(s, "<event "@, pos);
    if st != -1 {
        lemma_find_found(s, "<event "@, pos);
        let gt = spec_find(s, ">"@, st);
        if gt != -1 {
            lemma_find_found(s, ">"@, st);
            let close = spec_find(s, "</event>"@, gt + 1);
            if close != -1 {
                lemma_find_found(s, "</event>"@, gt + 1);
            }
        }
    }
}

/// The parse preserves output order: there is one opening-token position
/// per parsed event, each an occurrence of `<event ` at or after the scan
/// position, and the positions strictly increase with the event index.
pub proof fn lemma_parse_ordered(s: Seq<char>, pos: int)
    requires
        0 <= pos,
    ensures
        spec_event_starts(s, pos).len() == spec_parse_from(s, pos).len(),
        forall|i: int|
            0 <= i < spec_event_starts(s, pos).len() ==> pos <= #[trigger] spec_event_starts(
                s,
                pos,
            )[i] && occurs_at(s, "<event "@, spec_event_starts(s, pos)[i]),
        forall|i: int, j: int|
            0 <= i < j < spec_event_starts(s, pos).len() ==> spec_event_starts(s, pos)[i]
                < spec_event_starts(s, pos)[j],
    decreases s.len() - pos,
{
    reveal_strlit("<event ");
    reveal_strlit(">");
    reveal_strlit("</event>");
    let st = spec_find(s, "<event "@, pos);
    if st != -1 {
        lemma_find_found(s, "<event "@, pos);
        let gt = spec_find(s, ">"@, st);
        if gt == -1 {
            lemma_parse_ordered(s, st + 7);
        } else {
            lemma_find_found(s, ">"@, st);
            let tag = s.subrange(st, gt + 1);
            match spec_attr(tag, "topic"@) {
                None => {
                    lemma_parse_ordered(s, gt + 1);
                },
                Some(topic) => {
                    let close = spec_find(s, "</event>"@, gt + 1);
                    if close == -1 {
                        lemma_parse_ordered(s, gt + 1);
                    } else {
                        lemma_find_found(s, "</event>"@, gt + 1);
                        lemma_parse_ordered(s, close + 8);
                        let starts = spec_event_starts(s, pos);
                        let rest = spec_event_starts(s, close + 8);
                        assert(starts =~= seq![st] + rest);
                        assert forall|i: int, j: int|
                            0 <= i < j < starts.len() implies starts[i] < starts[j] by {
                            if i > 0 {
                                assert(rest[i - 1] < rest[j - 1]);
                            } else {
                                assert(close + 8 <= rest[j - 1]);
                            }
                        }
                    }
                },
            }
        }
    }
}

} // verus!
