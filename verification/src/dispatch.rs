//! The event loop's state machine: the FIFO event queue, hat selection,
//! the backpressure rule for `build.done` events, journal appends, the
//! completion check, and the run's termination reason.
//!
//! The loop around it performs the I/O: it composes the prompt for the
//! chosen hat, runs the executor, and hands the stripped output back to
//! [`LoopState::process_output`].

use vstd::prelude::*;
use crate::event::{Event, EventView, HatId};
use crate::hat::{string_eq_str, HatRegistry, spec_subscribers};
use crate::journal::{spec_event_json, Journal};
use crate::parser::{
    lemma_evidence_all_passed, spec_parse, spec_strip, wire_of, EventParser, WireEvent,
};
use crate::pty::TerminationType;
use crate::text::{contains_str, spec_contains, spec_join, join_strings, views_of};
use crate::topic::Topic;

verus! {

/// Why a run ended.
#[derive(Debug, Clone, PartialEq, Eq, Structural)]
pub enum RunReason {
    /// The agent emitted the completion sentinel outside any event block.
    Completed,
    /// The queue ran empty: the agent stalled without emitting events.
    NoProgress,
    /// The executor hit the idle timeout.
    IdleTimeout,
    /// The user interrupted the run (double Ctrl+C).
    UserInterrupt,
    /// The user force-killed the run.
    ForceKill,
    /// The configured iteration cap was reached.
    MaxIterations,
}

/// The process exit code for each way a run can end; only natural
/// completion exits 0.
pub fn exit_code_of(reason: &RunReason) -> (r: i32)
    ensures
        r == match *reason {
            RunReason::Completed => 0int,
            RunReason::NoProgress => 2int,
            RunReason::IdleTimeout => 3int,
            RunReason::UserInterrupt => 4int,
            RunReason::ForceKill => 5int,
            RunReason::MaxIterations => 6int,
        },
        r == 0 <==> *reason == RunReason::Completed,
{
    match *reason {
        RunReason::Completed => 0,
        RunReason::NoProgress => 2,
        RunReason::IdleTimeout => 3,
        RunReason::UserInterrupt => 4,
        RunReason::ForceKill => 5,
        RunReason::MaxIterations => 6,
    }
}

/// All three backpressure checks attested as passed.
pub open spec fn spec_all_passed(p: Seq<char>) -> bool {
    &&& spec_contains(p, "tests: pass"@)
    &&& spec_contains(p, "lint: pass"@)
    &&& spec_contains(p, "typecheck: pass"@)
}

/// The names of the checks the payload does not attest as passed.
pub open spec fn spec_failing_names(p: Seq<char>) -> Seq<Seq<char>> {
    (if !spec_contains(p, "tests: pass"@) {
        seq!["tests"@]
    } else {
        Seq::<Seq<char>>::empty()
    }) + (if !spec_contains(p, "lint: pass"@) {
        seq!["lint"@]
    } else {
        Seq::<Seq<char>>::empty()
    }) + (if !spec_contains(p, "typecheck: pass"@) {
        seq!["typecheck"@]
    } else {
        Seq::<Seq<char>>::empty()
    })
}

/// The canned payload of a synthesised `build.blocked` event, naming the
/// failing checks.
pub open spec fn spec_blocked_payload(p: Seq<char>) -> Seq<char> {
    "build.done rejected by backpressure; failing checks: "@ + spec_join(
        spec_failing_names(p),
        ", "@,
    )
}

fn blocked_payload(p: &str) -> (r: String)
    ensures
        r@ == spec_blocked_payload(p@),
{
    let mut names: Vec<String> = Vec::new();
    if !contains_str(p, "tests: pass") {
        names.push(String::from_str("tests"));
    }
    if !contains_str(p, "lint: pass") {
        names.push(String::from_str("lint"));
    }
    if !contains_str(p, "typecheck: pass") {
        names.push(String::from_str("typecheck"));
    }
    assert(views_of(names@) =~~= spec_failing_names(p@));
    let joined = join_strings(&names, ", ");
    let mut r = String::from_str("build.done rejected by backpressure; failing checks: ");
    r.append(joined.as_str());
    assert(r@ =~= spec_blocked_payload(p@));
    r
}

/// What the backpressure rule makes of one parsed event: a `build.done`
/// whose payload does not attest all three checks is replaced by a
/// synthesised `build.blocked` naming the failing checks; everything else
/// passes through unchanged.
pub open spec fn spec_gated(w: WireEvent) -> WireEvent {
    if w.topic == "build.done"@ && !spec_all_passed(w.payload) {
        WireEvent {
            topic: "build.blocked"@,
            target: None,
            payload: spec_blocked_payload(w.payload),
        }
    } else {
        w
    }
}

/// The backpressure rule applied to every parsed event of an output,
/// in order.
pub open spec fn spec_gated_events(out: Seq<char>) -> Seq<WireEvent> {
    Seq::new(spec_parse(out).len(), |i: int| spec_gated(spec_parse(out)[i]))
}

/// The view an accepted event carries when it is enqueued and journalled.
pub open spec fn enqueued_view(w: WireEvent, source: Option<Seq<char>>, ts: int) -> EventView {
    EventView { topic: w.topic, payload: w.payload, ts, source, target: w.target }
}

/// The identifier view of the dispatcher's active hat.
pub open spec fn hat_view(h: Option<HatId>) -> Option<Seq<char>> {
    match h {
        Some(h) => Some(h@),
        None => None,
    }
}

/// The first hat the resolver offers for the topic, if any; the caller
/// falls back to hatless Ralph when there is none.
pub fn choose_handler(registry: &HatRegistry, topic: &Topic) -> (r: Option<HatId>)
    ensures
        match r {
            Some(h) => spec_subscribers(registry.hats@, topic@).len() > 0 && h@
                == spec_subscribers(registry.hats@, topic@)[0],
            None => spec_subscribers(registry.hats@, topic@).len() == 0,
        },
{
    let subs = registry.subscribers_of(topic);
    if subs.len() > 0 {
        let h = subs[0].duplicate();
        assert(subs@.map_values(|x: HatId| x@)[0] == subs@[0]@);
        Some(h)
    } else {
        None
    }
}

/// Per-run mutable state of the dispatcher.
#[derive(Debug)]
pub struct LoopState {
    /// Iterations processed so far.
    pub iteration: u64,
    /// Pending events, first in first out.
    pub queue: Vec<Event>,
    /// The hat the current prompt was composed for, if any.
    pub active_hat: Option<HatId>,
    /// The append-only journal of accepted events.
    pub journal: Journal,
    /// The run's termination reason, once it ended.
    pub done: Option<RunReason>,
}

impl LoopState {
    /// A fresh run, seeded with a `task.start` event that carries the
    /// user's objective.
    pub fn new(objective: String) -> (s: LoopState)
        ensures
            s.iteration == 0,
            s.done == None::<RunReason>,
            s.active_hat == None::<HatId>,
            s.journal.entries@.len() == 0,
            s.queue@.len() == 1,
            s.queue@[0]@.topic == "task.start"@,
            s.queue@[0]@.payload == objective@,
            s.queue@[0]@.source == None::<Seq<char>>,
            s.queue@[0]@.target == None::<Seq<char>>,
            s.queue@[0]@.ts == 0,
    {
        let seed = Event::new(Topic::new(String::from_str("task.start")), objective);
        let mut queue: Vec<Event> = Vec::new();
        queue.push(seed);
        LoopState {
            iteration: 0,
            queue,
            active_hat: None,
            journal: Journal::new(),
            done: None,
        }
    }

    /// Dequeues the next event. An empty queue means the agent stalled:
    /// the run ends with `NoProgress` and nothing else changes.
    pub fn next_event(&mut self) -> (r: Option<Event>)
        ensures
            final(self).iteration == old(self).iteration,
            final(self).active_hat == old(self).active_hat,
            final(self).journal == old(self).journal,
            old(self).queue@.len() == 0 ==> {
                &&& r == None::<Event>
                &&& final(self).queue@ == old(self).queue@
                &&& final(self).done == Some(RunReason::NoProgress)
            },
            old(self).queue@.len() > 0 ==> {
                &&& r == Some(old(self).queue@[0])
                &&& final(self).queue@ == old(self).queue@.remove(0)
                &&& final(self).done == old(self).done
            },
    {
        if self.queue.len() == 0 {
            self.done = Some(RunReason::NoProgress);
            None
        } else {
            Some(self.queue.remove(0))
        }
    }

    /// Records which hat the coming iteration's prompt is composed for.
    pub fn set_active_hat(&mut self, hat: Option<HatId>)
        ensures
            final(self).active_hat == hat,
            final(self).iteration == old(self).iteration,
            final(self).queue == old(self).queue,
            final(self).journal == old(self).journal,
            final(self).done == old(self).done,
    {
        self.active_hat = hat;
    }

    /// Applies one finished iteration's result. A non-natural termination
    /// ends the run with the matching reason and changes nothing else.
    /// Otherwise the stripped output is parsed; each event runs through
    /// the backpressure rule (a failing `build.done` becomes a
    /// synthesised `build.blocked`), is stamped with `now_ms`, journalled
    /// as one JSON line, and enqueued, in parse order; the run completes
    /// when the sentinel appears outside every event block, and otherwise
    /// ends with `MaxIterations` once the cap (0 = none) is reached.
    pub fn process_output(
        &mut self,
        stripped_output: &str,
        termination: &TerminationType,
        sentinel: &str,
        max_iterations: u64,
        now_ms: u64,
    )
        requires
            old(self).done == None::<RunReason>,
            old(self).iteration < u64::MAX,
            old(self).queue@.len() + spec_parse(stripped_output@).len() <= usize::MAX,
        ensures
            final(self).active_hat == old(self).active_hat,
            *termination != TerminationType::Natural ==> {
                &&& final(self).iteration == old(self).iteration
                &&& final(self).queue@ == old(self).queue@
                &&& final(self).journal == old(self).journal
                &&& final(self).done == Some(
                    match *termination {
                        TerminationType::IdleTimeout => RunReason::IdleTimeout,
                        TerminationType::UserInterrupt => RunReason::UserInterrupt,
                        _ => RunReason::ForceKill,
                    },
                )
            },
            *termination == TerminationType::Natural ==> {
                let gated = spec_gated_events(stripped_output@);
                let src = hat_view(old(self).active_hat);
                &&& final(self).iteration == old(self).iteration + 1
                &&& final(self).queue@.len() == old(self).queue@.len() + gated.len()
                &&& (forall|i: int|
                    0 <= i < old(self).queue@.len() ==> final(self).queue@[i] == old(self).queue@[i])
                &&& (forall|i: int|
                    0 <= i < gated.len() ==> (#[trigger] final(self).queue@[old(self).queue@.len() + i])@ == enqueued_view(gated[i], src, now_ms as int))
                &&& final(self).journal.entries@.len() == old(self).journal.entries@.len()
                    + gated.len()
                &&& (forall|i: int|
                    0 <= i < old(self).journal.entries@.len() ==> final(self).journal.entries@[i] == old(self).journal.entries@[i])
                &&& (forall|i: int|
                    0 <= i < gated.len() ==> (#[trigger] final(self).journal.entries@[old(self).journal.entries@.len() + i])@ == spec_event_json(
                        enqueued_view(gated[i], src, now_ms as int),
                    ))
                &&& final(self).done == {
                    if spec_contains(spec_strip(stripped_output@), sentinel@) {
                        Some(RunReason::Completed)
                    } else if max_iterations > 0 && old(self).iteration + 1
                        >= max_iterations {
                        Some(RunReason::MaxIterations)
                    } else {
                        None::<RunReason>
                    }
                }
            },
    {
        match termination {
            TerminationType::Natural => {},
            TerminationType::IdleTimeout => {
                self.done = Some(RunReason::IdleTimeout);
                return ;
            },
            TerminationType::UserInterrupt => {
                self.done = Some(RunReason::UserInterrupt);
                return ;
            },
            TerminationType::ForceKill => {
                self.done = Some(RunReason::ForceKill);
                return ;
            },
        }
        let parser = match &self.active_hat {
            Some(h) => EventParser::new().with_source(h.as_str().to_owned()),
            None => EventParser::new(),
        };
        let ghost src = hat_view(self.active_hat);
        let ghost parsed = spec_parse(stripped_output@);
        let ghost gated = spec_gated_events(stripped_output@);
        let ghost q0 = self.queue@;
        let ghost j0 = self.journal.entries@;
        let mut events = parser.parse(stripped_output);
        let ghost all_events = events@;
        let n = events.len();
        let mut k: usize = 0;
        while k < n
            invariant
                0 <= k <= n,
                n == all_events.len(),
                events@ == all_events.subrange(k as int, n as int),
                parsed == spec_parse(stripped_output@),
                src == hat_view(old(self).active_hat),
                all_events.map_values(|e: Event| wire_of(e)) == parsed,
                forall|i: int|
                    0 <= i < all_events.len() ==> (#[trigger] all_events[i])@.source == src
                        && all_events[i]@.ts == 0,
                gated == spec_gated_events(stripped_output@),
                gated.len() == parsed.len(),
                q0.len() + n <= usize::MAX,
                self.active_hat == old(self).active_hat,
                self.iteration == old(self).iteration,
                self.done == old(self).done,
                self.queue@.len() == q0.len() + k,
                forall|i: int| 0 <= i < q0.len() ==> self.queue@[i] == q0[i],
                forall|i: int|
                    0 <= i < k ==> (#[trigger] self.queue@[q0.len() + i])@ == enqueued_view(
                        gated[i],
                        src,
                        now_ms as int,
                    ),
                self.journal.entries@.len() == j0.len() + k,
                forall|i: int| 0 <= i < j0.len() ==> self.journal.entries@[i] == j0[i],
                forall|i: int|
                    0 <= i < k ==> (#[trigger] self.journal.entries@[j0.len() + i])@
                        == spec_event_json(enqueued_view(gated[i], src, now_ms as int)),
            decreases n - k,
        {
            let e = events.remove(0);
            proof {
                assert(e == all_events[k as int]);
                assert(wire_of(e) == parsed[k as int]);
                assert(gated[k as int] == spec_gated(parsed[k as int]));
            }
            let is_build_done = string_eq_str(e.topic.as_str(), "build.done");
            let passed = match EventParser::parse_backpressure_evidence(e.payload.as_str()) {
                Some(ev) => ev.all_passed(),
                None => false,
            };
            proof {
                lemma_evidence_all_passed(e@.payload);
                assert(passed == spec_all_passed(e@.payload));
            }
            let picked = if is_build_done && !passed {
                proof {
                    assert(gated[k as int] == (WireEvent {
                        topic: "build.blocked"@,
                        target: None,
                        payload: spec_blocked_payload(e@.payload),
                    }));
                }
                let payload = blocked_payload(e.payload.as_str());
                let blocked = Event::new(
                    Topic::new(String::from_str("build.blocked")),
                    payload,
                );
                let with_src = match &self.active_hat {
                    Some(h) => blocked.with_source(h.duplicate()),
                    None => blocked,
                };
                proof {
                    assert(with_src@.topic == gated[k as int].topic);
                    assert(with_src@.payload == gated[k as int].payload);
                    assert(with_src@.target == gated[k as int].target);
                    assert(with_src@.source == src);
                    assert(with_src@.ts == 0);
                }
                with_src
            } else {
                proof {
                    assert(gated[k as int] == wire_of(e));
                    assert(e@.topic == gated[k as int].topic);
                    assert(e@.payload == gated[k as int].payload);
                    assert(e@.target == gated[k as int].target);
                    assert(e@.source == src);
                    assert(e@.ts == 0);
                }
                e
            };
            let out_event = picked.with_ts(now_ms);
            proof {
                assert(out_event@ == enqueued_view(gated[k as int], src, now_ms as int));
            }
            self.journal.append_event(&out_event);
            self.queue.push(out_event);
            proof {
                assert(events@ =~= all_events.subrange(k + 1, n as int));
            }
            k += 1;
        }
        self.iteration = self.iteration + 1;
        if EventParser::contains_promise(stripped_output, sentinel) {
            self.done = Some(RunReason::Completed);
        } else if max_iterations > 0 && self.iteration >= max_iterations {
            self.done = Some(RunReason::MaxIterations);
        }
    }
}

} // verus!
