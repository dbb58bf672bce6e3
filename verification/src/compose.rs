//! Prompt composition for the built-in planner and builder hats and for
//! user-defined custom hats.
//!
//! One agent, multiple hats. Every variant shares the core-behaviors
//! preamble (scratchpad, specs directory, guardrails); hats add behaviour
//! on top, never replace it. A custom hat without explicit instructions
//! gets them derived from its subscribe/publish contract.

use vstd::prelude::*;
use crate::config::{CoreConfig, EventMetadata};
use crate::hat::{string_eq_str, Hat};
use crate::text::{spec_join, join_strings, views_of};
use crate::topic::Topic;

verus! {

/// `- <rule>` lines, one per guardrail.
pub open spec fn spec_dash_lines(gs: Seq<String>) -> Seq<Seq<char>> {
    Seq::new(gs.len(), |i: int| "- "@ + gs[i]@)
}

fn dash_lines(gs: &Vec<String>) -> (r: Vec<String>)
    ensures
        views_of(r@) == spec_dash_lines(gs@),
{
    let mut r: Vec<String> = Vec::new();
    let mut i: usize = 0;
    while i < gs.len()
        invariant
            0 <= i <= gs@.len(),
            r@.len() == i,
            forall|k: int| 0 <= k < i ==> (#[trigger] r@[k])@ == "- "@ + gs@[k]@,
        decreases gs@.len() - i,
    {
        let mut line = String::from_str("- ");
        line.append(gs[i].as_str());
        r.push(line);
        i += 1;
    }
    assert(views_of(r@) =~~= spec_dash_lines(gs@));
    r
}

/// The key strings of a list of topics.
pub open spec fn topic_views(ts: Seq<Topic>) -> Seq<Seq<char>> {
    ts.map_values(|t: Topic| t@)
}

pub(crate) fn topic_strings(ts: &Vec<Topic>) -> (r: Vec<String>)
    ensures
        views_of(r@) == topic_views(ts@),
{
    let mut r: Vec<String> = Vec::new();
    let mut i: usize = 0;
    while i < ts.len()
        invariant
            0 <= i <= ts@.len(),
            r@.len() == i,
            forall|k: int| 0 <= k < i ==> (#[trigger] r@[k])@ == ts@[k]@,
        decreases ts@.len() - i,
    {
        r.push(ts[i].as_str().to_owned());
        i += 1;
    }
    assert(views_of(r@) =~~= topic_views(ts@));
    r
}

/// Index of the first catalog entry for `key`, or -1.
pub open spec fn spec_meta_idx(
    events: Seq<(String, EventMetadata)>,
    key: Seq<char>,
    from: int,
) -> int
    decreases events.len() - from when 0 <= from
{
    if from >= events.len() {
        -1
    } else if events[from].0@ == key {
        from
    } else {
        spec_meta_idx(events, key, from + 1)
    }
}

/// The catalog's metadata for `key`, if any entry carries it.
pub open spec fn spec_meta(events: Seq<(String, EventMetadata)>, key: Seq<char>) -> Option<
    EventMetadata,
> {
    let i = spec_meta_idx(events, key, 0);
    if i == -1 {
        None
    } else {
        Some(events[i].1)
    }
}

fn meta_index(events: &Vec<(String, EventMetadata)>, key: &str) -> (r: Option<usize>)
    ensures
        match r {
            Some(i) => i < events@.len() && spec_meta_idx(events@, key@, 0) == i,
            None => spec_meta_idx(events@, key@, 0) == -1,
        },
{
    let mut i: usize = 0;
    while i < events.len()
        invariant
            0 <= i <= events@.len(),
            spec_meta_idx(events@, key@, 0) == spec_meta_idx(events@, key@, i as int),
        decreases events@.len() - i,
    {
        if string_eq_str(events[i].0.as_str(), key) {
            return Some(i);
        }
        i += 1;
    }
    None
}

/// The built-in behaviour for a well-known trigger topic.
pub open spec fn spec_builtin_trigger(t: Seq<char>) -> Option<Seq<char>> {
    if t == "task.start"@ || t == "task.resume"@ {
        Some("Analyze the task and create a plan in the scratchpad."@)
    } else if t == "build.done"@ {
        Some("Review the completed work and decide next steps."@)
    } else if t == "build.blocked"@ {
        Some(
            "Analyze the blocker and decide how to unblock (simplify task, gather info, or escalate)."@,
        )
    } else if t == "build.task"@ {
        Some(
            "Implement the assigned task. Follow existing patterns. Run backpressure (tests/checks). Commit when done."@,
        )
    } else if t == "review.request"@ {
        Some("Review the recent changes for correctness, tests, patterns, errors, and security."@)
    } else if t == "review.approved"@ {
        Some("Mark the task complete `[x]` and proceed to next task."@)
    } else if t == "review.changes_requested"@ {
        Some("Add fix tasks to scratchpad and dispatch."@)
    } else {
        None
    }
}

fn builtin_trigger(t: &str) -> (r: Option<&'static str>)
    ensures
        match r {
            Some(s) => spec_builtin_trigger(t@) == Some(s@),
            None => spec_builtin_trigger(t@) == None::<Seq<char>>,
        },
{
    if string_eq_str(t, "task.start") || string_eq_str(t, "task.resume") {
        Some("Analyze the task and create a plan in the scratchpad.")
    } else if string_eq_str(t, "build.done") {
        Some("Review the completed work and decide next steps.")
    } else if string_eq_str(t, "build.blocked") {
        Some("Analyze the blocker and decide how to unblock (simplify task, gather info, or escalate).")
    } else if string_eq_str(t, "build.task") {
        Some("Implement the assigned task. Follow existing patterns. Run backpressure (tests/checks). Commit when done.")
    } else if string_eq_str(t, "review.request") {
        Some("Review the recent changes for correctness, tests, patterns, errors, and security.")
    } else if string_eq_str(t, "review.approved") {
        Some("Mark the task complete `[x]` and proceed to next task.")
    } else if string_eq_str(t, "review.changes_requested") {
        Some("Add fix tasks to scratchpad and dispatch.")
    } else {
        None
    }
}

/// The built-in behaviour for a well-known published topic.
pub open spec fn spec_builtin_publish(t: Seq<char>) -> Option<Seq<char>> {
    if t == "build.task"@ {
        Some("Dispatch ONE AT A TIME for pending `[ ]` tasks."@)
    } else if t == "build.done"@ {
        Some("When implementation is finished and tests pass."@)
    } else if t == "build.blocked"@ {
        Some("When stuck - include what you tried and why it failed."@)
    } else if t == "review.request"@ {
        Some("After build completion, before marking done."@)
    } else if t == "review.approved"@ {
        Some("If changes look good and meet requirements."@)
    } else if t == "review.changes_requested"@ {
        Some("If issues found - include specific feedback."@)
    } else {
        None
    }
}

fn builtin_publish(t: &str) -> (r: Option<&'static str>)
    ensures
        match r {
            Some(s) => spec_builtin_publish(t@) == Some(s@),
            None => spec_builtin_publish(t@) == None::<Seq<char>>,
        },
{
    if string_eq_str(t, "build.task") {
        Some("Dispatch ONE AT A TIME for pending `[ ]` tasks.")
    } else if string_eq_str(t, "build.done") {
        Some("When implementation is finished and tests pass.")
    } else if string_eq_str(t, "build.blocked") {
        Some("When stuck - include what you tried and why it failed.")
    } else if string_eq_str(t, "review.request") {
        Some("After build completion, before marking done.")
    } else if string_eq_str(t, "review.approved") {
        Some("If changes look good and meet requirements.")
    } else if string_eq_str(t, "review.changes_requested") {
        Some("If issues found - include specific feedback.")
    } else {
        None
    }
}

/// The behaviour line for one trigger topic, if any.
fn trigger_line(events: &Vec<(String, EventMetadata)>, t: &Topic) -> (r: Option<String>)
    ensures
        match r {
            Some(l) => spec_trigger_one(events@, t@) == seq![l@],
            None => spec_trigger_one(events@, t@) == Seq::<Seq<char>>::empty(),
        },
{
    let tstr = t.as_str();
    let text: Option<&str> = match meta_index(events, tstr) {
        Some(mi) => {
            if !events[mi].1.on_trigger.as_str().is_empty() {
                Some(events[mi].1.on_trigger.as_str())
            } else {
                builtin_trigger(tstr)
            }
        },
        None => builtin_trigger(tstr),
    };
    match text {
        Some(b) => {
            let mut l = String::from_str("**On `");
            l.append(tstr);
            l.append("`:** ");
            l.append(b);
            Some(l)
        },
        None => None,
    }
}

/// The behaviour line for one published topic, if any.
fn publish_line(events: &Vec<(String, EventMetadata)>, t: &Topic) -> (r: Option<String>)
    ensures
        match r {
            Some(l) => spec_publish_one(events@, t@) == seq![l@],
            None => spec_publish_one(events@, t@) == Seq::<Seq<char>>::empty(),
        },
{
    let tstr = t.as_str();
    let text: Option<&str> = match meta_index(events, tstr) {
        Some(mi) => {
            if !events[mi].1.on_publish.as_str().is_empty() {
                Some(events[mi].1.on_publish.as_str())
            } else {
                builtin_publish(tstr)
            }
        },
        None => builtin_publish(tstr),
    };
    match text {
        Some(b) => {
            let mut l = String::from_str("**Publish `");
            l.append(tstr);
            l.append("`:** ");
            l.append(b);
            Some(l)
        },
        None => None,
    }
}

/// The behaviour line a trigger topic contributes: the catalog's
/// `on_trigger` text when one is given, else the built-in default, else
/// nothing.
pub open spec fn spec_trigger_one(
    events: Seq<(String, EventMetadata)>,
    t: Seq<char>,
) -> Seq<Seq<char>> {
    match spec_meta(events, t) {
        Some(m) => {
            if m.on_trigger@.len() > 0 {
                seq!["**On `"@ + t + "`:** "@ + m.on_trigger@]
            } else {
                match spec_builtin_trigger(t) {
                    Some(b) => seq!["**On `"@ + t + "`:** "@ + b],
                    None => Seq::empty(),
                }
            }
        },
        None => match spec_builtin_trigger(t) {
            Some(b) => seq!["**On `"@ + t + "`:** "@ + b],
            None => Seq::empty(),
        },
    }
}

/// The behaviour line a published topic contributes.
pub open spec fn spec_publish_one(
    events: Seq<(String, EventMetadata)>,
    t: Seq<char>,
) -> Seq<Seq<char>> {
    match spec_meta(events, t) {
        Some(m) => {
            if m.on_publish@.len() > 0 {
                seq!["**Publish `"@ + t + "`:** "@ + m.on_publish@]
            } else {
                match spec_builtin_publish(t) {
                    Some(b) => seq!["**Publish `"@ + t + "`:** "@ + b],
                    None => Seq::empty(),
                }
            }
        },
        None => match spec_builtin_publish(t) {
            Some(b) => seq!["**Publish `"@ + t + "`:** "@ + b],
            None => Seq::empty(),
        },
    }
}

/// The behaviour lines of a list of trigger topics, in order.
pub open spec fn spec_trigger_behaviors(
    events: Seq<(String, EventMetadata)>,
    subs: Seq<Topic>,
) -> Seq<Seq<char>>
    decreases subs.len(),
{
    if subs.len() == 0 {
        Seq::empty()
    } else {
        spec_trigger_behaviors(events, subs.drop_last()) + spec_trigger_one(
            events,
            subs.last()@,
        )
    }
}

/// The behaviour lines of a list of published topics, in order.
pub open spec fn spec_publish_behaviors(
    events: Seq<(String, EventMetadata)>,
    pubs: Seq<Topic>,
) -> Seq<Seq<char>>
    decreases pubs.len(),
{
    if pubs.len() == 0 {
        Seq::empty()
    } else {
        spec_publish_behaviors(events, pubs.drop_last()) + spec_publish_one(
            events,
            pubs.last()@,
        )
    }
}

/// The liveness rule appended when the hat publishes anything.
pub open spec fn spec_must_publish_line(pubs: Seq<Topic>) -> Seq<char> {
    "**IMPORTANT:** Every iteration MUST publish one of: `"@ + spec_join(
        topic_views(pubs),
        "`, `"@,
    ) + "` or the loop will terminate."@
}

/// The instructions derived from a hat's contract: its behaviour lines
/// joined under a heading, with the liveness rule when it publishes, or a
/// fixed fallback when nothing contributes a line.
pub open spec fn spec_derived_instructions(
    events: Seq<(String, EventMetadata)>,
    hat: Hat,
) -> Seq<char> {
    let behaviors = spec_trigger_behaviors(events, hat.subscriptions@) + spec_publish_behaviors(
        events,
        hat.publishes@,
    ) + if hat.publishes@.len() > 0 {
        seq![spec_must_publish_line(hat.publishes@)]
    } else {
        Seq::empty()
    };
    if behaviors.len() == 0 {
        "Follow the incoming event instructions."@
    } else {
        "### Derived Behaviors\n\n"@ + spec_join(behaviors, "\n\n"@)
    }
}

/// The core-behaviors preamble injected into every prompt.
pub open spec fn spec_core_behaviors(b: InstructionBuilder) -> Seq<char> {
    "## CORE BEHAVIORS\n**Scratchpad:** `"@ + b.core.scratchpad@
        + "` is shared state. Read it. Update it.\n**Specs:** `"@ + b.core.specs_dir@
        + "` is the source of truth. Implementations must match.\n\n**IMPORTANT**: Less is more, do the smallest, atomic task possible. Leave work for future workers.\n\n### Guardrails\n"@
        + spec_join(spec_dash_lines(b.core.guardrails@), "\n"@) + "\n"@
}

/// The planner prompt.
pub open spec fn spec_coordinator(b: InstructionBuilder, prompt: Seq<char>) -> Seq<char> {
    "You are Ralph. You've got your planner hat on.\n\n"@ + spec_core_behaviors(b)
        + "\n\n## PLANNER MODE\n\nYou're planning, not building.\n\n1. **Gap analysis.** Compare `"@
        + b.core.specs_dir@
        + "` against codebase. What's missing? Broken?\n\n2. **Own the scratchpad.** Create or update `"@
        + b.core.scratchpad@
        + "` with prioritized tasks.\n   - `[ ]` pending\n   - `[x]` done\n   - `[~]` cancelled (with reason)\n\n3. **Dispatch work.** Publish `<event topic=\"build.task\">` ONE AT A TIME for the highest priority task. Clear acceptance criteria.\n\n4. **Validate.** When build reports done, verify it satisfies the spec.\n\n## DON'T\n\n- ❌ Write implementation code\n- ❌ Run tests or make commits\n- ❌ Pick tasks to implement yourself\n- ❌ Output "@
        + b.completion_promise@
        + " until you've created tasks AND they've all been completed\n\n## DONE\n\n**Prerequisites** (ALL must be true before outputting "@
        + b.completion_promise@
        + "):\n1. Scratchpad exists with at least one task\n2. You dispatched work to the builder at least once\n3. ALL tasks are marked `[x]` (done) or `[~]` (cancelled)\n4. Specs are satisfied\n\nOnly when ALL prerequisites are met, output: "@
        + b.completion_promise@ + "\n\n---\n"@ + prompt
}

/// The builder prompt.
pub open spec fn spec_ralph(b: InstructionBuilder, prompt: Seq<char>) -> Seq<char> {
    "You are Ralph. You've got your builder hat on.\n\n"@ + spec_core_behaviors(b)
        + "\n\n## BUILDER MODE\n\nYou're building, not planning. One task, then exit.\n\n1. **Pick ONE task.** Highest priority `[ ]` from `"@
        + b.core.scratchpad@
        + "`.\n   - **Known Issues are HIGH PRIORITY.** Check `ISSUES.md` in the repo root. Fixing known issues takes precedence. Once fixed, remove the issue from `ISSUES.md`.\n\n2. **Implement.** Write the code. Follow existing patterns.\n\n3. **Validate.** Run backpressure. Must pass.\n\n4. **Commit.** One task, one commit. Mark `[x]` in scratchpad.\n\n5. **Exit.** Publish `<event topic=\"build.done\">` with evidence:\n   ```\n   <event topic=\"build.done\">\n   tests: pass\n   lint: pass\n   typecheck: pass\n   </event>\n   ```\n   All three checks must show \"pass\" or the event will be rejected.\n\n## DON'T\n\n- ❌ Create the scratchpad (planner does that)\n- ❌ Decide what tasks to add (planner does that)\n- ❌ Output the completion promise (planner does that)\n\n## STUCK?\n\nCan't finish? Publish `<event topic=\"build.blocked\">` with:\n- What you tried\n- Why it failed\n- What would unblock you\n\n---\n"@
        + prompt
}

/// The custom-hat prompt.
pub open spec fn spec_custom_hat(
    b: InstructionBuilder,
    hat: Hat,
    events_context: Seq<char>,
) -> Seq<char> {
    let role_instructions = if hat.instructions@.len() == 0 {
        spec_derived_instructions(b.events@, hat)
    } else {
        hat.instructions@
    };
    let publish_topics = if hat.publishes@.len() == 0 {
        Seq::<char>::empty()
    } else {
        "You publish to: "@ + spec_join(topic_views(hat.publishes@), ", "@)
    };
    let must_publish = if hat.publishes@.len() == 0 {
        Seq::<char>::empty()
    } else {
        "\n\n**You MUST publish one of these events based on your task results:** `"@ + spec_join(
            topic_views(hat.publishes@),
            "`, `"@,
        ) + "`\nFailure to publish will terminate the loop."@
    };
    "You are "@ + hat.name@ + ". Fresh context each iteration.\n\n"@ + spec_core_behaviors(b)
        + "\n\n## YOUR ROLE\n\n"@ + role_instructions
        + "\n\n## THE RULES\n\n1. **One task, then exit.** The loop continues.\n\n## EVENTS\n\nCommunicate via: `<event topic=\"...\">message</event>`\n"@
        + publish_topics + must_publish + "\n\n## COMPLETION\n\nOnly Coordinator outputs: "@
        + b.completion_promise@ + "\n\n---\nINCOMING:\n"@ + events_context
}

/// Builds the prepended instructions for agent prompts: the planner and
/// builder variants for the built-in hats, and the generalised variant
/// for custom hats.
#[derive(Debug)]
pub struct InstructionBuilder {
    pub completion_promise: String,
    pub core: CoreConfig,
    /// Per-topic metadata for deriving instructions from pub/sub
    /// contracts.
    pub events: Vec<(String, EventMetadata)>,
}

impl InstructionBuilder {
    /// A builder with no per-topic metadata.
    pub fn new(completion_promise: String, core: CoreConfig) -> (b: InstructionBuilder)
        ensures
            b.completion_promise == completion_promise,
            b.core == core,
            b.events@.len() == 0,
    {
        InstructionBuilder { completion_promise, core, events: Vec::new() }
    }

    /// A builder with per-topic metadata for custom hats.
    pub fn with_events(
        completion_promise: String,
        core: CoreConfig,
        events: Vec<(String, EventMetadata)>,
    ) -> (b: InstructionBuilder)
        ensures
            b.completion_promise == completion_promise,
            b.core == core,
            b.events == events,
    {
        InstructionBuilder { completion_promise, core, events }
    }

    /// The core-behaviors section injected into all prompts.
    fn build_core_behaviors(&self) -> (r: String)
        ensures
            r@ == spec_core_behaviors(*self),
    {
        let lines = dash_lines(&self.core.guardrails);
        let guardrails = join_strings(&lines, "\n");
        let mut r = String::from_str("## CORE BEHAVIORS\n**Scratchpad:** `");
        r.append(self.core.scratchpad.as_str());
        r.append("` is shared state. Read it. Update it.\n**Specs:** `");
        r.append(self.core.specs_dir.as_str());
        r.append(
            "` is the source of truth. Implementations must match.\n\n**IMPORTANT**: Less is more, do the smallest, atomic task possible. Leave work for future workers.\n\n### Guardrails\n",
        );
        r.append(guardrails.as_str());
        r.append("\n");
        assert(r@ =~= spec_core_behaviors(*self));
        r
    }

    /// Builds the planner instructions: gap analysis, scratchpad
    /// ownership, one `build.task` dispatch at a time, and the four
    /// completion prerequisites; never implementation work.
    pub fn build_coordinator(&self, prompt_content: &str) -> (r: String)
        ensures
            r@ == spec_coordinator(*self, prompt_content@),
    {
        let core_behaviors = self.build_core_behaviors();
        let mut r = String::from_str("You are Ralph. You've got your planner hat on.\n\n");
        r.append(core_behaviors.as_str());
        r.append(
            "\n\n## PLANNER MODE\n\nYou're planning, not building.\n\n1. **Gap analysis.** Compare `",
        );
        r.append(self.core.specs_dir.as_str());
        r.append(
            "` against codebase. What's missing? Broken?\n\n2. **Own the scratchpad.** Create or update `",
        );
        r.append(self.core.scratchpad.as_str());
        r.append(
            "` with prioritized tasks.\n   - `[ ]` pending\n   - `[x]` done\n   - `[~]` cancelled (with reason)\n\n3. **Dispatch work.** Publish `<event topic=\"build.task\">` ONE AT A TIME for the highest priority task. Clear acceptance criteria.\n\n4. **Validate.** When build reports done, verify it satisfies the spec.\n\n## DON'T\n\n- ❌ Write implementation code\n- ❌ Run tests or make commits\n- ❌ Pick tasks to implement yourself\n- ❌ Output ",
        );
        r.append(self.completion_promise.as_str());
        r.append(
            " until you've created tasks AND they've all been completed\n\n## DONE\n\n**Prerequisites** (ALL must be true before outputting ",
        );
        r.append(self.completion_promise.as_str());
        r.append(
            "):\n1. Scratchpad exists with at least one task\n2. You dispatched work to the builder at least once\n3. ALL tasks are marked `[x]` (done) or `[~]` (cancelled)\n4. Specs are satisfied\n\nOnly when ALL prerequisites are met, output: ",
        );
        r.append(self.completion_promise.as_str());
        r.append("\n\n---\n");
        r.append(prompt_content);
        assert(r@ =~= spec_coordinator(*self, prompt_content@));
        r
    }

    /// Builds the builder instructions: pick one task, implement, run
    /// backpressure, commit, publish `build.done` with the three-line
    /// evidence payload or `build.blocked` when stuck; never planning.
    pub fn build_ralph(&self, prompt_content: &str) -> (r: String)
        ensures
            r@ == spec_ralph(*self, prompt_content@),
    {
        let core_behaviors = self.build_core_behaviors();
        let mut r = String::from_str("You are Ralph. You've got your builder hat on.\n\n");
        r.append(core_behaviors.as_str());
        r.append(
            "\n\n## BUILDER MODE\n\nYou're building, not planning. One task, then exit.\n\n1. **Pick ONE task.** Highest priority `[ ]` from `",
        );
        r.append(self.core.scratchpad.as_str());
        r.append(
            "`.\n   - **Known Issues are HIGH PRIORITY.** Check `ISSUES.md` in the repo root. Fixing known issues takes precedence. Once fixed, remove the issue from `ISSUES.md`.\n\n2. **Implement.** Write the code. Follow existing patterns.\n\n3. **Validate.** Run backpressure. Must pass.\n\n4. **Commit.** One task, one commit. Mark `[x]` in scratchpad.\n\n5. **Exit.** Publish `<event topic=\"build.done\">` with evidence:\n   ```\n   <event topic=\"build.done\">\n   tests: pass\n   lint: pass\n   typecheck: pass\n   </event>\n   ```\n   All three checks must show \"pass\" or the event will be rejected.\n\n## DON'T\n\n- ❌ Create the scratchpad (planner does that)\n- ❌ Decide what tasks to add (planner does that)\n- ❌ Output the completion promise (planner does that)\n\n## STUCK?\n\nCan't finish? Publish `<event topic=\"build.blocked\">` with:\n- What you tried\n- Why it failed\n- What would unblock you\n\n---\n",
        );
        r.append(prompt_content);
        assert(r@ =~= spec_ralph(*self, prompt_content@));
        r
    }

    /// Derives instructions from a hat's pub/sub contract: per-topic
    /// metadata first, built-in defaults for well-known topics second,
    /// and the liveness rule whenever the hat publishes anything.
    fn derive_instructions_from_contract(&self, hat: &Hat) -> (r: String)
        ensures
            r@ == spec_derived_instructions(self.events@, *hat),
    {
        let ghost trig_all = spec_trigger_behaviors(self.events@, hat.subscriptions@);
        let ghost pub_all = spec_publish_behaviors(self.events@, hat.publishes@);
        let mut behaviors: Vec<String> = Vec::new();
        let mut i: usize = 0;
        while i < hat.subscriptions.len()
            invariant
                0 <= i <= hat.subscriptions@.len(),
                behaviors@.len() == spec_trigger_behaviors(
                    self.events@,
                    hat.subscriptions@.subrange(0, i as int),
                ).len(),
                forall|k: int|
                    0 <= k < behaviors@.len() ==> (#[trigger] behaviors@[k])@
                        == spec_trigger_behaviors(
                        self.events@,
                        hat.subscriptions@.subrange(0, i as int),
                    )[k],
            decreases hat.subscriptions@.len() - i,
        {
            let ghost prefix = hat.subscriptions@.subrange(0, i as int);
            match trigger_line(&self.events, &hat.subscriptions[i]) {
                Some(l) => behaviors.push(l),
                None => {},
            }
            proof {
                assert(hat.subscriptions@.subrange(0, i + 1).drop_last() =~= prefix);
                assert(hat.subscriptions@.subrange(0, i + 1).last()
                    == hat.subscriptions@[i as int]);
            }
            i += 1;
        }
        proof {
            assert(hat.subscriptions@.subrange(0, hat.subscriptions@.len() as int)
                =~= hat.subscriptions@);
        }
        let mut i: usize = 0;
        while i < hat.publishes.len()
            invariant
                0 <= i <= hat.publishes@.len(),
                trig_all == spec_trigger_behaviors(self.events@, hat.subscriptions@),
                behaviors@.len() == trig_all.len() + spec_publish_behaviors(
                    self.events@,
                    hat.publishes@.subrange(0, i as int),
                ).len(),
                forall|k: int|
                    0 <= k < trig_all.len() ==> (#[trigger] behaviors@[k])@ == trig_all[k],
                forall|k: int|
                    trig_all.len() <= k < behaviors@.len() ==> (#[trigger] behaviors@[k])@
                        == spec_publish_behaviors(
                        self.events@,
                        hat.publishes@.subrange(0, i as int),
                    )[k - trig_all.len()],
            decreases hat.publishes@.len() - i,
        {
            let ghost prefix = hat.publishes@.subrange(0, i as int);
            match publish_line(&self.events, &hat.publishes[i]) {
                Some(l) => behaviors.push(l),
                None => {},
            }
            proof {
                assert(hat.publishes@.subrange(0, i + 1).drop_last() =~= prefix);
                assert(hat.publishes@.subrange(0, i + 1).last() == hat.publishes@[i as int]);
            }
            i += 1;
        }
        proof {
            assert(hat.publishes@.subrange(0, hat.publishes@.len() as int) =~= hat.publishes@);
        }
        if hat.publishes.len() > 0 {
            let pub_strs = topic_strings(&hat.publishes);
            let joined = join_strings(&pub_strs, "`, `");
            let mut l = String::from_str(
                "**IMPORTANT:** Every iteration MUST publish one of: `",
            );
            l.append(joined.as_str());
            l.append("` or the loop will terminate.");
            assert(l@ =~= spec_must_publish_line(hat.publishes@));
            behaviors.push(l);
        }
        let ghost all = trig_all + pub_all + if hat.publishes@.len() > 0 {
            seq![spec_must_publish_line(hat.publishes@)]
        } else {
            Seq::<Seq<char>>::empty()
        };
        assert(views_of(behaviors@) =~~= all);
        if behaviors.len() == 0 {
            String::from_str("Follow the incoming event instructions.")
        } else {
            let joined = join_strings(&behaviors, "\n\n");
            let mut r = String::from_str("### Derived Behaviors\n\n");
            r.append(joined.as_str());
            assert(r@ =~= spec_derived_instructions(self.events@, *hat));
            r
        }
    }


    /// Builds custom hat instructions for extended configurations: the
    /// hat's explicit instructions verbatim, or instructions derived from
    /// its contract, always on top of the core behaviours and with the
    /// must-publish clause whenever the hat publishes anything.
    pub fn build_custom_hat(&self, hat: &Hat, events_context: &str) -> (r: String)
        ensures
            r@ == spec_custom_hat(*self, *hat, events_context@),
    {
        let core_behaviors = self.build_core_behaviors();
        let role_instructions = if hat.instructions.as_str().is_empty() {
            self.derive_instructions_from_contract(hat)
        } else {
            hat.instructions.clone()
        };
        let mut r = String::from_str("You are ");
        r.append(hat.name.as_str());
        r.append(". Fresh context each iteration.\n\n");
        r.append(core_behaviors.as_str());
        r.append("\n\n## YOUR ROLE\n\n");
        r.append(role_instructions.as_str());
        r.append(
            "\n\n## THE RULES\n\n1. **One task, then exit.** The loop continues.\n\n## EVENTS\n\nCommunicate via: `<event topic=\"...\">message</event>`\n",
        );
        if hat.publishes.len() > 0 {
            let pub_strs = topic_strings(&hat.publishes);
            let comma_joined = join_strings(&pub_strs, ", ");
            r.append("You publish to: ");
            r.append(comma_joined.as_str());
            let tick_joined = join_strings(&pub_strs, "`, `");
            r.append("\n\n**You MUST publish one of these events based on your task results:** `");
            r.append(tick_joined.as_str());
            r.append("`\nFailure to publish will terminate the loop.");
        }
        r.append("\n\n## COMPLETION\n\nOnly Coordinator outputs: ");
        r.append(self.completion_promise.as_str());
        r.append("\n\n---\nINCOMING:\n");
        r.append(events_context);
        assert(r@ =~= spec_custom_hat(*self, *hat, events_context@));
        r
    }
}

} // verus!
