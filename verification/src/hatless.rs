//! Hatless Ralph, the constant coordinator: always present, cannot be
//! configured away, and acts as the universal fallback for every topic.

use vstd::prelude::*;
use crate::compose::{topic_strings, topic_views};
use crate::config::CoreConfig;
use crate::hat::{Hat, HatRegistry};
use crate::text::{
    join_strings, replace_all, spec_join, spec_replace_from, spec_u64_str, u64_to_string, views_of,
};
use crate::topic::Topic;

verus! {

/// Information about one hat, rendered into the topology table.
#[derive(Debug)]
pub struct HatInfo {
    pub name: String,
    pub subscribes_to: Vec<String>,
    pub publishes: Vec<String>,
}

/// Hat topology for multi-hat prompt generation.
#[derive(Debug)]
pub struct HatTopology {
    pub hats: Vec<HatInfo>,
}

/// The topology carries exactly the registry's hats, in order: name,
/// subscription keys, and published keys.
pub open spec fn spec_topology_matches(t: HatTopology, hats: Seq<Hat>) -> bool {
    &&& t.hats@.len() == hats.len()
    &&& forall|i: int|
        0 <= i < hats.len() ==> {
            &&& (#[trigger] t.hats@[i]).name@ == hats[i].name@
            &&& views_of(t.hats@[i].subscribes_to@) == topic_views(hats[i].subscriptions@)
            &&& views_of(t.hats@[i].publishes@) == topic_views(hats[i].publishes@)
        }
}

impl HatTopology {
    /// Creates the topology from the registry, in registration order.
    pub fn from_registry(registry: &HatRegistry) -> (t: HatTopology)
        ensures
            spec_topology_matches(t, registry.hats@),
    {
        let mut hats: Vec<HatInfo> = Vec::new();
        let mut i: usize = 0;
        while i < registry.hats.len()
            invariant
                0 <= i <= registry.hats@.len(),
                hats@.len() == i,
                forall|k: int|
                    0 <= k < i ==> {
                        &&& (#[trigger] hats@[k]).name@ == registry.hats@[k].name@
                        &&& views_of(hats@[k].subscribes_to@) == topic_views(
                            registry.hats@[k].subscriptions@,
                        )
                        &&& views_of(hats@[k].publishes@) == topic_views(
                            registry.hats@[k].publishes@,
                        )
                    },
            decreases registry.hats@.len() - i,
        {
            let hat = &registry.hats[i];
            hats.push(
                HatInfo {
                    name: hat.name.clone(),
                    subscribes_to: topic_strings(&hat.subscriptions),
                    publishes: topic_strings(&hat.publishes),
                },
            );
            i += 1;
        }
        HatTopology { hats }
    }
}

/// `999. <rule>` lines: guardrails numbered from 999 up.
pub open spec fn spec_numbered_lines(gs: Seq<String>) -> Seq<Seq<char>> {
    Seq::new(gs.len(), |i: int| spec_u64_str(999 + i) + ". "@ + gs[i]@)
}

fn numbered_lines(gs: &Vec<String>) -> (r: Vec<String>)
    requires
        gs@.len() + 999 <= u64::MAX,
    ensures
        views_of(r@) == spec_numbered_lines(gs@),
{
    let mut r: Vec<String> = Vec::new();
    let mut i: usize = 0;
    while i < gs.len()
        invariant
            0 <= i <= gs@.len(),
            gs@.len() + 999 <= u64::MAX,
            r@.len() == i,
            forall|k: int|
                0 <= k < i ==> (#[trigger] r@[k])@ == spec_u64_str(999 + k) + ". "@ + gs@[k]@,
        decreases gs@.len() - i,
    {
        let mut line = u64_to_string(999 + (i as u64));
        line.append(". ");
        line.append(gs[i].as_str());
        r.push(line);
        i += 1;
    }
    assert(views_of(r@) =~~= spec_numbered_lines(gs@));
    r
}

/// The identity and orientation section, with the numbered guardrails.
pub open spec fn spec_core_prompt(r: HatlessRalph) -> Seq<char> {
    "I'm Ralph. Fresh context each iteration.\n\n### 0a. ORIENTATION\nStudy `"@
        + r.core.specs_dir@
        + "` to understand requirements.\nDon't assume features aren't implemented—search first.\n\n### 0b. SCRATCHPAD\nStudy `"@
        + r.core.scratchpad@
        + "`. It's shared state. It's memory.\n\nTask markers:\n- `[ ]` pending\n- `[x]` done\n- `[~]` cancelled (with reason)\n\n### GUARDRAILS\n"@
        + spec_join(spec_numbered_lines(r.core.guardrails@), "\n"@) + "\n\n"@
}

/// The five-step workflow section.
pub open spec fn spec_workflow_section(r: HatlessRalph) -> Seq<char> {
    "## WORKFLOW\n\n### 1. GAP ANALYSIS\nCompare specs against codebase. Use parallel subagents (up to 10) for searches.\n\n### 2. PLAN\nUpdate `"@
        + r.core.scratchpad@
        + "` with prioritized tasks.\n\n### 3. IMPLEMENT\nPick ONE task. Only 1 subagent for build/tests.\n\n### 4. COMMIT\nCapture the why, not just the what. Mark `[x]` in scratchpad.\n\n### 5. REPEAT\nUntil all tasks `[x]` or `[~]`.\n\n"@
}

/// One row of the hat table.
pub open spec fn spec_hat_row(h: HatInfo) -> Seq<char> {
    "| "@ + h.name@ + " | "@ + spec_join(views_of(h.subscribes_to@), ", "@) + " | "@ + spec_join(
        views_of(h.publishes@),
        ", "@,
    ) + " |\n"@
}

/// The rows of the hat table, in registration order.
pub open spec fn spec_hat_rows(hats: Seq<HatInfo>) -> Seq<char>
    decreases hats.len(),
{
    if hats.len() == 0 {
        Seq::empty()
    } else {
        spec_hat_rows(hats.drop_last()) + spec_hat_row(hats.last())
    }
}

/// The hats section: delegation note plus the topology table.
pub open spec fn spec_hats_section(t: HatTopology) -> Seq<char> {
    "## HATS\n\nDelegate via events.\n\n| Hat | Triggers On | Publishes |\n|-----|-------------|----------|\n"@
        + spec_hat_rows(t.hats@) + "\n"@
}

/// The event-writing section.
pub open spec fn spec_event_writing_section() -> Seq<char> {
    "## EVENT WRITING\n\nWrite events to `.agent/events.jsonl` as:\n{\"topic\": \"build.task\", \"payload\": \"...\", \"ts\": \"2026-01-14T12:00:00Z\"}\n\n"@
}

/// The completion section.
pub open spec fn spec_done_section(r: HatlessRalph) -> Seq<char> {
    "## DONE\n\nOutput "@ + r.completion_promise@ + " when all tasks complete.\n"@
}

/// The whole prompt: core, workflow, the hats table when hats exist,
/// event writing, and the completion rule.
pub open spec fn spec_hatless_prompt(r: HatlessRalph) -> Seq<char> {
    spec_core_prompt(r) + spec_workflow_section(r) + (match r.hat_topology {
        Some(t) => spec_hats_section(t),
        None => Seq::<char>::empty(),
    }) + spec_event_writing_section() + spec_done_section(r)
}

/// Hatless Ralph, the constant coordinator and universal fallback.
pub struct HatlessRalph {
    pub completion_promise: String,
    pub core: CoreConfig,
    pub hat_topology: Option<HatTopology>,
    /// A user-supplied template that replaces the built-in prompt body;
    /// it still receives the `{scratchpad}` substitution.
    pub initial_prompt_template: Option<String>,
}

impl HatlessRalph {
    /// Creates a new coordinator; the hat topology is rendered only when
    /// the registry holds any hats.
    pub fn new(completion_promise: String, core: CoreConfig, registry: &HatRegistry) -> (r:
        HatlessRalph)
        ensures
            r.completion_promise == completion_promise,
            r.core == core,
            match r.hat_topology {
                None => registry.hats@.len() == 0,
                Some(t) => registry.hats@.len() > 0 && spec_topology_matches(t, registry.hats@),
            },
            r.initial_prompt_template == None::<String>,
    {
        let hat_topology = if registry.is_empty() {
            None
        } else {
            Some(HatTopology::from_registry(registry))
        };
        HatlessRalph { completion_promise, core, hat_topology, initial_prompt_template: None }
    }

    /// Supplies a raw template that replaces the built-in prompt body.
    pub fn with_initial_prompt_template(self, template: String) -> (r: HatlessRalph)
        ensures
            r.completion_promise == self.completion_promise,
            r.core == self.core,
            r.hat_topology == self.hat_topology,
            r.initial_prompt_template == Some(template),
    {
        HatlessRalph { initial_prompt_template: Some(template), ..self }
    }

    fn core_prompt(&self) -> (r: String)
        requires
            self.core.guardrails@.len() + 999 <= u64::MAX,
        ensures
            r@ == spec_core_prompt(*self),
    {
        let lines = numbered_lines(&self.core.guardrails);
        let guardrails = join_strings(&lines, "\n");
        let mut r = String::from_str(
            "I'm Ralph. Fresh context each iteration.\n\n### 0a. ORIENTATION\nStudy `",
        );
        r.append(self.core.specs_dir.as_str());
        r.append(
            "` to understand requirements.\nDon't assume features aren't implemented—search first.\n\n### 0b. SCRATCHPAD\nStudy `",
        );
        r.append(self.core.scratchpad.as_str());
        r.append(
            "`. It's shared state. It's memory.\n\nTask markers:\n- `[ ]` pending\n- `[x]` done\n- `[~]` cancelled (with reason)\n\n### GUARDRAILS\n",
        );
        r.append(guardrails.as_str());
        r.append("\n\n");
        assert(r@ =~= spec_core_prompt(*self));
        r
    }

    fn workflow_section(&self) -> (r: String)
        ensures
            r@ == spec_workflow_section(*self),
    {
        let mut r = String::from_str(
            "## WORKFLOW\n\n### 1. GAP ANALYSIS\nCompare specs against codebase. Use parallel subagents (up to 10) for searches.\n\n### 2. PLAN\nUpdate `",
        );
        r.append(self.core.scratchpad.as_str());
        r.append(
            "` with prioritized tasks.\n\n### 3. IMPLEMENT\nPick ONE task. Only 1 subagent for build/tests.\n\n### 4. COMMIT\nCapture the why, not just the what. Mark `[x]` in scratchpad.\n\n### 5. REPEAT\nUntil all tasks `[x]` or `[~]`.\n\n",
        );
        assert(r@ =~= spec_workflow_section(*self));
        r
    }

    fn hats_section(&self, topology: &HatTopology) -> (r: String)
        ensures
            r@ == spec_hats_section(*topology),
    {
        let mut r = String::from_str(
            "## HATS\n\nDelegate via events.\n\n| Hat | Triggers On | Publishes |\n|-----|-------------|----------|\n",
        );
        let mut i: usize = 0;
        while i < topology.hats.len()
            invariant
                0 <= i <= topology.hats@.len(),
                r@ == "## HATS\n\nDelegate via events.\n\n| Hat | Triggers On | Publishes |\n|-----|-------------|----------|\n"@
                    + spec_hat_rows(topology.hats@.subrange(0, i as int)),
            decreases topology.hats@.len() - i,
        {
            let ghost prefix = topology.hats@.subrange(0, i as int);
            let hat = &topology.hats[i];
            let subscribes = join_strings(&hat.subscribes_to, ", ");
            let publishes = join_strings(&hat.publishes, ", ");
            r.append("| ");
            r.append(hat.name.as_str());
            r.append(" | ");
            r.append(subscribes.as_str());
            r.append(" | ");
            r.append(publishes.as_str());
            r.append(" |\n");
            proof {
                assert(topology.hats@.subrange(0, i + 1).drop_last() =~= prefix);
                assert(topology.hats@.subrange(0, i + 1).last() == topology.hats@[i as int]);
                assert(r@ =~= "## HATS\n\nDelegate via events.\n\n| Hat | Triggers On | Publishes |\n|-----|-------------|----------|\n"@
                    + spec_hat_rows(topology.hats@.subrange(0, i + 1)));
            }
            i += 1;
        }
        proof {
            assert(topology.hats@.subrange(0, topology.hats@.len() as int) =~= topology.hats@);
        }
        r.append("\n");
        assert(r@ =~= spec_hats_section(*topology));
        r
    }

    fn event_writing_section(&self) -> (r: String)
        ensures
            r@ == spec_event_writing_section(),
    {
        String::from_str(
            "## EVENT WRITING\n\nWrite events to `.agent/events.jsonl` as:\n{\"topic\": \"build.task\", \"payload\": \"...\", \"ts\": \"2026-01-14T12:00:00Z\"}\n\n",
        )
    }

    fn done_section(&self) -> (r: String)
        ensures
            r@ == spec_done_section(*self),
    {
        let mut r = String::from_str("## DONE\n\nOutput ");
        r.append(self.completion_promise.as_str());
        r.append(" when all tasks complete.\n");
        assert(r@ =~= spec_done_section(*self));
        r
    }

    /// Builds Ralph's prompt: the user template with `{scratchpad}`
    /// substituted when one is configured; otherwise identity, workflow,
    /// the hat table when hats are configured, event writing, and the
    /// completion rule.
    pub fn build_prompt(&self, _context: &str) -> (r: String)
        requires
            self.core.guardrails@.len() + 999 <= u64::MAX,
        ensures
            match self.initial_prompt_template {
                Some(t) => r@ == spec_replace_from(
                    t@,
                    "{scratchpad}"@,
                    self.core.scratchpad@,
                    0,
                ),
                None => r@ == spec_hatless_prompt(*self),
            },
    {
        match &self.initial_prompt_template {
            Some(t) => {
                proof {
                    reveal_strlit("{scratchpad}");
                }
                return replace_all(t.as_str(), "{scratchpad}", self.core.scratchpad.as_str());
            },
            None => {},
        }
        let mut prompt = self.core_prompt();
        let workflow = self.workflow_section();
        prompt.append(workflow.as_str());
        match &self.hat_topology {
            Some(topology) => {
                let hats = self.hats_section(topology);
                prompt.append(hats.as_str());
            },
            None => {},
        }
        let writing = self.event_writing_section();
        prompt.append(writing.as_str());
        let done = self.done_section();
        prompt.append(done.as_str());
        assert(prompt@ =~= spec_hatless_prompt(*self));
        prompt
    }

    /// Always true: Ralph handles every event as the fallback.
    pub fn should_handle(&self, _topic: &Topic) -> (r: bool)
        ensures
            r == true,
    {
        true
    }
}

} // verus!
