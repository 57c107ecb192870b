use vstd::prelude::*;

use crate::text::concat2;

verus! {

// Top-level context keys.
pub const CURRENT_NODE: &'static str = "current_node";
pub const OUTCOME: &'static str = "outcome";
pub const FAILURE_CLASS: &'static str = "failure_class";
pub const FAILURE_SIGNATURE: &'static str = "failure_signature";
pub const PREFERRED_LABEL: &'static str = "preferred_label";
pub const LAST_STAGE: &'static str = "last_stage";
pub const LAST_RESPONSE: &'static str = "last_response";

// `graph.*` keys.
pub const GRAPH_GOAL: &'static str = "graph.goal";

// `internal.*` keys.
pub const INTERNAL_RUN_ID: &'static str = "internal.run_id";
pub const INTERNAL_WORK_DIR: &'static str = "internal.work_dir";
pub const INTERNAL_FIDELITY: &'static str = "internal.fidelity";
pub const INTERNAL_THREAD_ID: &'static str = "internal.thread_id";
pub const INTERNAL_NODE_VISIT_COUNT: &'static str = "internal.node_visit_count";

// `current.*` keys.
pub const CURRENT_PREAMBLE: &'static str = "current.preamble";

// `command.*` keys.
pub const COMMAND_OUTPUT: &'static str = "command.output";
pub const COMMAND_STDERR: &'static str = "command.stderr";

// `human.gate.*` keys.
pub const HUMAN_GATE_SELECTED: &'static str = "human.gate.selected";
pub const HUMAN_GATE_LABEL: &'static str = "human.gate.label";
pub const HUMAN_GATE_TEXT: &'static str = "human.gate.text";

// `parallel.*` keys.
pub const PARALLEL_RESULTS: &'static str = "parallel.results";
pub const PARALLEL_BRANCH_COUNT: &'static str = "parallel.branch_count";
pub const PARALLEL_FAN_IN_BEST_ID: &'static str = "parallel.fan_in.best_id";
pub const PARALLEL_FAN_IN_BEST_OUTCOME: &'static str = "parallel.fan_in.best_outcome";
pub const PARALLEL_FAN_IN_BEST_HEAD_SHA: &'static str = "parallel.fan_in.best_head_sha";

// Prefixes, for filtering and for building keys.
pub const GRAPH_PREFIX: &'static str = "graph.";
pub const INTERNAL_PREFIX: &'static str = "internal.";
pub const CURRENT_PREFIX: &'static str = "current";
pub const THREAD_PREFIX: &'static str = "thread.";
pub const RESPONSE_PREFIX: &'static str = "response.";
pub const INTERNAL_RETRY_COUNT_PREFIX: &'static str = "internal.retry_count.";

/// The key under which a node's response is kept: `response.<node_id>`.
pub fn response_key(node_id: &str) -> (k: String)
    ensures
        k@ == RESPONSE_PREFIX@ + node_id@,
{
    concat2(RESPONSE_PREFIX, node_id)
}

/// The key of a thread's current node: `thread.<thread_id>.current_node`.
pub fn thread_current_node_key(thread_id: &str) -> (k: String)
    ensures
        k@ == THREAD_PREFIX@ + thread_id@ + ".current_node"@,
{
    crate::text::concat3(THREAD_PREFIX, thread_id, ".current_node")
}

/// The key of a graph attribute: `graph.<attr>`.
pub fn graph_attr_key(attr: &str) -> (k: String)
    ensures
        k@ == GRAPH_PREFIX@ + attr@,
{
    concat2(GRAPH_PREFIX, attr)
}

/// The key of a node's retry count: `internal.retry_count.<node_id>`.
pub fn retry_count_key(node_id: &str) -> (k: String)
    ensures
        k@ == INTERNAL_RETRY_COUNT_PREFIX@ + node_id@,
{
    concat2(INTERNAL_RETRY_COUNT_PREFIX, node_id)
}

} // verus!
