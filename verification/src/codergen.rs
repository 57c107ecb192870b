use vstd::prelude::*;

use crate::context::{entry_views, lookup, Context, ContextValue, Outcome, OutcomeView, StageStatus, ValueView};
use crate::graph::{Graph, Node};
use crate::text::{append_str, chars_of, concat2, owned, replace_all, replace_str, string_from_chars, string_from_range};

verus! {

/// What a language-model backend gives back for a stage: the response text,
/// or a complete outcome that the stage returns as it is.
pub enum CodergenResult {
    Text(String),
    Full(Outcome),
}

/// `text` with every `$goal` replaced by the graph goal.
pub fn expand_variables(text: &str, graph: &Graph) -> (r: String)
    ensures
        r@ == replace_all(text@, "$goal"@, graph.goal_spec()),
{
    proof {
        reveal_strlit("$goal");
    }
    replace_str(text, "$goal", graph.goal())
}

/// The first `n` characters of `s`, or all of `s` when it has no more.
pub open spec fn char_prefix(s: Seq<char>, n: nat) -> Seq<char> {
    if s.len() <= n {
        s
    } else {
        s.take(n as int)
    }
}

/// `s` cut to at most `max_chars` characters.
pub fn truncate(s: &str, max_chars: usize) -> (r: String)
    ensures
        r@ == char_prefix(s@, max_chars as nat),
{
    let cs = chars_of(s);
    if cs.len() <= max_chars {
        string_from_chars(&cs)
    } else {
        let r = string_from_range(&cs, 0, max_chars);
        assert(cs@.subrange(0, max_chars as int) =~= s@.take(max_chars as int));
        r
    }
}

/// The command of a tool hook: the node's attribute `key`, else the graph's.
pub open spec fn hook_command(node: Node, graph: Graph, key: Seq<char>) -> Option<Seq<char>> {
    match node.attrs.str_spec(key) {
        Some(c) => Some(c),
        None => graph.attrs_spec().str_spec(key),
    }
}

/// The command of the tool hook `key`: the node's own, else the graph's.
pub fn resolve_hook(node: &Node, graph: &Graph, key: &str) -> (r: Option<String>)
    ensures
        match hook_command(*node, *graph, key@) {
            Some(c) => r matches Some(s) && s@ == c,
            None => r is None,
        },
{
    match node.attrs.get_str(key) {
        Some(c) => Some(owned(c)),
        None => match graph.attrs().get_str(key) {
            Some(c) => Some(owned(c)),
            None => None,
        },
    }
}

/// The prompt text of a stage before expansion: its non-empty `prompt`,
/// else its label.
pub open spec fn raw_prompt(node: Node) -> Seq<char> {
    match node.attrs.str_spec("prompt"@) {
        Some(p) => if p.len() > 0 {
            p
        } else {
            node_label(node)
        },
        None => node_label(node),
    }
}

pub open spec fn node_label(node: Node) -> Seq<char> {
    match node.attrs.str_spec("label"@) {
        Some(l) => l,
        None => node.id@,
    }
}

/// The prompt of a stage: its non-empty `prompt` attribute, else its label,
/// with `$goal` expanded.
pub fn stage_prompt(node: &Node, graph: &Graph) -> (r: String)
    ensures
        r@ == replace_all(raw_prompt(*node), "$goal"@, graph.goal_spec()),
{
    let raw = match node.prompt() {
        Some(p) => if p.is_empty() {
            node.label()
        } else {
            p
        },
        None => node.label(),
    };
    expand_variables(raw, graph)
}

/// The response of a stage that runs without a backend.
pub fn simulated_response(node: &Node) -> (r: String)
    ensures
        r@ == "[Simulated] Response for stage: "@ + node.id@,
{
    concat2("[Simulated] Response for stage: ", node.id.as_str())
}

/// The thread a stage runs in, when the context names one.
pub fn thread_id(context: &Context) -> (r: Option<String>)
    ensures
        match lookup(context@, "internal.thread_id"@) {
            Some(ValueView::Text(t)) => r matches Some(s) && s@ == t,
            _ => r is None,
        },
{
    match context.get("internal.thread_id") {
        Some(ContextValue::Text(t)) => Some(owned(t.as_str())),
        _ => None,
    }
}

/// The outcome of a stage whose pre-hook failed: skipped, with a note.
pub fn hook_skipped_outcome() -> (o: Outcome)
    ensures
        o@.status == StageStatus::Skipped,
        o@.notes == Some("pre-hook returned non-zero, tool call skipped"@),
        o@.failure_reason is None,
        o@.context_updates.len() == 0,
        o@.suggested_next_ids.len() == 0,
        o@.preferred_label is None,
{
    let mut o = Outcome::skipped();
    o.notes = Some(owned("pre-hook returned non-zero, tool call skipped"));
    o
}

/// The log line of a stage whose post-hook failed; the stage goes on.
pub fn post_hook_failed_note(node: &Node) -> (r: String)
    ensures
        r@ == "post-hook failed for node "@ + node.id@ + ", continuing"@,
{
    let mut r = concat2("post-hook failed for node ", node.id.as_str());
    append_str(&mut r, ", continuing");
    r
}

/// The outcome of a stage that ran: success, a note naming the stage, and
/// the stage id and the first 200 characters of the response as context
/// updates.
pub fn completed_outcome(node: &Node, response: &str) -> (o: Outcome)
    ensures
        o@.status == StageStatus::Success,
        o@.notes == Some("Stage completed: "@ + node.id@),
        o@.failure_reason is None,
        o@.preferred_label is None,
        o@.suggested_next_ids.len() == 0,
        o@.context_updates.len() == 2,
        o@.context_updates[0] == ("last_stage"@, ValueView::Text(node.id@)),
        o@.context_updates[1].0 == "last_response"@,
        o@.context_updates[1].1 == ValueView::Text(char_prefix(response@, 200)),
{
    let mut o = Outcome::success();
    o.notes = Some(concat2("Stage completed: ", node.id.as_str()));
    let head = truncate(response, 200);
    let ghost u0 = o.context_updates@;
    assert(u0.len() == 0) by {
        assert(entry_views(u0).len() == 0);
    }
    o.context_updates.push((owned("last_stage"), ContextValue::Text(owned(node.id.as_str()))));
    o.context_updates.push((owned("last_response"), ContextValue::Text(head)));
    assert(o.context_updates@.len() == 2);
    assert(o@.context_updates =~= seq![
        ("last_stage"@, ValueView::Text(node.id@)),
        ("last_response"@, ValueView::Text(head@)),
    ]);
    o
}

/// The handler of a pipeline's entry point: it does nothing and succeeds.
pub struct StartHandler;

impl StartHandler {
    /// The outcome of the entry point: success, with nothing else set.
    pub fn execute(&self, node: &Node, context: &Context, graph: &Graph) -> (o: Outcome)
        ensures
            o@ == (OutcomeView {
                status: StageStatus::Success,
                preferred_label: None,
                suggested_next_ids: Seq::empty(),
                context_updates: Seq::empty(),
                notes: None,
                failure_reason: None,
            }),
    {
        Outcome::success()
    }
}

} // verus!
