use arc::codergen::{
    completed_outcome, expand_variables, hook_skipped_outcome, post_hook_failed_note, resolve_hook, simulated_response,
    stage_prompt, thread_id, truncate, StartHandler,
};
use arc::context::{Context, ContextValue, StageStatus};
use arc::graph::{AttrValue, Graph, Node};

#[test]
fn expand_variables_replaces_goal() {
    let mut graph = Graph::new("test");
    graph.set_attr("goal", AttrValue::String("Fix bugs".to_string()));
    let result = expand_variables("Goal is: $goal, do it", &graph);
    assert_eq!(result, "Goal is: Fix bugs, do it");
}

#[test]
fn truncate_short_string() {
    assert_eq!(truncate("hello", 200), "hello");
}

#[test]
fn truncate_long_string() {
    let long = "a".repeat(300);
    assert_eq!(truncate(&long, 200).len(), 200);
}

#[test]
fn resolve_hook_from_node_attr() {
    let mut node = Node::new("step");
    node.attrs.insert(
        "tool_hooks.pre".to_string(),
        AttrValue::String("echo node".to_string()),
    );
    let graph = Graph::new("test");
    assert_eq!(
        resolve_hook(&node, &graph, "tool_hooks.pre"),
        Some("echo node".to_string())
    );
}

#[test]
fn resolve_hook_falls_back_to_graph() {
    let node = Node::new("step");
    let mut graph = Graph::new("test");
    graph.set_attr("tool_hooks.pre", AttrValue::String("echo graph".to_string()));
    assert_eq!(
        resolve_hook(&node, &graph, "tool_hooks.pre"),
        Some("echo graph".to_string())
    );
}

#[test]
fn resolve_hook_none_when_missing() {
    let node = Node::new("step");
    let graph = Graph::new("test");
    assert_eq!(resolve_hook(&node, &graph, "tool_hooks.pre"), None);
}

#[test]
fn stage_prompt_falls_back_to_label_and_expands() {
    let mut graph = Graph::new("test");
    graph.set_attr("goal", AttrValue::String("Build a feature".to_string()));
    let mut node = Node::new("work");
    node.set_attr("label", AttrValue::String("Do $goal".to_string()));
    node.set_attr("prompt", AttrValue::String(String::new()));
    assert_eq!(stage_prompt(&node, &graph), "Do Build a feature");
    let bare = Node::new("plain");
    assert_eq!(stage_prompt(&bare, &graph), "plain");
}

#[test]
fn completed_outcome_records_stage_and_response() {
    let node = Node::new("step");
    let response = simulated_response(&node);
    assert_eq!(response, "[Simulated] Response for stage: step");
    let o = completed_outcome(&node, &response);
    assert_eq!(o.status, StageStatus::Success);
    assert_eq!(o.notes.as_deref(), Some("Stage completed: step"));
    assert_eq!(o.context_updates[0].0, "last_stage");
    assert!(matches!(&o.context_updates[0].1, ContextValue::Text(t) if t == "step"));
    let long = "x".repeat(250);
    let o = completed_outcome(&node, &long);
    assert!(matches!(&o.context_updates[1].1, ContextValue::Text(t) if t.len() == 200));
}

#[test]
fn hook_skip_outcome_mentions_pre_hook() {
    let o = hook_skipped_outcome();
    assert_eq!(o.status, StageStatus::Skipped);
    assert!(o.notes.as_deref().unwrap().contains("pre-hook"));
}

#[test]
fn thread_id_read_from_context() {
    let mut context = Context::new();
    assert_eq!(thread_id(&context), None);
    context.set("internal.thread_id", ContextValue::Text("main".to_string()));
    assert_eq!(thread_id(&context), Some("main".to_string()));
}

#[test]
fn start_handler_returns_success() {
    let handler = StartHandler;
    let node = Node::new("start");
    let context = Context::new();
    let graph = Graph::new("test");
    let outcome = handler.execute(&node, &context, &graph);
    assert_eq!(outcome.status, StageStatus::Success);
}

#[test]
fn truncate_counts_characters_not_bytes() {
    assert_eq!(truncate("\u{e9}\u{e9}\u{e9}", 4), "\u{e9}\u{e9}\u{e9}");
    assert_eq!(truncate("\u{e9}\u{e9}\u{e9}", 2), "\u{e9}\u{e9}");
    assert_eq!(truncate("abc", 0), "");
}

#[test]
fn post_hook_failure_is_logged_in_context() {
    let node = Node::new("build");
    let mut context = Context::new();
    context.set("k", ContextValue::Text("v".to_string()));
    context.append_log(&post_hook_failed_note(&node));
    assert_eq!(context.logs(), vec!["post-hook failed for node build, continuing".to_string()]);
    assert!(matches!(context.get("k"), Some(ContextValue::Text(t)) if t == "v"));
}

#[test]
fn setting_a_key_twice_keeps_one_entry() {
    let mut context = Context::new();
    context.set("k", ContextValue::Text("a".to_string()));
    context.set("k", ContextValue::Text("b".to_string()));
    assert_eq!(context.snapshot().len(), 1);
}

#[test]
fn completed_outcome_keeps_200_characters_of_multibyte_response() {
    let node = Node::new("n");
    let response = "\u{e9}".repeat(300);
    let o = completed_outcome(&node, &response);
    match &o.context_updates[1].1 {
        ContextValue::Text(t) => assert_eq!(t.chars().count(), 200),
        _ => panic!("expected text"),
    }
}
