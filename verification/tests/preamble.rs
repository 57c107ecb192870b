use arc::context::{Context, ContextValue, Outcome, StageStatus};
use arc::graph::{AttrValue, Graph};
use arc::preamble::build_preamble;

// --- truncate mode ---

#[test]
fn build_preamble_truncate_includes_goal_and_run_id() {
    let mut graph = Graph::new("test");
    graph.set_attr("goal",
        AttrValue::String("Fix the login bug".to_string()),
    );
    let mut context = Context::new();
    context.set("run_id", ContextValue::Text("abc-123".to_string()));
    let completed_nodes: Vec<String> = Vec::new();
    let node_outcomes: Vec<(String, Outcome)> = Vec::new();

    let preamble = build_preamble(
        "truncate",
        &context,
        &graph,
        &completed_nodes,
        &node_outcomes,
    );

    assert!(preamble.contains("Fix the login bug"), "should contain the goal");
    assert!(preamble.contains("Run ID:"), "should contain run ID label");
    assert!(preamble.contains("abc-123"), "should contain the run ID value");
}

#[test]
fn build_preamble_truncate_excludes_completed_stages() {
    let mut graph = Graph::new("test");
    graph.set_attr("goal",
        AttrValue::String("Deploy app".to_string()),
    );
    let context = Context::new();
    let completed_nodes = vec!["plan".to_string(), "code".to_string()];
    let mut node_outcomes: Vec<(String, Outcome)> = Vec::new();
    node_outcomes.push(("plan".to_string(), Outcome::success()));
    node_outcomes.push(("code".to_string(), Outcome::success()));

    let preamble = build_preamble(
        "truncate",
        &context,
        &graph,
        &completed_nodes,
        &node_outcomes,
    );

    assert!(!preamble.contains("plan"), "truncate should not list completed stages");
    assert!(!preamble.contains("code"), "truncate should not list completed stages");
}

// --- compact mode ---

#[test]
fn build_preamble_compact_lists_completed_stages() {
    let mut graph = Graph::new("test");
    graph.set_attr("goal",
        AttrValue::String("Deploy app".to_string()),
    );
    let mut context = Context::new();
    context.set("run_id", ContextValue::Text("run-456".to_string()));
    let completed_nodes = vec!["plan".to_string(), "code".to_string()];
    let mut node_outcomes: Vec<(String, Outcome)> = Vec::new();
    node_outcomes.push(("plan".to_string(), Outcome::success()));
    node_outcomes.push(("code".to_string(), Outcome::fail("compilation error")));

    let preamble = build_preamble(
        "compact",
        &context,
        &graph,
        &completed_nodes,
        &node_outcomes,
    );

    assert!(preamble.contains("Deploy app"), "should contain the goal");
    assert!(preamble.contains("plan"), "should list completed stage 'plan'");
    assert!(preamble.contains("success"), "should show plan's success status");
    assert!(preamble.contains("code"), "should list completed stage 'code'");
    assert!(preamble.contains("fail"), "should show code's fail status");
}

#[test]
fn build_preamble_compact_includes_context_values() {
    let graph = Graph::new("test");
    let mut context = Context::new();
    context.set("graph.goal", ContextValue::Text("Build it".to_string()));
    context.set("user.name", ContextValue::Text("alice".to_string()));
    let completed_nodes: Vec<String> = Vec::new();
    let node_outcomes: Vec<(String, Outcome)> = Vec::new();

    let preamble = build_preamble(
        "compact",
        &context,
        &graph,
        &completed_nodes,
        &node_outcomes,
    );

    assert!(preamble.contains("graph.goal"), "should include graph.goal context key");
    assert!(preamble.contains("user.name"), "should include user.name context key");
    assert!(preamble.contains("alice"), "should include context value");
}

#[test]
fn build_preamble_compact_excludes_internal_keys() {
    let graph = Graph::new("test");
    let mut context = Context::new();
    context.set("internal.fidelity", ContextValue::Text("compact".to_string()));
    context.set("internal.retry_count.plan", ContextValue::from_json(&serde_json::Value::from(1)));
    context.set("current_node", ContextValue::Text("work".to_string()));
    context.set("user.name", ContextValue::Text("bob".to_string()));
    let completed_nodes: Vec<String> = Vec::new();
    let node_outcomes: Vec<(String, Outcome)> = Vec::new();

    let preamble = build_preamble(
        "compact",
        &context,
        &graph,
        &completed_nodes,
        &node_outcomes,
    );

    assert!(!preamble.contains("internal.fidelity"), "should exclude internal keys");
    assert!(!preamble.contains("internal.retry_count"), "should exclude internal keys");
    assert!(!preamble.contains("current_node"), "should exclude current keys");
    assert!(preamble.contains("user.name"), "should include non-internal keys");
}

#[test]
fn build_preamble_compact_shows_notes_on_stages() {
    let graph = Graph::new("test");
    let context = Context::new();
    let completed_nodes = vec!["work".to_string()];
    let mut node_outcomes: Vec<(String, Outcome)> = Vec::new();
    let mut outcome = Outcome::success();
    outcome.notes = Some("auto-status: completed".to_string());
    node_outcomes.push(("work".to_string(), outcome));

    let preamble = build_preamble(
        "compact",
        &context,
        &graph,
        &completed_nodes,
        &node_outcomes,
    );

    assert!(preamble.contains("auto-status: completed"), "should include outcome notes");
}

// --- summary:low mode ---

#[test]
fn build_preamble_summary_low_includes_stage_count() {
    let mut graph = Graph::new("test");
    graph.set_attr("goal",
        AttrValue::String("Run tests".to_string()),
    );
    let context = Context::new();
    let completed_nodes = vec!["plan".to_string(), "code".to_string(), "test".to_string()];
    let mut node_outcomes: Vec<(String, Outcome)> = Vec::new();
    node_outcomes.push(("plan".to_string(), Outcome::success()));
    node_outcomes.push(("code".to_string(), Outcome::success()));
    node_outcomes.push(("test".to_string(), Outcome::fail("test failure")));

    let preamble = build_preamble(
        "summary:low",
        &context,
        &graph,
        &completed_nodes,
        &node_outcomes,
    );

    assert!(preamble.contains("Run tests"), "should contain the goal");
    assert!(preamble.contains("3 stage(s)"), "should mention total stage count");
}

#[test]
fn build_preamble_summary_low_shows_only_recent_stages() {
    let graph = Graph::new("test");
    let context = Context::new();
    let completed_nodes = vec![
        "step1".to_string(),
        "step2".to_string(),
        "step3".to_string(),
        "step4".to_string(),
    ];
    let mut node_outcomes: Vec<(String, Outcome)> = Vec::new();
    node_outcomes.push(("step1".to_string(), Outcome::success()));
    node_outcomes.push(("step2".to_string(), Outcome::success()));
    node_outcomes.push(("step3".to_string(), Outcome::success()));
    node_outcomes.push(("step4".to_string(), Outcome::fail("error")));

    let preamble = build_preamble(
        "summary:low",
        &context,
        &graph,
        &completed_nodes,
        &node_outcomes,
    );

    // summary:low shows only 2 recent stages
    assert!(!preamble.contains("step1"), "should omit older stages");
    assert!(!preamble.contains("step2"), "should omit older stages");
    assert!(preamble.contains("step3"), "should show recent stage");
    assert!(preamble.contains("step4"), "should show most recent stage");
    assert!(preamble.contains("omitted"), "should indicate omitted stages");
}

#[test]
fn build_preamble_summary_low_excludes_context_values() {
    let graph = Graph::new("test");
    let mut context = Context::new();
    context.set("user.name", ContextValue::Text("alice".to_string()));
    let completed_nodes: Vec<String> = Vec::new();
    let node_outcomes: Vec<(String, Outcome)> = Vec::new();

    let preamble = build_preamble(
        "summary:low",
        &context,
        &graph,
        &completed_nodes,
        &node_outcomes,
    );

    assert!(!preamble.contains("user.name"), "summary:low should not include context values");
}

// --- summary:medium mode ---

#[test]
fn build_preamble_summary_medium_shows_more_stages_than_low() {
    let graph = Graph::new("test");
    let context = Context::new();
    let completed_nodes = vec![
        "s1".to_string(),
        "s2".to_string(),
        "s3".to_string(),
        "s4".to_string(),
        "s5".to_string(),
        "s6".to_string(),
        "s7".to_string(),
    ];
    let mut node_outcomes: Vec<(String, Outcome)> = Vec::new();
    node_outcomes.push(("s1".to_string(), Outcome::success()));
    node_outcomes.push(("s2".to_string(), Outcome::success()));
    node_outcomes.push(("s3".to_string(), Outcome::success()));
    node_outcomes.push(("s4".to_string(), Outcome::success()));
    node_outcomes.push(("s5".to_string(), Outcome::success()));
    node_outcomes.push(("s6".to_string(), Outcome::success()));
    node_outcomes.push(("s7".to_string(), Outcome::success()));

    let preamble = build_preamble(
        "summary:medium",
        &context,
        &graph,
        &completed_nodes,
        &node_outcomes,
    );

    // summary:medium shows 5 recent stages
    assert!(!preamble.contains("- s1:"), "should omit oldest stages");
    assert!(!preamble.contains("- s2:"), "should omit oldest stages");
    assert!(preamble.contains("s3"), "should show recent stage s3");
    assert!(preamble.contains("s7"), "should show most recent stage s7");
    assert!(preamble.contains("omitted"), "should indicate omitted stages");
}

#[test]
fn build_preamble_summary_medium_includes_context_values() {
    let graph = Graph::new("test");
    let mut context = Context::new();
    context.set("user.name", ContextValue::Text("alice".to_string()));
    let completed_nodes: Vec<String> = Vec::new();
    let node_outcomes: Vec<(String, Outcome)> = Vec::new();

    let preamble = build_preamble(
        "summary:medium",
        &context,
        &graph,
        &completed_nodes,
        &node_outcomes,
    );

    assert!(preamble.contains("user.name"), "summary:medium should include context values");
    assert!(preamble.contains("alice"), "should include context value");
}

#[test]
fn build_preamble_summary_medium_includes_context_updates() {
    let graph = Graph::new("test");
    let context = Context::new();
    let completed_nodes = vec!["work".to_string()];
    let mut node_outcomes: Vec<(String, Outcome)> = Vec::new();
    let mut outcome = Outcome::success();
    outcome.context_updates.push(("result.score".to_string(), ContextValue::from_json(&serde_json::Value::from(95))));
    node_outcomes.push(("work".to_string(), outcome));

    let preamble = build_preamble(
        "summary:medium",
        &context,
        &graph,
        &completed_nodes,
        &node_outcomes,
    );

    assert!(preamble.contains("result.score"), "should include context updates from outcomes");
}

// --- summary:high mode ---

#[test]
fn build_preamble_summary_high_shows_all_stages() {
    let graph = Graph::new("test");
    let context = Context::new();
    let completed_nodes = vec![
        "s1".to_string(),
        "s2".to_string(),
        "s3".to_string(),
        "s4".to_string(),
        "s5".to_string(),
        "s6".to_string(),
    ];
    let mut node_outcomes: Vec<(String, Outcome)> = Vec::new();
    node_outcomes.push(("s1".to_string(), Outcome::success()));
    node_outcomes.push(("s2".to_string(), Outcome::success()));
    node_outcomes.push(("s3".to_string(), Outcome::success()));
    node_outcomes.push(("s4".to_string(), Outcome::success()));
    node_outcomes.push(("s5".to_string(), Outcome::success()));
    node_outcomes.push(("s6".to_string(), Outcome::success()));

    let preamble = build_preamble(
        "summary:high",
        &context,
        &graph,
        &completed_nodes,
        &node_outcomes,
    );

    // summary:high shows ALL stages
    assert!(preamble.contains("s1"), "should show all stages including s1");
    assert!(preamble.contains("s6"), "should show all stages including s6");
    assert!(!preamble.contains("omitted"), "should not omit any stages");
}

#[test]
fn build_preamble_summary_high_includes_failure_reasons() {
    let graph = Graph::new("test");
    let context = Context::new();
    let completed_nodes = vec!["work".to_string()];
    let mut node_outcomes: Vec<(String, Outcome)> = Vec::new();
    node_outcomes.push(("work".to_string(), Outcome::fail("connection timeout")));

    let preamble = build_preamble(
        "summary:high",
        &context,
        &graph,
        &completed_nodes,
        &node_outcomes,
    );

    assert!(preamble.contains("connection timeout"), "should include failure reason");
}

#[test]
fn build_preamble_summary_high_includes_context_values() {
    let graph = Graph::new("test");
    let mut context = Context::new();
    context.set("graph.goal", ContextValue::Text("Build".to_string()));
    let completed_nodes: Vec<String> = Vec::new();
    let node_outcomes: Vec<(String, Outcome)> = Vec::new();

    let preamble = build_preamble(
        "summary:high",
        &context,
        &graph,
        &completed_nodes,
        &node_outcomes,
    );

    assert!(preamble.contains("graph.goal"), "should include context values");
}

// --- unknown fidelity mode ---

#[test]
fn build_preamble_unknown_mode_falls_back_to_compact() {
    let mut graph = Graph::new("test");
    graph.set_attr("goal",
        AttrValue::String("Test fallback".to_string()),
    );
    let context = Context::new();
    let completed_nodes = vec!["step1".to_string()];
    let mut node_outcomes: Vec<(String, Outcome)> = Vec::new();
    node_outcomes.push(("step1".to_string(), Outcome::success()));

    let preamble = build_preamble(
        "unknown_mode",
        &context,
        &graph,
        &completed_nodes,
        &node_outcomes,
    );

    // Should behave like compact: include goal and stages
    assert!(preamble.contains("Test fallback"), "should contain the goal");
    assert!(preamble.contains("step1"), "should list completed stages like compact");
}

// --- empty state ---

#[test]
fn build_preamble_compact_with_no_stages() {
    let graph = Graph::new("test");
    let context = Context::new();
    let completed_nodes: Vec<String> = Vec::new();
    let node_outcomes: Vec<(String, Outcome)> = Vec::new();

    let preamble = build_preamble(
        "compact",
        &context,
        &graph,
        &completed_nodes,
        &node_outcomes,
    );

    assert!(!preamble.contains("Completed stages"), "should not show stages header when empty");
}

#[test]
fn compact_preamble_exact_text() {
    let mut graph = Graph::new("g");
    graph.set_attr("goal", AttrValue::String("Ship".to_string()));
    let mut context = Context::new();
    context.set("run_id", ContextValue::Text("r1".to_string()));
    context.set("zeta", ContextValue::Json("3".to_string()));
    context.set("alpha", ContextValue::Text("x".to_string()));
    context.set("outcome", ContextValue::Text("hidden".to_string()));
    let completed_nodes = vec!["a".to_string(), "b".to_string()];
    let mut outcome = Outcome::fail("boom");
    outcome.notes = Some("n".to_string());
    let node_outcomes = vec![("a".to_string(), outcome)];
    let p = build_preamble("compact", &context, &graph, &completed_nodes, &node_outcomes);
    assert_eq!(
        p,
        "Goal: Ship\nRun ID: r1\n\nCompleted stages:\n- a: fail - n\n- b: completed\n\nContext values:\n- alpha: x\n- zeta: 3\n"
    );
}

#[test]
fn truncate_preamble_exact_text_with_unknown_run() {
    let graph = Graph::new("g");
    let context = Context::new();
    let p = build_preamble("truncate", &context, &graph, &[], &[]);
    assert_eq!(p, "Goal: \nRun ID: unknown\n");
}

#[test]
fn summary_high_lists_sorted_updates() {
    let graph = Graph::new("g");
    let context = Context::new();
    let mut outcome = Outcome::success();
    outcome.context_updates.push(("b.key".to_string(), ContextValue::Text("2".to_string())));
    outcome.context_updates.push(("a.key".to_string(), ContextValue::Json("true".to_string())));
    let node_outcomes = vec![("work".to_string(), outcome)];
    let p = build_preamble("summary:high", &context, &graph, &["work".to_string()], &node_outcomes);
    assert_eq!(
        p,
        "Goal: \nRun ID: unknown\nCompleted 1 stage(s) so far.\n\nRecent stages:\n- work: success\n  - set a.key = true\n  - set b.key = 2\n"
    );
}

#[test]
fn summary_low_omits_all_but_two() {
    let graph = Graph::new("g");
    let context = Context::new();
    let done = vec!["s1".to_string(), "s2".to_string(), "s3".to_string()];
    let p = build_preamble("summary:low", &context, &graph, &done, &[]);
    assert_eq!(
        p,
        "Goal: \nRun ID: unknown\nCompleted 3 stage(s) so far.\n\n(1 earlier stage(s) omitted)\n\nRecent stages:\n- s2: completed\n- s3: completed\n"
    );
}

#[test]
fn context_get_after_set() {
    let mut context = Context::new();
    context.set("k", ContextValue::Text("v1".to_string()));
    context.set("other", ContextValue::Json("1".to_string()));
    context.set("k", ContextValue::Text("v2".to_string()));
    assert_eq!(context.get_string("k", "d"), "v2");
    assert_eq!(context.get_string("other", "d"), "d");
    assert_eq!(context.get_string("missing", "d"), "d");
    assert_eq!(context.snapshot().len(), 2);
    assert_eq!(context.get("other").unwrap().text(), "1");
}

#[test]
fn stage_status_texts() {
    assert_eq!(StageStatus::Success.as_str(), "success");
    assert_eq!(StageStatus::PartialSuccess.as_str(), "partial_success");
    assert_eq!(StageStatus::Fail.as_str(), "fail");
    assert_eq!(Outcome::fail("why").failure_reason.as_deref(), Some("why"));
}

#[test]
fn json_values_become_text_or_json() {
    assert!(matches!(ContextValue::from_json(&serde_json::Value::from("alice")), ContextValue::Text(t) if t == "alice"));
    assert!(matches!(ContextValue::from_json(&serde_json::Value::from(95)), ContextValue::Json(t) if t == "95"));
    assert_eq!(ContextValue::from_json(&serde_json::Value::Bool(true)).text(), "true");
    let list = serde_json::Value::Array(vec![serde_json::Value::from(1), serde_json::Value::from("a")]);
    assert_eq!(ContextValue::from_json(&list).text(), "[1,\"a\"]");
}
