use arc::graph::{AttrValue, Graph, Node};
use arc::transform::{PreambleTransform, Transform, VariableExpansionTransform};

#[test]
fn variable_expansion_replaces_goal() {
    let mut graph = Graph::new("test");
    graph.set_attr("goal", AttrValue::String("Fix bugs".to_string()));

    let mut node = Node::new("plan");
    node.attrs.insert(
        "prompt".to_string(),
        AttrValue::String("Achieve: $goal now".to_string()),
    );
    graph.insert_node(node);

    let transform = VariableExpansionTransform;
    transform.apply(&mut graph);

    let prompt = graph.node("plan").unwrap()
        .attrs
        .get("prompt")
        .and_then(AttrValue::as_str)
        .unwrap();
    assert_eq!(prompt, "Achieve: Fix bugs now");
}

#[test]
fn variable_expansion_no_goal_variable() {
    let mut graph = Graph::new("test");
    graph.set_attr("goal", AttrValue::String("Fix bugs".to_string()));

    let mut node = Node::new("plan");
    node.attrs.insert(
        "prompt".to_string(),
        AttrValue::String("Do something".to_string()),
    );
    graph.insert_node(node);

    let transform = VariableExpansionTransform;
    transform.apply(&mut graph);

    let prompt = graph.node("plan").unwrap()
        .attrs
        .get("prompt")
        .and_then(AttrValue::as_str)
        .unwrap();
    assert_eq!(prompt, "Do something");
}

#[test]
fn variable_expansion_empty_goal() {
    let mut graph = Graph::new("test");
    let mut node = Node::new("plan");
    node.attrs.insert(
        "prompt".to_string(),
        AttrValue::String("Goal: $goal".to_string()),
    );
    graph.insert_node(node);

    let transform = VariableExpansionTransform;
    transform.apply(&mut graph);

    let prompt = graph.node("plan").unwrap()
        .attrs
        .get("prompt")
        .and_then(AttrValue::as_str)
        .unwrap();
    assert_eq!(prompt, "Goal: ");
}

#[test]
fn variable_expansion_no_prompt() {
    let mut graph = Graph::new("test");
    graph.set_attr("goal", AttrValue::String("Fix bugs".to_string()));
    let node = Node::new("plan");
    graph.insert_node(node);

    let transform = VariableExpansionTransform;
    // Should not panic
    transform.apply(&mut graph);
    assert!(graph.node("plan").unwrap().attrs.get("prompt").is_none());
}

#[test]
fn preamble_transform_prepends_for_non_full_fidelity() {
    let mut graph = Graph::new("test");
    let mut node = Node::new("work");
    node.attrs.insert(
        "fidelity".to_string(),
        AttrValue::String("truncate".to_string()),
    );
    node.attrs.insert(
        "prompt".to_string(),
        AttrValue::String("Do the thing".to_string()),
    );
    graph.insert_node(node);

    PreambleTransform.apply(&mut graph);

    let prompt = graph.node("work").unwrap()
        .attrs
        .get("prompt")
        .and_then(AttrValue::as_str)
        .unwrap();
    assert_eq!(prompt, "[Context mode: truncate]\nDo the thing");
}

#[test]
fn preamble_transform_skips_full_fidelity() {
    let mut graph = Graph::new("test");
    let mut node = Node::new("work");
    node.attrs.insert(
        "fidelity".to_string(),
        AttrValue::String("full".to_string()),
    );
    node.attrs.insert(
        "prompt".to_string(),
        AttrValue::String("Do the thing".to_string()),
    );
    graph.insert_node(node);

    PreambleTransform.apply(&mut graph);

    let prompt = graph.node("work").unwrap()
        .attrs
        .get("prompt")
        .and_then(AttrValue::as_str)
        .unwrap();
    assert_eq!(prompt, "Do the thing");
}

#[test]
fn preamble_transform_uses_graph_default_fidelity() {
    let mut graph = Graph::new("test");
    graph.set_attr("default_fidelity",
        AttrValue::String("compact".to_string()),
    );
    let mut node = Node::new("work");
    node.attrs.insert(
        "prompt".to_string(),
        AttrValue::String("Do the thing".to_string()),
    );
    graph.insert_node(node);

    PreambleTransform.apply(&mut graph);

    let prompt = graph.node("work").unwrap()
        .attrs
        .get("prompt")
        .and_then(AttrValue::as_str)
        .unwrap();
    assert_eq!(prompt, "[Context mode: compact]\nDo the thing");
}

#[test]
fn preamble_transform_no_prompt_skips() {
    let mut graph = Graph::new("test");
    let mut node = Node::new("work");
    node.attrs.insert(
        "fidelity".to_string(),
        AttrValue::String("truncate".to_string()),
    );
    graph.insert_node(node);

    PreambleTransform.apply(&mut graph);

    assert!(graph.node("work").unwrap().attrs.get("prompt").is_none());
}

#[test]
fn variable_expansion_replaces_every_occurrence() {
    let mut graph = Graph::new("test");
    graph.set_attr("goal", AttrValue::String("G".to_string()));
    let mut node = Node::new("n");
    node.set_attr("prompt", AttrValue::String("$goal and $goal".to_string()));
    graph.insert_node(node);
    VariableExpansionTransform.apply(&mut graph);
    assert_eq!(graph.node("n").unwrap().prompt(), Some("G and G"));
}

#[test]
fn preamble_transform_leaves_non_text_prompt() {
    let mut graph = Graph::new("test");
    let mut node = Node::new("n");
    node.set_attr("fidelity", AttrValue::String("compact".to_string()));
    node.set_attr("prompt", AttrValue::Integer(7));
    graph.insert_node(node);
    PreambleTransform.apply(&mut graph);
    assert!(matches!(graph.node("n").unwrap().attrs.get("prompt"), Some(AttrValue::Integer(7))));
}

#[test]
fn preamble_transform_node_fidelity_overrides_default() {
    let mut graph = Graph::new("test");
    graph.set_attr("default_fidelity", AttrValue::String("compact".to_string()));
    let mut node = Node::new("n");
    node.set_attr("fidelity", AttrValue::String("full".to_string()));
    node.set_attr("prompt", AttrValue::String("P".to_string()));
    graph.insert_node(node);
    PreambleTransform.apply(&mut graph);
    assert_eq!(graph.node("n").unwrap().prompt(), Some("P"));
}

#[test]
fn variable_expansion_replaces_goal_in_prompts() {
    let mut graph = Graph::new("test");
    graph.set_attr("goal", AttrValue::String("Fix all bugs".to_string()));

    let mut plan_node = Node::new("plan");
    plan_node.attrs.insert(
        "prompt".to_string(),
        AttrValue::String("Plan to achieve: $goal".to_string()),
    );
    graph.insert_node(plan_node);

    let mut impl_node = Node::new("implement");
    impl_node.attrs.insert(
        "prompt".to_string(),
        AttrValue::String("Implement $goal now".to_string()),
    );
    graph.insert_node(impl_node);

    let mut no_var_node = Node::new("report");
    no_var_node.attrs.insert(
        "prompt".to_string(),
        AttrValue::String("Generate a report".to_string()),
    );
    graph.insert_node(no_var_node);

    let transform = VariableExpansionTransform;
    transform.apply(&mut graph);

    let plan_prompt = graph.node("plan").unwrap()
        .attrs
        .get("prompt")
        .and_then(AttrValue::as_str)
        .expect("plan prompt should exist");
    assert_eq!(plan_prompt, "Plan to achieve: Fix all bugs");

    let impl_prompt = graph.node("implement").unwrap()
        .attrs
        .get("prompt")
        .and_then(AttrValue::as_str)
        .expect("implement prompt should exist");
    assert_eq!(impl_prompt, "Implement Fix all bugs now");

    let report_prompt = graph.node("report").unwrap()
        .attrs
        .get("prompt")
        .and_then(AttrValue::as_str)
        .expect("report prompt should exist");
    assert_eq!(report_prompt, "Generate a report");
}
