use arc::graph::{AttrValue, Edge, Graph, Node};
use arc::validation::{
    built_in_rules, ConditionSyntaxRule, EdgeTargetExistsRule, ExitNoOutgoingRule, FidelityValidRule,
    FreeformEdgeCountRule, GoalGateHasRetryRule, LintRule, PromptOnLlmNodesRule, ReachabilityRule,
    RetryTargetExistsRule, Severity, StartNoIncomingRule, StartNodeRule, StylesheetSyntaxRule,
    TerminalNodeRule, TypeKnownRule,
};

fn minimal_graph() -> Graph {
    let mut g = Graph::new("test");
    let mut start = Node::new("start");
    start
        .attrs
        .insert("shape".to_string(), AttrValue::String("Mdiamond".to_string()));
    g.insert_node(start);

    let mut exit = Node::new("exit");
    exit.attrs
        .insert("shape".to_string(), AttrValue::String("Msquare".to_string()));
    g.insert_node(exit);

    g.push_edge(Edge::new("start", "exit"));
    g
}

// start_node rule tests

#[test]
fn start_node_rule_no_start() {
    let g = Graph::new("test");
    let rule = StartNodeRule;
    let d = rule.apply(&g);
    assert_eq!(d.len(), 1);
    assert_eq!(d[0].severity, Severity::Error);
}

#[test]
fn start_node_rule_two_starts() {
    let mut g = Graph::new("test");
    let mut s1 = Node::new("s1");
    s1.attrs
        .insert("shape".to_string(), AttrValue::String("Mdiamond".to_string()));
    let mut s2 = Node::new("s2");
    s2.attrs
        .insert("shape".to_string(), AttrValue::String("Mdiamond".to_string()));
    g.insert_node(s1);
    g.insert_node(s2);
    let rule = StartNodeRule;
    let d = rule.apply(&g);
    assert_eq!(d.len(), 1);
    assert_eq!(d[0].severity, Severity::Error);
}

#[test]
fn start_node_rule_one_start() {
    let g = minimal_graph();
    let rule = StartNodeRule;
    let d = rule.apply(&g);
    assert!(d.is_empty());
}

#[test]
fn start_node_rule_by_id() {
    let mut g = Graph::new("test");
    // Node with id "start" but no Mdiamond shape
    let node = Node::new("start");
    g.insert_node(node);
    let rule = StartNodeRule;
    let d = rule.apply(&g);
    assert!(d.is_empty());
}

#[test]
fn start_node_rule_by_capitalized_id() {
    let mut g = Graph::new("test");
    let node = Node::new("Start");
    g.insert_node(node);
    let rule = StartNodeRule;
    let d = rule.apply(&g);
    assert!(d.is_empty());
}

// terminal_node rule tests

#[test]
fn terminal_node_rule_no_terminal() {
    let mut g = Graph::new("test");
    let mut start = Node::new("start");
    start
        .attrs
        .insert("shape".to_string(), AttrValue::String("Mdiamond".to_string()));
    g.insert_node(start);
    let rule = TerminalNodeRule;
    let d = rule.apply(&g);
    assert_eq!(d.len(), 1);
    assert_eq!(d[0].severity, Severity::Error);
}

#[test]
fn terminal_node_rule_with_terminal() {
    let g = minimal_graph();
    let rule = TerminalNodeRule;
    let d = rule.apply(&g);
    assert!(d.is_empty());
}

#[test]
fn terminal_node_rule_by_exit_id() {
    let mut g = Graph::new("test");
    // Node with id "exit" but no Msquare shape
    let node = Node::new("exit");
    g.insert_node(node);
    let rule = TerminalNodeRule;
    let d = rule.apply(&g);
    assert!(d.is_empty());
}

#[test]
fn terminal_node_rule_by_end_id() {
    let mut g = Graph::new("test");
    let node = Node::new("end");
    g.insert_node(node);
    let rule = TerminalNodeRule;
    let d = rule.apply(&g);
    assert!(d.is_empty());
}

#[test]
fn terminal_node_rule_by_capitalized_end_id() {
    let mut g = Graph::new("test");
    let node = Node::new("End");
    g.insert_node(node);
    let rule = TerminalNodeRule;
    let d = rule.apply(&g);
    assert!(d.is_empty());
}

// reachability rule tests

#[test]
fn reachability_rule_unreachable_node() {
    let mut g = minimal_graph();
    g.insert_node(Node::new("orphan"));
    let rule = ReachabilityRule;
    let d = rule.apply(&g);
    assert_eq!(d.len(), 1);
    assert_eq!(d[0].node_id, Some("orphan".to_string()));
}

#[test]
fn reachability_rule_all_reachable() {
    let g = minimal_graph();
    let rule = ReachabilityRule;
    let d = rule.apply(&g);
    assert!(d.is_empty());
}

// edge_target_exists rule tests

#[test]
fn edge_target_exists_rule_missing_target() {
    let mut g = minimal_graph();
    g.push_edge(Edge::new("start", "nonexistent"));
    let rule = EdgeTargetExistsRule;
    let d = rule.apply(&g);
    assert_eq!(d.len(), 1);
    assert_eq!(d[0].severity, Severity::Error);
}

#[test]
fn edge_target_exists_rule_valid() {
    let g = minimal_graph();
    let rule = EdgeTargetExistsRule;
    let d = rule.apply(&g);
    assert!(d.is_empty());
}

// start_no_incoming rule tests

#[test]
fn start_no_incoming_rule_with_incoming() {
    let mut g = minimal_graph();
    g.push_edge(Edge::new("exit", "start"));
    let rule = StartNoIncomingRule;
    let d = rule.apply(&g);
    assert_eq!(d.len(), 1);
    assert_eq!(d[0].severity, Severity::Error);
}

#[test]
fn start_no_incoming_rule_clean() {
    let g = minimal_graph();
    let rule = StartNoIncomingRule;
    let d = rule.apply(&g);
    assert!(d.is_empty());
}

// exit_no_outgoing rule tests

#[test]
fn exit_no_outgoing_rule_with_outgoing() {
    let mut g = minimal_graph();
    g.push_edge(Edge::new("exit", "start"));
    let rule = ExitNoOutgoingRule;
    let d = rule.apply(&g);
    assert_eq!(d.len(), 1);
    assert_eq!(d[0].severity, Severity::Error);
}

#[test]
fn exit_no_outgoing_rule_clean() {
    let g = minimal_graph();
    let rule = ExitNoOutgoingRule;
    let d = rule.apply(&g);
    assert!(d.is_empty());
}

// type_known rule tests

#[test]
fn type_known_rule_unknown_type() {
    let mut g = minimal_graph();
    let mut node = Node::new("custom");
    node.attrs.insert(
        "type".to_string(),
        AttrValue::String("unknown_type".to_string()),
    );
    g.insert_node(node);
    let rule = TypeKnownRule;
    let d = rule.apply(&g);
    assert_eq!(d.len(), 1);
    assert_eq!(d[0].severity, Severity::Warning);
}

#[test]
fn type_known_rule_known_type() {
    let mut g = minimal_graph();
    let mut node = Node::new("gate");
    node.attrs.insert(
        "type".to_string(),
        AttrValue::String("wait.human".to_string()),
    );
    g.insert_node(node);
    let rule = TypeKnownRule;
    let d = rule.apply(&g);
    assert!(d.is_empty());
}

// fidelity_valid rule tests

#[test]
fn fidelity_valid_rule_invalid_mode() {
    let mut g = minimal_graph();
    let mut node = Node::new("work");
    node.attrs.insert(
        "fidelity".to_string(),
        AttrValue::String("invalid_mode".to_string()),
    );
    g.insert_node(node);
    let rule = FidelityValidRule;
    let d = rule.apply(&g);
    assert_eq!(d.len(), 1);
    assert_eq!(d[0].severity, Severity::Warning);
}

#[test]
fn fidelity_valid_rule_valid_mode() {
    let mut g = minimal_graph();
    let mut node = Node::new("work");
    node.attrs.insert(
        "fidelity".to_string(),
        AttrValue::String("full".to_string()),
    );
    g.insert_node(node);
    let rule = FidelityValidRule;
    let d = rule.apply(&g);
    assert!(d.is_empty());
}

// freeform_edge_count rule tests

#[test]
fn freeform_edge_count_rule_two_freeform() {
    let mut g = minimal_graph();
    let mut gate = Node::new("gate");
    gate.attrs.insert(
        "shape".to_string(),
        AttrValue::String("hexagon".to_string()),
    );
    g.insert_node(gate);
    g.insert_node(Node::new("a"));
    g.insert_node(Node::new("b"));

    let mut e1 = Edge::new("gate", "a");
    e1.attrs
        .insert("freeform".to_string(), AttrValue::Boolean(true));
    let mut e2 = Edge::new("gate", "b");
    e2.attrs
        .insert("freeform".to_string(), AttrValue::Boolean(true));
    g.push_edge(e1);
    g.push_edge(e2);

    let rule = FreeformEdgeCountRule;
    let d = rule.apply(&g);
    assert_eq!(d.len(), 1);
    assert_eq!(d[0].severity, Severity::Error);
}

#[test]
fn freeform_edge_count_rule_one_freeform() {
    let mut g = minimal_graph();
    let mut gate = Node::new("gate");
    gate.attrs.insert(
        "shape".to_string(),
        AttrValue::String("hexagon".to_string()),
    );
    g.insert_node(gate);
    g.insert_node(Node::new("a"));

    let mut e1 = Edge::new("gate", "a");
    e1.attrs
        .insert("freeform".to_string(), AttrValue::Boolean(true));
    g.push_edge(e1);

    let rule = FreeformEdgeCountRule;
    let d = rule.apply(&g);
    assert!(d.is_empty());
}

// goal_gate_has_retry rule tests

#[test]
fn goal_gate_has_retry_rule_no_retry() {
    let mut g = minimal_graph();
    let mut node = Node::new("work");
    node.attrs
        .insert("goal_gate".to_string(), AttrValue::Boolean(true));
    g.insert_node(node);
    let rule = GoalGateHasRetryRule;
    let d = rule.apply(&g);
    assert_eq!(d.len(), 1);
    assert_eq!(d[0].severity, Severity::Warning);
}

#[test]
fn goal_gate_has_retry_rule_with_retry() {
    let mut g = minimal_graph();
    let mut node = Node::new("work");
    node.attrs
        .insert("goal_gate".to_string(), AttrValue::Boolean(true));
    node.attrs.insert(
        "retry_target".to_string(),
        AttrValue::String("start".to_string()),
    );
    g.insert_node(node);
    let rule = GoalGateHasRetryRule;
    let d = rule.apply(&g);
    assert!(d.is_empty());
}

// prompt_on_llm_nodes rule tests

#[test]
fn prompt_on_llm_nodes_rule_no_prompt_no_label() {
    let mut g = minimal_graph();
    let node = Node::new("work");
    g.insert_node(node);
    let rule = PromptOnLlmNodesRule;
    let d = rule.apply(&g);
    assert_eq!(d.len(), 1);
    assert_eq!(d[0].severity, Severity::Warning);
}

#[test]
fn prompt_on_llm_nodes_rule_with_prompt() {
    let mut g = minimal_graph();
    let mut node = Node::new("work");
    node.attrs.insert(
        "prompt".to_string(),
        AttrValue::String("Do the thing".to_string()),
    );
    g.insert_node(node);
    let rule = PromptOnLlmNodesRule;
    let d = rule.apply(&g);
    assert!(d.is_empty());
}

// condition_syntax rule tests

#[test]
fn condition_syntax_rule_valid_condition() {
    let mut g = minimal_graph();
    let mut edge = Edge::new("start", "exit");
    edge.attrs.insert(
        "condition".to_string(),
        AttrValue::String("outcome=success".to_string()),
    );
    g.set_edges(vec![edge]);
    let rule = ConditionSyntaxRule;
    let d = rule.apply(&g);
    assert!(d.is_empty());
}

// stylesheet_syntax rule tests

#[test]
fn stylesheet_syntax_rule_unbalanced() {
    let mut g = minimal_graph();
    g.set_attr("model_stylesheet",
        AttrValue::String("* { llm_model: foo;".to_string()),
    );
    let rule = StylesheetSyntaxRule;
    let d = rule.apply(&g);
    assert_eq!(d.len(), 1);
    assert_eq!(d[0].severity, Severity::Error);
}

#[test]
fn stylesheet_syntax_rule_balanced() {
    let mut g = minimal_graph();
    g.set_attr("model_stylesheet",
        AttrValue::String("* { llm_model: foo; }".to_string()),
    );
    let rule = StylesheetSyntaxRule;
    let d = rule.apply(&g);
    assert!(d.is_empty());
}

// retry_target_exists rule tests

#[test]
fn retry_target_exists_rule_missing() {
    let mut g = minimal_graph();
    let mut node = Node::new("work");
    node.attrs.insert(
        "retry_target".to_string(),
        AttrValue::String("nonexistent".to_string()),
    );
    g.insert_node(node);
    let rule = RetryTargetExistsRule;
    let d = rule.apply(&g);
    assert_eq!(d.len(), 1);
    assert_eq!(d[0].severity, Severity::Warning);
}

#[test]
fn retry_target_exists_rule_valid() {
    let mut g = minimal_graph();
    let mut node = Node::new("work");
    node.attrs.insert(
        "retry_target".to_string(),
        AttrValue::String("start".to_string()),
    );
    g.insert_node(node);
    let rule = RetryTargetExistsRule;
    let d = rule.apply(&g);
    assert!(d.is_empty());
}

// built_in_rules tests

#[test]
fn built_in_rules_returns_14_rules() {
    let rules = built_in_rules();
    assert_eq!(rules.len(), 14);
}

#[test]
fn reachability_lists_unreachable_in_order() {
    let mut g = minimal_graph();
    g.insert_node(Node::new("zeta"));
    g.insert_node(Node::new("alpha"));
    let d = ReachabilityRule.apply(&g);
    assert_eq!(d.len(), 2);
    assert_eq!(d[0].node_id, Some("alpha".to_string()));
    assert_eq!(d[1].node_id, Some("zeta".to_string()));
}

#[test]
fn stylesheet_syntax_message_counts_braces() {
    let mut g = minimal_graph();
    g.set_attr("model_stylesheet", AttrValue::String("a { b { c }".to_string()));
    let d = StylesheetSyntaxRule.apply(&g);
    assert_eq!(d.len(), 1);
    assert_eq!(d[0].message, "Model stylesheet has unbalanced braces (2 open, 1 close)");
    assert_eq!(d[0].rule, "stylesheet_syntax");
}

#[test]
fn built_in_rule_names_are_distinct() {
    let rules = built_in_rules();
    for i in 0..rules.len() {
        for j in (i + 1)..rules.len() {
            assert_ne!(rules[i].name(), rules[j].name());
        }
    }
}
