use arc::keys::{graph_attr_key, response_key, retry_count_key, thread_current_node_key, GRAPH_GOAL};

#[test]
fn response_key_formats_correctly() {
    assert_eq!(response_key("plan"), "response.plan");
}

#[test]
fn thread_current_node_key_formats_correctly() {
    assert_eq!(thread_current_node_key("main"), "thread.main.current_node");
}

#[test]
fn graph_attr_key_formats_correctly() {
    assert_eq!(graph_attr_key("goal"), "graph.goal");
}

#[test]
fn retry_count_key_formats_correctly() {
    assert_eq!(retry_count_key("plan"), "internal.retry_count.plan");
}

#[test]
fn graph_goal_key_is_graph_attr_key_of_goal() {
    assert_eq!(graph_attr_key("goal"), GRAPH_GOAL);
}
