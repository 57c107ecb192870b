use vstd::prelude::*;

use crate::graph::{AttrValue, Graph, Node};
use crate::text::{concat4, contains_seq, owned, replace_all, replace_str, str_contains, str_eq};

verus! {

/// A change made to the pipeline graph after parsing and before validation.
pub trait Transform {
    fn apply(&self, graph: &mut Graph);
}

/// The other parts of the graph stay as they were, and so does every
/// node's id and every attribute but `prompt`.
pub open spec fn only_prompts_change(g0: Graph, g1: Graph) -> bool {
    &&& g1.name_spec() == g0.name_spec()
    &&& g1.edges_spec() == g0.edges_spec()
    &&& g1.attrs_spec() == g0.attrs_spec()
    &&& g1.nodes_spec().len() == g0.nodes_spec().len()
    &&& forall|i: int|
        0 <= i < g0.nodes_spec().len() ==> #[trigger] g1.nodes_spec()[i].id == g0.nodes_spec()[i].id
    &&& forall|i: int, k: Seq<char>|
        0 <= i < g0.nodes_spec().len() && k != "prompt"@ ==> #[trigger] g1.nodes_spec()[i].attrs.get_spec(k)
            == g0.nodes_spec()[i].attrs.get_spec(k)
}

/// The prompt of a node after `$goal` is expanded: a string prompt that
/// mentions `$goal` gets every occurrence replaced by the goal; any other
/// prompt stays as it was.
pub open spec fn goal_expanded(n0: Node, n1: Node, goal: Seq<char>) -> bool {
    match n0.attrs.get_spec("prompt"@) {
        Some(AttrValue::String(p)) => if contains_seq(p@, "$goal"@) {
            n1.attrs.str_spec("prompt"@) == Some(replace_all(p@, "$goal"@, goal))
        } else {
            n1.attrs.get_spec("prompt"@) == n0.attrs.get_spec("prompt"@)
        },
        _ => n1.attrs.get_spec("prompt"@) == n0.attrs.get_spec("prompt"@),
    }
}

/// The fidelity mode of a node: its own, else the graph default, else `full`.
pub open spec fn node_fidelity(n: Node, default: Option<Seq<char>>) -> Seq<char> {
    match n.attrs.str_spec("fidelity"@) {
        Some(f) => f,
        None => match default {
            Some(d) => d,
            None => "full"@,
        },
    }
}

/// The prompt of a node after the fidelity mode is announced: a string
/// prompt of a node whose mode is not `full` gets `[Context mode: <mode>]`
/// and a newline in front; any other prompt stays as it was.
pub open spec fn preamble_added(n0: Node, n1: Node, default: Option<Seq<char>>) -> bool {
    let f = node_fidelity(n0, default);
    match n0.attrs.get_spec("prompt"@) {
        Some(AttrValue::String(p)) => if f != "full"@ {
            n1.attrs.str_spec("prompt"@) == Some("[Context mode: "@ + f + "]\n"@ + p@)
        } else {
            n1.attrs.get_spec("prompt"@) == n0.attrs.get_spec("prompt"@)
        },
        _ => n1.attrs.get_spec("prompt"@) == n0.attrs.get_spec("prompt"@),
    }
}

/// Expands `$goal` in node prompts to the graph's goal.
pub struct VariableExpansionTransform;

impl Transform for VariableExpansionTransform {
    fn apply(&self, graph: &mut Graph)
        ensures
            only_prompts_change(*old(graph), *final(graph)),
            forall|i: int|
                0 <= i < old(graph).nodes_spec().len() ==> goal_expanded(
                    #[trigger] old(graph).nodes_spec()[i],
                    final(graph).nodes_spec()[i],
                    old(graph).goal_spec(),
                ),
    {
        let ghost g0 = *graph;
        let goal = owned(graph.goal());
        let n = graph.nodes().len();
        let mut i: usize = 0;
        while i < n
            invariant
                i <= n,
                n == g0.nodes_spec().len(),
                goal@ == g0.goal_spec(),
                only_prompts_change(g0, *graph),
                forall|j: int| i <= j < n ==> #[trigger] graph.nodes_spec()[j] == g0.nodes_spec()[j],
                forall|j: int|
                    0 <= j < i ==> goal_expanded(#[trigger] g0.nodes_spec()[j], graph.nodes_spec()[j], goal@),
            decreases n - i,
        {
            let ghost before = *graph;
            let expanded = match graph.nodes()[i].attrs.get("prompt") {
                Some(AttrValue::String(p)) => {
                    if str_contains(p.as_str(), "$goal") {
                        proof {
                            reveal_strlit("$goal");
                        }
                        Some(replace_str(p.as_str(), "$goal", goal.as_str()))
                    } else {
                        None
                    }
                },
                _ => None,
            };
            match expanded {
                Some(e) => {
                    graph.set_node_attr_at(i, "prompt", AttrValue::String(e));
                    proof {
                        assert forall|j: int, k: Seq<char>|
                            0 <= j < n && k != "prompt"@ implies #[trigger] graph.nodes_spec()[j].attrs.get_spec(k)
                            == g0.nodes_spec()[j].attrs.get_spec(k) by {
                            if j != i {
                                assert(graph.nodes_spec()[j] == before.nodes_spec()[j]);
                            }
                        }
                        assert forall|j: int| 0 <= j < n implies #[trigger] graph.nodes_spec()[j].id
                            == g0.nodes_spec()[j].id by {
                            if j != i {
                                assert(graph.nodes_spec()[j] == before.nodes_spec()[j]);
                            }
                        }
                        assert forall|j: int| 0 <= j < i + 1 implies goal_expanded(
                            #[trigger] g0.nodes_spec()[j],
                            graph.nodes_spec()[j],
                            goal@,
                        ) by {
                            if j != i {
                                assert(graph.nodes_spec()[j] == before.nodes_spec()[j]);
                            } else {
                                assert(graph.nodes_spec()[j].attrs.get_spec("prompt"@) == Some(
                                    AttrValue::String(e),
                                ));
                            }
                        }
                        assert forall|j: int| i + 1 <= j < n implies #[trigger] graph.nodes_spec()[j]
                            == g0.nodes_spec()[j] by {
                            assert(graph.nodes_spec()[j] == before.nodes_spec()[j]);
                        }
                    }
                },
                None => {},
            }
            i += 1;
        }
    }
}

/// Announces the fidelity mode at the top of the prompt of every node whose
/// mode is not `full`.
pub struct PreambleTransform;

impl Transform for PreambleTransform {
    fn apply(&self, graph: &mut Graph)
        ensures
            only_prompts_change(*old(graph), *final(graph)),
            forall|i: int|
                0 <= i < old(graph).nodes_spec().len() ==> preamble_added(
                    #[trigger] old(graph).nodes_spec()[i],
                    final(graph).nodes_spec()[i],
                    old(graph).attrs_spec().str_spec("default_fidelity"@),
                ),
    {
        let ghost g0 = *graph;
        let ghost dflt = g0.attrs_spec().str_spec("default_fidelity"@);
        let default_fidelity = match graph.default_fidelity() {
            Some(d) => owned(d),
            None => owned("full"),
        };
        let n = graph.nodes().len();
        let mut i: usize = 0;
        while i < n
            invariant
                i <= n,
                n == g0.nodes_spec().len(),
                dflt == g0.attrs_spec().str_spec("default_fidelity"@),
                default_fidelity@ == match dflt {
                    Some(d) => d,
                    None => "full"@,
                },
                only_prompts_change(g0, *graph),
                forall|j: int| i <= j < n ==> #[trigger] graph.nodes_spec()[j] == g0.nodes_spec()[j],
                forall|j: int|
                    0 <= j < i ==> preamble_added(#[trigger] g0.nodes_spec()[j], graph.nodes_spec()[j], dflt),
            decreases n - i,
        {
            let ghost before = *graph;
            let node = &graph.nodes()[i];
            let fidelity = match node.fidelity() {
                Some(f) => owned(f),
                None => owned(default_fidelity.as_str()),
            };
            assert(fidelity@ == node_fidelity(g0.nodes_spec()[i as int], dflt));
            let updated = if str_eq(fidelity.as_str(), "full") {
                None
            } else {
                match node.attrs.get("prompt") {
                    Some(AttrValue::String(p)) => Some(
                        concat4("[Context mode: ", fidelity.as_str(), "]\n", p.as_str()),
                    ),
                    _ => None,
                }
            };
            match updated {
                Some(e) => {
                    graph.set_node_attr_at(i, "prompt", AttrValue::String(e));
                    proof {
                        assert forall|j: int, k: Seq<char>|
                            0 <= j < n && k != "prompt"@ implies #[trigger] graph.nodes_spec()[j].attrs.get_spec(k)
                            == g0.nodes_spec()[j].attrs.get_spec(k) by {
                            if j != i {
                                assert(graph.nodes_spec()[j] == before.nodes_spec()[j]);
                            }
                        }
                        assert forall|j: int| 0 <= j < n implies #[trigger] graph.nodes_spec()[j].id
                            == g0.nodes_spec()[j].id by {
                            if j != i {
                                assert(graph.nodes_spec()[j] == before.nodes_spec()[j]);
                            }
                        }
                        assert forall|j: int| 0 <= j < i + 1 implies preamble_added(
                            #[trigger] g0.nodes_spec()[j],
                            graph.nodes_spec()[j],
                            dflt,
                        ) by {
                            if j != i {
                                assert(graph.nodes_spec()[j] == before.nodes_spec()[j]);
                            } else {
                                assert(graph.nodes_spec()[j].attrs.get_spec("prompt"@) == Some(
                                    AttrValue::String(e),
                                ));
                            }
                        }
                        assert forall|j: int| i + 1 <= j < n implies #[trigger] graph.nodes_spec()[j]
                            == g0.nodes_spec()[j] by {
                            assert(graph.nodes_spec()[j] == before.nodes_spec()[j]);
                        }
                    }
                },
                None => {},
            }
            i += 1;
        }
    }
}

} // verus!
