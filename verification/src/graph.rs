use vstd::prelude::*;

use crate::text::{
    chars_of, first_index, lemma_first_index, lemma_first_index_is, lemma_first_index_push, owned,
    seq_eq, str_eq,
};

verus! {

/// The value of a node, edge or graph attribute.
#[derive(Debug)]
pub enum AttrValue {
    String(String),
    Integer(i64),
    Boolean(bool),
}

impl AttrValue {
    /// The text of a string value.
    pub open spec fn text(self) -> Option<Seq<char>> {
        match self {
            AttrValue::String(s) => Some(s@),
            _ => None,
        }
    }

    /// The text of a string value, `None` for any other value.
    pub fn as_str(&self) -> (r: Option<&str>)
        ensures
            r matches Some(s) ==> self.text() == Some(s@),
            r is None ==> self.text() is None,
    {
        match self {
            AttrValue::String(s) => Some(s.as_str()),
            _ => None,
        }
    }

    /// A copy of the value.
    pub fn duplicate(&self) -> (r: AttrValue)
        ensures
            r == *self,
    {
        match self {
            AttrValue::String(s) => AttrValue::String(s.clone()),
            AttrValue::Integer(i) => AttrValue::Integer(*i),
            AttrValue::Boolean(b) => AttrValue::Boolean(*b),
        }
    }
}

/// A keyed list of attributes; a key set twice keeps its latest value.
#[derive(Debug)]
pub struct Attrs {
    entries: Vec<(String, AttrValue)>,
}

pub open spec fn entry_keys(e: Seq<(String, AttrValue)>) -> Seq<Seq<char>> {
    e.map_values(|p: (String, AttrValue)| p.0@)
}

impl Attrs {
    pub closed spec fn entries_view(self) -> Seq<(String, AttrValue)> {
        self.entries@
    }

    /// The value stored under `key`, if any.
    pub open spec fn get_spec(self, key: Seq<char>) -> Option<AttrValue> {
        match first_index(entry_keys(self.entries_view()), key) {
            Some(i) => Some(self.entries_view()[i].1),
            None => None,
        }
    }

    /// The text stored under `key`, when it is a string value.
    pub open spec fn str_spec(self, key: Seq<char>) -> Option<Seq<char>> {
        match self.get_spec(key) {
            Some(v) => v.text(),
            None => None,
        }
    }

    /// An empty attribute list.
    pub fn new() -> (a: Attrs)
        ensures
            a.entries_view() == Seq::<(String, AttrValue)>::empty(),
            forall|k: Seq<char>| a.get_spec(k) is None,
    {
        let a = Attrs { entries: Vec::new() };
        assert forall|k: Seq<char>| a.get_spec(k) is None by {
            assert(entry_keys(a.entries@).len() == 0);
        }
        a
    }

    /// The value stored under `key`.
    pub fn get(&self, key: &str) -> (r: Option<&AttrValue>)
        ensures
            r matches Some(v) ==> self.get_spec(key@) == Some(*v),
            r is None ==> self.get_spec(key@) is None,
    {
        let ghost keys = entry_keys(self.entries@);
        let kc = chars_of(key);
        let mut i: usize = 0;
        while i < self.entries.len()
            invariant
                i <= self.entries.len(),
                keys == entry_keys(self.entries@),
                kc@ == key@,
                forall|j: int| 0 <= j < i ==> keys[j] != key@,
            decreases self.entries.len() - i,
        {
            let k = chars_of(self.entries[i].0.as_str());
            if seq_eq(&k, &kc) {
                proof {
                    lemma_first_index_is(keys, key@, i as int);
                }
                return Some(&self.entries[i].1);
            }
            i += 1;
        }
        proof {
            lemma_first_index_is(keys, key@, keys.len() as int);
        }
        None
    }

    /// The text stored under `key`, when it is a string value.
    pub fn get_str(&self, key: &str) -> (r: Option<&str>)
        ensures
            r matches Some(s) ==> self.str_spec(key@) == Some(s@),
            r is None ==> self.str_spec(key@) is None,
    {
        match self.get(key) {
            Some(v) => v.as_str(),
            None => None,
        }
    }

    /// Stores `value` under `key`, replacing an earlier value.
    pub fn insert(&mut self, key: String, value: AttrValue)
        ensures
            forall|k: Seq<char>|
                #![trigger final(self).get_spec(k)]
                final(self).get_spec(k) == if k == key@ {
                    Some(value)
                } else {
                    old(self).get_spec(k)
                },
    {
        let ghost keys = entry_keys(self.entries@);
        let kc = chars_of(key.as_str());
        let mut i: usize = 0;
        while i < self.entries.len()
            invariant
                i <= self.entries.len(),
                self.entries@ == old(self).entries@,
                keys == entry_keys(self.entries@),
                kc@ == key@,
                forall|j: int| 0 <= j < i ==> keys[j] != key@,
            decreases self.entries.len() - i,
        {
            let k = chars_of(self.entries[i].0.as_str());
            if seq_eq(&k, &kc) {
                proof {
                    lemma_first_index_is(keys, key@, i as int);
                }
                let ghost e0 = self.entries@;
                self.entries.set(i, (key, value));
                proof {
                    assert(entry_keys(self.entries@) =~= keys);
                    assert forall|k: Seq<char>| #![trigger self.get_spec(k)]
                        self.get_spec(k) == if k == key@ { Some(value) } else { old(self).get_spec(k) }
                    by {
                        match first_index(keys, k) {
                            Some(m) => {
                                lemma_first_index(keys, k);
                                if m != i {
                                    assert(self.entries@[m] == e0[m]);
                                }
                            },
                            None => {},
                        }
                    }
                }
                return;
            }
            i += 1;
        }
        proof {
            lemma_first_index_is(keys, key@, keys.len() as int);
        }
        let ghost e0 = self.entries@;
        self.entries.push((key, value));
        proof {
            assert(entry_keys(self.entries@) =~= keys.push(key@));
            assert forall|k: Seq<char>| #![trigger self.get_spec(k)]
                self.get_spec(k) == if k == key@ { Some(value) } else { old(self).get_spec(k) }
            by {
                lemma_first_index_push(keys, key@, k);
                match first_index(keys, k) {
                    Some(m) => {
                        lemma_first_index(keys, k);
                        assert(self.entries@[m] == e0[m]);
                    },
                    None => {},
                }
            }
        }
    }
}

/// A pipeline node: an id and its attributes.
#[derive(Debug)]
pub struct Node {
    pub id: String,
    pub attrs: Attrs,
}

/// A directed edge between two node ids, with attributes.
#[derive(Debug)]
pub struct Edge {
    pub from: String,
    pub to: String,
    pub attrs: Attrs,
}

/// The boolean reading of an attribute: a boolean value, or the text `true`.
pub open spec fn flag_spec(a: Attrs, key: Seq<char>) -> bool {
    match a.get_spec(key) {
        Some(AttrValue::Boolean(b)) => b,
        Some(AttrValue::String(s)) => s@ == "true"@,
        _ => false,
    }
}

fn flag(a: &Attrs, key: &str) -> (r: bool)
    ensures
        r == flag_spec(*a, key@),
{
    match a.get(key) {
        Some(AttrValue::Boolean(b)) => *b,
        Some(AttrValue::String(s)) => str_eq(s.as_str(), "true"),
        _ => false,
    }
}

/// The handler type that a node shape selects.
pub open spec fn shape_handler(shape: Seq<char>) -> Option<Seq<char>> {
    if shape == "Mdiamond"@ {
        Some("start"@)
    } else if shape == "Msquare"@ {
        Some("exit"@)
    } else if shape == "box"@ {
        Some("codergen"@)
    } else if shape == "hexagon"@ {
        Some("wait.human"@)
    } else if shape == "diamond"@ {
        Some("conditional"@)
    } else if shape == "component"@ {
        Some("parallel"@)
    } else if shape == "tripleoctagon"@ {
        Some("parallel.fan_in"@)
    } else if shape == "parallelogram"@ {
        Some("tool"@)
    } else if shape == "house"@ {
        Some("stack.manager_loop"@)
    } else {
        None
    }
}

impl Node {
    /// The node's shape: its `shape` attribute, `box` when absent.
    pub open spec fn shape_spec(self) -> Seq<char> {
        match self.attrs.str_spec("shape"@) {
            Some(s) => s,
            None => "box"@,
        }
    }

    /// The handler type: the `type` attribute, else the one its shape selects.
    pub open spec fn handler_type_spec(self) -> Option<Seq<char>> {
        match self.attrs.str_spec("type"@) {
            Some(t) => Some(t),
            None => shape_handler(self.shape_spec()),
        }
    }

    /// A node with the given id and no attributes.
    pub fn new(id: &str) -> (n: Node)
        ensures
            n.id@ == id@,
            forall|k: Seq<char>| n.attrs.get_spec(k) is None,
    {
        Node { id: owned(id), attrs: Attrs::new() }
    }

    /// Stores an attribute.
    pub fn set_attr(&mut self, key: &str, value: AttrValue)
        ensures
            final(self).id == old(self).id,
            forall|k: Seq<char>|
                #![trigger final(self).attrs.get_spec(k)]
                final(self).attrs.get_spec(k) == if k == key@ {
                    Some(value)
                } else {
                    old(self).attrs.get_spec(k)
                },
    {
        self.attrs.insert(owned(key), value);
    }

    pub fn shape(&self) -> (r: &str)
        ensures
            r@ == self.shape_spec(),
    {
        match self.attrs.get_str("shape") {
            Some(s) => s,
            None => "box",
        }
    }

    /// The `type` attribute.
    pub fn node_type(&self) -> (r: Option<&str>)
        ensures
            r matches Some(s) ==> self.attrs.str_spec("type"@) == Some(s@),
            r is None ==> self.attrs.str_spec("type"@) is None,
    {
        self.attrs.get_str("type")
    }

    /// The `fidelity` attribute.
    pub fn fidelity(&self) -> (r: Option<&str>)
        ensures
            r matches Some(s) ==> self.attrs.str_spec("fidelity"@) == Some(s@),
            r is None ==> self.attrs.str_spec("fidelity"@) is None,
    {
        self.attrs.get_str("fidelity")
    }

    /// The `retry_target` attribute.
    pub fn retry_target(&self) -> (r: Option<&str>)
        ensures
            r matches Some(s) ==> self.attrs.str_spec("retry_target"@) == Some(s@),
            r is None ==> self.attrs.str_spec("retry_target"@) is None,
    {
        self.attrs.get_str("retry_target")
    }

    /// The `fallback_retry_target` attribute.
    pub fn fallback_retry_target(&self) -> (r: Option<&str>)
        ensures
            r matches Some(s) ==> self.attrs.str_spec("fallback_retry_target"@) == Some(s@),
            r is None ==> self.attrs.str_spec("fallback_retry_target"@) is None,
    {
        self.attrs.get_str("fallback_retry_target")
    }

    /// The `prompt` attribute.
    pub fn prompt(&self) -> (r: Option<&str>)
        ensures
            r matches Some(s) ==> self.attrs.str_spec("prompt"@) == Some(s@),
            r is None ==> self.attrs.str_spec("prompt"@) is None,
    {
        self.attrs.get_str("prompt")
    }

    /// The `label` attribute, else the node id.
    pub fn label(&self) -> (r: &str)
        ensures
            r@ == match self.attrs.str_spec("label"@) {
                Some(l) => l,
                None => self.id@,
            },
    {
        match self.attrs.get_str("label") {
            Some(l) => l,
            None => self.id.as_str(),
        }
    }

    /// Whether the node is a goal gate.
    pub fn goal_gate(&self) -> (r: bool)
        ensures
            r == flag_spec(self.attrs, "goal_gate"@),
    {
        flag(&self.attrs, "goal_gate")
    }

    /// The handler type of the node.
    pub fn handler_type(&self) -> (r: Option<&str>)
        ensures
            r matches Some(s) ==> self.handler_type_spec() == Some(s@),
            r is None ==> self.handler_type_spec() is None,
    {
        match self.node_type() {
            Some(t) => Some(t),
            None => shape_handler_exec(self.shape()),
        }
    }
}

fn shape_handler_exec(shape: &str) -> (r: Option<&'static str>)
    ensures
        r matches Some(s) ==> shape_handler(shape@) == Some(s@),
        r is None ==> shape_handler(shape@) is None,
{
    if str_eq(shape, "Mdiamond") {
        Some("start")
    } else if str_eq(shape, "Msquare") {
        Some("exit")
    } else if str_eq(shape, "box") {
        Some("codergen")
    } else if str_eq(shape, "hexagon") {
        Some("wait.human")
    } else if str_eq(shape, "diamond") {
        Some("conditional")
    } else if str_eq(shape, "component") {
        Some("parallel")
    } else if str_eq(shape, "tripleoctagon") {
        Some("parallel.fan_in")
    } else if str_eq(shape, "parallelogram") {
        Some("tool")
    } else if str_eq(shape, "house") {
        Some("stack.manager_loop")
    } else {
        None
    }
}

impl Edge {
    /// An edge between two node ids, with no attributes.
    pub fn new(from: &str, to: &str) -> (e: Edge)
        ensures
            e.from@ == from@,
            e.to@ == to@,
            forall|k: Seq<char>| e.attrs.get_spec(k) is None,
    {
        Edge { from: owned(from), to: owned(to), attrs: Attrs::new() }
    }

    /// Stores an attribute.
    pub fn set_attr(&mut self, key: &str, value: AttrValue)
        ensures
            final(self).from == old(self).from,
            final(self).to == old(self).to,
            forall|k: Seq<char>|
                #![trigger final(self).attrs.get_spec(k)]
                final(self).attrs.get_spec(k) == if k == key@ {
                    Some(value)
                } else {
                    old(self).attrs.get_spec(k)
                },
    {
        self.attrs.insert(owned(key), value);
    }

    /// The `condition` attribute.
    pub fn condition(&self) -> (r: Option<&str>)
        ensures
            r matches Some(s) ==> self.attrs.str_spec("condition"@) == Some(s@),
            r is None ==> self.attrs.str_spec("condition"@) is None,
    {
        self.attrs.get_str("condition")
    }

    /// The `fidelity` attribute.
    pub fn fidelity(&self) -> (r: Option<&str>)
        ensures
            r matches Some(s) ==> self.attrs.str_spec("fidelity"@) == Some(s@),
            r is None ==> self.attrs.str_spec("fidelity"@) is None,
    {
        self.attrs.get_str("fidelity")
    }

    /// Whether the edge accepts free-form input.
    pub fn freeform(&self) -> (r: bool)
        ensures
            r == flag_spec(self.attrs, "freeform"@),
    {
        flag(&self.attrs, "freeform")
    }
}

/// A pipeline graph: nodes keyed by id, edges in order, and graph attributes.
#[derive(Debug)]
pub struct Graph {
    name: String,
    nodes: Vec<Node>,
    edges: Vec<Edge>,
    attrs: Attrs,
}

pub open spec fn node_ids(nodes: Seq<Node>) -> Seq<Seq<char>> {
    nodes.map_values(|n: Node| n.id@)
}

/// No id occurs twice.
pub open spec fn distinct_ids(ids: Seq<Seq<char>>) -> bool {
    forall|i: int, j: int| 0 <= i < j < ids.len() ==> #[trigger] ids[i] != #[trigger] ids[j]
}

/// Whether some node in `nodes` has id `id`.
pub open spec fn has_node_id(nodes: Seq<Node>, id: Seq<char>) -> bool {
    exists|i: int| 0 <= i < nodes.len() && #[trigger] nodes[i].id@ == id
}

impl Graph {
    pub closed spec fn name_spec(self) -> Seq<char> {
        self.name@
    }

    pub closed spec fn nodes_spec(self) -> Seq<Node> {
        self.nodes@
    }

    pub closed spec fn edges_spec(self) -> Seq<Edge> {
        self.edges@
    }

    pub closed spec fn attrs_spec(self) -> Attrs {
        self.attrs
    }

    /// The graph goal: the `goal` attribute, empty when absent.
    pub open spec fn goal_spec(self) -> Seq<char> {
        match self.attrs_spec().str_spec("goal"@) {
            Some(g) => g,
            None => Seq::empty(),
        }
    }

    /// The `model_stylesheet` attribute, empty when absent.
    pub open spec fn stylesheet_spec(self) -> Seq<char> {
        match self.attrs_spec().str_spec("model_stylesheet"@) {
            Some(g) => g,
            None => Seq::empty(),
        }
    }

    /// An empty graph with the given name.
    pub fn new(name: &str) -> (g: Graph)
        ensures
            g.name_spec() == name@,
            g.nodes_spec().len() == 0,
            g.edges_spec().len() == 0,
            forall|k: Seq<char>| g.attrs_spec().get_spec(k) is None,
    {
        Graph { name: owned(name), nodes: Vec::new(), edges: Vec::new(), attrs: Attrs::new() }
    }

    pub fn name(&self) -> (r: &str)
        ensures
            r@ == self.name_spec(),
    {
        self.name.as_str()
    }

    /// The nodes, in insertion order.
    pub fn nodes(&self) -> (r: &Vec<Node>)
        ensures
            r@ == self.nodes_spec(),
    {
        &self.nodes
    }

    /// The edges, in order.
    pub fn edges(&self) -> (r: &Vec<Edge>)
        ensures
            r@ == self.edges_spec(),
    {
        &self.edges
    }

    /// The graph attributes.
    pub fn attrs(&self) -> (r: &Attrs)
        ensures
            *r == self.attrs_spec(),
    {
        &self.attrs
    }

    /// Adds `node`, replacing a node with the same id.
    pub fn insert_node(&mut self, node: Node)
        ensures
            final(self).name_spec() == old(self).name_spec(),
            final(self).edges_spec() == old(self).edges_spec(),
            final(self).attrs_spec() == old(self).attrs_spec(),
            match first_index(node_ids(old(self).nodes_spec()), node.id@) {
                Some(i) => final(self).nodes_spec() == old(self).nodes_spec().update(i, node),
                None => final(self).nodes_spec() == old(self).nodes_spec().push(node),
            },
            distinct_ids(node_ids(old(self).nodes_spec())) ==> distinct_ids(node_ids(final(self).nodes_spec())),
    {
        let ghost ids = node_ids(self.nodes@);
        let kc = chars_of(node.id.as_str());
        let mut i: usize = 0;
        while i < self.nodes.len()
            invariant
                i <= self.nodes.len(),
                self.nodes@ == old(self).nodes@,
                self.name == old(self).name,
                self.edges == old(self).edges,
                self.attrs == old(self).attrs,
                ids == node_ids(self.nodes@),
                kc@ == node.id@,
                forall|j: int| 0 <= j < i ==> ids[j] != node.id@,
            decreases self.nodes.len() - i,
        {
            let k = chars_of(self.nodes[i].id.as_str());
            if seq_eq(&k, &kc) {
                proof {
                    lemma_first_index_is(ids, node.id@, i as int);
                }
                let ghost nid = node.id@;
                self.nodes.set(i, node);
                proof {
                    assert(node_ids(self.nodes@) =~= ids.update(i as int, nid));
                    assert(ids.update(i as int, nid) =~= ids);
                }
                return;
            }
            i += 1;
        }
        proof {
            lemma_first_index_is(ids, node.id@, ids.len() as int);
        }
        let ghost nid = node.id@;
        self.nodes.push(node);
        proof {
            assert(node_ids(self.nodes@) =~= ids.push(nid));
            let r = ids.push(nid);
            if distinct_ids(ids) {
                assert forall|a: int, b: int| 0 <= a < b < r.len() implies #[trigger] r[a] != #[trigger] r[b] by {
                    if b == ids.len() {
                        assert(r[a] == ids[a]);
                    } else {
                        assert(r[a] == ids[a] && r[b] == ids[b]);
                    }
                }
            }
        }
    }

    /// Appends an edge.
    pub fn push_edge(&mut self, edge: Edge)
        ensures
            final(self).name_spec() == old(self).name_spec(),
            final(self).nodes_spec() == old(self).nodes_spec(),
            final(self).attrs_spec() == old(self).attrs_spec(),
            final(self).edges_spec() == old(self).edges_spec().push(edge),
    {
        self.edges.push(edge);
    }

    /// Replaces all edges.
    pub fn set_edges(&mut self, edges: Vec<Edge>)
        ensures
            final(self).name_spec() == old(self).name_spec(),
            final(self).nodes_spec() == old(self).nodes_spec(),
            final(self).attrs_spec() == old(self).attrs_spec(),
            final(self).edges_spec() == edges@,
    {
        self.edges = edges;
    }

    /// Stores a graph attribute.
    pub fn set_attr(&mut self, key: &str, value: AttrValue)
        ensures
            final(self).name_spec() == old(self).name_spec(),
            final(self).nodes_spec() == old(self).nodes_spec(),
            final(self).edges_spec() == old(self).edges_spec(),
            forall|k: Seq<char>|
                #![trigger final(self).attrs_spec().get_spec(k)]
                final(self).attrs_spec().get_spec(k) == if k == key@ {
                    Some(value)
                } else {
                    old(self).attrs_spec().get_spec(k)
                },
    {
        self.attrs.insert(owned(key), value);
    }

    /// The node with the given id.
    pub fn node(&self, id: &str) -> (r: Option<&Node>)
        ensures
            r matches Some(n) ==> first_index(node_ids(self.nodes_spec()), id@) matches Some(i)
                && *n == self.nodes_spec()[i],
            r is None ==> first_index(node_ids(self.nodes_spec()), id@) is None,
    {
        let ghost ids = node_ids(self.nodes@);
        let kc = chars_of(id);
        let mut i: usize = 0;
        while i < self.nodes.len()
            invariant
                i <= self.nodes.len(),
                ids == node_ids(self.nodes@),
                kc@ == id@,
                forall|j: int| 0 <= j < i ==> ids[j] != id@,
            decreases self.nodes.len() - i,
        {
            let k = chars_of(self.nodes[i].id.as_str());
            if seq_eq(&k, &kc) {
                proof {
                    lemma_first_index_is(ids, id@, i as int);
                }
                return Some(&self.nodes[i]);
            }
            i += 1;
        }
        proof {
            lemma_first_index_is(ids, id@, ids.len() as int);
        }
        None
    }

    /// Mutable access to the node at position `i`.
    pub fn set_node_attr_at(&mut self, i: usize, key: &str, value: AttrValue)
        requires
            i < old(self).nodes_spec().len(),
        ensures
            final(self).name_spec() == old(self).name_spec(),
            final(self).edges_spec() == old(self).edges_spec(),
            final(self).attrs_spec() == old(self).attrs_spec(),
            final(self).nodes_spec().len() == old(self).nodes_spec().len(),
            forall|j: int|
                0 <= j < final(self).nodes_spec().len() && j != i
                    ==> #[trigger] final(self).nodes_spec()[j] == old(self).nodes_spec()[j],
            final(self).nodes_spec()[i as int].id == old(self).nodes_spec()[i as int].id,
            forall|k: Seq<char>|
                #![trigger final(self).nodes_spec()[i as int].attrs.get_spec(k)]
                final(self).nodes_spec()[i as int].attrs.get_spec(k) == if k == key@ {
                    Some(value)
                } else {
                    old(self).nodes_spec()[i as int].attrs.get_spec(k)
                },
    {
        let mut node = self.nodes.remove(i);
        node.set_attr(key, value);
        self.nodes.insert(i, node);
        proof {
            assert forall|j: int| 0 <= j < self.nodes@.len() && j != i implies #[trigger] self.nodes@[j]
                == old(self).nodes@[j] by {
                if j < i {
                } else {
                }
            }
        }
    }

    /// Whether some node has the given id.
    pub fn contains_node(&self, id: &str) -> (r: bool)
        ensures
            r == has_node_id(self.nodes_spec(), id@),
    {
        let found = self.node(id);
        proof {
            let ids = node_ids(self.nodes_spec());
            lemma_first_index(ids, id@);
            match first_index(ids, id@) {
                Some(i) => {
                    assert(self.nodes_spec()[i].id@ == id@);
                },
                None => {
                    assert forall|i: int| 0 <= i < self.nodes_spec().len() implies #[trigger] self.nodes_spec()[i].id@
                        != id@ by {
                        assert(ids[i] == self.nodes_spec()[i].id@);
                    }
                },
            }
        }
        found.is_some()
    }

    /// The graph goal.
    pub fn goal(&self) -> (r: &str)
        ensures
            r@ == self.goal_spec(),
    {
        match self.attrs.get_str("goal") {
            Some(g) => g,
            None => {
                proof {
                    reveal_strlit("");
                }
                assert(""@ =~= Seq::<char>::empty());
                ""
            },
        }
    }

    /// The `model_stylesheet` attribute, empty when absent.
    pub fn model_stylesheet(&self) -> (r: &str)
        ensures
            r@ == self.stylesheet_spec(),
    {
        match self.attrs.get_str("model_stylesheet") {
            Some(g) => g,
            None => {
                proof {
                    reveal_strlit("");
                }
                assert(""@ =~= Seq::<char>::empty());
                ""
            },
        }
    }

    /// The `default_fidelity` attribute.
    pub fn default_fidelity(&self) -> (r: Option<&str>)
        ensures
            r matches Some(s) ==> self.attrs_spec().str_spec("default_fidelity"@) == Some(s@),
            r is None ==> self.attrs_spec().str_spec("default_fidelity"@) is None,
    {
        self.attrs.get_str("default_fidelity")
    }

    /// The graph-level `retry_target` attribute.
    pub fn retry_target(&self) -> (r: Option<&str>)
        ensures
            r matches Some(s) ==> self.attrs_spec().str_spec("retry_target"@) == Some(s@),
            r is None ==> self.attrs_spec().str_spec("retry_target"@) is None,
    {
        self.attrs.get_str("retry_target")
    }

    /// The graph-level `fallback_retry_target` attribute.
    pub fn fallback_retry_target(&self) -> (r: Option<&str>)
        ensures
            r matches Some(s) ==> self.attrs_spec().str_spec("fallback_retry_target"@) == Some(s@),
            r is None ==> self.attrs_spec().str_spec("fallback_retry_target"@) is None,
    {
        self.attrs.get_str("fallback_retry_target")
    }
}


/// Position of the start node: the first node of shape `Mdiamond`, else the
/// first node with id `start` or `Start`.
pub open spec fn start_index(nodes: Seq<Node>) -> Option<int> {
    match first_index(nodes.map_values(|n: Node| n.shape_spec() == "Mdiamond"@), true) {
        Some(i) => Some(i),
        None => first_index(
            nodes.map_values(|n: Node| n.id@ == "start"@ || n.id@ == "Start"@),
            true,
        ),
    }
}

impl Graph {
    /// The start node.
    pub fn find_start_node(&self) -> (r: Option<&Node>)
        ensures
            r matches Some(n) ==> start_index(self.nodes_spec()) matches Some(i) && *n
                == self.nodes_spec()[i],
            r is None ==> start_index(self.nodes_spec()) is None,
    {
        let ghost s1 = self.nodes@.map_values(|n: Node| n.shape_spec() == "Mdiamond"@);
        let ghost s2 = self.nodes@.map_values(|n: Node| n.id@ == "start"@ || n.id@ == "Start"@);
        let mut i: usize = 0;
        while i < self.nodes.len()
            invariant
                i <= self.nodes.len(),
                s1 == self.nodes@.map_values(|n: Node| n.shape_spec() == "Mdiamond"@),
                forall|j: int| 0 <= j < i ==> s1[j] != true,
            decreases self.nodes.len() - i,
        {
            if str_eq(self.nodes[i].shape(), "Mdiamond") {
                proof {
                    lemma_first_index_is(s1, true, i as int);
                }
                return Some(&self.nodes[i]);
            }
            i += 1;
        }
        proof {
            lemma_first_index_is(s1, true, s1.len() as int);
        }
        let mut i: usize = 0;
        while i < self.nodes.len()
            invariant
                i <= self.nodes.len(),
                s2 == self.nodes@.map_values(|n: Node| n.id@ == "start"@ || n.id@ == "Start"@),
                s1 == self.nodes@.map_values(|n: Node| n.shape_spec() == "Mdiamond"@),
                first_index(s1, true) is None,
                forall|j: int| 0 <= j < i ==> s2[j] != true,
            decreases self.nodes.len() - i,
        {
            if str_eq(self.nodes[i].id.as_str(), "start") || str_eq(self.nodes[i].id.as_str(), "Start") {
                proof {
                    lemma_first_index_is(s2, true, i as int);
                }
                return Some(&self.nodes[i]);
            }
            i += 1;
        }
        proof {
            lemma_first_index_is(s2, true, s2.len() as int);
        }
        None
    }
}

} // verus!
