use vstd::prelude::*;

use crate::graph::{has_node_id, start_index, Edge, Graph, Node};
use crate::reach::{contains_id, reachable, reachable_ids, sort_ids, sorted_lex};
use crate::text::{
    chars_of, concat3, concat5, concat6, contains_char, contains_chars, contains_seq,
    count, count_char, decimal, flat_map, has_prefix, lemma_count_step, lemma_flat_map_step,
    lemma_take_full, owned, split, split_chars, starts_with_chars, str_eq, string_from_chars, trim,
    trim_chars, usize_text,
};

verus! {

/// How serious a diagnostic is.
#[derive(Debug, Clone, Copy, PartialEq, Eq, Structural)]
pub enum Severity {
    Error,
    Warning,
    Info,
}

/// A finding of a lint rule about a pipeline graph.
#[derive(Debug)]
pub struct Diagnostic {
    pub rule: String,
    pub severity: Severity,
    pub message: String,
    pub node_id: Option<String>,
    pub edge: Option<(String, String)>,
    pub fix: Option<String>,
}

/// A diagnostic as character sequences.
pub struct DiagnosticView {
    pub rule: Seq<char>,
    pub severity: Severity,
    pub message: Seq<char>,
    pub node_id: Option<Seq<char>>,
    pub edge: Option<(Seq<char>, Seq<char>)>,
    pub fix: Option<Seq<char>>,
}

pub open spec fn opt_view(o: Option<String>) -> Option<Seq<char>> {
    match o {
        Some(s) => Some(s@),
        None => None,
    }
}

pub open spec fn pair_view(o: Option<(String, String)>) -> Option<(Seq<char>, Seq<char>)> {
    match o {
        Some(p) => Some((p.0@, p.1@)),
        None => None,
    }
}

impl View for Diagnostic {
    type V = DiagnosticView;

    open spec fn view(&self) -> DiagnosticView {
        DiagnosticView {
            rule: self.rule@,
            severity: self.severity,
            message: self.message@,
            node_id: opt_view(self.node_id),
            edge: pair_view(self.edge),
            fix: opt_view(self.fix),
        }
    }
}

pub open spec fn diag_views(s: Seq<Diagnostic>) -> Seq<DiagnosticView> {
    s.map_values(|d: Diagnostic| d@)
}

pub open spec fn dv(
    rule: Seq<char>,
    severity: Severity,
    message: Seq<char>,
    node_id: Option<Seq<char>>,
    edge: Option<(Seq<char>, Seq<char>)>,
    fix: Option<Seq<char>>,
) -> DiagnosticView {
    DiagnosticView { rule, severity, message, node_id, edge, fix }
}

fn mk(
    rule: &str,
    severity: Severity,
    message: String,
    node_id: Option<String>,
    edge: Option<(String, String)>,
    fix: String,
) -> (d: Diagnostic)
    ensures
        d@ == dv(rule@, severity, message@, opt_view(node_id), pair_view(edge), Some(fix@)),
{
    Diagnostic { rule: owned(rule), severity, message, node_id, edge, fix: Some(fix) }
}

/// A single check over a pipeline graph.
pub trait LintRule {
    fn name(&self) -> &'static str;

    fn apply(&self, graph: &Graph) -> Vec<Diagnostic>;
}

/// Appends the diagnostics of `more` to `out`.
fn extend(out: &mut Vec<Diagnostic>, more: Vec<Diagnostic>)
    ensures
        diag_views(final(out)@) == diag_views(old(out)@) + diag_views(more@),
{
    let ghost a = out@;
    let ghost b = more@;
    let mut more = more;
    out.append(&mut more);
    assert(out@ == a + b);
    assert(diag_views(out@) =~= diag_views(a) + diag_views(b));
}

// ---------------------------------------------------------------------------
// Shared node and edge predicates
// ---------------------------------------------------------------------------

/// A start node: shape `Mdiamond` or id `start`/`Start`.
pub open spec fn is_start_node(n: Node) -> bool {
    n.shape_spec() == "Mdiamond"@ || n.id@ == "start"@ || n.id@ == "Start"@
}

/// A terminal node: shape `Msquare` or id `exit`/`Exit`/`end`/`End`.
pub open spec fn is_terminal_node(n: Node) -> bool {
    n.shape_spec() == "Msquare"@ || n.id@ == "exit"@ || n.id@ == "Exit"@ || n.id@ == "end"@
        || n.id@ == "End"@
}

pub open spec fn start_pred() -> spec_fn(Node) -> bool {
    |n: Node| is_start_node(n)
}

pub open spec fn terminal_pred() -> spec_fn(Node) -> bool {
    |n: Node| is_terminal_node(n)
}

/// Edges leaving the node id `id`.
pub open spec fn from_pred(id: Seq<char>) -> spec_fn(Edge) -> bool {
    |e: Edge| e.from@ == id
}

/// Edges entering the node id `id`.
pub open spec fn to_pred(id: Seq<char>) -> spec_fn(Edge) -> bool {
    |e: Edge| e.to@ == id
}

/// Free-form edges leaving the node id `id`.
pub open spec fn freeform_from_pred(id: Seq<char>) -> spec_fn(Edge) -> bool {
    |e: Edge| e.from@ == id && crate::graph::flag_spec(e.attrs, "freeform"@)
}

fn is_start(n: &Node) -> (r: bool)
    ensures
        r == is_start_node(*n),
{
    str_eq(n.shape(), "Mdiamond") || str_eq(n.id.as_str(), "start") || str_eq(n.id.as_str(), "Start")
}

fn is_terminal(n: &Node) -> (r: bool)
    ensures
        r == is_terminal_node(*n),
{
    str_eq(n.shape(), "Msquare") || str_eq(n.id.as_str(), "exit") || str_eq(n.id.as_str(), "Exit")
        || str_eq(n.id.as_str(), "end") || str_eq(n.id.as_str(), "End")
}

/// Number of edges leaving `id`.
fn count_outgoing(edges: &Vec<Edge>, id: &str) -> (c: usize)
    ensures
        c == count(edges@, from_pred(id@)),
{
    let mut c: usize = 0;
    for i in 0..edges.len()
        invariant
            c == count(edges@.take(i as int), from_pred(id@)),
            c <= i,
    {
        proof {
            lemma_count_step(edges@, from_pred(id@), i as int);
        }
        if str_eq(edges[i].from.as_str(), id) {
            c += 1;
        }
    }
    proof {
        lemma_take_full(edges@);
    }
    c
}

/// Number of edges entering `id`.
fn count_incoming(edges: &Vec<Edge>, id: &str) -> (c: usize)
    ensures
        c == count(edges@, to_pred(id@)),
{
    let mut c: usize = 0;
    for i in 0..edges.len()
        invariant
            c == count(edges@.take(i as int), to_pred(id@)),
            c <= i,
    {
        proof {
            lemma_count_step(edges@, to_pred(id@), i as int);
        }
        if str_eq(edges[i].to.as_str(), id) {
            c += 1;
        }
    }
    proof {
        lemma_take_full(edges@);
    }
    c
}

/// Number of free-form edges leaving `id`.
fn count_freeform_outgoing(edges: &Vec<Edge>, id: &str) -> (c: usize)
    ensures
        c == count(edges@, freeform_from_pred(id@)),
{
    let mut c: usize = 0;
    for i in 0..edges.len()
        invariant
            c == count(edges@.take(i as int), freeform_from_pred(id@)),
            c <= i,
    {
        proof {
            lemma_count_step(edges@, freeform_from_pred(id@), i as int);
        }
        if str_eq(edges[i].from.as_str(), id) && edges[i].freeform() {
            c += 1;
        }
    }
    proof {
        lemma_take_full(edges@);
    }
    c
}

// ---------------------------------------------------------------------------
// Rule: start_node
// ---------------------------------------------------------------------------

/// Exactly one start node is required.
pub struct StartNodeRule;

pub open spec fn start_node_spec(g: Graph) -> Seq<DiagnosticView> {
    let c = count(g.nodes_spec(), start_pred());
    if c == 0 {
        seq![
            dv(
                "start_node"@,
                Severity::Error,
                "Pipeline must have exactly one start node (shape=Mdiamond or id start/Start)"@,
                None,
                None,
                Some("Add a node with shape=Mdiamond or id 'start'"@),
            ),
        ]
    } else if c > 1 {
        seq![
            dv(
                "start_node"@,
                Severity::Error,
                "Pipeline has "@ + decimal(c) + " start nodes but must have exactly one"@,
                None,
                None,
                Some("Remove extra start nodes"@),
            ),
        ]
    } else {
        Seq::empty()
    }
}

impl LintRule for StartNodeRule {
    fn name(&self) -> (r: &'static str)
        ensures
            r@ == "start_node"@,
    {
        "start_node"
    }

    fn apply(&self, graph: &Graph) -> (r: Vec<Diagnostic>)
        ensures
            diag_views(r@) == start_node_spec(*graph),
    {
        let nodes = graph.nodes();
        let mut c: usize = 0;
        for i in 0..nodes.len()
            invariant
                nodes@ == graph.nodes_spec(),
                c == count(nodes@.take(i as int), start_pred()),
                c <= i,
        {
            proof {
                lemma_count_step(nodes@, start_pred(), i as int);
            }
            if is_start(&nodes[i]) {
                c += 1;
            }
        }
        proof {
            lemma_take_full(nodes@);
        }
        let mut r: Vec<Diagnostic> = Vec::new();
        if c == 0 {
            r.push(
                mk(
                    self.name(),
                    Severity::Error,
                    owned(
                        "Pipeline must have exactly one start node (shape=Mdiamond or id start/Start)",
                    ),
                    None,
                    None,
                    owned("Add a node with shape=Mdiamond or id 'start'"),
                ),
            );
        } else if c > 1 {
            let n = usize_text(c);
            r.push(
                mk(
                    self.name(),
                    Severity::Error,
                    concat3("Pipeline has ", n.as_str(), " start nodes but must have exactly one"),
                    None,
                    None,
                    owned("Remove extra start nodes"),
                ),
            );
        }
        assert(diag_views(r@) =~= start_node_spec(*graph));
        r
    }
}

// ---------------------------------------------------------------------------
// Rule: terminal_node
// ---------------------------------------------------------------------------

/// At least one terminal node is required.
pub struct TerminalNodeRule;

pub open spec fn terminal_node_spec(g: Graph) -> Seq<DiagnosticView> {
    if count(g.nodes_spec(), terminal_pred()) == 0 {
        seq![
            dv(
                "terminal_node"@,
                Severity::Error,
                "Pipeline must have at least one terminal node (shape=Msquare or id exit/end)"@,
                None,
                None,
                Some("Add a node with shape=Msquare or id 'exit'/'end'"@),
            ),
        ]
    } else {
        Seq::empty()
    }
}

impl LintRule for TerminalNodeRule {
    fn name(&self) -> (r: &'static str)
        ensures
            r@ == "terminal_node"@,
    {
        "terminal_node"
    }

    fn apply(&self, graph: &Graph) -> (r: Vec<Diagnostic>)
        ensures
            diag_views(r@) == terminal_node_spec(*graph),
    {
        let nodes = graph.nodes();
        let mut c: usize = 0;
        for i in 0..nodes.len()
            invariant
                nodes@ == graph.nodes_spec(),
                c == count(nodes@.take(i as int), terminal_pred()),
                c <= i,
        {
            proof {
                lemma_count_step(nodes@, terminal_pred(), i as int);
            }
            if is_terminal(&nodes[i]) {
                c += 1;
            }
        }
        proof {
            lemma_take_full(nodes@);
        }
        let mut r: Vec<Diagnostic> = Vec::new();
        if c == 0 {
            r.push(
                mk(
                    self.name(),
                    Severity::Error,
                    owned(
                        "Pipeline must have at least one terminal node (shape=Msquare or id exit/end)",
                    ),
                    None,
                    None,
                    owned("Add a node with shape=Msquare or id 'exit'/'end'"),
                ),
            );
        }
        assert(diag_views(r@) =~= terminal_node_spec(*graph));
        r
    }
}

// ---------------------------------------------------------------------------
// Rule: edge_target_exists
// ---------------------------------------------------------------------------

/// Both ends of every edge must name a defined node.
pub struct EdgeTargetExistsRule;

pub open spec fn edge_target_diags(nodes: Seq<Node>, e: Edge) -> Seq<DiagnosticView> {
    (if !has_node_id(nodes, e.to@) {
        seq![
            dv(
                "edge_target_exists"@,
                Severity::Error,
                "Edge from '"@ + e.from@ + "' targets non-existent node '"@ + e.to@ + "'"@,
                None,
                Some((e.from@, e.to@)),
                Some("Define node '"@ + e.to@ + "' or fix the edge target"@),
            ),
        ]
    } else {
        Seq::empty()
    }) + (if !has_node_id(nodes, e.from@) {
        seq![
            dv(
                "edge_target_exists"@,
                Severity::Error,
                "Edge source '"@ + e.from@ + "' references non-existent node"@,
                None,
                Some((e.from@, e.to@)),
                Some("Define node '"@ + e.from@ + "' or fix the edge source"@),
            ),
        ]
    } else {
        Seq::empty()
    })
}

pub open spec fn edge_target_fn(nodes: Seq<Node>) -> spec_fn(Edge) -> Seq<DiagnosticView> {
    |e: Edge| edge_target_diags(nodes, e)
}

pub open spec fn edge_target_spec(g: Graph) -> Seq<DiagnosticView> {
    flat_map(g.edges_spec(), edge_target_fn(g.nodes_spec()))
}

fn edge_pair(e: &Edge) -> (r: Option<(String, String)>)
    ensures
        pair_view(r) == Some((e.from@, e.to@)),
{
    Some((e.from.clone(), e.to.clone()))
}

fn node_opt(id: &String) -> (r: Option<String>)
    ensures
        opt_view(r) == Some(id@),
{
    Some(id.clone())
}

impl EdgeTargetExistsRule {
    fn edge_diags(&self, graph: &Graph, e: &Edge) -> (r: Vec<Diagnostic>)
        ensures
            diag_views(r@) == edge_target_diags(graph.nodes_spec(), *e),
    {
        let mut r: Vec<Diagnostic> = Vec::new();
        if !graph.contains_node(e.to.as_str()) {
            let msg = concat5("Edge from '", e.from.as_str(), "' targets non-existent node '", e.to.as_str(), "'");
            let fix = concat3("Define node '", e.to.as_str(), "' or fix the edge target");
            r.push(mk(self.name(), Severity::Error, msg, None, edge_pair(e), fix));
        }
        if !graph.contains_node(e.from.as_str()) {
            let msg = concat3("Edge source '", e.from.as_str(), "' references non-existent node");
            let fix = concat3("Define node '", e.from.as_str(), "' or fix the edge source");
            r.push(mk(self.name(), Severity::Error, msg, None, edge_pair(e), fix));
        }
        assert(diag_views(r@) =~= edge_target_diags(graph.nodes_spec(), *e));
        r
    }
}

impl LintRule for EdgeTargetExistsRule {
    fn name(&self) -> (r: &'static str)
        ensures
            r@ == "edge_target_exists"@,
    {
        "edge_target_exists"
    }

    fn apply(&self, graph: &Graph) -> (r: Vec<Diagnostic>)
        ensures
            diag_views(r@) == edge_target_spec(*graph),
    {
        let edges = graph.edges();
        let ghost f = edge_target_fn(graph.nodes_spec());
        let mut r: Vec<Diagnostic> = Vec::new();
        for i in 0..edges.len()
            invariant
                edges@ == graph.edges_spec(),
                f == edge_target_fn(graph.nodes_spec()),
                diag_views(r@) == flat_map(edges@.take(i as int), f),
        {
            proof {
                lemma_flat_map_step(edges@, f, i as int);
            }
            let more = self.edge_diags(graph, &edges[i]);
            extend(&mut r, more);
        }
        proof {
            lemma_take_full(edges@);
        }
        r
    }
}

// ---------------------------------------------------------------------------
// Rule: start_no_incoming
// ---------------------------------------------------------------------------

/// The start node must have no incoming edges.
pub struct StartNoIncomingRule;

pub open spec fn start_no_incoming_spec(g: Graph) -> Seq<DiagnosticView> {
    match start_index(g.nodes_spec()) {
        None => Seq::empty(),
        Some(i) => {
            let id = g.nodes_spec()[i].id@;
            let c = count(g.edges_spec(), to_pred(id));
            if c > 0 {
                seq![
                    dv(
                        "start_no_incoming"@,
                        Severity::Error,
                        "Start node '"@ + id + "' has "@ + decimal(c)
                            + " incoming edge(s) but must have none"@,
                        Some(id),
                        None,
                        Some("Remove incoming edges to the start node"@),
                    ),
                ]
            } else {
                Seq::empty()
            }
        },
    }
}

impl LintRule for StartNoIncomingRule {
    fn name(&self) -> (r: &'static str)
        ensures
            r@ == "start_no_incoming"@,
    {
        "start_no_incoming"
    }

    fn apply(&self, graph: &Graph) -> (r: Vec<Diagnostic>)
        ensures
            diag_views(r@) == start_no_incoming_spec(*graph),
    {
        let mut r: Vec<Diagnostic> = Vec::new();
        match graph.find_start_node() {
            None => {},
            Some(start) => {
                let c = count_incoming(graph.edges(), start.id.as_str());
                if c > 0 {
                    let n = usize_text(c);
                    let msg = concat5(
                        "Start node '",
                        start.id.as_str(),
                        "' has ",
                        n.as_str(),
                        " incoming edge(s) but must have none",
                    );
                    r.push(
                        mk(
                            self.name(),
                            Severity::Error,
                            msg,
                            node_opt(&start.id),
                            None,
                            owned("Remove incoming edges to the start node"),
                        ),
                    );
                }
            },
        }
        assert(diag_views(r@) =~= start_no_incoming_spec(*graph));
        r
    }
}

// ---------------------------------------------------------------------------
// Rule: exit_no_outgoing
// ---------------------------------------------------------------------------

/// Terminal nodes must have no outgoing edges.
pub struct ExitNoOutgoingRule;

pub open spec fn exit_no_outgoing_diags(edges: Seq<Edge>, n: Node) -> Seq<DiagnosticView> {
    let c = count(edges, from_pred(n.id@));
    if is_terminal_node(n) && c > 0 {
        seq![
            dv(
                "exit_no_outgoing"@,
                Severity::Error,
                "Exit node '"@ + n.id@ + "' has "@ + decimal(c)
                    + " outgoing edge(s) but must have none"@,
                Some(n.id@),
                None,
                Some("Remove outgoing edges from the exit node"@),
            ),
        ]
    } else {
        Seq::empty()
    }
}

pub open spec fn exit_no_outgoing_fn(edges: Seq<Edge>) -> spec_fn(Node) -> Seq<DiagnosticView> {
    |n: Node| exit_no_outgoing_diags(edges, n)
}

pub open spec fn exit_no_outgoing_spec(g: Graph) -> Seq<DiagnosticView> {
    flat_map(g.nodes_spec(), exit_no_outgoing_fn(g.edges_spec()))
}

impl ExitNoOutgoingRule {
    fn node_diags(&self, graph: &Graph, n: &Node) -> (r: Vec<Diagnostic>)
        ensures
            diag_views(r@) == exit_no_outgoing_diags(graph.edges_spec(), *n),
    {
        let mut r: Vec<Diagnostic> = Vec::new();
        if is_terminal(n) {
            let c = count_outgoing(graph.edges(), n.id.as_str());
            if c > 0 {
                let k = usize_text(c);
                let msg = concat5(
                    "Exit node '",
                    n.id.as_str(),
                    "' has ",
                    k.as_str(),
                    " outgoing edge(s) but must have none",
                );
                r.push(
                    mk(
                        self.name(),
                        Severity::Error,
                        msg,
                        node_opt(&n.id),
                        None,
                        owned("Remove outgoing edges from the exit node"),
                    ),
                );
            }
        }
        assert(diag_views(r@) =~= exit_no_outgoing_diags(graph.edges_spec(), *n));
        r
    }
}

impl LintRule for ExitNoOutgoingRule {
    fn name(&self) -> (r: &'static str)
        ensures
            r@ == "exit_no_outgoing"@,
    {
        "exit_no_outgoing"
    }

    fn apply(&self, graph: &Graph) -> (r: Vec<Diagnostic>)
        ensures
            diag_views(r@) == exit_no_outgoing_spec(*graph),
    {
        let nodes = graph.nodes();
        let ghost f = exit_no_outgoing_fn(graph.edges_spec());
        let mut r: Vec<Diagnostic> = Vec::new();
        for i in 0..nodes.len()
            invariant
                nodes@ == graph.nodes_spec(),
                f == exit_no_outgoing_fn(graph.edges_spec()),
                diag_views(r@) == flat_map(nodes@.take(i as int), f),
        {
            proof {
                lemma_flat_map_step(nodes@, f, i as int);
            }
            let more = self.node_diags(graph, &nodes[i]);
            extend(&mut r, more);
        }
        proof {
            lemma_take_full(nodes@);
        }
        r
    }
}


// ---------------------------------------------------------------------------
// Rule: condition_syntax
// ---------------------------------------------------------------------------

/// Edge conditions must be `&&`-joined clauses of `key=value`, `key!=value`
/// or a bare key.
pub struct ConditionSyntaxRule;

/// A clause is invalid when it has no operator, holds a space, and does not
/// start with `context.`.
pub open spec fn clause_invalid(clause: Seq<char>) -> bool {
    let has_operator = contains_seq(clause, "!="@) || clause.contains('=');
    !has_operator && clause.contains(' ') && !has_prefix(clause, "context."@)
}

pub open spec fn clause_diags(e: Edge, raw: Seq<char>) -> Seq<DiagnosticView> {
    let clause = trim(raw);
    if clause.len() > 0 && clause_invalid(clause) {
        seq![
            dv(
                "condition_syntax"@,
                Severity::Error,
                "Invalid condition clause '"@ + clause + "' on edge "@ + e.from@ + " -> "@ + e.to@,
                None,
                Some((e.from@, e.to@)),
                Some("Use key=value or key!=value syntax"@),
            ),
        ]
    } else {
        Seq::empty()
    }
}

pub open spec fn clause_fn(e: Edge) -> spec_fn(Seq<char>) -> Seq<DiagnosticView> {
    |raw: Seq<char>| clause_diags(e, raw)
}

pub open spec fn condition_diags(e: Edge) -> Seq<DiagnosticView> {
    match e.attrs.str_spec("condition"@) {
        Some(c) => if c.len() == 0 {
            Seq::empty()
        } else {
            flat_map(split(c, "&&"@), clause_fn(e))
        },
        None => Seq::empty(),
    }
}

pub open spec fn condition_fn() -> spec_fn(Edge) -> Seq<DiagnosticView> {
    |e: Edge| condition_diags(e)
}

pub open spec fn condition_syntax_spec(g: Graph) -> Seq<DiagnosticView> {
    flat_map(g.edges_spec(), condition_fn())
}

impl ConditionSyntaxRule {
    fn edge_diags(&self, e: &Edge) -> (r: Vec<Diagnostic>)
        ensures
            diag_views(r@) == condition_diags(*e),
    {
        let mut r: Vec<Diagnostic> = Vec::new();
        let cond = match e.condition() {
            Some(c) => c,
            None => {
                return r;
            },
        };
        let cv = chars_of(cond);
        if cv.len() == 0 {
            assert(diag_views(r@) =~= condition_diags(*e));
            return r;
        }
        let sep = chars_of("&&");
        proof {
            reveal_strlit("&&");
        }
        let clauses = split_chars(&cv, &sep);
        let ghost pieces = clauses@.map_values(|v: Vec<char>| v@);
        let ghost f = clause_fn(*e);
        let op = chars_of("!=");
        let ctx = chars_of("context.");
        for i in 0..clauses.len()
            invariant
                pieces == clauses@.map_values(|v: Vec<char>| v@),
                pieces == split(cond@, "&&"@),
                f == clause_fn(*e),
                op@ == "!="@,
                ctx@ == "context."@,
                diag_views(r@) == flat_map(pieces.take(i as int), f),
        {
            proof {
                lemma_flat_map_step(pieces, f, i as int);
            }
            let clause = trim_chars(&clauses[i]);
            let has_operator = contains_chars(&clause, &op) || contains_char(&clause, '=');
            if clause.len() > 0 && !has_operator && contains_char(&clause, ' ')
                && !starts_with_chars(&clause, &ctx) {
                let cs = string_from_chars(&clause);
                let msg = concat6(
                    "Invalid condition clause '",
                    cs.as_str(),
                    "' on edge ",
                    e.from.as_str(),
                    " -> ",
                    e.to.as_str(),
                );
                let d = mk(
                    self.name(),
                    Severity::Error,
                    msg,
                    None,
                    edge_pair(e),
                    owned("Use key=value or key!=value syntax"),
                );
                let ghost r0 = r@;
                r.push(d);
                assert(diag_views(r@) =~= diag_views(r0) + clause_diags(*e, pieces[i as int]));
            } else {
                assert(clause_diags(*e, pieces[i as int]) =~= Seq::<DiagnosticView>::empty());
                assert(diag_views(r@) =~= diag_views(r@) + clause_diags(*e, pieces[i as int]));
            }
        }
        proof {
            lemma_take_full(pieces);
        }
        r
    }
}

impl LintRule for ConditionSyntaxRule {
    fn name(&self) -> (r: &'static str)
        ensures
            r@ == "condition_syntax"@,
    {
        "condition_syntax"
    }

    fn apply(&self, graph: &Graph) -> (r: Vec<Diagnostic>)
        ensures
            diag_views(r@) == condition_syntax_spec(*graph),
    {
        let edges = graph.edges();
        let ghost f = condition_fn();
        let mut r: Vec<Diagnostic> = Vec::new();
        for i in 0..edges.len()
            invariant
                edges@ == graph.edges_spec(),
                f == condition_fn(),
                diag_views(r@) == flat_map(edges@.take(i as int), f),
        {
            proof {
                lemma_flat_map_step(edges@, f, i as int);
            }
            let more = self.edge_diags(&edges[i]);
            extend(&mut r, more);
        }
        proof {
            lemma_take_full(edges@);
        }
        r
    }
}

// ---------------------------------------------------------------------------
// Rule: stylesheet_syntax
// ---------------------------------------------------------------------------

/// The model stylesheet must have balanced curly braces.
pub struct StylesheetSyntaxRule;

pub open spec fn stylesheet_syntax_spec(g: Graph) -> Seq<DiagnosticView> {
    let s = g.stylesheet_spec();
    let open = count(s, |c: char| c == '{');
    let close = count(s, |c: char| c == '}');
    if s.len() > 0 && open != close {
        seq![
            dv(
                "stylesheet_syntax"@,
                Severity::Error,
                "Model stylesheet has unbalanced braces ("@ + decimal(open) + " open, "@ + decimal(close)
                    + " close)"@,
                None,
                None,
                Some("Balance the curly braces in model_stylesheet"@),
            ),
        ]
    } else {
        Seq::empty()
    }
}

impl LintRule for StylesheetSyntaxRule {
    fn name(&self) -> (r: &'static str)
        ensures
            r@ == "stylesheet_syntax"@,
    {
        "stylesheet_syntax"
    }

    fn apply(&self, graph: &Graph) -> (r: Vec<Diagnostic>)
        ensures
            diag_views(r@) == stylesheet_syntax_spec(*graph),
    {
        let mut r: Vec<Diagnostic> = Vec::new();
        let cs = chars_of(graph.model_stylesheet());
        if cs.len() == 0 {
            assert(diag_views(r@) =~= stylesheet_syntax_spec(*graph));
            return r;
        }
        let open = count_char(&cs, '{');
        let close = count_char(&cs, '}');
        if open != close {
            let o = usize_text(open);
            let c = usize_text(close);
            let msg = concat5(
                "Model stylesheet has unbalanced braces (",
                o.as_str(),
                " open, ",
                c.as_str(),
                " close)",
            );
            r.push(
                mk(
                    self.name(),
                    Severity::Error,
                    msg,
                    None,
                    None,
                    owned("Balance the curly braces in model_stylesheet"),
                ),
            );
        }
        assert(diag_views(r@) =~= stylesheet_syntax_spec(*graph));
        r
    }
}

// ---------------------------------------------------------------------------
// Rule: type_known
// ---------------------------------------------------------------------------

/// A node's `type` must be a known handler type.
pub struct TypeKnownRule;

/// The handler types that the engine knows.
pub open spec fn known_handler_type(t: Seq<char>) -> bool {
    t == "start"@ || t == "exit"@ || t == "codergen"@ || t == "wait.human"@ || t
        == "conditional"@ || t == "parallel"@ || t == "parallel.fan_in"@ || t == "tool"@ || t
        == "stack.manager_loop"@
}

fn is_known_handler_type(t: &str) -> (r: bool)
    ensures
        r == known_handler_type(t@),
{
    str_eq(t, "start") || str_eq(t, "exit") || str_eq(t, "codergen") || str_eq(t, "wait.human")
        || str_eq(t, "conditional") || str_eq(t, "parallel") || str_eq(t, "parallel.fan_in")
        || str_eq(t, "tool") || str_eq(t, "stack.manager_loop")
}

pub open spec fn type_known_diags(n: Node) -> Seq<DiagnosticView> {
    match n.attrs.str_spec("type"@) {
        Some(t) => if !known_handler_type(t) {
            seq![
                dv(
                    "type_known"@,
                    Severity::Warning,
                    "Node '"@ + n.id@ + "' has unrecognized type '"@ + t + "'"@,
                    Some(n.id@),
                    None,
                    Some(
                        "Use one of: start, exit, codergen, wait.human, conditional, parallel, parallel.fan_in, tool, stack.manager_loop"@,
                    ),
                ),
            ]
        } else {
            Seq::empty()
        },
        None => Seq::empty(),
    }
}

pub open spec fn type_known_fn() -> spec_fn(Node) -> Seq<DiagnosticView> {
    |n: Node| type_known_diags(n)
}

pub open spec fn type_known_spec(g: Graph) -> Seq<DiagnosticView> {
    flat_map(g.nodes_spec(), type_known_fn())
}

impl TypeKnownRule {
    fn node_diags(&self, n: &Node) -> (r: Vec<Diagnostic>)
        ensures
            diag_views(r@) == type_known_diags(*n),
    {
        let mut r: Vec<Diagnostic> = Vec::new();
        if let Some(t) = n.node_type() {
            if !is_known_handler_type(t) {
                let msg = concat5("Node '", n.id.as_str(), "' has unrecognized type '", t, "'");
                r.push(
                    mk(
                        self.name(),
                        Severity::Warning,
                        msg,
                        node_opt(&n.id),
                        None,
                        owned(
                            "Use one of: start, exit, codergen, wait.human, conditional, parallel, parallel.fan_in, tool, stack.manager_loop",
                        ),
                    ),
                );
            }
        }
        assert(diag_views(r@) =~= type_known_diags(*n));
        r
    }
}

impl LintRule for TypeKnownRule {
    fn name(&self) -> (r: &'static str)
        ensures
            r@ == "type_known"@,
    {
        "type_known"
    }

    fn apply(&self, graph: &Graph) -> (r: Vec<Diagnostic>)
        ensures
            diag_views(r@) == type_known_spec(*graph),
    {
        let nodes = graph.nodes();
        let ghost f = type_known_fn();
        let mut r: Vec<Diagnostic> = Vec::new();
        for i in 0..nodes.len()
            invariant
                nodes@ == graph.nodes_spec(),
                f == type_known_fn(),
                diag_views(r@) == flat_map(nodes@.take(i as int), f),
        {
            proof {
                lemma_flat_map_step(nodes@, f, i as int);
            }
            let more = self.node_diags(&nodes[i]);
            extend(&mut r, more);
        }
        proof {
            lemma_take_full(nodes@);
        }
        r
    }
}

/// One of the handler types the engine runs: start, exit, codergen,
/// wait.human, conditional, parallel, parallel.fan_in, tool and
/// stack.manager_loop.
pub open spec fn engine_handler_type(t: Seq<char>) -> bool {
    ||| t == "start"@
    ||| t == "exit"@
    ||| t == "codergen"@
    ||| t == "wait.human"@
    ||| t == "conditional"@
    ||| t == "parallel"@
    ||| t == "parallel.fan_in"@
    ||| t == "tool"@
    ||| t == "stack.manager_loop"@
}

/// A node whose type is one of the engine's handler types gets no
/// `type_known` diagnostic.
pub proof fn law_engine_types_not_flagged(n: Node)
    requires
        n.attrs.str_spec("type"@) matches Some(t) && engine_handler_type(t),
    ensures
        type_known_diags(n) == Seq::<DiagnosticView>::empty(),
{
}

/// Every node of `ns` has no type or one of the engine's handler types.
pub open spec fn all_engine_types(ns: Seq<Node>) -> bool {
    forall|k: int| 0 <= k < ns.len() ==> match (#[trigger] ns[k]).attrs.str_spec("type"@) {
        Some(t) => engine_handler_type(t),
        None => true,
    }
}

proof fn lemma_engine_types_prefix(ns: Seq<Node>, i: int)
    requires
        all_engine_types(ns),
        0 <= i <= ns.len(),
    ensures
        flat_map(ns.take(i), type_known_fn()) == Seq::<DiagnosticView>::empty(),
    decreases i,
{
    if i == 0 {
        assert(ns.take(0) =~= Seq::<Node>::empty());
    } else {
        lemma_engine_types_prefix(ns, i - 1);
        lemma_flat_map_step(ns, type_known_fn(), i - 1);
        let n = ns[i - 1];
        match n.attrs.str_spec("type"@) {
            Some(t) => {
                law_engine_types_not_flagged(n);
            },
            None => {},
        }
        assert(type_known_fn()(n) == type_known_diags(n));
        assert(flat_map(ns.take(i), type_known_fn()) =~= Seq::<DiagnosticView>::empty());
    }
}

/// In a graph whose nodes all have no type or one of the engine's handler
/// types, the `type_known` rule reports nothing.
pub proof fn law_graph_of_engine_types_not_flagged(g: Graph)
    requires
        all_engine_types(g.nodes_spec()),
    ensures
        type_known_spec(g) == Seq::<DiagnosticView>::empty(),
{
    lemma_engine_types_prefix(g.nodes_spec(), g.nodes_spec().len() as int);
    lemma_take_full(g.nodes_spec());
}

// ---------------------------------------------------------------------------
// Rule: fidelity_valid
// ---------------------------------------------------------------------------

/// Fidelity modes on nodes, edges and the graph must be valid.
pub struct FidelityValidRule;

/// The valid fidelity modes.
pub open spec fn valid_fidelity(f: Seq<char>) -> bool {
    f == "full"@ || f == "truncate"@ || f == "compact"@ || f == "summary:low"@ || f
        == "summary:medium"@ || f == "summary:high"@
}

fn is_valid_fidelity(f: &str) -> (r: bool)
    ensures
        r == valid_fidelity(f@),
{
    str_eq(f, "full") || str_eq(f, "truncate") || str_eq(f, "compact") || str_eq(f, "summary:low")
        || str_eq(f, "summary:medium") || str_eq(f, "summary:high")
}

pub open spec fn fidelity_fix() -> Seq<char> {
    "Use one of: full, truncate, compact, summary:low, summary:medium, summary:high"@
}

fn fidelity_fix_text() -> (r: String)
    ensures
        r@ == fidelity_fix(),
{
    owned("Use one of: full, truncate, compact, summary:low, summary:medium, summary:high")
}

pub open spec fn fidelity_node_diags(n: Node) -> Seq<DiagnosticView> {
    match n.attrs.str_spec("fidelity"@) {
        Some(f) => if !valid_fidelity(f) {
            seq![
                dv(
                    "fidelity_valid"@,
                    Severity::Warning,
                    "Node '"@ + n.id@ + "' has invalid fidelity mode '"@ + f + "'"@,
                    Some(n.id@),
                    None,
                    Some(fidelity_fix()),
                ),
            ]
        } else {
            Seq::empty()
        },
        None => Seq::empty(),
    }
}

pub open spec fn fidelity_edge_diags(e: Edge) -> Seq<DiagnosticView> {
    match e.attrs.str_spec("fidelity"@) {
        Some(f) => if !valid_fidelity(f) {
            seq![
                dv(
                    "fidelity_valid"@,
                    Severity::Warning,
                    "Edge "@ + e.from@ + " -> "@ + e.to@ + " has invalid fidelity mode '"@ + f + "'"@,
                    None,
                    Some((e.from@, e.to@)),
                    Some(fidelity_fix()),
                ),
            ]
        } else {
            Seq::empty()
        },
        None => Seq::empty(),
    }
}

pub open spec fn fidelity_graph_diags(g: Graph) -> Seq<DiagnosticView> {
    match g.attrs_spec().str_spec("default_fidelity"@) {
        Some(f) => if !valid_fidelity(f) {
            seq![
                dv(
                    "fidelity_valid"@,
                    Severity::Warning,
                    "Graph has invalid default_fidelity '"@ + f + "'"@,
                    None,
                    None,
                    Some(fidelity_fix()),
                ),
            ]
        } else {
            Seq::empty()
        },
        None => Seq::empty(),
    }
}

pub open spec fn fidelity_node_fn() -> spec_fn(Node) -> Seq<DiagnosticView> {
    |n: Node| fidelity_node_diags(n)
}

pub open spec fn fidelity_edge_fn() -> spec_fn(Edge) -> Seq<DiagnosticView> {
    |e: Edge| fidelity_edge_diags(e)
}

pub open spec fn fidelity_valid_spec(g: Graph) -> Seq<DiagnosticView> {
    flat_map(g.nodes_spec(), fidelity_node_fn()) + flat_map(g.edges_spec(), fidelity_edge_fn())
        + fidelity_graph_diags(g)
}

impl FidelityValidRule {
    fn node_diags(&self, n: &Node) -> (r: Vec<Diagnostic>)
        ensures
            diag_views(r@) == fidelity_node_diags(*n),
    {
        let mut r: Vec<Diagnostic> = Vec::new();
        if let Some(f) = n.fidelity() {
            if !is_valid_fidelity(f) {
                let msg = concat5("Node '", n.id.as_str(), "' has invalid fidelity mode '", f, "'");
                r.push(
                    mk(
                        self.name(),
                        Severity::Warning,
                        msg,
                        node_opt(&n.id),
                        None,
                        fidelity_fix_text(),
                    ),
                );
            }
        }
        assert(diag_views(r@) =~= fidelity_node_diags(*n));
        r
    }

    fn edge_diags(&self, e: &Edge) -> (r: Vec<Diagnostic>)
        ensures
            diag_views(r@) == fidelity_edge_diags(*e),
    {
        let mut r: Vec<Diagnostic> = Vec::new();
        if let Some(f) = e.fidelity() {
            if !is_valid_fidelity(f) {
                let mut msg = concat5(
                    "Edge ",
                    e.from.as_str(),
                    " -> ",
                    e.to.as_str(),
                    " has invalid fidelity mode '",
                );
                crate::text::append_str(&mut msg, f);
                crate::text::append_str(&mut msg, "'");
                r.push(
                    mk(self.name(), Severity::Warning, msg, None, edge_pair(e), fidelity_fix_text()),
                );
            }
        }
        assert(diag_views(r@) =~= fidelity_edge_diags(*e));
        r
    }
}

impl LintRule for FidelityValidRule {
    fn name(&self) -> (r: &'static str)
        ensures
            r@ == "fidelity_valid"@,
    {
        "fidelity_valid"
    }

    fn apply(&self, graph: &Graph) -> (r: Vec<Diagnostic>)
        ensures
            diag_views(r@) == fidelity_valid_spec(*graph),
    {
        let nodes = graph.nodes();
        let ghost f = fidelity_node_fn();
        let mut r: Vec<Diagnostic> = Vec::new();
        for i in 0..nodes.len()
            invariant
                nodes@ == graph.nodes_spec(),
                f == fidelity_node_fn(),
                diag_views(r@) == flat_map(nodes@.take(i as int), f),
        {
            proof {
                lemma_flat_map_step(nodes@, f, i as int);
            }
            let more = self.node_diags(&nodes[i]);
            extend(&mut r, more);
        }
        proof {
            lemma_take_full(nodes@);
        }
        let ghost part1 = diag_views(r@);
        let edges = graph.edges();
        let ghost fe = fidelity_edge_fn();
        let mut r2: Vec<Diagnostic> = Vec::new();
        for i in 0..edges.len()
            invariant
                edges@ == graph.edges_spec(),
                fe == fidelity_edge_fn(),
                diag_views(r2@) == flat_map(edges@.take(i as int), fe),
        {
            proof {
                lemma_flat_map_step(edges@, fe, i as int);
            }
            let more = self.edge_diags(&edges[i]);
            extend(&mut r2, more);
        }
        proof {
            lemma_take_full(edges@);
        }
        extend(&mut r, r2);
        let mut r3: Vec<Diagnostic> = Vec::new();
        if let Some(fid) = graph.default_fidelity() {
            if !is_valid_fidelity(fid) {
                let msg = concat3("Graph has invalid default_fidelity '", fid, "'");
                r3.push(mk(self.name(), Severity::Warning, msg, None, None, fidelity_fix_text()));
            }
        }
        assert(diag_views(r3@) =~= fidelity_graph_diags(*graph));
        extend(&mut r, r3);
        r
    }
}

// ---------------------------------------------------------------------------
// Rule: retry_target_exists
// ---------------------------------------------------------------------------

/// Retry targets on nodes and on the graph must name defined nodes.
pub struct RetryTargetExistsRule;

pub open spec fn retry_node_diags(nodes: Seq<Node>, n: Node) -> Seq<DiagnosticView> {
    (match n.attrs.str_spec("retry_target"@) {
        Some(t) => if !has_node_id(nodes, t) {
            seq![
                dv(
                    "retry_target_exists"@,
                    Severity::Warning,
                    "Node '"@ + n.id@ + "' has retry_target '"@ + t + "' that does not exist"@,
                    Some(n.id@),
                    None,
                    Some("Define node '"@ + t + "' or fix retry_target"@),
                ),
            ]
        } else {
            Seq::empty()
        },
        None => Seq::empty(),
    }) + (match n.attrs.str_spec("fallback_retry_target"@) {
        Some(t) => if !has_node_id(nodes, t) {
            seq![
                dv(
                    "retry_target_exists"@,
                    Severity::Warning,
                    "Node '"@ + n.id@ + "' has fallback_retry_target '"@ + t
                        + "' that does not exist"@,
                    Some(n.id@),
                    None,
                    Some("Define node '"@ + t + "' or fix fallback_retry_target"@),
                ),
            ]
        } else {
            Seq::empty()
        },
        None => Seq::empty(),
    })
}

pub open spec fn retry_graph_diags(g: Graph) -> Seq<DiagnosticView> {
    (match g.attrs_spec().str_spec("retry_target"@) {
        Some(t) => if !has_node_id(g.nodes_spec(), t) {
            seq![
                dv(
                    "retry_target_exists"@,
                    Severity::Warning,
                    "Graph has retry_target '"@ + t + "' that does not exist"@,
                    None,
                    None,
                    Some("Define node '"@ + t + "' or fix graph retry_target"@),
                ),
            ]
        } else {
            Seq::empty()
        },
        None => Seq::empty(),
    }) + (match g.attrs_spec().str_spec("fallback_retry_target"@) {
        Some(t) => if !has_node_id(g.nodes_spec(), t) {
            seq![
                dv(
                    "retry_target_exists"@,
                    Severity::Warning,
                    "Graph has fallback_retry_target '"@ + t + "' that does not exist"@,
                    None,
                    None,
                    Some("Define node '"@ + t + "' or fix graph fallback_retry_target"@),
                ),
            ]
        } else {
            Seq::empty()
        },
        None => Seq::empty(),
    })
}

pub open spec fn retry_node_fn(nodes: Seq<Node>) -> spec_fn(Node) -> Seq<DiagnosticView> {
    |n: Node| retry_node_diags(nodes, n)
}

pub open spec fn retry_target_spec(g: Graph) -> Seq<DiagnosticView> {
    flat_map(g.nodes_spec(), retry_node_fn(g.nodes_spec())) + retry_graph_diags(g)
}

impl RetryTargetExistsRule {
    fn node_diags(&self, graph: &Graph, n: &Node) -> (r: Vec<Diagnostic>)
        ensures
            diag_views(r@) == retry_node_diags(graph.nodes_spec(), *n),
    {
        let mut r: Vec<Diagnostic> = Vec::new();
        if let Some(t) = n.retry_target() {
            if !graph.contains_node(t) {
                let msg = concat5("Node '", n.id.as_str(), "' has retry_target '", t, "' that does not exist");
                let fix = concat3("Define node '", t, "' or fix retry_target");
                r.push(mk(self.name(), Severity::Warning, msg, node_opt(&n.id), None, fix));
            }
        }
        if let Some(t) = n.fallback_retry_target() {
            if !graph.contains_node(t) {
                let msg = concat5(
                    "Node '",
                    n.id.as_str(),
                    "' has fallback_retry_target '",
                    t,
                    "' that does not exist",
                );
                let fix = concat3("Define node '", t, "' or fix fallback_retry_target");
                r.push(mk(self.name(), Severity::Warning, msg, node_opt(&n.id), None, fix));
            }
        }
        assert(diag_views(r@) =~= retry_node_diags(graph.nodes_spec(), *n));
        r
    }
}

impl LintRule for RetryTargetExistsRule {
    fn name(&self) -> (r: &'static str)
        ensures
            r@ == "retry_target_exists"@,
    {
        "retry_target_exists"
    }

    fn apply(&self, graph: &Graph) -> (r: Vec<Diagnostic>)
        ensures
            diag_views(r@) == retry_target_spec(*graph),
    {
        let nodes = graph.nodes();
        let ghost f = retry_node_fn(graph.nodes_spec());
        let mut r: Vec<Diagnostic> = Vec::new();
        for i in 0..nodes.len()
            invariant
                nodes@ == graph.nodes_spec(),
                f == retry_node_fn(graph.nodes_spec()),
                diag_views(r@) == flat_map(nodes@.take(i as int), f),
        {
            proof {
                lemma_flat_map_step(nodes@, f, i as int);
            }
            let more = self.node_diags(graph, &nodes[i]);
            extend(&mut r, more);
        }
        proof {
            lemma_take_full(nodes@);
        }
        let mut r2: Vec<Diagnostic> = Vec::new();
        if let Some(t) = graph.retry_target() {
            if !graph.contains_node(t) {
                let msg = concat3("Graph has retry_target '", t, "' that does not exist");
                let fix = concat3("Define node '", t, "' or fix graph retry_target");
                r2.push(mk(self.name(), Severity::Warning, msg, None, None, fix));
            }
        }
        if let Some(t) = graph.fallback_retry_target() {
            if !graph.contains_node(t) {
                let msg = concat3("Graph has fallback_retry_target '", t, "' that does not exist");
                let fix = concat3("Define node '", t, "' or fix graph fallback_retry_target");
                r2.push(mk(self.name(), Severity::Warning, msg, None, None, fix));
            }
        }
        assert(diag_views(r2@) =~= retry_graph_diags(*graph));
        extend(&mut r, r2);
        r
    }
}

// ---------------------------------------------------------------------------
// Rule: goal_gate_has_retry
// ---------------------------------------------------------------------------

/// A goal gate needs somewhere to retry to.
pub struct GoalGateHasRetryRule;

pub open spec fn graph_has_retry(g: Graph) -> bool {
    g.attrs_spec().str_spec("retry_target"@) is Some || g.attrs_spec().str_spec(
        "fallback_retry_target"@,
    ) is Some
}

pub open spec fn goal_gate_diags(graph_retry: bool, n: Node) -> Seq<DiagnosticView> {
    let node_retry = n.attrs.str_spec("retry_target"@) is Some || n.attrs.str_spec(
        "fallback_retry_target"@,
    ) is Some;
    if crate::graph::flag_spec(n.attrs, "goal_gate"@) && !node_retry && !graph_retry {
        seq![
            dv(
                "goal_gate_has_retry"@,
                Severity::Warning,
                "Node '"@ + n.id@
                    + "' has goal_gate=true but no retry_target or fallback_retry_target"@,
                Some(n.id@),
                None,
                Some("Add retry_target or fallback_retry_target attribute"@),
            ),
        ]
    } else {
        Seq::empty()
    }
}

pub open spec fn goal_gate_fn(graph_retry: bool) -> spec_fn(Node) -> Seq<DiagnosticView> {
    |n: Node| goal_gate_diags(graph_retry, n)
}

pub open spec fn goal_gate_spec(g: Graph) -> Seq<DiagnosticView> {
    flat_map(g.nodes_spec(), goal_gate_fn(graph_has_retry(g)))
}

impl LintRule for GoalGateHasRetryRule {
    fn name(&self) -> (r: &'static str)
        ensures
            r@ == "goal_gate_has_retry"@,
    {
        "goal_gate_has_retry"
    }

    fn apply(&self, graph: &Graph) -> (r: Vec<Diagnostic>)
        ensures
            diag_views(r@) == goal_gate_spec(*graph),
    {
        let graph_retry = graph.retry_target().is_some() || graph.fallback_retry_target().is_some();
        let nodes = graph.nodes();
        let ghost f = goal_gate_fn(graph_has_retry(*graph));
        let mut r: Vec<Diagnostic> = Vec::new();
        for i in 0..nodes.len()
            invariant
                nodes@ == graph.nodes_spec(),
                graph_retry == graph_has_retry(*graph),
                f == goal_gate_fn(graph_has_retry(*graph)),
                diag_views(r@) == flat_map(nodes@.take(i as int), f),
        {
            proof {
                lemma_flat_map_step(nodes@, f, i as int);
            }
            let n = &nodes[i];
            let node_retry = n.retry_target().is_some() || n.fallback_retry_target().is_some();
            let ghost r0 = r@;
            if n.goal_gate() && !node_retry && !graph_retry {
                let msg = concat3(
                    "Node '",
                    n.id.as_str(),
                    "' has goal_gate=true but no retry_target or fallback_retry_target",
                );
                r.push(
                    mk(
                        self.name(),
                        Severity::Warning,
                        msg,
                        node_opt(&n.id),
                        None,
                        owned("Add retry_target or fallback_retry_target attribute"),
                    ),
                );
            }
            assert(diag_views(r@) =~= diag_views(r0) + goal_gate_diags(graph_retry, *n));
        }
        proof {
            lemma_take_full(nodes@);
        }
        r
    }
}

// ---------------------------------------------------------------------------
// Rule: prompt_on_llm_nodes
// ---------------------------------------------------------------------------

/// Codergen nodes need a prompt or a label.
pub struct PromptOnLlmNodesRule;

pub open spec fn nonempty_attr(a: crate::graph::Attrs, key: Seq<char>) -> bool {
    match a.str_spec(key) {
        Some(s) => s.len() > 0,
        None => false,
    }
}

pub open spec fn prompt_diags(n: Node) -> Seq<DiagnosticView> {
    if n.handler_type_spec() == Some("codergen"@) && !nonempty_attr(n.attrs, "prompt"@)
        && !nonempty_attr(n.attrs, "label"@) {
        seq![
            dv(
                "prompt_on_llm_nodes"@,
                Severity::Warning,
                "Codergen node '"@ + n.id@ + "' has no prompt or label attribute"@,
                Some(n.id@),
                None,
                Some("Add a prompt or label attribute"@),
            ),
        ]
    } else {
        Seq::empty()
    }
}

pub open spec fn prompt_fn() -> spec_fn(Node) -> Seq<DiagnosticView> {
    |n: Node| prompt_diags(n)
}

pub open spec fn prompt_on_llm_spec(g: Graph) -> Seq<DiagnosticView> {
    flat_map(g.nodes_spec(), prompt_fn())
}

fn has_nonempty(a: &crate::graph::Attrs, key: &str) -> (r: bool)
    ensures
        r == nonempty_attr(*a, key@),
{
    match a.get_str(key) {
        Some(s) => !s.is_empty(),
        None => false,
    }
}

impl LintRule for PromptOnLlmNodesRule {
    fn name(&self) -> (r: &'static str)
        ensures
            r@ == "prompt_on_llm_nodes"@,
    {
        "prompt_on_llm_nodes"
    }

    fn apply(&self, graph: &Graph) -> (r: Vec<Diagnostic>)
        ensures
            diag_views(r@) == prompt_on_llm_spec(*graph),
    {
        let nodes = graph.nodes();
        let ghost f = prompt_fn();
        let mut r: Vec<Diagnostic> = Vec::new();
        for i in 0..nodes.len()
            invariant
                nodes@ == graph.nodes_spec(),
                f == prompt_fn(),
                diag_views(r@) == flat_map(nodes@.take(i as int), f),
        {
            proof {
                lemma_flat_map_step(nodes@, f, i as int);
            }
            let n = &nodes[i];
            let is_codergen = match n.handler_type() {
                Some(t) => str_eq(t, "codergen"),
                None => false,
            };
            let ghost r0 = r@;
            if is_codergen && !has_nonempty(&n.attrs, "prompt") && !has_nonempty(&n.attrs, "label") {
                let msg = concat3("Codergen node '", n.id.as_str(), "' has no prompt or label attribute");
                r.push(
                    mk(
                        self.name(),
                        Severity::Warning,
                        msg,
                        node_opt(&n.id),
                        None,
                        owned("Add a prompt or label attribute"),
                    ),
                );
            }
            assert(diag_views(r@) =~= diag_views(r0) + prompt_diags(*n));
        }
        proof {
            lemma_take_full(nodes@);
        }
        r
    }
}

// ---------------------------------------------------------------------------
// Rule: freeform_edge_count
// ---------------------------------------------------------------------------

/// A human gate may have at most one free-form edge.
pub struct FreeformEdgeCountRule;

pub open spec fn freeform_diags(edges: Seq<Edge>, n: Node) -> Seq<DiagnosticView> {
    let c = count(edges, freeform_from_pred(n.id@));
    if n.handler_type_spec() == Some("wait.human"@) && c > 1 {
        seq![
            dv(
                "freeform_edge_count"@,
                Severity::Error,
                "wait.human node '"@ + n.id@ + "' has "@ + decimal(c)
                    + " freeform edges but at most one is allowed"@,
                Some(n.id@),
                None,
                Some("Remove extra freeform=true edges so at most one remains"@),
            ),
        ]
    } else {
        Seq::empty()
    }
}

pub open spec fn freeform_fn(edges: Seq<Edge>) -> spec_fn(Node) -> Seq<DiagnosticView> {
    |n: Node| freeform_diags(edges, n)
}

pub open spec fn freeform_spec(g: Graph) -> Seq<DiagnosticView> {
    flat_map(g.nodes_spec(), freeform_fn(g.edges_spec()))
}

impl LintRule for FreeformEdgeCountRule {
    fn name(&self) -> (r: &'static str)
        ensures
            r@ == "freeform_edge_count"@,
    {
        "freeform_edge_count"
    }

    fn apply(&self, graph: &Graph) -> (r: Vec<Diagnostic>)
        ensures
            diag_views(r@) == freeform_spec(*graph),
    {
        let nodes = graph.nodes();
        let ghost f = freeform_fn(graph.edges_spec());
        let mut r: Vec<Diagnostic> = Vec::new();
        for i in 0..nodes.len()
            invariant
                nodes@ == graph.nodes_spec(),
                f == freeform_fn(graph.edges_spec()),
                diag_views(r@) == flat_map(nodes@.take(i as int), f),
        {
            proof {
                lemma_flat_map_step(nodes@, f, i as int);
            }
            let n = &nodes[i];
            let is_gate = match n.handler_type() {
                Some(t) => str_eq(t, "wait.human"),
                None => false,
            };
            let ghost r0 = r@;
            if is_gate {
                let c = count_freeform_outgoing(graph.edges(), n.id.as_str());
                if c > 1 {
                    let k = usize_text(c);
                    let msg = concat5(
                        "wait.human node '",
                        n.id.as_str(),
                        "' has ",
                        k.as_str(),
                        " freeform edges but at most one is allowed",
                    );
                    r.push(
                        mk(
                            self.name(),
                            Severity::Error,
                            msg,
                            node_opt(&n.id),
                            None,
                            owned("Remove extra freeform=true edges so at most one remains"),
                        ),
                    );
                }
            }
            assert(diag_views(r@) =~= diag_views(r0) + freeform_diags(graph.edges_spec(), *n));
        }
        proof {
            lemma_take_full(nodes@);
        }
        r
    }
}

// ---------------------------------------------------------------------------
// Rule: reachability
// ---------------------------------------------------------------------------

/// Every node must be reachable from the start node.
pub struct ReachabilityRule;

/// The ids of the nodes that cannot be reached from id `s`, in node order.
pub open spec fn unreachable_node_ids(g: Graph, s: Seq<char>) -> Seq<Seq<char>> {
    flat_map(g.nodes_spec(), unreachable_fn(g.edges_spec(), s))
}

pub open spec fn unreachable_fn(edges: Seq<Edge>, s: Seq<char>) -> spec_fn(Node) -> Seq<Seq<char>> {
    |n: Node| if !reachable(edges, s, n.id@) { seq![n.id@] } else { Seq::empty() }
}

pub open spec fn unreachable_diag(id: Seq<char>) -> DiagnosticView {
    dv(
        "reachability"@,
        Severity::Error,
        "Node '"@ + id + "' is not reachable from the start node"@,
        Some(id),
        None,
        Some("Add an edge path from the start node to '"@ + id + "'"@),
    )
}

/// The reachability findings: one per unreachable node, ordered by id.
pub open spec fn reachability_holds(g: Graph, r: Seq<DiagnosticView>) -> bool {
    match start_index(g.nodes_spec()) {
        None => r.len() == 0,
        Some(i) => exists|ids: Seq<Seq<char>>|
            #![trigger sorted_lex(ids)]
            sorted_lex(ids) && ids.to_multiset() == unreachable_node_ids(
                g,
                g.nodes_spec()[i].id@,
            ).to_multiset() && r == ids.map_values(|id: Seq<char>| unreachable_diag(id)),
    }
}

impl LintRule for ReachabilityRule {
    fn name(&self) -> (r: &'static str)
        ensures
            r@ == "reachability"@,
    {
        "reachability"
    }

    fn apply(&self, graph: &Graph) -> (r: Vec<Diagnostic>)
        ensures
            reachability_holds(*graph, diag_views(r@)),
    {
        let start = match graph.find_start_node() {
            Some(s) => s,
            None => {
                return Vec::new();
            },
        };
        let seen = reachable_ids(graph.edges(), start.id.as_str());
        let nodes = graph.nodes();
        let ghost f = unreachable_fn(graph.edges_spec(), start.id@);
        let mut ids: Vec<Vec<char>> = Vec::new();
        for i in 0..nodes.len()
            invariant
                nodes@ == graph.nodes_spec(),
                f == unreachable_fn(graph.edges_spec(), start.id@),
                forall|x: Seq<char>|
                    #![trigger reachable(graph.edges_spec(), start.id@, x)]
                    seen@.map_values(|v: Vec<char>| v@).contains(x) <==> reachable(
                        graph.edges_spec(),
                        start.id@,
                        x,
                    ),
                ids@.map_values(|v: Vec<char>| v@) == flat_map(nodes@.take(i as int), f),
        {
            proof {
                lemma_flat_map_step(nodes@, f, i as int);
            }
            let id = chars_of(nodes[i].id.as_str());
            let ghost before = ids@.map_values(|v: Vec<char>| v@);
            if !contains_id(&seen, &id) {
                ids.push(id);
                assert(ids@.map_values(|v: Vec<char>| v@) =~= before + seq![nodes@[i as int].id@]);
            } else {
                assert(before =~= before + Seq::<Seq<char>>::empty());
            }
        }
        proof {
            lemma_take_full(nodes@);
        }
        let sorted = sort_ids(ids);
        let ghost sv = sorted@.map_values(|v: Vec<char>| v@);
        let mut r: Vec<Diagnostic> = Vec::new();
        for k in 0..sorted.len()
            invariant
                sv == sorted@.map_values(|v: Vec<char>| v@),
                diag_views(r@) == sv.take(k as int).map_values(|id: Seq<char>| unreachable_diag(id)),
        {
            let id = string_from_chars(&sorted[k]);
            let msg = concat3("Node '", id.as_str(), "' is not reachable from the start node");
            let fix = concat3("Add an edge path from the start node to '", id.as_str(), "'");
            let ghost r0 = diag_views(r@);
            r.push(mk(self.name(), Severity::Error, msg, Some(id), None, fix));
            assert(sv.take(k + 1) =~= sv.take(k as int).push(sv[k as int]));
            assert(diag_views(r@) =~= r0.push(unreachable_diag(sv[k as int])));
        }
        proof {
            lemma_take_full(sv);
            assert(sorted_lex(sv));
        }
        r
    }
}

// ---------------------------------------------------------------------------
// The built-in rule set
// ---------------------------------------------------------------------------

/// One of the built-in lint rules.
pub enum BuiltInRule {
    StartNode(StartNodeRule),
    TerminalNode(TerminalNodeRule),
    Reachability(ReachabilityRule),
    EdgeTargetExists(EdgeTargetExistsRule),
    StartNoIncoming(StartNoIncomingRule),
    ExitNoOutgoing(ExitNoOutgoingRule),
    ConditionSyntax(ConditionSyntaxRule),
    StylesheetSyntax(StylesheetSyntaxRule),
    TypeKnown(TypeKnownRule),
    FidelityValid(FidelityValidRule),
    RetryTargetExists(RetryTargetExistsRule),
    GoalGateHasRetry(GoalGateHasRetryRule),
    PromptOnLlmNodes(PromptOnLlmNodesRule),
    FreeformEdgeCount(FreeformEdgeCountRule),
}

/// What a built-in rule reports about a graph.
pub open spec fn rule_holds(rule: BuiltInRule, g: Graph, r: Seq<DiagnosticView>) -> bool {
    match rule {
        BuiltInRule::StartNode(_) => r == start_node_spec(g),
        BuiltInRule::TerminalNode(_) => r == terminal_node_spec(g),
        BuiltInRule::Reachability(_) => reachability_holds(g, r),
        BuiltInRule::EdgeTargetExists(_) => r == edge_target_spec(g),
        BuiltInRule::StartNoIncoming(_) => r == start_no_incoming_spec(g),
        BuiltInRule::ExitNoOutgoing(_) => r == exit_no_outgoing_spec(g),
        BuiltInRule::ConditionSyntax(_) => r == condition_syntax_spec(g),
        BuiltInRule::StylesheetSyntax(_) => r == stylesheet_syntax_spec(g),
        BuiltInRule::TypeKnown(_) => r == type_known_spec(g),
        BuiltInRule::FidelityValid(_) => r == fidelity_valid_spec(g),
        BuiltInRule::RetryTargetExists(_) => r == retry_target_spec(g),
        BuiltInRule::GoalGateHasRetry(_) => r == goal_gate_spec(g),
        BuiltInRule::PromptOnLlmNodes(_) => r == prompt_on_llm_spec(g),
        BuiltInRule::FreeformEdgeCount(_) => r == freeform_spec(g),
    }
}

pub open spec fn rule_name(rule: BuiltInRule) -> Seq<char> {
    match rule {
        BuiltInRule::StartNode(_) => "start_node"@,
        BuiltInRule::TerminalNode(_) => "terminal_node"@,
        BuiltInRule::Reachability(_) => "reachability"@,
        BuiltInRule::EdgeTargetExists(_) => "edge_target_exists"@,
        BuiltInRule::StartNoIncoming(_) => "start_no_incoming"@,
        BuiltInRule::ExitNoOutgoing(_) => "exit_no_outgoing"@,
        BuiltInRule::ConditionSyntax(_) => "condition_syntax"@,
        BuiltInRule::StylesheetSyntax(_) => "stylesheet_syntax"@,
        BuiltInRule::TypeKnown(_) => "type_known"@,
        BuiltInRule::FidelityValid(_) => "fidelity_valid"@,
        BuiltInRule::RetryTargetExists(_) => "retry_target_exists"@,
        BuiltInRule::GoalGateHasRetry(_) => "goal_gate_has_retry"@,
        BuiltInRule::PromptOnLlmNodes(_) => "prompt_on_llm_nodes"@,
        BuiltInRule::FreeformEdgeCount(_) => "freeform_edge_count"@,
    }
}

impl LintRule for BuiltInRule {
    fn name(&self) -> (r: &'static str)
        ensures
            r@ == rule_name(*self),
    {
        match self {
            BuiltInRule::StartNode(x) => x.name(),
            BuiltInRule::TerminalNode(x) => x.name(),
            BuiltInRule::Reachability(x) => x.name(),
            BuiltInRule::EdgeTargetExists(x) => x.name(),
            BuiltInRule::StartNoIncoming(x) => x.name(),
            BuiltInRule::ExitNoOutgoing(x) => x.name(),
            BuiltInRule::ConditionSyntax(x) => x.name(),
            BuiltInRule::StylesheetSyntax(x) => x.name(),
            BuiltInRule::TypeKnown(x) => x.name(),
            BuiltInRule::FidelityValid(x) => x.name(),
            BuiltInRule::RetryTargetExists(x) => x.name(),
            BuiltInRule::GoalGateHasRetry(x) => x.name(),
            BuiltInRule::PromptOnLlmNodes(x) => x.name(),
            BuiltInRule::FreeformEdgeCount(x) => x.name(),
        }
    }

    fn apply(&self, graph: &Graph) -> (r: Vec<Diagnostic>)
        ensures
            rule_holds(*self, *graph, diag_views(r@)),
    {
        match self {
            BuiltInRule::StartNode(x) => x.apply(graph),
            BuiltInRule::TerminalNode(x) => x.apply(graph),
            BuiltInRule::Reachability(x) => x.apply(graph),
            BuiltInRule::EdgeTargetExists(x) => x.apply(graph),
            BuiltInRule::StartNoIncoming(x) => x.apply(graph),
            BuiltInRule::ExitNoOutgoing(x) => x.apply(graph),
            BuiltInRule::ConditionSyntax(x) => x.apply(graph),
            BuiltInRule::StylesheetSyntax(x) => x.apply(graph),
            BuiltInRule::TypeKnown(x) => x.apply(graph),
            BuiltInRule::FidelityValid(x) => x.apply(graph),
            BuiltInRule::RetryTargetExists(x) => x.apply(graph),
            BuiltInRule::GoalGateHasRetry(x) => x.apply(graph),
            BuiltInRule::PromptOnLlmNodes(x) => x.apply(graph),
            BuiltInRule::FreeformEdgeCount(x) => x.apply(graph),
        }
    }
}

/// The built-in lint rules, in the order they run.
pub open spec fn built_in_rule_names() -> Seq<Seq<char>> {
    seq![
        "start_node"@,
        "terminal_node"@,
        "reachability"@,
        "edge_target_exists"@,
        "start_no_incoming"@,
        "exit_no_outgoing"@,
        "condition_syntax"@,
        "stylesheet_syntax"@,
        "type_known"@,
        "fidelity_valid"@,
        "retry_target_exists"@,
        "goal_gate_has_retry"@,
        "prompt_on_llm_nodes"@,
        "freeform_edge_count"@,
    ]
}

/// The built-in rules as values.
pub open spec fn built_in_rules_spec() -> Seq<BuiltInRule> {
    seq![
        BuiltInRule::StartNode(StartNodeRule),
        BuiltInRule::TerminalNode(TerminalNodeRule),
        BuiltInRule::Reachability(ReachabilityRule),
        BuiltInRule::EdgeTargetExists(EdgeTargetExistsRule),
        BuiltInRule::StartNoIncoming(StartNoIncomingRule),
        BuiltInRule::ExitNoOutgoing(ExitNoOutgoingRule),
        BuiltInRule::ConditionSyntax(ConditionSyntaxRule),
        BuiltInRule::StylesheetSyntax(StylesheetSyntaxRule),
        BuiltInRule::TypeKnown(TypeKnownRule),
        BuiltInRule::FidelityValid(FidelityValidRule),
        BuiltInRule::RetryTargetExists(RetryTargetExistsRule),
        BuiltInRule::GoalGateHasRetry(GoalGateHasRetryRule),
        BuiltInRule::PromptOnLlmNodes(PromptOnLlmNodesRule),
        BuiltInRule::FreeformEdgeCount(FreeformEdgeCountRule),
    ]
}

/// All built-in lint rules, one of each, in the order they run.
pub fn built_in_rules() -> (r: Vec<BuiltInRule>)
    ensures
        r@ == built_in_rules_spec(),
        r@.map_values(|x: BuiltInRule| rule_name(x)) == built_in_rule_names(),
{
    let r = vec![
        BuiltInRule::StartNode(StartNodeRule),
        BuiltInRule::TerminalNode(TerminalNodeRule),
        BuiltInRule::Reachability(ReachabilityRule),
        BuiltInRule::EdgeTargetExists(EdgeTargetExistsRule),
        BuiltInRule::StartNoIncoming(StartNoIncomingRule),
        BuiltInRule::ExitNoOutgoing(ExitNoOutgoingRule),
        BuiltInRule::ConditionSyntax(ConditionSyntaxRule),
        BuiltInRule::StylesheetSyntax(StylesheetSyntaxRule),
        BuiltInRule::TypeKnown(TypeKnownRule),
        BuiltInRule::FidelityValid(FidelityValidRule),
        BuiltInRule::RetryTargetExists(RetryTargetExistsRule),
        BuiltInRule::GoalGateHasRetry(GoalGateHasRetryRule),
        BuiltInRule::PromptOnLlmNodes(PromptOnLlmNodesRule),
        BuiltInRule::FreeformEdgeCount(FreeformEdgeCountRule),
    ];
    assert(r@ =~= built_in_rules_spec());
    assert(r@.map_values(|x: BuiltInRule| rule_name(x)) =~= built_in_rule_names());
    r
}

} // verus!
