use vstd::prelude::*;

use crate::context::{
    entry_position, entry_views, lookup, status_text, value_text, Context, ContextValue, Outcome, OutcomeView,
    ValueView,
};
use crate::graph::Graph;
use crate::reach::{lemma_sorted_order, sort_ids, sorted_order};
use crate::text::{
    chars_of, concat2, concat3, concat4, decimal, first_index, flat_map, has_prefix, join, join_strings,
    lemma_first_index_is, lemma_flat_map_step, owned, append_str, str_eq, str_starts_with,
    string_from_chars, usize_text, views,
};

verus! {

/// How much of the earlier stages a summary preamble shows.
#[derive(Debug, Clone, Copy, PartialEq, Eq, Structural)]
pub enum SummaryDetail {
    Low,
    Medium,
    High,
}

/// The outcome recorded for a node, if any (the first entry for it).
pub open spec fn outcome_for(os: Seq<(Seq<char>, OutcomeView)>, id: Seq<char>) -> Option<OutcomeView> {
    match first_index(os.map_values(|e: (Seq<char>, OutcomeView)| e.0), id) {
        Some(i) => Some(os[i].1),
        None => None,
    }
}

pub open spec fn outcome_views(os: Seq<(String, Outcome)>) -> Seq<(Seq<char>, OutcomeView)> {
    os.map_values(|e: (String, Outcome)| (e.0@, e.1@))
}

/// Context keys that a preamble shows: not internal, not about the current
/// stage, and neither the run id nor the last outcome.
pub open spec fn visible_key(k: Seq<char>) -> bool {
    !has_prefix(k, "internal."@) && !has_prefix(k, "current"@) && k != "run_id"@ && k != "outcome"@
}

pub open spec fn visible_keys(es: Seq<(Seq<char>, ValueView)>) -> Seq<Seq<char>>
    decreases es.len(),
{
    if es.len() == 0 {
        Seq::empty()
    } else {
        visible_keys(es.drop_last()) + if visible_key(es.last().0) {
            seq![es.last().0]
        } else {
            Seq::<Seq<char>>::empty()
        }
    }
}

pub open spec fn key_value_text(es: Seq<(Seq<char>, ValueView)>, k: Seq<char>) -> Seq<char> {
    match lookup(es, k) {
        Some(v) => value_text(v),
        None => Seq::empty(),
    }
}

/// The `Context values:` block: every visible key in order with its value.
pub open spec fn context_lines(es: Seq<(Seq<char>, ValueView)>) -> Seq<Seq<char>> {
    let ks = sorted_order(visible_keys(es));
    if ks.len() == 0 {
        Seq::empty()
    } else {
        seq!["\nContext values:"@] + ks.map_values(|k: Seq<char>| "- "@ + k + ": "@ + key_value_text(es, k))
    }
}

pub open spec fn compact_line(os: Seq<(Seq<char>, OutcomeView)>, id: Seq<char>) -> Seq<char> {
    match outcome_for(os, id) {
        Some(o) => "- "@ + id + ": "@ + status_text(o.status) + match o.notes {
            Some(n) => " - "@ + n,
            None => Seq::empty(),
        },
        None => "- "@ + id + ": completed"@,
    }
}

/// The lines of a compact preamble.
pub open spec fn compact_parts(
    goal: Seq<char>,
    run_id: Seq<char>,
    completed: Seq<Seq<char>>,
    os: Seq<(Seq<char>, OutcomeView)>,
    es: Seq<(Seq<char>, ValueView)>,
) -> Seq<Seq<char>> {
    seq!["Goal: "@ + goal, "Run ID: "@ + run_id] + (if completed.len() > 0 {
        seq!["\nCompleted stages:"@] + completed.map_values(|id: Seq<char>| compact_line(os, id))
    } else {
        Seq::empty()
    }) + context_lines(es) + seq![Seq::<char>::empty()]
}

/// The `set` lines of a stage's context updates, by key in order.
pub open spec fn update_lines(us: Seq<(Seq<char>, ValueView)>) -> Seq<Seq<char>> {
    sorted_order(us.map_values(|e: (Seq<char>, ValueView)| e.0)).map_values(
        |k: Seq<char>| "  - set "@ + k + " = "@ + key_value_text(us, k),
    )
}

pub open spec fn summary_stage_lines(
    os: Seq<(Seq<char>, OutcomeView)>,
    id: Seq<char>,
    d: SummaryDetail,
) -> Seq<Seq<char>> {
    match outcome_for(os, id) {
        Some(o) => seq![
            "- "@ + id + ": "@ + status_text(o.status) + match o.notes {
                Some(n) => " ("@ + n + ")"@,
                None => Seq::empty(),
            } + match o.failure_reason {
                Some(r) => " [reason: "@ + r + "]"@,
                None => Seq::empty(),
            },
        ] + if d == SummaryDetail::Low {
            Seq::<Seq<char>>::empty()
        } else {
            update_lines(o.context_updates)
        },
        None => seq!["- "@ + id + ": completed"@],
    }
}

/// How many of the latest stages a summary shows.
pub open spec fn recent_count(d: SummaryDetail, n: nat) -> nat {
    match d {
        SummaryDetail::Low => 2,
        SummaryDetail::Medium => 5,
        SummaryDetail::High => n,
    }
}

/// The lines of a summary preamble.
pub open spec fn summary_parts(
    goal: Seq<char>,
    run_id: Seq<char>,
    completed: Seq<Seq<char>>,
    os: Seq<(Seq<char>, OutcomeView)>,
    es: Seq<(Seq<char>, ValueView)>,
    d: SummaryDetail,
) -> Seq<Seq<char>> {
    let n = completed.len();
    let recent = recent_count(d, n);
    let shown = if n > recent { completed.skip(n - recent) } else { completed };
    seq!["Goal: "@ + goal, "Run ID: "@ + run_id, "Completed "@ + decimal(n) + " stage(s) so far."@] + (if n
        > recent {
        seq!["\n("@ + decimal((n - recent) as nat) + " earlier stage(s) omitted)"@]
    } else {
        Seq::empty()
    }) + (if shown.len() > 0 {
        seq!["\nRecent stages:"@] + flat_map(shown, |id: Seq<char>| summary_stage_lines(os, id, d))
    } else {
        Seq::empty()
    }) + (if d == SummaryDetail::Low {
        Seq::empty()
    } else {
        context_lines(es)
    }) + seq![Seq::<char>::empty()]
}

/// The run id as the context holds it, or `unknown`.
pub open spec fn run_id_text(es: Seq<(Seq<char>, ValueView)>) -> Seq<char> {
    match lookup(es, "run_id"@) {
        Some(ValueView::Text(s)) => s,
        _ => "unknown"@,
    }
}

/// The preamble for a fidelity mode.
pub open spec fn preamble_text(
    fidelity: Seq<char>,
    es: Seq<(Seq<char>, ValueView)>,
    goal: Seq<char>,
    completed: Seq<Seq<char>>,
    os: Seq<(Seq<char>, OutcomeView)>,
) -> Seq<char> {
    let run_id = run_id_text(es);
    if fidelity == "truncate"@ {
        "Goal: "@ + goal + "\nRun ID: "@ + run_id + "\n"@
    } else if fidelity == "summary:low"@ {
        join(summary_parts(goal, run_id, completed, os, es, SummaryDetail::Low), "\n"@)
    } else if fidelity == "summary:medium"@ {
        join(summary_parts(goal, run_id, completed, os, es, SummaryDetail::Medium), "\n"@)
    } else if fidelity == "summary:high"@ {
        join(summary_parts(goal, run_id, completed, os, es, SummaryDetail::High), "\n"@)
    } else {
        join(compact_parts(goal, run_id, completed, os, es), "\n"@)
    }
}

fn push_part(parts: &mut Vec<String>, s: String)
    ensures
        views(final(parts)@) == views(old(parts)@).push(s@),
{
    let ghost before = views(parts@);
    parts.push(s);
    assert(views(parts@) =~= before.push(s@));
}

fn extend_parts(parts: &mut Vec<String>, more: Vec<String>)
    ensures
        views(final(parts)@) == views(old(parts)@) + views(more@),
{
    let ghost start = views(parts@);
    let ghost mv = views(more@);
    let mut i: usize = 0;
    while i < more.len()
        invariant
            i <= more.len(),
            mv == views(more@),
            views(parts@) == start + mv.take(i as int),
        decreases more.len() - i,
    {
        push_part(parts, owned(more[i].as_str()));
        assert(mv.take(i + 1) =~= mv.take(i as int).push(mv[i as int]));
        assert(views(parts@) =~= start + mv.take(i + 1));
        i += 1;
    }
    assert(mv.take(mv.len() as int) =~= mv);
}

/// The outcome recorded for `id`.
fn find_outcome<'a>(os: &'a [(String, Outcome)], id: &str) -> (r: Option<&'a Outcome>)
    ensures
        match outcome_for(outcome_views(os@), id@) {
            Some(o) => r matches Some(x) && x@ == o,
            None => r is None,
        },
{
    let ghost ov = outcome_views(os@);
    let ghost ks = ov.map_values(|e: (Seq<char>, OutcomeView)| e.0);
    let mut i: usize = 0;
    while i < os.len()
        invariant
            i <= os.len(),
            ov == outcome_views(os@),
            ks == ov.map_values(|e: (Seq<char>, OutcomeView)| e.0),
            ks.len() == os.len(),
            forall|j: int| 0 <= j < i ==> ks[j] != id@,
        decreases os.len() - i,
    {
        assert(ks[i as int] == os@[i as int].0@);
        if str_eq(os[i].0.as_str(), id) {
            proof {
                lemma_first_index_is(ks, id@, i as int);
            }
            return Some(&os[i].1);
        }
        i += 1;
    }
    proof {
        lemma_first_index_is(ks, id@, i as int);
    }
    None
}

/// The keys of `es` that satisfy the filter of `visible`, or all of them.
fn collect_keys(es: &Vec<(String, ContextValue)>, only_visible: bool) -> (r: Vec<Vec<char>>)
    ensures
        r@.map_values(|x: Vec<char>| x@) == if only_visible {
            visible_keys(entry_views(es@))
        } else {
            entry_views(es@).map_values(|e: (Seq<char>, ValueView)| e.0)
        },
{
    let ghost ev = entry_views(es@);
    let mut r: Vec<Vec<char>> = Vec::new();
    let mut i: usize = 0;
    while i < es.len()
        invariant
            i <= es.len(),
            ev == entry_views(es@),
            r@.map_values(|x: Vec<char>| x@) == if only_visible {
                visible_keys(ev.take(i as int))
            } else {
                ev.take(i as int).map_values(|e: (Seq<char>, ValueView)| e.0)
            },
        decreases es.len() - i,
    {
        let ghost before = r@.map_values(|x: Vec<char>| x@);
        let k = es[i].0.as_str();
        proof {
            assert(ev.take(i + 1).drop_last() =~= ev.take(i as int));
            assert(ev.take(i + 1).last() == ev[i as int]);
            assert(ev[i as int].0 == k@);
        }
        let keep = !only_visible || (!str_starts_with(k, "internal.") && !str_starts_with(k, "current") && !str_eq(
            k,
            "run_id",
        ) && !str_eq(k, "outcome"));
        if keep {
            r.push(chars_of(k));
            assert(r@.map_values(|x: Vec<char>| x@) =~= before.push(k@));
        }
        proof {
            if only_visible {
                if keep {
                    assert(visible_keys(ev.take(i + 1)) =~= before + seq![k@]);
                } else {
                    assert(visible_keys(ev.take(i + 1)) =~= before + Seq::<Seq<char>>::empty());
                }
            } else {
                assert(ev.take(i + 1).map_values(|e: (Seq<char>, ValueView)| e.0) =~= before.push(k@));
            }
        }
        i += 1;
    }
    assert(ev.take(ev.len() as int) =~= ev);
    r
}

/// `"<lead>" + key + "<sep>" + value text` for each key in order.
fn keyed_lines(
    es: &Vec<(String, ContextValue)>,
    keys: &Vec<Vec<char>>,
    lead: &str,
    sep: &str,
) -> (r: Vec<String>)
    ensures
        views(r@) == keys@.map_values(|x: Vec<char>| x@).map_values(
            |k: Seq<char>| lead@ + k + sep@ + key_value_text(entry_views(es@), k),
        ),
{
    let ghost kv = keys@.map_values(|x: Vec<char>| x@);
    let ghost ev = entry_views(es@);
    let mut r: Vec<String> = Vec::new();
    let mut i: usize = 0;
    while i < keys.len()
        invariant
            i <= keys.len(),
            kv == keys@.map_values(|x: Vec<char>| x@),
            ev == entry_views(es@),
            views(r@) == kv.take(i as int).map_values(|k: Seq<char>| lead@ + k + sep@ + key_value_text(ev, k)),
        decreases keys.len() - i,
    {
        let k = string_from_chars(&keys[i]);
        let value = match entry_position(es, k.as_str()) {
            Some(p) => {
                assert(ev[p as int].1 == es@[p as int].1@);
                es[p].1.text()
            },
            None => String::new(),
        };
        let line = concat4(lead, k.as_str(), sep, value.as_str());
        let ghost before = views(r@);
        push_part(&mut r, line);
        assert(kv.take(i + 1) =~= kv.take(i as int).push(kv[i as int]));
        assert(views(r@) =~= kv.take(i + 1).map_values(|k: Seq<char>| lead@ + k + sep@ + key_value_text(ev, k)));
        i += 1;
    }
    assert(kv.take(kv.len() as int) =~= kv);
    r
}

/// The `Context values:` block of a preamble: visible keys in order, each
/// with its value.
pub fn context_value_lines(context: &Context) -> (r: Vec<String>)
    ensures
        views(r@) == context_lines(context@),
{
    let snapshot = context.snapshot();
    let keys = collect_keys(&snapshot, true);
    let sorted = sort_ids(keys);
    proof {
        lemma_sorted_order(visible_keys(context@), sorted@.map_values(|x: Vec<char>| x@));
    }
    if sorted.len() == 0 {
        let r: Vec<String> = Vec::new();
        assert(views(r@) =~= Seq::<Seq<char>>::empty());
        r
    } else {
        let mut r: Vec<String> = Vec::new();
        push_part(&mut r, owned("\nContext values:"));
        let lines = keyed_lines(&snapshot, &sorted, "- ", ": ");
        extend_parts(&mut r, lines);
        assert(views(r@) =~= context_lines(context@));
        r
    }
}

/// Adds the `Context values:` block to the preamble lines.
pub fn append_context_values(parts: &mut Vec<String>, context: &Context)
    ensures
        views(final(parts)@) == views(old(parts)@) + context_lines(context@),
{
    let lines = context_value_lines(context);
    extend_parts(parts, lines);
}

fn compact_stage(os: &[(String, Outcome)], id: &str) -> (r: String)
    ensures
        r@ == compact_line(outcome_views(os@), id@),
{
    match find_outcome(os, id) {
        Some(o) => {
            let mut line = concat4("- ", id, ": ", o.status.as_str());
            match &o.notes {
                Some(n) => {
                    append_str(&mut line, " - ");
                    append_str(&mut line, n.as_str());
                },
                None => {},
            }
            line
        },
        None => concat3("- ", id, ": completed"),
    }
}

/// A compact preamble: goal, run id, each completed stage with its status
/// and notes, and the context values.
pub fn build_compact_preamble(
    goal: &str,
    run_id: &str,
    completed_nodes: &[String],
    node_outcomes: &[(String, Outcome)],
    context: &Context,
) -> (r: String)
    ensures
        r@ == join(
            compact_parts(
                goal@,
                run_id@,
                views(completed_nodes@),
                outcome_views(node_outcomes@),
                context@,
            ),
            "\n"@,
        ),
{
    let ghost os = outcome_views(node_outcomes@);
    let ghost cv = views(completed_nodes@);
    let mut parts: Vec<String> = Vec::new();
    push_part(&mut parts, concat2("Goal: ", goal));
    push_part(&mut parts, concat2("Run ID: ", run_id));
    let ghost head = views(parts@);
    assert(head =~= seq!["Goal: "@ + goal@, "Run ID: "@ + run_id@]);
    if completed_nodes.len() > 0 {
        push_part(&mut parts, owned("\nCompleted stages:"));
        let ghost mid = views(parts@);
        let mut i: usize = 0;
        while i < completed_nodes.len()
            invariant
                i <= completed_nodes.len(),
                os == outcome_views(node_outcomes@),
                cv == views(completed_nodes@),
                views(parts@) == mid + cv.take(i as int).map_values(|id: Seq<char>| compact_line(os, id)),
            decreases completed_nodes.len() - i,
        {
            let line = compact_stage(node_outcomes, completed_nodes[i].as_str());
            push_part(&mut parts, line);
            assert(cv.take(i + 1) =~= cv.take(i as int).push(cv[i as int]));
            assert(views(parts@) =~= mid + cv.take(i + 1).map_values(|id: Seq<char>| compact_line(os, id)));
            i += 1;
        }
        assert(cv.take(cv.len() as int) =~= cv);
        assert(views(parts@) =~= head + (seq!["\nCompleted stages:"@] + cv.map_values(
            |id: Seq<char>| compact_line(os, id),
        )));
    } else {
        assert(views(parts@) =~= head + Seq::<Seq<char>>::empty());
    }
    let ghost with_stages = views(parts@);
    append_context_values(&mut parts, context);
    push_part(&mut parts, String::new());
    assert(views(parts@) =~= compact_parts(goal@, run_id@, cv, os, context@));
    join_strings(&parts, "\n")
}

fn update_value_lines(o: &Outcome) -> (r: Vec<String>)
    ensures
        views(r@) == update_lines(o@.context_updates),
{
    let keys = collect_keys(&o.context_updates, false);
    let sorted = sort_ids(keys);
    proof {
        lemma_sorted_order(
            o@.context_updates.map_values(|e: (Seq<char>, ValueView)| e.0),
            sorted@.map_values(|x: Vec<char>| x@),
        );
    }
    keyed_lines(&o.context_updates, &sorted, "  - set ", " = ")
}

fn summary_stage(os: &[(String, Outcome)], id: &str, detail: SummaryDetail) -> (r: Vec<String>)
    ensures
        views(r@) == summary_stage_lines(outcome_views(os@), id@, detail),
{
    let mut r: Vec<String> = Vec::new();
    assert(views(r@) =~= Seq::<Seq<char>>::empty());
    match find_outcome(os, id) {
        Some(o) => {
            let ghost ov = o@;
            let ghost notes_part = match ov.notes {
                Some(n) => " ("@ + n + ")"@,
                None => Seq::<char>::empty(),
            };
            let ghost reason_part = match ov.failure_reason {
                Some(x) => " [reason: "@ + x + "]"@,
                None => Seq::<char>::empty(),
            };
            let mut line = concat4("- ", id, ": ", o.status.as_str());
            let ghost l0 = line@;
            match &o.notes {
                Some(n) => {
                    append_str(&mut line, " (");
                    append_str(&mut line, n.as_str());
                    append_str(&mut line, ")");
                },
                None => {},
            }
            assert(line@ =~= l0 + notes_part);
            let ghost l1 = line@;
            match &o.failure_reason {
                Some(reason) => {
                    append_str(&mut line, " [reason: ");
                    append_str(&mut line, reason.as_str());
                    append_str(&mut line, "]");
                },
                None => {},
            }
            assert(line@ =~= l1 + reason_part);
            push_part(&mut r, line);
            assert(views(r@) =~= seq![l0 + notes_part + reason_part]);
            if detail != SummaryDetail::Low {
                let more = update_value_lines(o);
                extend_parts(&mut r, more);
            } else {
                assert(views(r@) =~= views(r@) + Seq::<Seq<char>>::empty());
            }
            assert(views(r@) =~= summary_stage_lines(outcome_views(os@), id@, detail));
        },
        None => {
            push_part(&mut r, concat3("- ", id, ": completed"));
            assert(views(r@) =~= summary_stage_lines(outcome_views(os@), id@, detail));
        },
    }
    r
}

/// A summary preamble: goal, run id, how many stages completed, the latest
/// of them (two for low detail, five for medium, all for high) with their
/// outcomes, and, above low detail, context updates and values.
pub fn build_summary_preamble(
    goal: &str,
    run_id: &str,
    completed_nodes: &[String],
    node_outcomes: &[(String, Outcome)],
    context: &Context,
    detail: SummaryDetail,
) -> (r: String)
    ensures
        r@ == join(
            summary_parts(
                goal@,
                run_id@,
                views(completed_nodes@),
                outcome_views(node_outcomes@),
                context@,
                detail,
            ),
            "\n"@,
        ),
{
    let ghost os = outcome_views(node_outcomes@);
    let ghost cv = views(completed_nodes@);
    let n = completed_nodes.len();
    let mut parts: Vec<String> = Vec::new();
    push_part(&mut parts, concat2("Goal: ", goal));
    push_part(&mut parts, concat2("Run ID: ", run_id));
    let count_text = usize_text(n);
    push_part(&mut parts, concat3("Completed ", count_text.as_str(), " stage(s) so far."));
    let ghost p0 = views(parts@);
    assert(p0 =~= seq!["Goal: "@ + goal@, "Run ID: "@ + run_id@, "Completed "@ + decimal(n as nat) + " stage(s) so far."@]);
    let recent: usize = match detail {
        SummaryDetail::Low => 2,
        SummaryDetail::Medium => 5,
        SummaryDetail::High => n,
    };
    let start: usize = if n > recent {
        let skipped = n - recent;
        let t = usize_text(skipped);
        push_part(&mut parts, concat3("\n(", t.as_str(), " earlier stage(s) omitted)"));
        skipped
    } else {
        0
    };
    let ghost p1 = views(parts@);
    let ghost rc = recent_count(detail, cv.len());
    assert(rc == recent);
    assert(p1 =~= p0 + (if n > recent {
        seq!["\n("@ + decimal((n - recent) as nat) + " earlier stage(s) omitted)"@]
    } else {
        Seq::<Seq<char>>::empty()
    }));
    let ghost shown = if n > recent { cv.skip(n - recent) } else { cv };
    assert(shown =~= cv.skip(start as int));
    if start < n {
        push_part(&mut parts, owned("\nRecent stages:"));
        let ghost mid = views(parts@);
        let mut i: usize = start;
        while i < n
            invariant
                start <= i <= n,
                n == completed_nodes.len(),
                os == outcome_views(node_outcomes@),
                cv == views(completed_nodes@),
                shown == cv.skip(start as int),
                views(parts@) == mid + flat_map(
                    shown.take(i - start),
                    |id: Seq<char>| summary_stage_lines(os, id, detail),
                ),
            decreases n - i,
        {
            proof {
                lemma_flat_map_step(shown, |id: Seq<char>| summary_stage_lines(os, id, detail), i - start);
                assert(shown[i - start] == cv[i as int]);
            }
            let more = summary_stage(node_outcomes, completed_nodes[i].as_str(), detail);
            extend_parts(&mut parts, more);
            i += 1;
        }
        proof {
            assert(shown.take(n - start) =~= shown);
        }
    }
    let ghost p2 = views(parts@);
    assert(p2 =~= p1 + (if shown.len() > 0 {
        seq!["\nRecent stages:"@] + flat_map(shown, |id: Seq<char>| summary_stage_lines(os, id, detail))
    } else {
        Seq::<Seq<char>>::empty()
    }));
    if detail != SummaryDetail::Low {
        append_context_values(&mut parts, context);
    }
    push_part(&mut parts, String::new());
    assert(views(parts@) =~= summary_parts(goal@, run_id@, cv, os, context@, detail));
    join_strings(&parts, "\n")
}

/// The preamble that gives the next stage the earlier conversation, as the
/// fidelity mode asks: `truncate` (goal and run id), `compact`,
/// `summary:low`, `summary:medium` or `summary:high`; any other mode gives
/// the compact one.
pub fn build_preamble(
    fidelity: &str,
    context: &Context,
    graph: &Graph,
    completed_nodes: &[String],
    node_outcomes: &[(String, Outcome)],
) -> (r: String)
    ensures
        r@ == preamble_text(
            fidelity@,
            context@,
            graph.goal_spec(),
            views(completed_nodes@),
            outcome_views(node_outcomes@),
        ),
{
    let goal = graph.goal();
    let run_id = context.get_string("run_id", "unknown");
    if str_eq(fidelity, "truncate") {
        let mut r = concat2("Goal: ", goal);
        append_str(&mut r, "\nRun ID: ");
        append_str(&mut r, run_id.as_str());
        append_str(&mut r, "\n");
        r
    } else if str_eq(fidelity, "summary:low") {
        build_summary_preamble(goal, run_id.as_str(), completed_nodes, node_outcomes, context, SummaryDetail::Low)
    } else if str_eq(fidelity, "summary:medium") {
        build_summary_preamble(
            goal,
            run_id.as_str(),
            completed_nodes,
            node_outcomes,
            context,
            SummaryDetail::Medium,
        )
    } else if str_eq(fidelity, "summary:high") {
        build_summary_preamble(goal, run_id.as_str(), completed_nodes, node_outcomes, context, SummaryDetail::High)
    } else {
        build_compact_preamble(goal, run_id.as_str(), completed_nodes, node_outcomes, context)
    }
}

} // verus!
