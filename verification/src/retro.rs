use vstd::prelude::*;

use crate::context::{json_field, json_member, json_parse, json_parsed, status_text, StageStatus};
use crate::reach::{lemma_lex_total, lemma_lex_trans, sort_ids, sorted_lex};
use crate::text::{
    chars_of, count, flat_map, lemma_count_step, lemma_flat_map_step, lex_lt, lines, lines_of, owned, seq_eq, str_eq, string_from_chars, views,
};

verus! {

/// How smoothly a run went, as the agent judged it.
#[derive(Debug, Clone, Copy, PartialEq, Eq, Structural)]
pub enum SmoothnessRating {
    Effortless,
    Smooth,
    Bumpy,
    Struggled,
    Failed,
}

/// What a learning is about.
#[derive(Debug, Clone, Copy, PartialEq, Eq, Structural)]
pub enum LearningCategory {
    Repo,
    Code,
    Workflow,
    Tool,
}

/// Something learned during a run.
#[derive(Debug, Clone)]
pub struct Learning {
    pub category: LearningCategory,
    pub text: String,
}

/// What kind of friction a run met.
#[derive(Debug, Clone, Copy, PartialEq, Eq, Structural)]
pub enum FrictionKind {
    Retry,
    Timeout,
    WrongApproach,
    ToolFailure,
    Ambiguity,
}

/// A point where a run met friction, and at which stage.
#[derive(Debug, Clone)]
pub struct FrictionPoint {
    pub kind: FrictionKind,
    pub description: String,
    pub stage_id: Option<String>,
}

/// What kind of work a run left open.
#[derive(Debug, Clone, Copy, PartialEq, Eq, Structural)]
pub enum OpenItemKind {
    TechDebt,
    FollowUp,
    Investigation,
    TestGap,
}

/// Work that a run left open.
#[derive(Debug, Clone)]
pub struct OpenItem {
    pub kind: OpenItemKind,
    pub description: String,
}

/// The agent's own account of a run.
#[derive(Debug, Clone)]
pub struct RetroNarrative {
    pub smoothness: SmoothnessRating,
    pub intent: String,
    pub outcome: String,
    pub learnings: Vec<Learning>,
    pub friction_points: Vec<FrictionPoint>,
    pub open_items: Vec<OpenItem>,
}


/// The `event` member of each line that reads as JSON, in line order (a
/// null value for a line without one).
pub open spec fn progress_events(ls: Seq<Seq<char>>) -> Seq<serde_json::Value>
    decreases ls.len(),
{
    if ls.len() == 0 {
        Seq::empty()
    } else {
        progress_events(ls.drop_last()) + match json_parsed(ls.last()) {
            Some(v) => seq![json_member(v, "event"@)],
            None => Seq::<serde_json::Value>::empty(),
        }
    }
}

/// The event values of a progress log, one JSON envelope per line; lines
/// that are not JSON are passed over.
pub fn progress_event_values(text: &str) -> (r: Vec<serde_json::Value>)
    ensures
        r@ == progress_events(lines(text@)),
{
    let cs = chars_of(text);
    let ls = lines_of(&cs);
    let ghost lv = ls@.map_values(|x: Vec<char>| x@);
    let mut r: Vec<serde_json::Value> = Vec::new();
    let mut i: usize = 0;
    while i < ls.len()
        invariant
            i <= ls.len(),
            lv == ls@.map_values(|x: Vec<char>| x@),
            lv == lines(text@),
            r@ == progress_events(lv.take(i as int)),
        decreases ls.len() - i,
    {
        let line = string_from_chars(&ls[i]);
        proof {
            assert(lv.take(i + 1).drop_last() =~= lv.take(i as int));
            assert(lv.take(i + 1).last() == line@);
        }
        match json_parse(line.as_str()) {
            Ok(v) => {
                let ev = json_field(&v, "event");
                r.push(ev);
            },
            Err(_) => {},
        }
        proof {
            reveal_strlit("event");
        }
        i += 1;
    }
    assert(lv.take(ls.len() as int) =~= lv);
    r
}

pub open spec fn dur_views(v: Seq<(String, u64)>) -> Seq<(Seq<char>, u64)> {
    v.map_values(|p: (String, u64)| (p.0@, p.1))
}

/// The duration last given for stage `n`.
pub open spec fn last_duration(s: Seq<(Seq<char>, u64)>, n: Seq<char>) -> Option<u64>
    decreases s.len(),
{
    if s.len() == 0 {
        None
    } else if s.last().0 == n {
        Some(s.last().1)
    } else {
        last_duration(s.drop_last(), n)
    }
}

/// Some entry is for stage `n`.
pub open spec fn has_stage(s: Seq<(Seq<char>, u64)>, n: Seq<char>) -> bool {
    exists|k: int| 0 <= k < s.len() && #[trigger] s[k].0 == n
}

/// No stage has two entries.
pub open spec fn distinct_stages(s: Seq<(Seq<char>, u64)>) -> bool {
    forall|i: int, j: int| 0 <= i < j < s.len() ==> #[trigger] s[i].0 != #[trigger] s[j].0
}

/// The duration of each completed stage, one entry per stage: the last
/// duration given for it.
pub fn stage_durations(done: &[(String, u64)]) -> (r: Vec<(String, u64)>)
    ensures
        distinct_stages(dur_views(r@)),
        forall|k: int| 0 <= k < r.len() ==> last_duration(dur_views(done@), #[trigger] dur_views(r@)[k].0) == Some(dur_views(r@)[k].1),
        forall|j: int| 0 <= j < done.len() ==> has_stage(dur_views(r@), #[trigger] dur_views(done@)[j].0),
{
    let ghost dv = dur_views(done@);
    let mut out: Vec<(String, u64)> = Vec::new();
    let mut i: usize = 0;
    while i < done.len()
        invariant
            i <= done.len(),
            dv == dur_views(done@),
            distinct_stages(dur_views(out@)),
            forall|k: int| 0 <= k < out.len() ==> last_duration(dv.take(i as int), #[trigger] dur_views(out@)[k].0) == Some(dur_views(out@)[k].1),
            forall|j: int| 0 <= j < i ==> has_stage(dur_views(out@), #[trigger] dv[j].0),
        decreases done.len() - i,
    {
        let n = &done[i].0;
        let d = done[i].1;
        let ghost ov = dur_views(out@);
        let ghost pre = dv.take(i as int);
        let ghost post = dv.take(i + 1);
        proof {
            assert(post.drop_last() =~= pre);
            assert(post.last() == (n@, d));
        }
        let mut p: usize = 0;
        while p < out.len()
            invariant
                p <= out.len(),
                ov == dur_views(out@),
                forall|k: int| 0 <= k < p ==> ov[k].0 != n@,
            ensures
                p <= out.len(),
                forall|k: int| 0 <= k < p ==> ov[k].0 != n@,
                p < out.len() ==> ov[p as int].0 == n@,
            decreases out.len() - p,
        {
            if str_eq(out[p].0.as_str(), n.as_str()) {
                assert(ov[p as int].0 == out@[p as int].0@);
                break;
            }
            assert(ov[p as int].0 == out@[p as int].0@);
            p += 1;
        }
        if p < out.len() {
            out.set(p, (owned(n.as_str()), d));
            let ghost nv = dur_views(out@);
            proof {
                assert(nv =~= ov.update(p as int, (n@, d)));
                assert forall|a: int, b: int| 0 <= a < b < nv.len() implies #[trigger] nv[a].0 != #[trigger] nv[b].0 by {
                    assert(nv[a].0 == ov[a].0 && nv[b].0 == ov[b].0);
                }
                assert forall|k: int| 0 <= k < out.len() implies last_duration(post, #[trigger] nv[k].0) == Some(nv[k].1) by {
                    if k != p {
                        assert(ov[k].0 != ov[p as int].0);
                    }
                }
                assert forall|j: int| 0 <= j < i + 1 implies has_stage(nv, #[trigger] dv[j].0) by {
                    if j < i {
                        let k = choose|k: int| 0 <= k < ov.len() && #[trigger] ov[k].0 == dv[j].0;
                        assert(nv[k].0 == dv[j].0);
                    } else {
                        assert(nv[p as int].0 == dv[j].0);
                    }
                }
            }
        } else {
            out.push((owned(n.as_str()), d));
            let ghost nv = dur_views(out@);
            proof {
                assert(nv =~= ov.push((n@, d)));
                assert forall|a: int, b: int| 0 <= a < b < nv.len() implies #[trigger] nv[a].0 != #[trigger] nv[b].0 by {
                    if b == ov.len() {
                        assert(nv[a] == ov[a]);
                    } else {
                        assert(nv[a] == ov[a] && nv[b] == ov[b]);
                    }
                }
                assert forall|k: int| 0 <= k < out.len() implies last_duration(post, #[trigger] nv[k].0) == Some(nv[k].1) by {
                    if k < ov.len() {
                        assert(nv[k] == ov[k]);
                    }
                }
                assert forall|j: int| 0 <= j < i + 1 implies has_stage(nv, #[trigger] dv[j].0) by {
                    if j < i {
                        let k = choose|k: int| 0 <= k < ov.len() && #[trigger] ov[k].0 == dv[j].0;
                        assert(nv[k] == ov[k]);
                    } else {
                        assert(nv[ov.len() as int].0 == dv[j].0);
                    }
                }
            }
        }
        i += 1;
    }
    assert(dv.take(done.len() as int) =~= dv);
    out
}


/// What a run's checkpoint holds of one completed stage: its outcome's
/// status, notes, failure reason and files (none when it has no outcome),
/// and the attempts it used (when recorded).
#[derive(Debug, Clone)]
pub struct StageRecord {
    pub node_id: String,
    pub status: Option<StageStatus>,
    pub attempts: Option<u32>,
    pub notes: Option<String>,
    pub failure_reason: Option<String>,
    pub files_touched: Vec<String>,
}

/// The files of each stage, in stage order.
pub open spec fn all_files(rs: Seq<StageRecord>) -> Seq<Seq<char>> {
    flat_map(rs, |r: StageRecord| views(r.files_touched@))
}

/// In strictly increasing lexicographic order, so without repeats.
pub open spec fn strictly_sorted(s: Seq<Seq<char>>) -> bool {
    forall|i: int, j: int| 0 <= i < j < s.len() ==> lex_lt(#[trigger] s[i], #[trigger] s[j])
}

/// Every file the stages touched, once each, in lexicographic order.
pub fn retro_files(records: &[StageRecord]) -> (r: Vec<String>)
    ensures
        strictly_sorted(views(r@)),
        forall|x: Seq<char>| views(r@).contains(x) <==> all_files(records@).contains(x),
{
    broadcast use vstd::seq_lib::group_to_multiset_ensures;

    let ghost rs = records@;
    let ghost f = |r: StageRecord| views(r.files_touched@);
    let mut all: Vec<Vec<char>> = Vec::new();
    let mut i: usize = 0;
    assert(all@.map_values(|x: Vec<char>| x@) =~= flat_map(rs.take(0), f));
    while i < records.len()
        invariant
            i <= records.len(),
            rs == records@,
            f == (|r: StageRecord| views(r.files_touched@)),
            all@.map_values(|x: Vec<char>| x@) == flat_map(rs.take(i as int), f),
        decreases records.len() - i,
    {
        proof {
            lemma_flat_map_step(rs, f, i as int);
        }
        let files = &records[i].files_touched;
        let ghost base = all@.map_values(|x: Vec<char>| x@);
        let mut j: usize = 0;
        while j < files.len()
            invariant
                j <= files.len(),
                files@ == rs[i as int].files_touched@,
                all@.map_values(|x: Vec<char>| x@) == base + views(files@).take(j as int),
            decreases files.len() - j,
        {
            let ghost before = all@.map_values(|x: Vec<char>| x@);
            let c = chars_of(files[j].as_str());
            all.push(c);
            assert(all@.map_values(|x: Vec<char>| x@) =~= before.push(files@[j as int]@));
            assert(views(files@).take(j + 1) =~= views(files@).take(j as int).push(files@[j as int]@));
            j += 1;
        }
        assert(views(files@).take(files.len() as int) =~= views(files@));
        assert(f(rs[i as int]) == views(files@));
        i += 1;
    }
    assert(rs.take(records.len() as int) =~= rs);
    let ghost av = all@.map_values(|x: Vec<char>| x@);
    let sorted = sort_ids(all);
    let ghost sv = sorted@.map_values(|x: Vec<char>| x@);
    assert forall|x: Seq<char>| sv.contains(x) <==> av.contains(x) by {
        vstd::seq_lib::to_multiset_contains(sv, x);
        vstd::seq_lib::to_multiset_contains(av, x);
    }
    let mut out: Vec<String> = Vec::new();
    let mut k: usize = 0;
    while k < sorted.len()
        invariant
            k <= sorted.len(),
            sv == sorted@.map_values(|x: Vec<char>| x@),
            sorted_lex(sv),
            strictly_sorted(views(out@)),
            forall|x: Seq<char>| views(out@).contains(x) <==> sv.take(k as int).contains(x),
            k > 0 ==> out.len() > 0 && views(out@).last() == sv[k - 1],
            out.len() <= k,
        decreases sorted.len() - k,
    {
        let ghost ov = views(out@);
        let x = &sorted[k];
        let fresh = if out.len() == 0 {
            true
        } else {
            let lc = chars_of(out[out.len() - 1].as_str());
            assert(lc@ == ov.last());
            !seq_eq(&lc, x)
        };
        assert(fresh ==> out.len() == 0 || ov.last() != x@);
        assert(!fresh ==> out.len() > 0 && ov.last() == x@);
        let ghost s0 = sv.take(k as int);
        let ghost s1 = sv.take(k + 1);
        proof {
            assert(s1 =~= s0.push(sv[k as int]));
            assert(sv[k as int] == x@);
            assert(forall|y: Seq<char>| ov.contains(y) <==> s0.contains(y));
        }
        if fresh {
            let xs = string_from_chars(x);
            out.push(xs);
            proof {
                let nv = views(out@);
                assert(nv =~= ov.push(x@));
                if ov.len() > 0 {
                    assert(k > 0);
                    assert(ov.last() == sv[k - 1]);
                    assert(!lex_lt(sv[k as int], sv[k - 1]));
                    if !lex_lt(sv[k - 1], sv[k as int]) {
                        lemma_lex_total(sv[k as int], sv[k - 1]);
                    }
                }
                assert forall|a: int, b: int| 0 <= a < b < nv.len() implies lex_lt(#[trigger] nv[a], #[trigger] nv[b]) by {
                    if b == ov.len() {
                        assert(nv[a] == ov[a]);
                        if a < ov.len() - 1 {
                            lemma_lex_trans(ov[a], ov[ov.len() - 1], x@);
                        }
                    } else {
                        assert(nv[a] == ov[a] && nv[b] == ov[b]);
                    }
                }
                assert forall|y: Seq<char>| nv.contains(y) <==> s1.contains(y) by {
                    if nv.contains(y) {
                        let q = choose|q: int| 0 <= q < nv.len() && #[trigger] nv[q] == y;
                        if q < ov.len() {
                            assert(ov[q] == y);
                            assert(ov.contains(y));
                            let t = choose|t: int| 0 <= t < k && #[trigger] s0[t] == y;
                            assert(s1[t] == y);
                        } else {
                            assert(s1[k as int] == y);
                        }
                    }
                    if s1.contains(y) {
                        let t = choose|t: int| 0 <= t < k + 1 && #[trigger] s1[t] == y;
                        if t < k {
                            assert(s0[t] == y);
                            assert(s0.contains(y));
                            let q = choose|q: int| 0 <= q < ov.len() && #[trigger] ov[q] == y;
                            assert(nv[q] == y);
                        } else {
                            assert(nv[ov.len() as int] == y);
                        }
                    }
                }
            }
        } else {
            proof {
                assert(ov.last() == x@);
                assert forall|y: Seq<char>| ov.contains(y) <==> s1.contains(y) by {
                    if s1.contains(y) {
                        let t = choose|t: int| 0 <= t < k + 1 && #[trigger] s1[t] == y;
                        if t < k {
                            assert(s0[t] == y);
                        } else {
                            assert(ov[ov.len() - 1] == y);
                        }
                    }
                    if ov.contains(y) {
                        assert(s0.contains(y));
                        let t = choose|t: int| 0 <= t < k && #[trigger] s0[t] == y;
                        assert(s1[t] == y);
                    }
                }
            }
        }
        k += 1;
    }
    assert(sv.take(sorted.len() as int) =~= sv);
    out
}


/// What a retrospective says of one stage.
#[derive(Debug, Clone)]
pub struct StageRetro {
    pub stage_id: String,
    pub stage_label: String,
    pub status: String,
    pub duration_ms: u64,
    pub retries: u32,
    pub notes: Option<String>,
    pub failure_reason: Option<String>,
    pub files_touched: Vec<String>,
}

/// Totals over the stages of a run.
#[derive(Debug, Clone)]
pub struct AggregateStats {
    pub total_duration_ms: u64,
    pub total_retries: u32,
    pub files_touched: Vec<String>,
    pub stages_completed: usize,
    pub stages_failed: usize,
}

/// Retries of a stage: the attempts it used less one (none when not
/// recorded).
pub open spec fn retries_of(a: Option<u32>) -> nat {
    match a {
        Some(n) => if n >= 1 {
            (n - 1) as nat
        } else {
            0
        },
        None => 0,
    }
}

/// The status a stage is reported with.
pub open spec fn record_status(s: Option<StageStatus>) -> Seq<char> {
    match s {
        Some(x) => status_text(x),
        None => "unknown"@,
    }
}

/// The duration given for stage `n`, 0 when none is.
pub open spec fn duration_for(dv: Seq<(Seq<char>, u64)>, n: Seq<char>) -> u64
    decreases dv.len(),
{
    if dv.len() == 0 {
        0
    } else if dv[0].0 == n {
        dv[0].1
    } else {
        duration_for(dv.drop_first(), n)
    }
}

pub open spec fn opt_str(o: Option<String>) -> Option<Seq<char>> {
    match o {
        Some(x) => Some(x@),
        None => None,
    }
}

/// `st` reports stage `rec` with the durations `dv`.
pub open spec fn reports_stage(st: StageRetro, rec: StageRecord, dv: Seq<(Seq<char>, u64)>) -> bool {
    &&& st.stage_id@ == rec.node_id@
    &&& st.stage_label@ == rec.node_id@
    &&& st.status@ == record_status(rec.status)
    &&& st.duration_ms == duration_for(dv, rec.node_id@)
    &&& st.retries == retries_of(rec.attempts)
    &&& opt_str(st.notes) == opt_str(rec.notes)
    &&& opt_str(st.failure_reason) == opt_str(rec.failure_reason)
    &&& views(st.files_touched@) == views(rec.files_touched@)
}

fn copy_opt(o: &Option<String>) -> (r: Option<String>)
    ensures
        opt_str(r) == opt_str(*o),
{
    match o {
        Some(x) => Some(owned(x.as_str())),
        None => None,
    }
}

fn copy_strings(v: &Vec<String>) -> (r: Vec<String>)
    ensures
        views(r@) == views(v@),
{
    let mut r: Vec<String> = Vec::new();
    let mut i: usize = 0;
    while i < v.len()
        invariant
            i <= v.len(),
            views(r@) == views(v@).take(i as int),
        decreases v.len() - i,
    {
        let ghost before = views(r@);
        let x = owned(v[i].as_str());
        let ghost xv = x@;
        r.push(x);
        assert(views(r@) =~= before.push(xv));
        assert(views(v@).take(i + 1) =~= views(v@).take(i as int).push(v@[i as int]@));
        i += 1;
    }
    assert(views(v@).take(v.len() as int) =~= views(v@));
    r
}

fn find_duration(durations: &[(String, u64)], n: &str) -> (r: u64)
    ensures
        r == duration_for(dur_views(durations@), n@),
{
    let ghost dv = dur_views(durations@);
    let mut i: usize = 0;
    assert(dv.skip(0) =~= dv);
    while i < durations.len()
        invariant
            i <= durations.len(),
            dv == dur_views(durations@),
            duration_for(dv, n@) == duration_for(dv.skip(i as int), n@),
        decreases durations.len() - i,
    {
        assert(dv.skip(i as int).drop_first() =~= dv.skip(i + 1));
        assert(dv.skip(i as int)[0] == dv[i as int]);
        if str_eq(durations[i].0.as_str(), n) {
            return durations[i].1;
        }
        i += 1;
    }
    assert(dv.skip(i as int).len() == 0);
    0
}

/// What a retrospective says of one stage.
pub fn stage_retro(rec: &StageRecord, durations: &[(String, u64)]) -> (st: StageRetro)
    ensures
        reports_stage(st, *rec, dur_views(durations@)),
{
    let status = match rec.status {
        Some(x) => owned(x.as_str()),
        None => owned("unknown"),
    };
    let retries = match rec.attempts {
        Some(n) => if n >= 1 {
            n - 1
        } else {
            0
        },
        None => 0,
    };
    StageRetro {
        stage_id: owned(rec.node_id.as_str()),
        stage_label: owned(rec.node_id.as_str()),
        status,
        duration_ms: find_duration(durations, rec.node_id.as_str()),
        retries,
        notes: copy_opt(&rec.notes),
        failure_reason: copy_opt(&rec.failure_reason),
        files_touched: copy_strings(&rec.files_touched),
    }
}

/// The retries of the stages, summed.
pub open spec fn retry_total(rs: Seq<StageRecord>) -> nat
    decreases rs.len(),
{
    if rs.len() == 0 {
        0
    } else {
        retry_total(rs.drop_last()) + retries_of(rs.last().attempts)
    }
}

proof fn lemma_retry_total_prefix(rs: Seq<StageRecord>, i: int)
    requires
        0 <= i <= rs.len(),
    ensures
        retry_total(rs.take(i)) <= retry_total(rs),
    decreases rs.len(),
{
    if i < rs.len() {
        assert(rs.drop_last().take(i) =~= rs.take(i));
        lemma_retry_total_prefix(rs.drop_last(), i);
    } else {
        assert(rs.take(i) =~= rs);
    }
}

/// A stage that completed, fully or in part.
pub open spec fn is_completed() -> spec_fn(StageRecord) -> bool {
    |r: StageRecord| r.status == Some(StageStatus::Success) || r.status == Some(StageStatus::PartialSuccess)
}

/// A stage that failed.
pub open spec fn is_failed() -> spec_fn(StageRecord) -> bool {
    |r: StageRecord| r.status == Some(StageStatus::Fail)
}

/// The stages and totals of a retrospective: one entry per completed stage,
/// in order; the run's duration; the retries summed; every file touched,
/// once, in order; the stages that completed; and the stages that failed,
/// counted as one when the run failed without a failed stage.
pub fn derive_retro(records: &[StageRecord], run_failed: bool, duration_ms: u64, durations: &[(String, u64)]) -> (r: (
    Vec<StageRetro>,
    AggregateStats,
))
    requires
        retry_total(records@) <= u32::MAX,
    ensures
        r.0.len() == records.len(),
        forall|k: int| 0 <= k < records.len() ==> reports_stage(#[trigger] r.0@[k], records@[k], dur_views(durations@)),
        r.1.total_duration_ms == duration_ms,
        r.1.total_retries == retry_total(records@),
        strictly_sorted(views(r.1.files_touched@)),
        forall|x: Seq<char>| views(r.1.files_touched@).contains(x) <==> all_files(records@).contains(x),
        r.1.stages_completed == count(records@, is_completed()),
        r.1.stages_failed == if run_failed && count(records@, is_failed()) == 0 {
            1
        } else {
            count(records@, is_failed())
        },
{
    let ghost rs = records@;
    let mut stages: Vec<StageRetro> = Vec::new();
    let mut total: u32 = 0;
    let mut completed: usize = 0;
    let mut failed: usize = 0;
    let mut i: usize = 0;
    assert(rs.take(0) =~= Seq::<StageRecord>::empty());
    while i < records.len()
        invariant
            i <= records.len(),
            rs == records@,
            retry_total(rs) <= u32::MAX,
            stages.len() == i,
            forall|k: int| 0 <= k < i ==> reports_stage(#[trigger] stages@[k], rs[k], dur_views(durations@)),
            total == retry_total(rs.take(i as int)),
            completed == count(rs.take(i as int), is_completed()),
            failed == count(rs.take(i as int), is_failed()),
            completed <= i,
            failed <= i,
        decreases records.len() - i,
    {
        proof {
            lemma_count_step(rs, is_completed(), i as int);
            lemma_count_step(rs, is_failed(), i as int);
            assert(rs.take(i + 1).drop_last() =~= rs.take(i as int));
            lemma_retry_total_prefix(rs, i + 1);
        }
        let rec = &records[i];
        let st = stage_retro(rec, durations);
        total = total + st.retries;
        match rec.status {
            Some(StageStatus::Success) | Some(StageStatus::PartialSuccess) => {
                completed = completed + 1;
            },
            Some(StageStatus::Fail) => {
                failed = failed + 1;
            },
            _ => {},
        }
        stages.push(st);
        i += 1;
    }
    proof {
        assert(rs.take(records.len() as int) =~= rs);
    }
    if run_failed && failed == 0 {
        failed = 1;
    }
    let files = retro_files(records);
    (stages, AggregateStats {
        total_duration_ms: duration_ms,
        total_retries: total,
        files_touched: files,
        stages_completed: completed,
        stages_failed: failed,
    })
}

} // verus!
