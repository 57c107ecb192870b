use vstd::prelude::*;

use std::path::PathBuf;

use crate::context::{distinct_keys, json_as_str, json_field, json_member, json_parse, json_parsed, json_str, json_string_map, json_string_pairs};
use crate::paths::{copy_path, path_display};
use crate::reach::lex_less;
use crate::text::{
    chars_of, contains_seq, find_char, find_char_from, flat_map, lemma_find_char, lemma_flat_map_step, lemma_take_full,
    lex_lt, owned, str_contains, str_eq, string_from_range,
};

verus! {

/// Options of `runs list`.
pub struct RunsListArgs {
    /// Only runs started before this date (prefix of an RFC 3339 time).
    pub before: Option<String>,
    /// Only runs whose pipeline name contains this text.
    pub pipeline: Option<String>,
    /// Only runs with all of these labels, each `KEY=VALUE`.
    pub label: Vec<String>,
    /// Include directories without a manifest.
    pub orphans: bool,
    /// Print JSON.
    pub json: bool,
}

/// Options of `runs prune`.
pub struct RunsPruneArgs {
    pub before: Option<String>,
    pub pipeline: Option<String>,
    pub label: Vec<String>,
    pub orphans: bool,
    /// Delete for real; without it nothing is deleted.
    pub yes: bool,
}

/// One run directory under the logs base.
#[derive(Debug)]
pub struct RunInfo {
    pub run_id: String,
    pub dir_name: String,
    pub pipeline_name: String,
    pub status: String,
    pub start_time: String,
    /// The run's labels, one entry per key.
    pub labels: Vec<(String, String)>,
    pub path: PathBuf,
    pub is_orphan: bool,
}

/// A run as plain values; the path is taken by its display form.
pub struct RunView {
    pub run_id: Seq<char>,
    pub dir_name: Seq<char>,
    pub pipeline_name: Seq<char>,
    pub status: Seq<char>,
    pub start_time: Seq<char>,
    pub labels: Seq<(Seq<char>, Seq<char>)>,
    pub path: Seq<char>,
    pub is_orphan: bool,
}

pub open spec fn pair_views(v: Seq<(String, String)>) -> Seq<(Seq<char>, Seq<char>)> {
    v.map_values(|p: (String, String)| (p.0@, p.1@))
}

impl View for RunInfo {
    type V = RunView;

    open spec fn view(&self) -> RunView {
        RunView {
            run_id: self.run_id@,
            dir_name: self.dir_name@,
            pipeline_name: self.pipeline_name@,
            status: self.status@,
            start_time: self.start_time@,
            labels: pair_views(self.labels@),
            path: path_display(self.path),
            is_orphan: self.is_orphan,
        }
    }
}

pub open spec fn run_views(v: Seq<RunInfo>) -> Seq<RunView> {
    v.map_values(|r: RunInfo| r@)
}

/// The value of the first label named `k`.
pub open spec fn label_value(labels: Seq<(Seq<char>, Seq<char>)>, k: Seq<char>) -> Option<Seq<char>>
    decreases labels.len(),
{
    if labels.len() == 0 {
        None
    } else if labels[0].0 == k {
        Some(labels[0].1)
    } else {
        label_value(labels.drop_first(), k)
    }
}

pub open spec fn opt_text(o: Option<&str>) -> Option<Seq<char>> {
    match o {
        Some(s) => Some(s@),
        None => None,
    }
}

/// Whether a run passes the filters: orphans only when asked for; with
/// `before`, a start time (when known) that sorts before it; with
/// `pipeline`, a pipeline name that contains it; and every wanted label.
pub open spec fn run_matches(
    r: RunView,
    before: Option<Seq<char>>,
    pipeline: Option<Seq<char>>,
    labels: Seq<(Seq<char>, Seq<char>)>,
    include_orphans: bool,
) -> bool {
    &&& !(r.is_orphan && !include_orphans)
    &&& match before {
        Some(b) => r.start_time.len() == 0 || lex_lt(r.start_time, b),
        None => true,
    }
    &&& match pipeline {
        Some(p) => contains_seq(r.pipeline_name, p),
        None => true,
    }
    &&& forall|i: int| 0 <= i < labels.len() ==> label_value(r.labels, #[trigger] labels[i].0) == Some(labels[i].1)
}

/// The runs that pass the filters, in their order.
pub open spec fn matching_runs(
    rs: Seq<RunView>,
    before: Option<Seq<char>>,
    pipeline: Option<Seq<char>>,
    labels: Seq<(Seq<char>, Seq<char>)>,
    include_orphans: bool,
) -> Seq<RunView>
    decreases rs.len(),
{
    if rs.len() == 0 {
        Seq::empty()
    } else {
        matching_runs(rs.drop_last(), before, pipeline, labels, include_orphans) + if run_matches(
            rs.last(),
            before,
            pipeline,
            labels,
            include_orphans,
        ) {
            seq![rs.last()]
        } else {
            Seq::empty()
        }
    }
}

fn copy_pairs(v: &Vec<(String, String)>) -> (r: Vec<(String, String)>)
    ensures
        pair_views(r@) == pair_views(v@),
{
    let mut r: Vec<(String, String)> = Vec::new();
    let mut i: usize = 0;
    while i < v.len()
        invariant
            i <= v.len(),
            pair_views(r@) == pair_views(v@).take(i as int),
        decreases v.len() - i,
    {
        let ghost before = pair_views(r@);
        r.push((owned(v[i].0.as_str()), owned(v[i].1.as_str())));
        assert(pair_views(r@) =~= before.push((v@[i as int].0@, v@[i as int].1@)));
        assert(pair_views(v@).take(i + 1) =~= pair_views(v@).take(i as int).push(
            (v@[i as int].0@, v@[i as int].1@),
        ));
        i += 1;
    }
    assert(pair_views(v@).take(v.len() as int) =~= pair_views(v@));
    r
}

impl RunInfo {
    /// A copy of the run.
    pub fn duplicate(&self) -> (r: RunInfo)
        ensures
            r@ == self@,
    {
        RunInfo {
            run_id: owned(self.run_id.as_str()),
            dir_name: owned(self.dir_name.as_str()),
            pipeline_name: owned(self.pipeline_name.as_str()),
            status: owned(self.status.as_str()),
            start_time: owned(self.start_time.as_str()),
            labels: copy_pairs(&self.labels),
            path: copy_path(&self.path),
            is_orphan: self.is_orphan,
        }
    }

    fn label_is(&self, k: &String, v: &String) -> (r: bool)
        ensures
            r == (label_value(pair_views(self.labels@), k@) == Some(v@)),
    {
        let ghost ls = pair_views(self.labels@);
        let mut i: usize = 0;
        assert(ls.skip(0) =~= ls);
        while i < self.labels.len()
            invariant
                i <= self.labels.len(),
                ls == pair_views(self.labels@),
                label_value(ls, k@) == label_value(ls.skip(i as int), k@),
            decreases self.labels.len() - i,
        {
            assert(ls.skip(i as int).drop_first() =~= ls.skip(i + 1));
            assert(ls.skip(i as int)[0] == ls[i as int]);
            if str_eq(self.labels[i].0.as_str(), k.as_str()) {
                return str_eq(self.labels[i].1.as_str(), v.as_str());
            }
            i += 1;
        }
        false
    }

    fn matches(
        &self,
        before: Option<&str>,
        pipeline: Option<&str>,
        labels: &[(String, String)],
        include_orphans: bool,
    ) -> (r: bool)
        ensures
            r == run_matches(self@, opt_text(before), opt_text(pipeline), pair_views(labels@), include_orphans),
    {
        if self.is_orphan && !include_orphans {
            return false;
        }
        match before {
            Some(b) => {
                let st = chars_of(self.start_time.as_str());
                let bc = chars_of(b);
                if st.len() > 0 && !lex_less(&st, &bc) {
                    return false;
                }
            },
            None => {},
        }
        match pipeline {
            Some(p) => {
                if !str_contains(self.pipeline_name.as_str(), p) {
                    return false;
                }
            },
            None => {},
        }
        let ghost lv = pair_views(labels@);
        let mut i: usize = 0;
        while i < labels.len()
            invariant
                i <= labels.len(),
                lv == pair_views(labels@),
                forall|j: int| 0 <= j < i ==> label_value(pair_views(self.labels@), #[trigger] lv[j].0) == Some(lv[j].1),
            decreases labels.len() - i,
        {
            if !self.label_is(&labels[i].0, &labels[i].1) {
                assert(lv[i as int] == (labels@[i as int].0@, labels@[i as int].1@));
                assert(label_value(pair_views(self.labels@), lv[i as int].0) != Some(lv[i as int].1));
                return false;
            }
            i += 1;
        }
        true
    }
}

/// The runs that pass the filters, in their order: orphans only with
/// `include_orphans`; with `before`, runs whose start time is unknown or
/// sorts before it; with `pipeline`, runs whose pipeline name contains it;
/// and only runs that carry every label of `labels`.
pub fn filter_runs(
    runs: &[RunInfo],
    before: Option<&str>,
    pipeline: Option<&str>,
    labels: &[(String, String)],
    include_orphans: bool,
) -> (r: Vec<RunInfo>)
    ensures
        run_views(r@) == matching_runs(
            run_views(runs@),
            opt_text(before),
            opt_text(pipeline),
            pair_views(labels@),
            include_orphans,
        ),
{
    let ghost rv = run_views(runs@);
    let ghost b = opt_text(before);
    let ghost p = opt_text(pipeline);
    let ghost lv = pair_views(labels@);
    let mut out: Vec<RunInfo> = Vec::new();
    let mut i: usize = 0;
    while i < runs.len()
        invariant
            i <= runs.len(),
            rv == run_views(runs@),
            b == opt_text(before) && p == opt_text(pipeline) && lv == pair_views(labels@),
            run_views(out@) == matching_runs(rv.take(i as int), b, p, lv, include_orphans),
        decreases runs.len() - i,
    {
        proof {
            assert(rv.take(i + 1).drop_last() =~= rv.take(i as int));
            assert(rv.take(i + 1).last() == runs@[i as int]@);
        }
        let ghost o0 = run_views(out@);
        if runs[i].matches(before, pipeline, labels, include_orphans) {
            let copy = runs[i].duplicate();
            out.push(copy);
            assert(run_views(out@) =~= o0 + seq![runs@[i as int]@]);
        } else {
            assert(run_views(out@) =~= o0 + Seq::<RunView>::empty());
        }
        i += 1;
    }
    proof {
        lemma_take_full(rv);
    }
    out
}

/// The `KEY=VALUE` filter of one argument, split at its first `=`; an
/// argument without `=` gives none.
pub open spec fn label_filter(s: Seq<char>) -> Seq<(Seq<char>, Seq<char>)> {
    match find_char(s, '=') {
        Some(k) => seq![(s.take(k), s.skip(k + 1))],
        None => Seq::empty(),
    }
}

/// Reads `KEY=VALUE` label arguments; arguments without `=` are skipped.
pub fn parse_label_filters(label_args: &[String]) -> (r: Vec<(String, String)>)
    ensures
        pair_views(r@) == flat_map(label_args@.map_values(|s: String| s@), |s: Seq<char>| label_filter(s)),
{
    let ghost av = label_args@.map_values(|s: String| s@);
    let mut out: Vec<(String, String)> = Vec::new();
    let mut i: usize = 0;
    while i < label_args.len()
        invariant
            i <= label_args.len(),
            av == label_args@.map_values(|s: String| s@),
            pair_views(out@) == flat_map(av.take(i as int), |s: Seq<char>| label_filter(s)),
        decreases label_args.len() - i,
    {
        proof {
            lemma_flat_map_step(av, |s: Seq<char>| label_filter(s), i as int);
        }
        let cs = chars_of(label_args[i].as_str());
        let ghost o0 = pair_views(out@);
        proof {
            lemma_find_char(cs@, '=');
            assert(cs@.skip(0) =~= cs@);
        }
        match find_char_from(&cs, '=', 0) {
            Some(k) => {
                let key = string_from_range(&cs, 0, k);
                let value = string_from_range(&cs, k + 1, cs.len());
                proof {
                    assert(cs@.skip(0) =~= cs@);
                }
                out.push((key, value));
                proof {
                    assert(key@ =~= cs@.take(k as int));
                    assert(value@ =~= cs@.skip(k + 1));
                    assert(pair_views(out@) =~= o0 + label_filter(cs@));
                }
            },
            None => {
                proof {
                    assert(cs@.skip(0) =~= cs@);
                    assert(pair_views(out@) =~= o0 + label_filter(cs@));
                }
            },
        }
        i += 1;
    }
    proof {
        lemma_take_full(av);
    }
    out
}

impl RunsListArgs {
    /// The runs that `runs list` shows, out of the scanned ones.
    pub fn select(&self, runs: &[RunInfo]) -> (r: Vec<RunInfo>)
        ensures
            run_views(r@) == matching_runs(
                run_views(runs@),
                opt_string(self.before),
                opt_string(self.pipeline),
                flat_map(self.label@.map_values(|s: String| s@), |s: Seq<char>| label_filter(s)),
                self.orphans,
            ),
    {
        let filters = parse_label_filters(self.label.as_slice());
        filter_runs(runs, as_opt_str(&self.before), as_opt_str(&self.pipeline), filters.as_slice(), self.orphans)
    }
}

impl RunsPruneArgs {
    /// The runs that `runs prune` deletes (or, without `yes`, would delete),
    /// out of the scanned ones.
    pub fn select(&self, runs: &[RunInfo]) -> (r: Vec<RunInfo>)
        ensures
            run_views(r@) == matching_runs(
                run_views(runs@),
                opt_string(self.before),
                opt_string(self.pipeline),
                flat_map(self.label@.map_values(|s: String| s@), |s: Seq<char>| label_filter(s)),
                self.orphans,
            ),
    {
        let filters = parse_label_filters(self.label.as_slice());
        filter_runs(runs, as_opt_str(&self.before), as_opt_str(&self.pipeline), filters.as_slice(), self.orphans)
    }
}

pub open spec fn opt_string(o: Option<String>) -> Option<Seq<char>> {
    match o {
        Some(s) => Some(s@),
        None => None,
    }
}

fn as_opt_str(o: &Option<String>) -> (r: Option<&str>)
    ensures
        opt_text(r) == opt_string(*o),
{
    match o {
        Some(s) => Some(s.as_str()),
        None => None,
    }
}

/// Every run that the filters keep passes them, and it is one of the runs
/// given.
pub proof fn law_matching_runs_sound(
    rs: Seq<RunView>,
    before: Option<Seq<char>>,
    pipeline: Option<Seq<char>>,
    labels: Seq<(Seq<char>, Seq<char>)>,
    include_orphans: bool,
)
    ensures
        forall|k: int|
            0 <= k < matching_runs(rs, before, pipeline, labels, include_orphans).len() ==> run_matches(
                #[trigger] matching_runs(rs, before, pipeline, labels, include_orphans)[k],
                before,
                pipeline,
                labels,
                include_orphans,
            ) && rs.contains(matching_runs(rs, before, pipeline, labels, include_orphans)[k]),
    decreases rs.len(),
{
    if rs.len() > 0 {
        let prev = rs.drop_last();
        law_matching_runs_sound(prev, before, pipeline, labels, include_orphans);
        let m0 = matching_runs(prev, before, pipeline, labels, include_orphans);
        let m = matching_runs(rs, before, pipeline, labels, include_orphans);
        assert forall|k: int| 0 <= k < m.len() implies run_matches(#[trigger] m[k], before, pipeline, labels, include_orphans)
            && rs.contains(m[k]) by {
            if k < m0.len() {
                assert(m[k] == m0[k]);
                let j = choose|j: int| 0 <= j < prev.len() && prev[j] == m0[k];
                assert(rs[j] == prev[j]);
            } else {
                assert(m[k] == rs.last());
                assert(rs[rs.len() - 1] == rs.last());
            }
        }
    }
}

/// Every given run that passes the filters is kept.
pub proof fn law_matching_runs_complete(
    rs: Seq<RunView>,
    before: Option<Seq<char>>,
    pipeline: Option<Seq<char>>,
    labels: Seq<(Seq<char>, Seq<char>)>,
    include_orphans: bool,
    i: int,
)
    requires
        0 <= i < rs.len(),
        run_matches(rs[i], before, pipeline, labels, include_orphans),
    ensures
        matching_runs(rs, before, pipeline, labels, include_orphans).contains(rs[i]),
    decreases rs.len(),
{
    let m = matching_runs(rs, before, pipeline, labels, include_orphans);
    if i == rs.len() - 1 {
        assert(m[m.len() - 1] == rs[i]);
    } else {
        let prev = rs.drop_last();
        law_matching_runs_complete(prev, before, pipeline, labels, include_orphans, i);
        let m0 = matching_runs(prev, before, pipeline, labels, include_orphans);
        let j = choose|j: int| 0 <= j < m0.len() && m0[j] == prev[i];
        assert(m[j] == m0[j]);
    }
}

/// Filtering the kept runs again keeps them all.
pub proof fn law_matching_runs_idempotent(
    rs: Seq<RunView>,
    before: Option<Seq<char>>,
    pipeline: Option<Seq<char>>,
    labels: Seq<(Seq<char>, Seq<char>)>,
    include_orphans: bool,
)
    ensures
        matching_runs(matching_runs(rs, before, pipeline, labels, include_orphans), before, pipeline, labels, include_orphans)
            == matching_runs(rs, before, pipeline, labels, include_orphans),
    decreases rs.len(),
{
    if rs.len() > 0 {
        let prev = rs.drop_last();
        law_matching_runs_idempotent(prev, before, pipeline, labels, include_orphans);
        let m0 = matching_runs(prev, before, pipeline, labels, include_orphans);
        if run_matches(rs.last(), before, pipeline, labels, include_orphans) {
            let m = m0.push(rs.last());
            assert(matching_runs(rs, before, pipeline, labels, include_orphans) =~= m);
            assert(m.drop_last() =~= m0);
        } else {
            assert(matching_runs(rs, before, pipeline, labels, include_orphans) =~= m0);
        }
    }
}


/// The text of member `key` of a JSON value, when it is a string.
pub open spec fn member_text(v: serde_json::Value, key: Seq<char>) -> Option<Seq<char>> {
    json_str(json_member(v, key))
}

pub open spec fn text_or(o: Option<Seq<char>>, d: Seq<char>) -> Seq<char> {
    match o {
        Some(t) => t,
        None => d,
    }
}

/// The status of a run: the `status` text of its `final.json` when that
/// file exists (`final_text` is `Some`) and reads as JSON with a string
/// status; `unknown` for any other `final.json`; without one, `running` when
/// a pid file exists and `unknown` otherwise. `Some(None)` stands for a
/// `final.json` that could not be read.
pub open spec fn run_status(final_text: Option<Option<Seq<char>>>, pid_exists: bool) -> Seq<char> {
    match final_text {
        Some(Some(t)) => match json_parsed(t) {
            Some(v) => text_or(member_text(v, "status"@), "unknown"@),
            None => "unknown"@,
        },
        Some(None) => "unknown"@,
        None => if pid_exists {
            "running"@
        } else {
            "unknown"@
        },
    }
}

pub open spec fn opt_string_view(o: Option<String>) -> Option<Seq<char>> {
    match o {
        Some(s) => Some(s@),
        None => None,
    }
}

/// The status of a run from what its directory holds; see `run_status`.
pub fn status_of(final_text: Option<Option<String>>, pid_exists: bool) -> (r: String)
    ensures
        r@ == run_status(
            match final_text {
                Some(t) => Some(opt_string_view(t)),
                None => None,
            },
            pid_exists,
        ),
{
    proof {
        reveal_strlit("unknown");
        reveal_strlit("running");
        reveal_strlit("status");
    }
    match final_text {
        Some(Some(t)) => match json_parse(t.as_str()) {
            Ok(v) => {
                let st = json_field(&v, "status");
                match json_as_str(&st) {
                    Some(x) => x,
                    None => owned("unknown"),
                }
            },
            Err(_) => owned("unknown"),
        },
        Some(None) => owned("unknown"),
        None => if pid_exists {
            owned("running")
        } else {
            owned("unknown")
        },
    }
}

/// The run that a manifest describes: its `run_id` (else the directory
/// name), `pipeline_name` (else `unknown`), `start_time` (else empty) and
/// string `labels` (else none), with the given status and path.
pub open spec fn manifest_run(dir_name: Seq<char>, m: serde_json::Value, status: Seq<char>, path: Seq<char>) -> RunView {
    RunView {
        run_id: text_or(member_text(m, "run_id"@), dir_name),
        dir_name: dir_name,
        pipeline_name: text_or(member_text(m, "pipeline_name"@), "unknown"@),
        status: status,
        start_time: text_or(member_text(m, "start_time"@), ""@),
        labels: match json_string_pairs(json_member(m, "labels"@)) {
            Some(p) => p,
            None => Seq::empty(),
        },
        path: path,
        is_orphan: false,
    }
}

fn text_field_or(m: &serde_json::Value, key: &str, d: &str) -> (r: String)
    ensures
        r@ == text_or(member_text(*m, key@), d@),
{
    let f = json_field(m, key);
    match json_as_str(&f) {
        Some(t) => t,
        None => owned(d),
    }
}

/// The run described by the parsed manifest of directory `dir_name`.
pub fn run_from_manifest(dir_name: &str, manifest: &serde_json::Value, status: &str, path: PathBuf) -> (r: RunInfo)
    ensures
        r@ == manifest_run(dir_name@, *manifest, status@, path_display(path)),
        distinct_keys(r@.labels),
{
    proof {
        reveal_strlit("run_id");
        reveal_strlit("pipeline_name");
        reveal_strlit("start_time");
        reveal_strlit("labels");
        reveal_strlit("unknown");
        reveal_strlit("");
    }
    let run_id = text_field_or(manifest, "run_id", dir_name);
    let pipeline_name = text_field_or(manifest, "pipeline_name", "unknown");
    let start_time = text_field_or(manifest, "start_time", "");
    let lv = json_field(manifest, "labels");
    let labels = match json_string_map(&lv) {
        Some(l) => l,
        None => {
            let e: Vec<(String, String)> = Vec::new();
            assert(pair_views(e@) =~= Seq::empty());
            e
        },
    };
    RunInfo {
        run_id,
        dir_name: owned(dir_name),
        pipeline_name,
        status: owned(status),
        start_time,
        labels,
        path,
        is_orphan: false,
    }
}

/// The run described by the manifest text of directory `dir_name`; an error
/// when the text is not JSON.
pub fn run_from_manifest_text(dir_name: &str, text: &str, status: &str, path: PathBuf) -> (r: Result<RunInfo, String>)
    ensures
        match json_parsed(text@) {
            Some(m) => r matches Ok(x) && x@ == manifest_run(dir_name@, m, status@, path_display(path)),
            None => r is Err,
        },
{
    match json_parse(text) {
        Ok(m) => Ok(run_from_manifest(dir_name, &m, status, path)),
        Err(e) => Err(e),
    }
}

/// A run directory without a manifest: named by its directory, started at
/// its modification time, status unknown, no labels.
pub fn orphan_run(dir_name: &str, mtime: &str, path: PathBuf) -> (r: RunInfo)
    ensures
        r@ == (RunView {
            run_id: dir_name@,
            dir_name: dir_name@,
            pipeline_name: "[no manifest]"@,
            status: "unknown"@,
            start_time: mtime@,
            labels: Seq::empty(),
            path: path_display(path),
            is_orphan: true,
        }),
{
    let labels: Vec<(String, String)> = Vec::new();
    assert(pair_views(labels@) =~= Seq::empty());
    RunInfo {
        run_id: owned(dir_name),
        dir_name: owned(dir_name),
        pipeline_name: owned("[no manifest]"),
        status: owned("unknown"),
        start_time: owned(mtime),
        labels,
        path,
        is_orphan: true,
    }
}

/// Runs are in order of start time, latest first.
pub open spec fn newest_first_order(s: Seq<RunInfo>) -> bool {
    forall|i: int, j: int| 0 <= i < j < s.len() ==> !lex_lt(#[trigger] s[i].start_time@, #[trigger] s[j].start_time@)
}

/// The runs ordered by start time, latest first.
pub fn newest_first(runs: Vec<RunInfo>) -> (r: Vec<RunInfo>)
    ensures
        r@.to_multiset() == runs@.to_multiset(),
        newest_first_order(r@),
{
    broadcast use vstd::seq_lib::group_to_multiset_ensures, vstd::multiset::group_multiset_axioms;

    let mut rest = runs;
    let mut out: Vec<RunInfo> = Vec::new();
    assert(out@.to_multiset() =~= vstd::multiset::Multiset::empty());
    assert(out@.to_multiset().add(rest@.to_multiset()) =~= runs@.to_multiset());
    while rest.len() > 0
        invariant
            out@.to_multiset().add(rest@.to_multiset()) == runs@.to_multiset(),
            newest_first_order(out@),
        decreases rest.len(),
    {
        let ghost rest0 = rest@;
        let ghost out0 = out@;
        let x = rest.remove(0);
        proof {
            vstd::seq_lib::to_multiset_remove(rest0, 0);
            assert(rest0.remove(0) =~= rest@);
            assert(rest0[0] == x);
            assert(rest0.contains(x));
            vstd::seq_lib::to_multiset_contains(rest0, x);
            assert(rest0.to_multiset().contains(x));
            assert(rest@.to_multiset().insert(x) =~= rest0.to_multiset());
        }
        let xs = chars_of(x.start_time.as_str());
        let mut j: usize = 0;
        while j < out.len()
            invariant
                j <= out.len(),
                out@ == out0,
                xs@ == x.start_time@,
                forall|i: int| 0 <= i < j ==> !lex_lt(#[trigger] out0[i].start_time@, x.start_time@),
            ensures
                j <= out.len(),
                forall|i: int| 0 <= i < j ==> !lex_lt(#[trigger] out0[i].start_time@, x.start_time@),
                j < out.len() ==> lex_lt(out0[j as int].start_time@, x.start_time@),
            decreases out.len() - j,
        {
            let cj = chars_of(out[j].start_time.as_str());
            if lex_less(&cj, &xs) {
                break;
            }
            j += 1;
        }
        out.insert(j, x);
        proof {
            vstd::seq_lib::to_multiset_insert(out0, j as int, x);
            assert(out0.insert(j as int, x) =~= out@);
            assert(out@.to_multiset().add(rest@.to_multiset()) =~= out0.to_multiset().add(rest0.to_multiset()));
            let s = out@;
            assert forall|a: int, b: int| 0 <= a < b < s.len() implies !lex_lt(#[trigger] s[a].start_time@, #[trigger] s[b].start_time@) by {
                if a < j && b == j {
                } else if a == j {
                    let k = b - 1;
                    assert(s[b] == out0[k]);
                    if lex_lt(x.start_time@, out0[k].start_time@) {
                        crate::reach::lemma_lex_trans(out0[j as int].start_time@, x.start_time@, out0[k].start_time@);
                        if k > j {
                            assert(!lex_lt(out0[j as int].start_time@, out0[k].start_time@));
                        } else {
                            crate::reach::lemma_lex_irrefl(out0[j as int].start_time@);
                        }
                    }
                } else if a < j && b > j {
                    assert(s[a] == out0[a]);
                    assert(s[b] == out0[b - 1]);
                } else if a > j {
                    assert(s[a] == out0[a - 1]);
                    assert(s[b] == out0[b - 1]);
                } else {
                    assert(s[a] == out0[a]);
                    assert(s[b] == out0[b]);
                }
            }
        }
    }
    proof {
        assert(rest@ =~= Seq::<RunInfo>::empty());
        assert(out@.to_multiset().add(rest@.to_multiset()) =~= out@.to_multiset());
    }
    out
}

} // verus!
