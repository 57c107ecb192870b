use vstd::prelude::*;

use std::path::PathBuf;

use crate::paths::{copy_path, path_display, path_from};
use crate::runs::{run_views, RunInfo, RunView};
use crate::text::{
    append_str, chars_of, concat3, decimal, find_char, find_char_from, has_prefix, join, lemma_find_char,
    lemma_join_push, lemma_take_full, owned, str_starts_with, string_from_range, usize_text,
};

verus! {

/// Arguments of `cp`: each side is `<run-id>:<path>` inside a run's
/// sandbox, or a local path.
pub struct CpArgs {
    pub src: String,
    pub dst: String,
    /// Copy directories with their contents.
    pub recursive: bool,
}

/// Which way a copy goes.
pub enum CopyDirection {
    /// From a run's sandbox to a local path.
    Download { run_prefix: String, remote_path: String, local_path: PathBuf },
    /// From a local path into a run's sandbox.
    Upload { local_path: PathBuf, run_prefix: String, remote_path: String },
}

/// A copy direction as plain values; the local path by its display form.
pub enum DirectionView {
    Download { run_prefix: Seq<char>, remote_path: Seq<char>, local_path: Seq<char> },
    Upload { local_path: Seq<char>, run_prefix: Seq<char>, remote_path: Seq<char> },
}

impl View for CopyDirection {
    type V = DirectionView;

    open spec fn view(&self) -> DirectionView {
        match self {
            CopyDirection::Download { run_prefix, remote_path, local_path } => DirectionView::Download {
                run_prefix: run_prefix@,
                remote_path: remote_path@,
                local_path: path_display(*local_path),
            },
            CopyDirection::Upload { local_path, run_prefix, remote_path } => DirectionView::Upload {
                local_path: path_display(*local_path),
                run_prefix: run_prefix@,
                remote_path: remote_path@,
            },
        }
    }
}

/// How `<run-id>:<path>` splits: paths that start with `/`, `./` or `../`
/// are local; anything else splits at its first colon, and text without a
/// colon is local too.
pub open spec fn run_path_parts(s: Seq<char>) -> Option<(Seq<char>, Seq<char>)> {
    if has_prefix(s, "/"@) || has_prefix(s, "./"@) || has_prefix(s, "../"@) {
        None
    } else {
        match find_char(s, ':') {
            Some(k) => Some((s.take(k), s.skip(k + 1))),
            None => None,
        }
    }
}

/// Splits `<run-id>:<path>` at its first colon; `None` for a local path.
pub fn split_run_path(s: &str) -> (r: Option<(String, String)>)
    ensures
        match run_path_parts(s@) {
            Some((a, b)) => r matches Some(p) && p.0@ == a && p.1@ == b,
            None => r is None,
        },
{
    if str_starts_with(s, "/") || str_starts_with(s, "./") || str_starts_with(s, "../") {
        return None;
    }
    let cs = chars_of(s);
    proof {
        assert(cs@.skip(0) =~= cs@);
        lemma_find_char(cs@, ':');
    }
    match find_char_from(&cs, ':', 0) {
        Some(k) => {
            let a = string_from_range(&cs, 0, k);
            let b = string_from_range(&cs, k + 1, cs.len());
            assert(a@ =~= cs@.take(k as int));
            assert(b@ =~= cs@.skip(k + 1));
            Some((a, b))
        },
        None => None,
    }
}

/// The direction of a copy: exactly one side must name a run.
pub open spec fn direction_of(src: Seq<char>, dst: Seq<char>) -> Result<
    (bool, Seq<char>, Seq<char>, Seq<char>),
    Seq<char>,
> {
    match (run_path_parts(src), run_path_parts(dst)) {
        (Some((run, remote)), None) => Ok((true, run, remote, dst)),
        (None, Some((run, remote))) => Ok((false, run, remote, src)),
        (Some(_), Some(_)) => Err("Cannot copy between two sandboxes; one argument must be a local path"@),
        (None, None) => Err("One argument must contain a run-id prefix (e.g. <run-id>:<path>)"@),
    }
}

/// Works out which way a copy goes: a download when only `src` names a run,
/// an upload when only `dst` does, and an error otherwise.
pub fn parse_direction(src: &str, dst: &str) -> (r: Result<CopyDirection, String>)
    ensures
        match direction_of(src@, dst@) {
            Ok((down, run, remote, local)) => r matches Ok(d) && d@ == (if down {
                DirectionView::Download { run_prefix: run, remote_path: remote, local_path: local }
            } else {
                DirectionView::Upload { local_path: local, run_prefix: run, remote_path: remote }
            }),
            Err(m) => r matches Err(e) && e@ == m,
        },
{
    let s = split_run_path(src);
    let d = split_run_path(dst);
    match (s, d) {
        (Some((run_prefix, remote_path)), None) => Ok(
            CopyDirection::Download { run_prefix, remote_path, local_path: path_from(dst) },
        ),
        (None, Some((run_prefix, remote_path))) => Ok(
            CopyDirection::Upload { local_path: path_from(src), run_prefix, remote_path },
        ),
        (Some(_), Some(_)) => Err(owned("Cannot copy between two sandboxes; one argument must be a local path")),
        (None, None) => Err(owned("One argument must contain a run-id prefix (e.g. <run-id>:<path>)")),
    }
}

/// The runs whose id starts with `p`, in order.
pub open spec fn prefix_matches(rs: Seq<RunView>, p: Seq<char>) -> Seq<RunView>
    decreases rs.len(),
{
    if rs.len() == 0 {
        Seq::empty()
    } else {
        prefix_matches(rs.drop_last(), p) + if has_prefix(rs.last().run_id, p) {
            seq![rs.last()]
        } else {
            Seq::empty()
        }
    }
}

/// What looking a run up by id prefix gives: its path when exactly one run
/// matches, and otherwise an error that says none or how many did.
pub open spec fn run_lookup(rs: Seq<RunView>, p: Seq<char>) -> Result<Seq<char>, Seq<char>> {
    let m = prefix_matches(rs, p);
    if m.len() == 0 {
        Err("No run found matching prefix '"@ + p + "'"@)
    } else if m.len() == 1 {
        Ok(m[0].path)
    } else {
        Err("Ambiguous prefix '"@ + p + "': "@ + decimal(m.len()) + " runs match: "@ + join(
            m.map_values(|r: RunView| r.run_id),
            ", "@,
        ))
    }
}

/// Finds the run whose id starts with `prefix` among the scanned runs.
pub fn find_run_by_prefix(runs: &[RunInfo], prefix: &str) -> (r: Result<PathBuf, String>)
    ensures
        match run_lookup(run_views(runs@), prefix@) {
            Ok(p) => r matches Ok(x) && path_display(x) == p,
            Err(m) => r matches Err(e) && e@ == m,
        },
{
    let ghost rv = run_views(runs@);
    let mut found: Vec<usize> = Vec::new();
    let mut ids = String::new();
    let mut i: usize = 0;
    while i < runs.len()
        invariant
            i <= runs.len(),
            rv == run_views(runs@),
            found.len() == prefix_matches(rv.take(i as int), prefix@).len(),
            forall|j: int|
                0 <= j < found.len() ==> #[trigger] found@[j] < runs.len() && runs@[found@[j] as int]@
                    == prefix_matches(rv.take(i as int), prefix@)[j],
            ids@ == join(prefix_matches(rv.take(i as int), prefix@).map_values(|r: RunView| r.run_id), ", "@),
            found.len() <= i,
        decreases runs.len() - i,
    {
        let ghost m0 = prefix_matches(rv.take(i as int), prefix@);
        proof {
            assert(rv.take(i + 1).drop_last() =~= rv.take(i as int));
            assert(rv.take(i + 1).last() == runs@[i as int]@);
        }
        if str_starts_with(runs[i].run_id.as_str(), prefix) {
            proof {
                let m1 = prefix_matches(rv.take(i + 1), prefix@);
                assert(m1 =~= m0.push(runs@[i as int]@));
                assert(m1.map_values(|r: RunView| r.run_id) =~= m0.map_values(|r: RunView| r.run_id).push(
                    runs@[i as int].run_id@,
                ));
                lemma_join_push(m0.map_values(|r: RunView| r.run_id), ", "@, runs@[i as int].run_id@);
            }
            if found.len() > 0 {
                append_str(&mut ids, ", ");
            }
            append_str(&mut ids, runs[i].run_id.as_str());
            found.push(i);
        } else {
            proof {
                assert(prefix_matches(rv.take(i + 1), prefix@) =~= m0);
            }
        }
        i += 1;
    }
    proof {
        lemma_take_full(rv);
    }
    if found.len() == 0 {
        Err(concat3("No run found matching prefix '", prefix, "'"))
    } else if found.len() == 1 {
        Ok(copy_path(&runs[found[0]].path))
    } else {
        let mut e = concat3("Ambiguous prefix '", prefix, "': ");
        let n = usize_text(found.len());
        append_str(&mut e, n.as_str());
        append_str(&mut e, " runs match: ");
        append_str(&mut e, ids.as_str());
        Err(e)
    }
}

} // verus!
