use vstd::prelude::*;

use crate::text::{
    copy_chars, find_char, lemma_find_char, strip_cr,
    count, first_index, join, lemma_first_index_is, chars_of, concat2, ends_with_chars, has_prefix, has_suffix, lines, lines_of, seq_eq, slice_vec,
    starts_with_chars, string_from_chars, trim, trim_chars, trim_start, trim_end, is_ws,
};

verus! {

/// One line of a hunk.
#[derive(Debug, Clone, PartialEq, Eq)]
pub enum Change {
    Remove(String),
    Add(String),
    Context(String),
}

/// A group of changes, located by an optional context line.
#[derive(Debug, Clone, PartialEq, Eq)]
pub struct Hunk {
    pub context_line: String,
    pub changes: Vec<Change>,
}

/// One file operation of a patch.
#[derive(Debug, Clone, PartialEq, Eq)]
pub enum PatchOperation {
    Add { path: String, content: String },
    Delete { path: String },
    Update { path: String, hunks: Vec<Hunk> },
}

pub enum ChangeView {
    Remove(Seq<char>),
    Add(Seq<char>),
    Context(Seq<char>),
}

pub struct HunkView {
    pub context_line: Seq<char>,
    pub changes: Seq<ChangeView>,
}

pub enum OpView {
    Add { path: Seq<char>, content: Seq<char> },
    Delete { path: Seq<char> },
    Update { path: Seq<char>, hunks: Seq<HunkView> },
}

impl View for Change {
    type V = ChangeView;

    open spec fn view(&self) -> ChangeView {
        match self {
            Change::Remove(s) => ChangeView::Remove(s@),
            Change::Add(s) => ChangeView::Add(s@),
            Change::Context(s) => ChangeView::Context(s@),
        }
    }
}

pub open spec fn change_views(s: Seq<Change>) -> Seq<ChangeView> {
    s.map_values(|c: Change| c@)
}

impl View for Hunk {
    type V = HunkView;

    open spec fn view(&self) -> HunkView {
        HunkView { context_line: self.context_line@, changes: change_views(self.changes@) }
    }
}

pub open spec fn hunk_views(s: Seq<Hunk>) -> Seq<HunkView> {
    s.map_values(|h: Hunk| h@)
}

impl View for PatchOperation {
    type V = OpView;

    open spec fn view(&self) -> OpView {
        match self {
            PatchOperation::Add { path, content } => OpView::Add { path: path@, content: content@ },
            PatchOperation::Delete { path } => OpView::Delete { path: path@ },
            PatchOperation::Update { path, hunks } => OpView::Update {
                path: path@,
                hunks: hunk_views(hunks@),
            },
        }
    }
}

pub open spec fn op_views(s: Seq<PatchOperation>) -> Seq<OpView> {
    s.map_values(|o: PatchOperation| o@)
}

// ---------------------------------------------------------------------------
// The patch grammar, over the lines of the text
// ---------------------------------------------------------------------------

/// How reading a patch ends: with operations, with an error message, or by
/// slicing a malformed `@@ @@` header (where the reader gives up).
pub enum ParseOutcome {
    Done(Seq<OpView>),
    Fail(Seq<char>),
    Crash,
}

/// How reading the hunks of an update ends.
pub enum HunksOutcome {
    Hunks(Seq<HunkView>, int),
    Fail(Seq<char>),
    Crash,
}

/// The line after `*** Begin Patch` (the end when there is none).
pub open spec fn begin_index(ls: Seq<Seq<char>>, i: int) -> int
    decreases ls.len() - i,
{
    if i < 0 || i >= ls.len() {
        ls.len() as int
    } else if trim(ls[i]) == "*** Begin Patch"@ {
        i + 1
    } else {
        begin_index(ls, i + 1)
    }
}

/// A line that starts a new section.
pub open spec fn is_section(l: Seq<char>) -> bool {
    has_prefix(l, "*** "@)
}

/// A hunk header: `@@` or `@@ context @@`.
pub open spec fn is_header(l: Seq<char>) -> bool {
    l == "@@"@ || (has_prefix(l, "@@ "@) && has_suffix(l, " @@"@))
}

/// The body of an added file from line `j` on, given the text read so far:
/// lines up to the next section, each with its `+` removed, joined by newlines
/// (a newline is only added once the text is non-empty).
pub open spec fn add_block(ls: Seq<Seq<char>>, j: int, acc: Seq<char>) -> Result<
    (Seq<char>, int),
    Seq<char>,
>
    decreases ls.len() - j,
{
    if j < 0 || j >= ls.len() || is_section(ls[j]) {
        Ok((acc, j))
    } else if has_prefix(ls[j], "+"@) {
        let t = ls[j].drop_first();
        add_block(ls, j + 1, if acc.len() == 0 { acc + t } else { acc + "\n"@ + t })
    } else {
        Err("Expected '+' prefix in Add File block, got: "@ + ls[j])
    }
}

/// The change a hunk line stands for.
pub open spec fn change_of(l: Seq<char>) -> Option<ChangeView> {
    if has_prefix(l, "-"@) {
        Some(ChangeView::Remove(l.drop_first()))
    } else if has_prefix(l, "+"@) {
        Some(ChangeView::Add(l.drop_first()))
    } else if has_prefix(l, " "@) {
        Some(ChangeView::Context(l.drop_first()))
    } else if l.len() == 0 {
        Some(ChangeView::Context(Seq::empty()))
    } else {
        None
    }
}

/// The changes of a hunk from line `j` up to the next section or header.
pub open spec fn hunk_changes(ls: Seq<Seq<char>>, j: int) -> Result<(Seq<ChangeView>, int), Seq<char>>
    decreases ls.len() - j,
{
    if j < 0 || j >= ls.len() || is_section(ls[j]) || is_header(ls[j]) {
        Ok((Seq::empty(), j))
    } else {
        match change_of(ls[j]) {
            None => Err(
                "Unexpected line in hunk (expected +, -, or space prefix): "@ + ls[j],
            ),
            Some(c) => match hunk_changes(ls, j + 1) {
                Ok((rest, e)) => Ok((seq![c] + rest, e)),
                Err(m) => Err(m),
            },
        }
    }
}

/// The context text of a hunk header.
pub open spec fn header_context(l: Seq<char>) -> Seq<char> {
    if l == "@@"@ {
        Seq::empty()
    } else {
        l.subrange(3, l.len() - 3)
    }
}

/// The hunks of an update from line `j` up to the next section.
pub open spec fn update_hunks(ls: Seq<Seq<char>>, j: int) -> HunksOutcome
    decreases ls.len() - j,
{
    if j < 0 || j >= ls.len() || (is_section(ls[j]) && !has_prefix(ls[j], "@@ "@)) {
        HunksOutcome::Hunks(Seq::empty(), j)
    } else if is_header(ls[j]) {
        if ls[j] != "@@"@ && ls[j].len() < 6 {
            HunksOutcome::Crash
        } else {
            match hunk_changes(ls, j + 1) {
                Err(m) => HunksOutcome::Fail(m),
                Ok((chs, e)) => if e <= j || e > ls.len() {
                    HunksOutcome::Crash
                } else {
                    match update_hunks(ls, e) {
                        HunksOutcome::Hunks(rest, e2) => HunksOutcome::Hunks(
                            seq![HunkView { context_line: header_context(ls[j]), changes: chs }]
                                + rest,
                            e2,
                        ),
                        other => other,
                    }
                },
            }
        }
    } else {
        HunksOutcome::Fail("Expected @@ context @@ line, got: "@ + ls[j])
    }
}

pub open spec fn prepend(op: OpView, o: ParseOutcome) -> ParseOutcome {
    match o {
        ParseOutcome::Done(ops) => ParseOutcome::Done(seq![op] + ops),
        other => other,
    }
}

/// The operations from line `i` on.
pub open spec fn parse_ops(ls: Seq<Seq<char>>, i: int) -> ParseOutcome
    decreases ls.len() - i,
{
    if i < 0 || i >= ls.len() {
        ParseOutcome::Done(Seq::empty())
    } else {
        let line = trim(ls[i]);
        if line == "*** End Patch"@ {
            ParseOutcome::Done(Seq::empty())
        } else if has_prefix(line, "*** Add File: "@) {
            match add_block(ls, i + 1, Seq::empty()) {
                Err(m) => ParseOutcome::Fail(m),
                Ok((content, e)) => if e <= i || e > ls.len() {
                    ParseOutcome::Crash
                } else {
                    prepend(OpView::Add { path: line.skip(14), content }, parse_ops(ls, e))
                },
            }
        } else if has_prefix(line, "*** Delete File: "@) {
            prepend(OpView::Delete { path: line.skip(17) }, parse_ops(ls, i + 1))
        } else if has_prefix(line, "*** Update File: "@) {
            match update_hunks(ls, i + 1) {
                HunksOutcome::Hunks(hs, e) => if e <= i || e > ls.len() {
                    ParseOutcome::Crash
                } else {
                    prepend(OpView::Update { path: line.skip(17), hunks: hs }, parse_ops(ls, e))
                },
                HunksOutcome::Fail(m) => ParseOutcome::Fail(m),
                HunksOutcome::Crash => ParseOutcome::Crash,
            }
        } else {
            ParseOutcome::Fail("Unexpected line in patch: "@ + line)
        }
    }
}

/// What reading the patch text gives.
pub open spec fn parse_patch(text: Seq<char>) -> ParseOutcome {
    let ls = lines(text);
    parse_ops(ls, begin_index(ls, 0))
}

/// A hunk header that starts with `@@ ` and ends with ` @@` but is too
/// short to hold context text between them, such as `@@ @@`.
pub open spec fn short_header(l: Seq<char>) -> bool {
    is_header(l) && l != "@@"@ && l.len() < 6
}

proof fn lemma_add_block_end(ls: Seq<Seq<char>>, j: int, acc: Seq<char>)
    requires
        0 <= j <= ls.len(),
    ensures
        add_block(ls, j, acc) matches Ok((_, e)) ==> j <= e <= ls.len(),
    decreases ls.len() - j,
{
    if j < ls.len() && !is_section(ls[j]) && has_prefix(ls[j], "+"@) {
        let t = ls[j].drop_first();
        lemma_add_block_end(ls, j + 1, if acc.len() == 0 { acc + t } else { acc + "\n"@ + t });
    }
}

proof fn lemma_hunk_changes_end(ls: Seq<Seq<char>>, j: int)
    requires
        0 <= j <= ls.len(),
    ensures
        hunk_changes(ls, j) matches Ok((_, e)) ==> j <= e <= ls.len(),
    decreases ls.len() - j,
{
    if j < ls.len() && !is_section(ls[j]) && !is_header(ls[j]) {
        lemma_hunk_changes_end(ls, j + 1);
    }
}

proof fn lemma_update_hunks_end(ls: Seq<Seq<char>>, j: int)
    requires
        0 <= j <= ls.len(),
    ensures
        update_hunks(ls, j) matches HunksOutcome::Hunks(_, e) ==> j <= e <= ls.len(),
        update_hunks(ls, j) is Crash ==> exists|k: int| j <= k < ls.len() && short_header(#[trigger] ls[k]),
    decreases ls.len() - j,
{
    if j < ls.len() && !(is_section(ls[j]) && !has_prefix(ls[j], "@@ "@)) && is_header(ls[j]) {
        if ls[j] != "@@"@ && ls[j].len() < 6 {
            assert(short_header(ls[j]));
        } else {
            lemma_hunk_changes_end(ls, j + 1);
            match hunk_changes(ls, j + 1) {
                Ok((_, e)) => {
                    lemma_update_hunks_end(ls, e);
                    if update_hunks(ls, e) is Crash {
                        let k = choose|k: int| e <= k < ls.len() && short_header(#[trigger] ls[k]);
                        assert(j <= k);
                    }
                },
                Err(_) => {},
            }
        }
    }
}

proof fn lemma_parse_ops_crash(ls: Seq<Seq<char>>, i: int)
    requires
        0 <= i,
    ensures
        parse_ops(ls, i) is Crash ==> exists|k: int| i <= k < ls.len() && short_header(#[trigger] ls[k]),
    decreases ls.len() - i,
{
    if i < ls.len() {
        let line = trim(ls[i]);
        if line == "*** End Patch"@ {
        } else if has_prefix(line, "*** Add File: "@) {
            lemma_add_block_end(ls, i + 1, Seq::empty());
            match add_block(ls, i + 1, Seq::empty()) {
                Ok((_, e)) => {
                    lemma_parse_ops_crash(ls, e);
                    if parse_ops(ls, e) is Crash {
                        let k = choose|k: int| e <= k < ls.len() && short_header(#[trigger] ls[k]);
                        assert(i <= k);
                    }
                },
                Err(_) => {},
            }
        } else if has_prefix(line, "*** Delete File: "@) {
            lemma_parse_ops_crash(ls, i + 1);
            if parse_ops(ls, i + 1) is Crash {
                let k = choose|k: int| i + 1 <= k < ls.len() && short_header(#[trigger] ls[k]);
                assert(i <= k);
            }
        } else if has_prefix(line, "*** Update File: "@) {
            lemma_update_hunks_end(ls, i + 1);
            match update_hunks(ls, i + 1) {
                HunksOutcome::Hunks(_, e) => {
                    lemma_parse_ops_crash(ls, e);
                    if parse_ops(ls, e) is Crash {
                        let k = choose|k: int| e <= k < ls.len() && short_header(#[trigger] ls[k]);
                        assert(i <= k);
                    }
                },
                HunksOutcome::Crash => {
                    let k = choose|k: int| i + 1 <= k < ls.len() && short_header(#[trigger] ls[k]);
                    assert(i <= k);
                },
                _ => {},
            }
        }
    }
}

proof fn lemma_begin_index(ls: Seq<Seq<char>>, i: int)
    requires
        0 <= i,
    ensures
        0 <= begin_index(ls, i),
    decreases ls.len() - i,
{
    if i < ls.len() && trim(ls[i]) != "*** Begin Patch"@ {
        lemma_begin_index(ls, i + 1);
    }
}

/// A patch that has no reading holds a too-short hunk header such as `@@ @@`.
pub proof fn law_unreadable_patch_has_short_header(text: Seq<char>)
    requires
        parse_patch(text) is Crash,
    ensures
        exists|k: int| 0 <= k < lines(text).len() && short_header(#[trigger] lines(text)[k]),
{
    let ls = lines(text);
    lemma_begin_index(ls, 0);
    lemma_parse_ops_crash(ls, begin_index(ls, 0));
}

/// `ps` up to its line `e` (an `*** End Patch` line) stands in `big` from
/// line `off` on.
pub open spec fn embeds(big: Seq<Seq<char>>, ps: Seq<Seq<char>>, off: int, e: int) -> bool {
    &&& 0 <= off
    &&& 0 <= e < ps.len()
    &&& e + off < big.len()
    &&& ps[e] == "*** End Patch"@
    &&& forall|j: int| 0 <= j <= e ==> #[trigger] big[j + off] == ps[j]
}

proof fn lemma_end_line()
    ensures
        is_section("*** End Patch"@),
        !has_prefix("*** End Patch"@, "@@ "@),
        trim("*** End Patch"@) == "*** End Patch"@,
{
    reveal_strlit("*** End Patch");
    reveal_strlit("*** ");
    reveal_strlit("@@ ");
    assert("*** End Patch"@.take(4) =~= "*** "@);
    assert(!has_prefix("*** End Patch"@, "@@ "@)) by {
        assert("*** End Patch"@[0] != "@@ "@[0]);
    }
    assert(!is_ws("*** End Patch"@[0]));
    assert(trim_start("*** End Patch"@) == "*** End Patch"@);
    assert(!is_ws("*** End Patch"@.last()));
    assert(trim_end("*** End Patch"@) == "*** End Patch"@);
}

proof fn lemma_add_block_shift(big: Seq<Seq<char>>, ps: Seq<Seq<char>>, off: int, e: int, j: int, acc: Seq<char>)
    requires
        embeds(big, ps, off, e),
        0 <= j <= e,
    ensures
        match add_block(ps, j, acc) {
            Ok((c, k)) => j <= k <= e && add_block(big, j + off, acc) == Ok::<(Seq<char>, int), Seq<char>>((c, k + off)),
            Err(m) => add_block(big, j + off, acc) == Err::<(Seq<char>, int), Seq<char>>(m),
        },
    decreases e - j,
{
    lemma_end_line();
    assert(big[j + off] == ps[j]);
    if j < e && !is_section(ps[j]) && has_prefix(ps[j], "+"@) {
        let t = ps[j].drop_first();
        lemma_add_block_shift(big, ps, off, e, j + 1, if acc.len() == 0 { acc + t } else { acc + "\n"@ + t });
    }
}

proof fn lemma_hunk_changes_shift(big: Seq<Seq<char>>, ps: Seq<Seq<char>>, off: int, e: int, j: int)
    requires
        embeds(big, ps, off, e),
        0 <= j <= e,
    ensures
        match hunk_changes(ps, j) {
            Ok((c, k)) => j <= k <= e && hunk_changes(big, j + off) == Ok::<(Seq<ChangeView>, int), Seq<char>>((c, k + off)),
            Err(m) => hunk_changes(big, j + off) == Err::<(Seq<ChangeView>, int), Seq<char>>(m),
        },
    decreases e - j,
{
    lemma_end_line();
    assert(big[j + off] == ps[j]);
    if j < e && !is_section(ps[j]) && !is_header(ps[j]) {
        lemma_hunk_changes_shift(big, ps, off, e, j + 1);
    }
}

proof fn lemma_update_hunks_shift(big: Seq<Seq<char>>, ps: Seq<Seq<char>>, off: int, e: int, j: int)
    requires
        embeds(big, ps, off, e),
        0 <= j <= e,
    ensures
        match update_hunks(ps, j) {
            HunksOutcome::Hunks(hs, k) => j <= k <= e && update_hunks(big, j + off) == HunksOutcome::Hunks(hs, k + off),
            other => update_hunks(big, j + off) == other,
        },
    decreases e - j,
{
    lemma_end_line();
    assert(big[j + off] == ps[j]);
    if j < e && !(is_section(ps[j]) && !has_prefix(ps[j], "@@ "@)) && is_header(ps[j]) {
        if !(ps[j] != "@@"@ && ps[j].len() < 6) {
            lemma_hunk_changes_shift(big, ps, off, e, j + 1);
            match hunk_changes(ps, j + 1) {
                Ok((_, k)) => {
                    lemma_update_hunks_shift(big, ps, off, e, k);
                },
                Err(_) => {},
            }
        }
    }
}

proof fn lemma_parse_ops_shift(big: Seq<Seq<char>>, ps: Seq<Seq<char>>, off: int, e: int, i: int)
    requires
        embeds(big, ps, off, e),
        0 <= i <= e,
    ensures
        parse_ops(big, i + off) == parse_ops(ps, i),
    decreases e - i,
{
    lemma_end_line();
    assert(big[i + off] == ps[i]);
    let line = trim(ps[i]);
    if i < e && line != "*** End Patch"@ {
        if has_prefix(line, "*** Add File: "@) {
            lemma_add_block_shift(big, ps, off, e, i + 1, Seq::empty());
            match add_block(ps, i + 1, Seq::empty()) {
                Ok((_, k)) => {
                    lemma_parse_ops_shift(big, ps, off, e, k);
                },
                Err(_) => {},
            }
        } else if has_prefix(line, "*** Delete File: "@) {
            lemma_parse_ops_shift(big, ps, off, e, i + 1);
        } else if has_prefix(line, "*** Update File: "@) {
            lemma_update_hunks_shift(big, ps, off, e, i + 1);
            match update_hunks(ps, i + 1) {
                HunksOutcome::Hunks(_, k) => {
                    lemma_parse_ops_shift(big, ps, off, e, k);
                },
                _ => {},
            }
        }
    }
}

proof fn lemma_begin_index_at(ls: Seq<Seq<char>>, b: int, k: int)
    requires
        0 <= k <= b < ls.len(),
        trim(ls[b]) == "*** Begin Patch"@,
        forall|j: int| 0 <= j < b ==> trim(#[trigger] ls[j]) != "*** Begin Patch"@,
    ensures
        begin_index(ls, k) == b + 1,
    decreases b - k,
{
    if k < b {
        lemma_begin_index_at(ls, b, k + 1);
    }
}

proof fn lemma_begin_index_none(ls: Seq<Seq<char>>, k: int)
    requires
        0 <= k <= ls.len(),
        forall|j: int| 0 <= j < ls.len() ==> trim(#[trigger] ls[j]) != "*** Begin Patch"@,
    ensures
        begin_index(ls, k) == ls.len(),
    decreases ls.len() - k,
{
    if k < ls.len() {
        lemma_begin_index_none(ls, k + 1);
    }
}

/// Lines before the `*** Begin Patch` line and after the closing
/// `*** End Patch` line do not change how a patch reads, and lines without a
/// `*** Begin Patch` line read as no operations.
pub proof fn law_lines_outside_markers_ignored(hs: Seq<Seq<char>>, ps: Seq<Seq<char>>, qs: Seq<Seq<char>>)
    requires
        forall|k: int| 0 <= k < hs.len() ==> trim(#[trigger] hs[k]) != "*** Begin Patch"@,
        ps.len() >= 2,
        trim(ps[0]) == "*** Begin Patch"@,
        ps.last() == "*** End Patch"@,
    ensures
        parse_ops(hs + ps + qs, begin_index(hs + ps + qs, 0)) == parse_ops(ps, begin_index(ps, 0)),
        parse_ops(hs, begin_index(hs, 0)) == ParseOutcome::Done(Seq::<OpView>::empty()),
{
    let big = hs + ps + qs;
    let off = hs.len() as int;
    let e = ps.len() - 1;
    assert forall|j: int| 0 <= j < off implies trim(#[trigger] big[j]) != "*** Begin Patch"@ by {
        assert(big[j] == hs[j]);
    }
    assert(big[off] == ps[0]);
    lemma_begin_index_at(big, off, 0);
    lemma_begin_index_at(ps, 0, 0);
    assert forall|j: int| 0 <= j <= e implies #[trigger] big[j + off] == ps[j] by {
        assert(big[j + off] == (hs + ps)[j + off]);
    }
    assert(embeds(big, ps, off, e));
    lemma_parse_ops_shift(big, ps, off, e, 1);
    lemma_begin_index_none(hs, 0);
}

/// The lines of `a`, a newline and `b` are those of `a` ended by a newline,
/// then those of `b`.
proof fn lemma_lines_split(a: Seq<char>, b: Seq<char>)
    ensures
        lines(a + "\n"@ + b) == lines(a + "\n"@) + lines(b),
    decreases a.len(),
{
    reveal_strlit("\n");
    let s = a + "\n"@ + b;
    let t = a + "\n"@;
    lemma_find_char(a, '\n');
    match find_char(a, '\n') {
        Some(k) => {
            assert forall|j: int| 0 <= j < k implies s[j] != '\n' && t[j] != '\n' by {
                assert(s[j] == a[j] && t[j] == a[j]);
            }
            assert(s[k] == a[k] && t[k] == a[k]);
            lemma_first_index_is(s, '\n', k);
            lemma_first_index_is(t, '\n', k);
            let a2 = a.skip(k + 1);
            assert(s.take(k) =~= a.take(k));
            assert(t.take(k) =~= a.take(k));
            assert(s.skip(k + 1) =~= a2 + "\n"@ + b);
            assert(t.skip(k + 1) =~= a2 + "\n"@);
            lemma_lines_split(a2, b);
            assert(lines(s) =~= seq![strip_cr(a.take(k))] + lines(a2 + "\n"@ + b));
            assert(lines(t) =~= seq![strip_cr(a.take(k))] + lines(a2 + "\n"@));
            assert(lines(s) =~= lines(t) + lines(b));
        },
        None => {
            let n = a.len() as int;
            assert forall|j: int| 0 <= j < n implies s[j] != '\n' && t[j] != '\n' by {
                assert(s[j] == a[j] && t[j] == a[j]);
            }
            lemma_first_index_is(s, '\n', n);
            lemma_first_index_is(t, '\n', n);
            assert(s.take(n) =~= a);
            assert(t.take(n) =~= a);
            assert(s.skip(n + 1) =~= b);
            assert(t.skip(n + 1) =~= Seq::<char>::empty());
            assert(t.skip(n + 1).len() == 0);
            assert(lines(t.skip(n + 1)) =~= Seq::<Seq<char>>::empty());
            assert(t.len() > 0);
            assert(lines(t) == seq![strip_cr(t.take(n))] + lines(t.skip(n + 1)));
            assert(lines(t) =~= seq![strip_cr(a)]);
            assert(lines(s) =~= lines(t) + lines(b));
        },
    }
}

/// A text that does not end in a newline has the same lines with a newline
/// after it, but for a carriage return taken off the last line.
proof fn lemma_lines_newline_end(a: Seq<char>)
    requires
        a.len() > 0,
        a.last() != '\n',
    ensures
        lines(a).len() >= 1,
        lines(a + "\n"@) == lines(a).update(lines(a).len() - 1, strip_cr(lines(a).last())),
    decreases a.len(),
{
    reveal_strlit("\n");
    let t = a + "\n"@;
    lemma_find_char(a, '\n');
    match find_char(a, '\n') {
        Some(k) => {
            assert forall|j: int| 0 <= j < k implies t[j] != '\n' by {
                assert(t[j] == a[j]);
            }
            assert(t[k] == a[k]);
            lemma_first_index_is(t, '\n', k);
            let a2 = a.skip(k + 1);
            assert(k + 1 < a.len());
            assert(a2.last() == a.last());
            assert(t.take(k) =~= a.take(k));
            assert(t.skip(k + 1) =~= a2 + "\n"@);
            lemma_lines_newline_end(a2);
            let la = lines(a);
            let l2 = lines(a2);
            assert(la == seq![strip_cr(a.take(k))] + l2);
            assert(lines(t) == seq![strip_cr(a.take(k))] + lines(a2 + "\n"@));
            assert(la.last() == l2.last());
            assert(lines(t) =~= la.update(la.len() - 1, strip_cr(la.last())));
        },
        None => {
            let n = a.len() as int;
            assert forall|j: int| 0 <= j < n implies t[j] != '\n' by {
                assert(t[j] == a[j]);
            }
            lemma_first_index_is(t, '\n', n);
            assert(t.take(n) =~= a);
            assert(t.skip(n + 1) =~= Seq::<char>::empty());
            assert(t.skip(n + 1).len() == 0);
            assert(lines(t.skip(n + 1)) =~= Seq::<Seq<char>>::empty());
            assert(t.len() > 0);
            assert(lines(t) == seq![strip_cr(t.take(n))] + lines(t.skip(n + 1)));
            assert(lines(a) == seq![a]);
            assert(lines(t) =~= lines(a).update(0, strip_cr(a)));
        },
    }
}

/// A text that ends in a newline gains one empty line with another newline
/// after it.
proof fn lemma_lines_double_newline(a: Seq<char>)
    requires
        a.len() > 0,
        a.last() == '\n',
    ensures
        lines(a + "\n"@) == lines(a).push(Seq::<char>::empty()),
{
    reveal_strlit("\n");
    let a0 = a.drop_last();
    assert(a =~= a0 + "\n"@);
    assert(a + "\n"@ =~= a0 + "\n"@ + "\n"@);
    lemma_lines_split(a0, "\n"@);
    lemma_lines_split(a0, Seq::<char>::empty());
    assert(a0 + "\n"@ + Seq::<char>::empty() =~= a);
    let nl = "\n"@;
    assert(nl.len() == 1 && nl[0] == '\n');
    lemma_first_index_is(nl, '\n', 0);
    assert(nl.take(0) =~= Seq::<char>::empty());
    assert(nl.skip(1) =~= Seq::<char>::empty());
    assert(nl.skip(1).len() == 0);
    assert(lines(nl.skip(1)) =~= Seq::<Seq<char>>::empty());
    assert(strip_cr(Seq::<char>::empty()) == Seq::<char>::empty());
    assert(lines(nl) =~= seq![Seq::<char>::empty()]);
    assert(lines(Seq::<char>::empty()) =~= Seq::<Seq<char>>::empty());
    assert(lines(a + "\n"@) =~= lines(a).push(Seq::<char>::empty()));
}

/// Taking a trailing carriage return off a line does not change its trimmed
/// text.
proof fn lemma_trim_strip_cr(x: Seq<char>)
    ensures
        trim(strip_cr(x)) == trim(x),
    decreases x.len(),
{
    if x.len() > 0 && x.last() == '\r' {
        assert(is_ws('\r'));
        let y = x.drop_last();
        if is_ws(x[0]) {
            if x.len() == 1 {
                assert(trim_start(x) == trim_start(x.drop_first()));
                assert(x.drop_first().len() == 0);
                assert(y.len() == 0);
            } else {
                assert(x.drop_first().last() == '\r');
                lemma_trim_strip_cr(x.drop_first());
                assert(x.drop_first().drop_last() =~= y.drop_first());
                assert(y[0] == x[0]);
                assert(trim_start(y) == trim_start(y.drop_first()));
                assert(trim_start(x) == trim_start(x.drop_first()));
            }
        } else {
            assert(trim_start(x) == x);
            if y.len() > 0 {
                assert(y[0] == x[0]);
                assert(trim_start(y) == y);
            } else {
                assert(trim_start(y) == y);
            }
            assert(x.drop_last() == y);
            assert(trim_end(x) == trim_end(y));
        }
    }
}

/// The lines of `h` with a newline after it trim to `*** Begin Patch` only
/// where the lines of `h` do.
proof fn lemma_no_begin_with_newline(h: Seq<char>)
    requires
        forall|k: int| 0 <= k < lines(h).len() ==> trim(#[trigger] lines(h)[k]) != "*** Begin Patch"@,
    ensures
        forall|k: int| 0 <= k < lines(h + "\n"@).len() ==> trim(#[trigger] lines(h + "\n"@)[k]) != "*** Begin Patch"@,
{
    reveal_strlit("*** Begin Patch");
    let hs = lines(h + "\n"@);
    let e = Seq::<char>::empty();
    assert(trim_start(e) == e && trim_end(e) == e);
    assert(trim(e) != "*** Begin Patch"@);
    if h.len() == 0 {
        assert(h + "\n"@ =~= "\n"@);
        lemma_lines_double_newline_empty();
    } else if h.last() == '\n' {
        lemma_lines_double_newline(h);
        assert forall|k: int| 0 <= k < hs.len() implies trim(#[trigger] hs[k]) != "*** Begin Patch"@ by {
            if k < lines(h).len() {
                assert(hs[k] == lines(h)[k]);
            }
        }
    } else {
        lemma_lines_newline_end(h);
        let lh = lines(h);
        assert forall|k: int| 0 <= k < hs.len() implies trim(#[trigger] hs[k]) != "*** Begin Patch"@ by {
            if k == lh.len() - 1 {
                lemma_trim_strip_cr(lh.last());
                assert(trim(lh[k]) != "*** Begin Patch"@);
            } else {
                assert(hs[k] == lh[k]);
            }
        }
    }
}

/// A lone newline is one empty line.
proof fn lemma_lines_double_newline_empty()
    ensures
        lines("\n"@) == seq![Seq::<char>::empty()],
{
    reveal_strlit("\n");
    let nl = "\n"@;
    lemma_first_index_is(nl, '\n', 0);
    assert(nl.take(0) =~= Seq::<char>::empty());
    assert(nl.skip(1).len() == 0);
    assert(lines(nl.skip(1)) =~= Seq::<Seq<char>>::empty());
    assert(lines(nl) =~= seq![Seq::<char>::empty()]);
}

/// Text before the `*** Begin Patch` line and after the closing
/// `*** End Patch` line does not change how a patch reads: for a patch text
/// `p` whose first line is `*** Begin Patch` and whose last is
/// `*** End Patch`, a text `h` none of whose lines is `*** Begin Patch`
/// (each with surrounding whitespace), and any text `q`, the text
/// `h`, newline, `p`, newline, `q` reads as `p`; and `h` reads as no
/// operations.
pub proof fn law_text_outside_markers_ignored(h: Seq<char>, p: Seq<char>, q: Seq<char>)
    requires
        forall|k: int| 0 <= k < lines(h).len() ==> trim(#[trigger] lines(h)[k]) != "*** Begin Patch"@,
        lines(p).len() >= 2,
        trim(lines(p)[0]) == "*** Begin Patch"@,
        lines(p).last() == "*** End Patch"@,
    ensures
        parse_patch(h + "\n"@ + p + "\n"@ + q) == parse_patch(p),
        parse_patch(h) == ParseOutcome::Done(Seq::<OpView>::empty()),
{
    reveal_strlit("\n");
    reveal_strlit("*** End Patch");
    assert(p.len() > 0) by {
        if p.len() == 0 {
            assert(lines(p).len() == 0);
        }
    }
    let text = h + "\n"@ + p + "\n"@ + q;
    assert(text =~= h + "\n"@ + (p + "\n"@ + q));
    lemma_lines_split(h, p + "\n"@ + q);
    lemma_lines_split(p, q);
    lemma_no_begin_with_newline(h);
    let hs = lines(h + "\n"@);
    let ps = lines(p);
    let qs = lines(q);
    if p.last() == '\n' {
        lemma_lines_double_newline(p);
        assert(lines(text) =~= hs + ps + (seq![Seq::<char>::empty()] + qs));
        law_lines_outside_markers_ignored(hs, ps, seq![Seq::<char>::empty()] + qs);
    } else {
        lemma_lines_newline_end(p);
        assert(strip_cr(ps.last()) == ps.last());
        assert(lines(p + "\n"@) =~= ps);
        assert(lines(text) =~= hs + ps + qs);
        law_lines_outside_markers_ignored(hs, ps, qs);
    }
    lemma_begin_index_none(lines(h), 0);
}

// ---------------------------------------------------------------------------
// The reader
// ---------------------------------------------------------------------------

pub open spec fn line_views(ls: Seq<Vec<char>>) -> Seq<Seq<char>> {
    ls.map_values(|v: Vec<char>| v@)
}

fn trimmed_is(l: &Vec<char>, lit: &str) -> (r: bool)
    ensures
        r == (trim(l@) == lit@),
{
    let t = trim_chars(l);
    let c = chars_of(lit);
    seq_eq(&t, &c)
}

fn prefix_is(l: &Vec<char>, lit: &str) -> (r: bool)
    ensures
        r == has_prefix(l@, lit@),
{
    let c = chars_of(lit);
    starts_with_chars(l, &c)
}

fn is_section_exec(l: &Vec<char>) -> (r: bool)
    ensures
        r == is_section(l@),
{
    prefix_is(l, "*** ")
}

fn is_header_exec(l: &Vec<char>) -> (r: bool)
    ensures
        r == is_header(l@),
{
    let bare = chars_of("@@");
    let head = chars_of("@@ ");
    let tail = chars_of(" @@");
    seq_eq(l, &bare) || (starts_with_chars(l, &head) && ends_with_chars(l, &tail))
}

fn begin_exec(ls: &Vec<Vec<char>>) -> (r: usize)
    ensures
        r == begin_index(line_views(ls@), 0),
        r <= ls.len(),
{
    let ghost lv = line_views(ls@);
    let mut i: usize = 0;
    while i < ls.len()
        invariant
            i <= ls.len(),
            lv == line_views(ls@),
            begin_index(lv, 0) == begin_index(lv, i as int),
        decreases ls.len() - i,
    {
        if trimmed_is(&ls[i], "*** Begin Patch") {
            return i + 1;
        }
        i += 1;
    }
    i
}

fn add_block_exec(ls: &Vec<Vec<char>>, j0: usize) -> (r: Result<(String, usize), String>)
    requires
        j0 <= ls.len(),
    ensures
        match add_block(line_views(ls@), j0 as int, Seq::empty()) {
            Ok((c, e)) => r matches Ok((s, e2)) && s@ == c && e2 == e && j0 <= e2 <= ls.len(),
            Err(m) => r matches Err(s) && s@ == m,
        },
{
    let ghost lv = line_views(ls@);
    proof {
        reveal_strlit("+");
        reveal_strlit("\n");
    }
    let mut acc: Vec<char> = Vec::new();
    let mut j = j0;
    while j < ls.len() && !is_section_exec(&ls[j])
        invariant
            j0 <= j <= ls.len(),
            lv == line_views(ls@),
            add_block(lv, j0 as int, Seq::empty()) == add_block(lv, j as int, acc@),
        decreases ls.len() - j,
    {
        let l = &ls[j];
        proof {
            reveal_strlit("+");
            reveal_strlit("\n");
        }
        if prefix_is(l, "+") {
            let ghost acc0 = acc@;
            if acc.len() > 0 {
                acc.push('\n');
            }
            let mut k: usize = 1;
            while k < l.len()
                invariant
                    1 <= k <= l.len(),
                    acc@ == (if acc0.len() == 0 { acc0 } else { acc0 + "\n"@ }) + l@.subrange(
                        1,
                        k as int,
                    ),
                decreases l.len() - k,
            {
                acc.push(l[k]);
                assert(l@.subrange(1, k + 1) =~= l@.subrange(1, k as int).push(l@[k as int]));
                k += 1;
            }
            proof {
                reveal_strlit("\n");
                assert(l@.subrange(1, l@.len() as int) =~= l@.drop_first());
                assert(acc@ =~= (if acc0.len() == 0 { acc0 + l@.drop_first() } else { acc0 + "\n"@ + l@.drop_first() }));
            }
            j += 1;
        } else {
            let ls_str = string_from_chars(l);
            return Err(concat2("Expected '+' prefix in Add File block, got: ", ls_str.as_str()));
        }
    }
    Ok((string_from_chars(&acc), j))
}

fn change_exec(l: &Vec<char>) -> (r: Option<Change>)
    ensures
        match change_of(l@) {
            Some(c) => r matches Some(x) && x@ == c,
            None => r is None,
        },
{
    let n = l.len();
    if prefix_is(l, "-") {
        proof {
            reveal_strlit("-");
        }
        let t = slice_vec(l, 1, n);
        assert(t@ =~= l@.drop_first());
        Some(Change::Remove(string_from_chars(&t)))
    } else if prefix_is(l, "+") {
        proof {
            reveal_strlit("+");
        }
        let t = slice_vec(l, 1, n);
        assert(t@ =~= l@.drop_first());
        Some(Change::Add(string_from_chars(&t)))
    } else if prefix_is(l, " ") {
        proof {
            reveal_strlit(" ");
        }
        let t = slice_vec(l, 1, n);
        assert(t@ =~= l@.drop_first());
        Some(Change::Context(string_from_chars(&t)))
    } else if n == 0 {
        Some(Change::Context(String::new()))
    } else {
        None
    }
}

pub open spec fn prepend_changes(
    chs: Seq<ChangeView>,
    o: Result<(Seq<ChangeView>, int), Seq<char>>,
) -> Result<(Seq<ChangeView>, int), Seq<char>> {
    match o {
        Ok((rest, e)) => Ok((chs + rest, e)),
        Err(m) => Err(m),
    }
}

fn hunk_changes_exec(ls: &Vec<Vec<char>>, j0: usize) -> (r: Result<(Vec<Change>, usize), String>)
    requires
        j0 <= ls.len(),
    ensures
        match hunk_changes(line_views(ls@), j0 as int) {
            Ok((c, e)) => r matches Ok((v, e2)) && change_views(v@) == c && e2 == e && j0 <= e2
                <= ls.len(),
            Err(m) => r matches Err(s) && s@ == m,
        },
{
    let ghost lv = line_views(ls@);
    let mut chs: Vec<Change> = Vec::new();
    let mut j = j0;
    assert(prepend_changes(change_views(chs@), hunk_changes(lv, j0 as int)) =~= hunk_changes(
        lv,
        j0 as int,
    )) by {
        assert(change_views(chs@) =~= Seq::<ChangeView>::empty());
        match hunk_changes(lv, j0 as int) {
            Ok((rest, e)) => {
                assert(Seq::<ChangeView>::empty() + rest =~= rest);
            },
            Err(m) => {},
        }
    }
    while j < ls.len() && !is_section_exec(&ls[j]) && !is_header_exec(&ls[j])
        invariant
            j0 <= j <= ls.len(),
            lv == line_views(ls@),
            hunk_changes(lv, j0 as int) == prepend_changes(
                change_views(chs@),
                hunk_changes(lv, j as int),
            ),
        decreases ls.len() - j,
    {
        match change_exec(&ls[j]) {
            Some(c) => {
                let ghost c0 = change_views(chs@);
                chs.push(c);
                proof {
                    assert(change_views(chs@) =~= c0.push(c@));
                    match hunk_changes(lv, j + 1) {
                        Ok((rest, e)) => {
                            assert(c0 + (seq![c@] + rest) =~= c0.push(c@) + rest);
                        },
                        Err(m) => {},
                    }
                }
                j += 1;
            },
            None => {
                let s = string_from_chars(&ls[j]);
                return Err(
                    concat2("Unexpected line in hunk (expected +, -, or space prefix): ", s.as_str()),
                );
            },
        }
    }
    proof {
        assert(change_views(chs@) + Seq::<ChangeView>::empty() =~= change_views(chs@));
    }
    Ok((chs, j))
}

pub open spec fn prepend_hunks(hs: Seq<HunkView>, o: HunksOutcome) -> HunksOutcome {
    match o {
        HunksOutcome::Hunks(rest, e) => HunksOutcome::Hunks(hs + rest, e),
        other => other,
    }
}

/// How the hunk reader ended: hunks, an error message, or a malformed header.
pub enum HunksResult {
    Hunks(Vec<Hunk>, usize),
    Fail(String),
    Crash,
}

fn update_hunks_exec(ls: &Vec<Vec<char>>, j0: usize) -> (r: HunksResult)
    requires
        j0 <= ls.len(),
    ensures
        match update_hunks(line_views(ls@), j0 as int) {
            HunksOutcome::Hunks(hs, e) => r matches HunksResult::Hunks(v, e2) && hunk_views(v@) == hs
                && e2 == e && j0 <= e2 <= ls.len(),
            HunksOutcome::Fail(m) => r matches HunksResult::Fail(s) && s@ == m,
            HunksOutcome::Crash => r is Crash,
        },
{
    let ghost lv = line_views(ls@);
    let mut hunks: Vec<Hunk> = Vec::new();
    let mut j = j0;
    assert(prepend_hunks(hunk_views(hunks@), update_hunks(lv, j0 as int)) =~= update_hunks(
        lv,
        j0 as int,
    )) by {
        assert(hunk_views(hunks@) =~= Seq::<HunkView>::empty());
        match update_hunks(lv, j0 as int) {
            HunksOutcome::Hunks(rest, e) => {
                assert(Seq::<HunkView>::empty() + rest =~= rest);
            },
            _ => {},
        }
    }
    let at_sign = chars_of("@@ ");
    while j < ls.len() && !(is_section_exec(&ls[j]) && !starts_with_chars(&ls[j], &at_sign))
        invariant
            j0 <= j <= ls.len(),
            lv == line_views(ls@),
            at_sign@ == "@@ "@,
            update_hunks(lv, j0 as int) == prepend_hunks(hunk_views(hunks@), update_hunks(lv, j as int)),
        decreases ls.len() - j,
    {
        let l = &ls[j];
        if is_header_exec(l) {
            let bare = chars_of("@@");
            let is_bare = seq_eq(l, &bare);
            if !is_bare && l.len() < 6 {
                return HunksResult::Crash;
            }
            let ctx = if is_bare {
                proof {
                    reveal_strlit("@@");
                }
                String::new()
            } else {
                let c = slice_vec(l, 3, l.len() - 3);
                string_from_chars(&c)
            };
            match hunk_changes_exec(ls, j + 1) {
                Err(m) => {
                    return HunksResult::Fail(m);
                },
                Ok((chs, e)) => {
                    let h = Hunk { context_line: ctx, changes: chs };
                    let ghost h0 = hunk_views(hunks@);
                    hunks.push(h);
                    proof {
                        assert(hunk_views(hunks@) =~= h0.push(h@));
                        match update_hunks(lv, e as int) {
                            HunksOutcome::Hunks(rest, e2) => {
                                assert(h0 + (seq![h@] + rest) =~= h0.push(h@) + rest);
                            },
                            _ => {},
                        }
                    }
                    j = e;
                },
            }
        } else {
            let s = string_from_chars(l);
            return HunksResult::Fail(concat2("Expected @@ context @@ line, got: ", s.as_str()));
        }
    }
    proof {
        assert(hunk_views(hunks@) + Seq::<HunkView>::empty() =~= hunk_views(hunks@));
    }
    HunksResult::Hunks(hunks, j)
}

/// Reads a patch in the v4a format: `*** Begin Patch`, then `*** Add File:`,
/// `*** Delete File:` and `*** Update File:` sections, up to `*** End Patch`.
pub fn parse_v4a_patch(text: &str) -> (r: Result<Vec<PatchOperation>, String>)
    requires
        !(parse_patch(text@) is Crash),
    ensures
        match parse_patch(text@) {
            ParseOutcome::Done(ops) => r matches Ok(v) && op_views(v@) == ops,
            ParseOutcome::Fail(m) => r matches Err(s) && s@ == m,
            ParseOutcome::Crash => false,
        },
{
    match try_parse_v4a_patch(text) {
        Some(r) => r,
        None => {
            assert(false);
            Err(String::new())
        },
    }
}

/// Reads a patch like `parse_v4a_patch`, and gives `None` for the patches
/// on which that reading has no result (each of them holds a hunk header
/// too short for its context text, such as `@@ @@`).
pub fn try_parse_v4a_patch(text: &str) -> (r: Option<Result<Vec<PatchOperation>, String>>)
    ensures
        match parse_patch(text@) {
            ParseOutcome::Done(ops) => r matches Some(Ok(v)) && op_views(v@) == ops,
            ParseOutcome::Fail(m) => r matches Some(Err(s)) && s@ == m,
            ParseOutcome::Crash => r is None,
        },
{
    let cs = chars_of(text);
    let ls = lines_of(&cs);
    let ghost lv = line_views(ls@);
    let begin = begin_exec(&ls);
    let mut ops: Vec<PatchOperation> = Vec::new();
    let mut i = begin;
    let ghost whole = parse_ops(lv, begin as int);
    assert(op_views(ops@) =~= Seq::<OpView>::empty());
    assert(whole == prepend_all(op_views(ops@), parse_ops(lv, i as int))) by {
        match parse_ops(lv, i as int) {
            ParseOutcome::Done(rest) => {
                assert(Seq::<OpView>::empty() + rest =~= rest);
            },
            _ => {},
        }
    }
    while i < ls.len() && !trimmed_is(&ls[i], "*** End Patch")
        invariant
            i <= ls.len(),
            lv == line_views(ls@),
            lv == lines(text@),
            whole == parse_ops(lv, begin as int),
            whole == parse_patch(text@),
            whole == prepend_all(op_views(ops@), parse_ops(lv, i as int)),
        decreases ls.len() - i,
    {
        let line = trim_chars(&ls[i]);
        let ghost o0 = op_views(ops@);
        if prefix_is(&line, "*** Add File: ") {
            proof {
                reveal_strlit("*** Add File: ");
            }
            let path = string_from_chars(&slice_vec(&line, 14, line.len()));
            assert(path@ =~= line@.skip(14));
            match add_block_exec(&ls, i + 1) {
                Err(m) => {
                    return Some(Err(m));
                },
                Ok((content, e)) => {
                    let op = PatchOperation::Add { path, content };
                    ops.push(op);
                    proof {
                        lemma_prepend_step(o0, op@, parse_ops(lv, e as int));
                        assert(op_views(ops@) =~= o0.push(op@));
                    }
                    i = e;
                },
            }
        } else if prefix_is(&line, "*** Delete File: ") {
            proof {
                reveal_strlit("*** Delete File: ");
            }
            let path = string_from_chars(&slice_vec(&line, 17, line.len()));
            assert(path@ =~= line@.skip(17));
            let op = PatchOperation::Delete { path };
            ops.push(op);
            proof {
                lemma_prepend_step(o0, op@, parse_ops(lv, i + 1));
                assert(op_views(ops@) =~= o0.push(op@));
            }
            i += 1;
        } else if prefix_is(&line, "*** Update File: ") {
            proof {
                reveal_strlit("*** Update File: ");
            }
            let path = string_from_chars(&slice_vec(&line, 17, line.len()));
            assert(path@ =~= line@.skip(17));
            match update_hunks_exec(&ls, i + 1) {
                HunksResult::Fail(m) => {
                    return Some(Err(m));
                },
                HunksResult::Crash => {
                    return None;
                },
                HunksResult::Hunks(hunks, e) => {
                    let op = PatchOperation::Update { path, hunks };
                    ops.push(op);
                    proof {
                        lemma_prepend_step(o0, op@, parse_ops(lv, e as int));
                        assert(op_views(ops@) =~= o0.push(op@));
                    }
                    i = e;
                },
            }
        } else {
            let s = string_from_chars(&line);
            return Some(Err(concat2("Unexpected line in patch: ", s.as_str())));
        }
    }
    proof {
        match parse_ops(lv, i as int) {
            ParseOutcome::Done(rest) => {
                assert(rest.len() == 0);
                assert(op_views(ops@) + rest =~= op_views(ops@));
            },
            _ => {},
        }
    }
    Some(Ok(ops))
}

pub open spec fn prepend_all(ops: Seq<OpView>, o: ParseOutcome) -> ParseOutcome {
    match o {
        ParseOutcome::Done(rest) => ParseOutcome::Done(ops + rest),
        other => other,
    }
}

proof fn lemma_prepend_step(o0: Seq<OpView>, op: OpView, rest: ParseOutcome)
    ensures
        prepend_all(o0, prepend(op, rest)) == prepend_all(o0.push(op), rest),
{
    match rest {
        ParseOutcome::Done(r) => {
            assert(o0 + (seq![op] + r) =~= o0.push(op) + r);
        },
        _ => {},
    }
}


// ---------------------------------------------------------------------------
// Applying hunks to file contents
// ---------------------------------------------------------------------------

/// Position of the first line whose trimmed text equals the trimmed `target`.
pub open spec fn trim_match(ls: Seq<Seq<char>>, target: Seq<char>) -> Option<int> {
    first_index(ls.map_values(|l: Seq<char>| trim(l)), trim(target))
}

/// The text of the first removed or context line of a hunk.
pub open spec fn first_locator(chs: Seq<ChangeView>) -> Option<Seq<char>>
    decreases chs.len(),
{
    if chs.len() == 0 {
        None
    } else {
        match chs[0] {
            ChangeView::Remove(t) => Some(t),
            ChangeView::Context(t) => Some(t),
            ChangeView::Add(_) => first_locator(chs.drop_first()),
        }
    }
}

/// The lines that replace the hunk's region, reading file lines from `idx`.
pub open spec fn replacement(ls: Seq<Seq<char>>, chs: Seq<ChangeView>, idx: int) -> Seq<Seq<char>>
    decreases chs.len(),
{
    if chs.len() == 0 {
        Seq::empty()
    } else {
        match chs[0] {
            ChangeView::Remove(_) => replacement(ls, chs.drop_first(), idx + 1),
            ChangeView::Add(t) => seq![t] + replacement(ls, chs.drop_first(), idx),
            ChangeView::Context(_) => (if 0 <= idx < ls.len() {
                seq![ls[idx]]
            } else {
                Seq::empty()
            }) + replacement(ls, chs.drop_first(), idx + 1),
        }
    }
}

pub open spec fn is_consumed() -> spec_fn(ChangeView) -> bool {
    |c: ChangeView| !(c is Add)
}

/// Where a hunk applies.
pub open spec fn hunk_position(ls: Seq<Seq<char>>, h: HunkView) -> Result<int, Seq<char>> {
    if h.context_line.len() > 0 {
        match trim_match(ls, h.context_line) {
            Some(p) => Ok(p),
            None => Err("Could not find context line in file: '"@ + h.context_line + "'"@),
        }
    } else {
        match first_locator(h.changes) {
            None => Err("Hunk with bare @@ has no remove or context lines to locate position"@),
            Some(t) => match trim_match(ls, t) {
                Some(p) => Ok(p),
                None => Err("Could not find line in file: '"@ + t + "'"@),
            },
        }
    }
}

/// The lines after applying one hunk.
pub open spec fn apply_hunk(ls: Seq<Seq<char>>, h: HunkView) -> Result<Seq<Seq<char>>, Seq<char>> {
    match hunk_position(ls, h) {
        Err(m) => Err(m),
        Ok(pos) => {
            let explicit = h.context_line.len() > 0;
            let new_lines = (if explicit { seq![ls[pos]] } else { Seq::empty() }) + replacement(
                ls,
                h.changes,
                if explicit { pos + 1 } else { pos },
            );
            let total = (if explicit { 1int } else { 0int }) + count(h.changes, is_consumed());
            let end = if pos + total < ls.len() { pos + total } else { ls.len() as int };
            Ok(ls.take(pos) + new_lines + ls.skip(end))
        },
    }
}

/// The lines after applying the hunks, last hunk first.
pub open spec fn apply_all(ls: Seq<Seq<char>>, hs: Seq<HunkView>) -> Result<Seq<Seq<char>>, Seq<char>>
    decreases hs.len(),
{
    if hs.len() == 0 {
        Ok(ls)
    } else {
        match apply_hunk(ls, hs.last()) {
            Ok(ls2) => apply_all(ls2, hs.drop_last()),
            Err(m) => Err(m),
        }
    }
}

pub open spec fn all_context(chs: Seq<ChangeView>) -> bool {
    forall|k: int| 0 <= k < chs.len() ==> #[trigger] chs[k] is Context
}

proof fn lemma_context_replacement(ls: Seq<Seq<char>>, chs: Seq<ChangeView>, idx: int)
    requires
        all_context(chs),
        0 <= idx <= ls.len(),
    ensures
        replacement(ls, chs, idx) == ls.subrange(
            idx,
            if idx + chs.len() < ls.len() { idx + chs.len() } else { ls.len() as int },
        ),
        count(chs, is_consumed()) == chs.len(),
    decreases chs.len(),
{
    if chs.len() > 0 {
        let rest = chs.drop_first();
        assert(all_context(rest)) by {
            assert forall|k: int| 0 <= k < rest.len() implies #[trigger] rest[k] is Context by {
                assert(rest[k] == chs[k + 1]);
            }
        }
        assert(chs[0] is Context);
        let nidx = if idx < ls.len() { idx + 1 } else { idx };
        if idx < ls.len() {
            lemma_context_replacement(ls, rest, idx + 1);
            let end = if idx + chs.len() < ls.len() { idx + chs.len() } else { ls.len() as int };
            assert(seq![ls[idx]] + ls.subrange(idx + 1, end) =~= ls.subrange(idx, end));
        } else {
            lemma_context_replacement(ls, rest, idx);
            assert(replacement(ls, rest, idx + 1) == replacement(ls, rest, idx)) by {
                lemma_replacement_past_end(ls, rest, idx, idx + 1);
            }
        }
        assert(count(chs, is_consumed()) == chs.len()) by {
            lemma_count_all_context(chs);
        }
    }
}

proof fn lemma_replacement_past_end(ls: Seq<Seq<char>>, chs: Seq<ChangeView>, a: int, b: int)
    requires
        a >= ls.len(),
        b >= ls.len(),
    ensures
        replacement(ls, chs, a) == replacement(ls, chs, b),
    decreases chs.len(),
{
    if chs.len() > 0 {
        lemma_replacement_past_end(ls, chs.drop_first(), a, b);
        lemma_replacement_past_end(ls, chs.drop_first(), a + 1, b + 1);
    }
}

proof fn lemma_count_all_context(chs: Seq<ChangeView>)
    requires
        all_context(chs),
    ensures
        count(chs, is_consumed()) == chs.len(),
    decreases chs.len(),
{
    if chs.len() > 0 {
        let init = chs.drop_last();
        assert(all_context(init)) by {
            assert forall|k: int| 0 <= k < init.len() implies #[trigger] init[k] is Context by {
                assert(init[k] == chs[k]);
            }
        }
        lemma_count_all_context(init);
        assert(chs.last() is Context);
    }
}

proof fn lemma_trim_match_bounds(ls: Seq<Seq<char>>, t: Seq<char>)
    ensures
        trim_match(ls, t) matches Some(p) ==> 0 <= p < ls.len(),
{
    crate::text::lemma_first_index(ls.map_values(|l: Seq<char>| trim(l)), trim(t));
}

/// The line a hunk is located by: its explicit context line, else the text
/// of its first removed or context line.
pub open spec fn hunk_locator(h: HunkView) -> Option<Seq<char>> {
    if h.context_line.len() > 0 {
        Some(h.context_line)
    } else {
        first_locator(h.changes)
    }
}

/// `p` is the first line whose trimmed text is the trimmed `t`.
pub open spec fn first_trimmed_match(ls: Seq<Seq<char>>, t: Seq<char>, p: int) -> bool {
    &&& 0 <= p < ls.len()
    &&& trim(ls[p]) == trim(t)
    &&& forall|j: int| 0 <= j < p ==> trim(#[trigger] ls[j]) != trim(t)
}

/// A hunk applies at the first line whose trimmed text equals its trimmed
/// locator, and it fails to apply exactly when no line does.
pub proof fn law_hunk_applies_at_first_trimmed_match(ls: Seq<Seq<char>>, h: HunkView)
    ensures
        match hunk_locator(h) {
            Some(t) => match hunk_position(ls, h) {
                Ok(p) => first_trimmed_match(ls, t, p),
                Err(_) => forall|j: int| 0 <= j < ls.len() ==> trim(#[trigger] ls[j]) != trim(t),
            },
            None => hunk_position(ls, h) is Err,
        },
        hunk_position(ls, h) matches Ok(p) ==> apply_hunk(ls, h) matches Ok(out) && out.take(p) == ls.take(p),
{
    match hunk_locator(h) {
        Some(t) => {
            let tl = ls.map_values(|l: Seq<char>| trim(l));
            crate::text::lemma_first_index(tl, trim(t));
            match first_index(tl, trim(t)) {
                Some(p) => {
                    assert(tl[p] == trim(ls[p]));
                    assert forall|j: int| 0 <= j < p implies trim(#[trigger] ls[j]) != trim(t) by {
                        assert(tl[j] == trim(ls[j]));
                    }
                },
                None => {
                    assert forall|j: int| 0 <= j < ls.len() implies trim(#[trigger] ls[j]) != trim(t) by {
                        assert(tl[j] == trim(ls[j]));
                    }
                },
            }
        },
        None => {},
    }
    match hunk_position(ls, h) {
        Ok(p) => {
            let explicit = h.context_line.len() > 0;
            let new_lines = (if explicit { seq![ls[p]] } else { Seq::empty() }) + replacement(
                ls,
                h.changes,
                if explicit { p + 1 } else { p },
            );
            let total = (if explicit { 1int } else { 0int }) + count(h.changes, is_consumed());
            let end = if p + total < ls.len() { p + total } else { ls.len() as int };
            let out = ls.take(p) + new_lines + ls.skip(end);
            assert(out.take(p) =~= ls.take(p));
        },
        Err(_) => {},
    }
}

/// The texts of the `+` lines `a..b`, each without its `+`.
pub open spec fn plus_texts(ls: Seq<Seq<char>>, a: int, b: int) -> Seq<Seq<char>> {
    ls.subrange(a, b).map_values(|l: Seq<char>| l.drop_first())
}

/// Lines `a..e` are `+` lines and line `e` ends the block (a section line or
/// the end of the text).
pub open spec fn plus_block(ls: Seq<Seq<char>>, a: int, e: int) -> bool {
    &&& 0 <= a <= e <= ls.len()
    &&& forall|k: int| a <= k < e ==> !is_section(#[trigger] ls[k]) && has_prefix(ls[k], "+"@)
    &&& (e == ls.len() || is_section(ls[e]))
}

proof fn lemma_add_block_joins(ls: Seq<Seq<char>>, a: int, j: int, e: int, acc: Seq<char>)
    requires
        plus_block(ls, a, e),
        a < j <= e,
        acc == join(plus_texts(ls, a, j), "\n"@),
        acc.len() > 0,
    ensures
        add_block(ls, j, acc) == Ok::<(Seq<char>, int), Seq<char>>((join(plus_texts(ls, a, e), "\n"@), e)),
    decreases e - j,
{
    if j < e {
        let t = ls[j].drop_first();
        assert(!is_section(ls[j]) && has_prefix(ls[j], "+"@));
        crate::text::lemma_join_push(plus_texts(ls, a, j), "\n"@, t);
        assert(plus_texts(ls, a, j).push(t) =~= plus_texts(ls, a, j + 1));
        assert(plus_texts(ls, a, j).len() > 0);
        lemma_add_block_joins(ls, a, j + 1, e, acc + "\n"@ + t);
    }
}

/// The content of an added file whose first line is not empty is the texts
/// of its `+` lines, without the `+`, joined by newlines, and reading goes on
/// at the line that ends the block.
pub proof fn law_added_file_is_lines_joined(ls: Seq<Seq<char>>, a: int, e: int)
    requires
        plus_block(ls, a, e),
        a < e,
        ls[a].len() > 1,
    ensures
        add_block(ls, a, Seq::empty()) == Ok::<(Seq<char>, int), Seq<char>>((join(plus_texts(ls, a, e), "\n"@), e)),
{
    let t = ls[a].drop_first();
    assert(!is_section(ls[a]) && has_prefix(ls[a], "+"@));
    assert(plus_texts(ls, a, a + 1) =~= seq![t]);
    assert(Seq::<char>::empty() + t =~= t);
    lemma_add_block_joins(ls, a, a + 1, e, t);
}

/// A hunk made only of context lines leaves the lines as they were,
/// wherever it applies.
pub proof fn law_context_only_hunk_keeps_lines(ls: Seq<Seq<char>>, h: HunkView)
    requires
        all_context(h.changes),
        apply_hunk(ls, h) is Ok,
    ensures
        apply_hunk(ls, h) == Ok::<Seq<Seq<char>>, Seq<char>>(ls),
{
    match hunk_position(ls, h) {
        Ok(pos) => {
            lemma_trim_match_bounds(ls, h.context_line);
            match first_locator(h.changes) {
                Some(t) => lemma_trim_match_bounds(ls, t),
                None => {},
            }
            assert(0 <= pos < ls.len());
            let explicit = h.context_line.len() > 0;
            let start = if explicit { pos + 1 } else { pos };
            lemma_context_replacement(ls, h.changes, start);
            let total = (if explicit { 1int } else { 0int }) + h.changes.len();
            let end = if pos + total < ls.len() { pos + total } else { ls.len() as int };
            let new_lines = (if explicit { seq![ls[pos]] } else { Seq::empty() }) + replacement(ls, h.changes, start);
            assert(new_lines =~= ls.subrange(pos, end));
            assert(ls.take(pos) + new_lines + ls.skip(end) =~= ls);
        },
        Err(_) => {},
    }
}

/// The text after applying the hunks to `content`.
pub open spec fn apply_hunks_spec(content: Seq<char>, hs: Seq<HunkView>) -> Result<Seq<char>, Seq<char>> {
    match apply_all(lines(content), hs) {
        Ok(ls) => Ok(join(ls, "\n"@)),
        Err(m) => Err(m),
    }
}

fn trim_match_exec(ls: &Vec<Vec<char>>, target: &Vec<char>) -> (r: Option<usize>)
    ensures
        match trim_match(line_views(ls@), target@) {
            Some(p) => r == Some(p as usize) && 0 <= p < ls.len(),
            None => r is None,
        },
{
    let ghost tl = line_views(ls@).map_values(|l: Seq<char>| trim(l));
    let t = trim_chars(target);
    let mut i: usize = 0;
    while i < ls.len()
        invariant
            i <= ls.len(),
            tl == line_views(ls@).map_values(|l: Seq<char>| trim(l)),
            t@ == trim(target@),
            forall|j: int| 0 <= j < i ==> tl[j] != t@,
        decreases ls.len() - i,
    {
        let li = trim_chars(&ls[i]);
        if seq_eq(&li, &t) {
            proof {
                lemma_first_index_is(tl, t@, i as int);
            }
            return Some(i);
        }
        i += 1;
    }
    proof {
        lemma_first_index_is(tl, t@, tl.len() as int);
    }
    None
}

fn first_locator_exec(chs: &Vec<Change>) -> (r: Option<&String>)
    ensures
        match first_locator(change_views(chs@)) {
            Some(t) => r matches Some(s) && s@ == t,
            None => r is None,
        },
{
    let ghost cv = change_views(chs@);
    let mut i: usize = 0;
    assert(cv.skip(0) =~= cv);
    while i < chs.len()
        invariant
            i <= chs.len(),
            cv == change_views(chs@),
            first_locator(cv) == first_locator(cv.skip(i as int)),
        decreases chs.len() - i,
    {
        assert(cv.skip(i as int).drop_first() =~= cv.skip(i + 1));
        match &chs[i] {
            Change::Remove(t) => {
                return Some(t);
            },
            Change::Context(t) => {
                return Some(t);
            },
            Change::Add(_) => {},
        }
        i += 1;
    }
    None
}

fn hunk_position_exec(ls: &Vec<Vec<char>>, h: &Hunk) -> (r: Result<usize, String>)
    ensures
        match hunk_position(line_views(ls@), h@) {
            Ok(p) => r == Ok::<usize, String>(p as usize) && 0 <= p < ls.len(),
            Err(m) => r matches Err(s) && s@ == m,
        },
{
    if !h.context_line.as_str().is_empty() {
        let ctx = chars_of(h.context_line.as_str());
        match trim_match_exec(ls, &ctx) {
            Some(p) => Ok(p),
            None => Err(
                crate::text::concat3(
                    "Could not find context line in file: '",
                    h.context_line.as_str(),
                    "'",
                ),
            ),
        }
    } else {
        proof {
            assert(h@.context_line.len() == 0);
        }
        match first_locator_exec(&h.changes) {
            None => Err(crate::text::owned("Hunk with bare @@ has no remove or context lines to locate position")),
            Some(t) => {
                let tc = chars_of(t.as_str());
                match trim_match_exec(ls, &tc) {
                    Some(p) => Ok(p),
                    None => Err(crate::text::concat3("Could not find line in file: '", t.as_str(), "'")),
                }
            },
        }
    }
}

fn apply_hunk_exec(ls: &Vec<Vec<char>>, h: &Hunk) -> (r: Result<Vec<Vec<char>>, String>)
    ensures
        match apply_hunk(line_views(ls@), h@) {
            Ok(v) => r matches Ok(x) && line_views(x@) == v,
            Err(m) => r matches Err(s) && s@ == m,
        },
{
    let ghost lv = line_views(ls@);
    let pos = match hunk_position_exec(ls, h) {
        Ok(p) => p,
        Err(m) => {
            return Err(m);
        },
    };
    assert(hunk_position(lv, h@) == Ok::<int, Seq<char>>(pos as int));
    let explicit = !h.context_line.as_str().is_empty();
    let mut new_lines: Vec<Vec<char>> = Vec::new();
    let mut file_idx = pos;
    if explicit {
        new_lines.push(copy_chars(&ls[pos]));
        file_idx = pos + 1;
    }
    let ghost start: int = if explicit { pos + 1 } else { pos as int };
    let ghost cv = change_views(h.changes@);
    let ghost base = line_views(new_lines@);
    let ghost mut idx: int = start;
    let mut consumed: usize = 0;
    assert(cv.skip(0) =~= cv);
    assert(base =~= base + Seq::<Seq<char>>::empty());
    let mut k: usize = 0;
    while k < h.changes.len()
        invariant
            k <= h.changes.len(),
            cv == change_views(h.changes@),
            lv == line_views(ls@),
            pos < ls.len(),
            idx == start + consumed,
            start >= 0,
            file_idx == (if idx < ls.len() { idx } else { ls.len() as int }),
            consumed == count(cv.take(k as int), is_consumed()),
            consumed <= k,
            line_views(new_lines@) + replacement(lv, cv.skip(k as int), idx) == base
                + replacement(lv, cv, start),
        decreases h.changes.len() - k,
    {
        proof {
            crate::text::lemma_count_step(cv, is_consumed(), k as int);
            assert(cv.skip(k as int).drop_first() =~= cv.skip(k + 1));
            assert(cv.skip(k as int)[0] == cv[k as int]);
        }
        let ghost nv0 = line_views(new_lines@);
        match &h.changes[k] {
            Change::Remove(_) => {
                if file_idx < ls.len() {
                    file_idx = file_idx + 1;
                }
                consumed = consumed + 1;
                proof {
                    idx = idx + 1;
                }
            },
            Change::Add(t) => {
                new_lines.push(chars_of(t.as_str()));
                proof {
                    assert(line_views(new_lines@) =~= nv0.push(t@));
                    assert(nv0.push(t@) + replacement(lv, cv.skip(k + 1), idx) =~= nv0 + (seq![t@]
                        + replacement(lv, cv.skip(k + 1), idx)));
                }
            },
            Change::Context(_) => {
                if file_idx < ls.len() {
                    new_lines.push(copy_chars(&ls[file_idx]));
                    proof {
                        assert(line_views(new_lines@) =~= nv0.push(lv[idx]));
                        assert(nv0.push(lv[idx]) + replacement(lv, cv.skip(k + 1), idx + 1) =~= nv0
                            + (seq![lv[idx]] + replacement(lv, cv.skip(k + 1), idx + 1)));
                    }
                    file_idx = file_idx + 1;
                } else {
                    proof {
                        assert(nv0 + replacement(lv, cv.skip(k + 1), idx + 1) =~= nv0 + (
                        Seq::<Seq<char>>::empty() + replacement(lv, cv.skip(k + 1), idx + 1)));
                    }
                }
                consumed = consumed + 1;
                proof {
                    idx = idx + 1;
                }
            },
        }
        k = k + 1;
    }
    proof {
        assert(cv.skip(cv.len() as int) =~= Seq::<ChangeView>::empty());
        crate::text::lemma_take_full(cv);
        assert(line_views(new_lines@) + Seq::<Seq<char>>::empty() =~= line_views(new_lines@));
    }
    let room = ls.len() - pos;
    let end = if explicit {
        if consumed < room - 1 {
            pos + 1 + consumed
        } else {
            ls.len()
        }
    } else {
        if consumed < room {
            pos + consumed
        } else {
            ls.len()
        }
    };
    let mut out: Vec<Vec<char>> = Vec::new();
    let mut i: usize = 0;
    while i < pos
        invariant
            i <= pos < ls.len(),
            lv == line_views(ls@),
            line_views(out@) == lv.take(i as int),
        decreases pos - i,
    {
        let ghost o0 = line_views(out@);
        out.push(copy_chars(&ls[i]));
        assert(lv.take(i + 1) =~= lv.take(i as int).push(lv[i as int]));
        assert(line_views(out@) =~= o0.push(lv[i as int]));
        i += 1;
    }
    let ghost prefix = line_views(out@);
    let ghost nv = line_views(new_lines@);
    let mut i: usize = 0;
    while i < new_lines.len()
        invariant
            i <= new_lines.len(),
            nv == line_views(new_lines@),
            line_views(out@) == prefix + nv.take(i as int),
        decreases new_lines.len() - i,
    {
        let ghost o0 = line_views(out@);
        out.push(copy_chars(&new_lines[i]));
        assert(nv.take(i + 1) =~= nv.take(i as int).push(nv[i as int]));
        assert(line_views(out@) =~= o0.push(nv[i as int]));
        assert(line_views(out@) =~= prefix + nv.take(i + 1));
        i += 1;
    }
    proof {
        crate::text::lemma_take_full(nv);
    }
    let ghost mid = line_views(out@);
    let mut i: usize = end;
    while i < ls.len()
        invariant
            end <= i <= ls.len(),
            lv == line_views(ls@),
            line_views(out@) == mid + lv.subrange(end as int, i as int),
        decreases ls.len() - i,
    {
        let ghost o0 = line_views(out@);
        out.push(copy_chars(&ls[i]));
        assert(lv.subrange(end as int, i + 1) =~= lv.subrange(end as int, i as int).push(lv[i as int]));
        assert(line_views(out@) =~= o0.push(lv[i as int]));
        assert(line_views(out@) =~= mid + lv.subrange(end as int, i + 1));
        i += 1;
    }
    proof {
        assert(lv.subrange(end as int, lv.len() as int) =~= lv.skip(end as int));
        if explicit {
            assert(base =~= seq![lv[pos as int]]);
        } else {
            assert(base =~= Seq::<Seq<char>>::empty());
        }
        assert(line_views(out@) =~= lv.take(pos as int) + nv + lv.skip(end as int));
    }
    Ok(out)
}

/// Applies hunks to file contents, last hunk first so that earlier positions
/// stay valid; the lines are joined with newlines.
pub fn apply_hunks(content: &str, hunks: &[Hunk]) -> (r: Result<String, String>)
    ensures
        match apply_hunks_spec(content@, hunk_views(hunks@)) {
            Ok(t) => r matches Ok(s) && s@ == t,
            Err(m) => r matches Err(s) && s@ == m,
        },
{
    let cs = chars_of(content);
    let mut ls = lines_of(&cs);
    let ghost hv = hunk_views(hunks@);
    let mut k = hunks.len();
    assert(hv.take(k as int) =~= hv);
    while k > 0
        invariant
            k <= hunks.len(),
            hv == hunk_views(hunks@),
            apply_all(lines(content@), hv) == apply_all(line_views(ls@), hv.take(k as int)),
        decreases k,
    {
        proof {
            assert(hv.take(k as int).last() == hv[k - 1]);
            assert(hv.take(k as int).drop_last() =~= hv.take(k - 1));
        }
        match apply_hunk_exec(&ls, &hunks[k - 1]) {
            Ok(next) => {
                ls = next;
            },
            Err(m) => {
                return Err(m);
            },
        }
        k -= 1;
    }
    Ok(crate::text::join_lines(&ls))
}
} // verus!
