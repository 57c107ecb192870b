use vstd::prelude::*;

use std::path::PathBuf;

use crate::paths::{display_path, path_display};
use crate::style::{painted, Styles};
use crate::text::{
    append_str, concat2, concat3, count, decimal, flat_map, join, join_strings, lemma_count_step,
    lemma_flat_map_step, lemma_take_full, owned, usize_text, views,
};

verus! {

/// How a check came out.
#[derive(Debug, Clone, Copy, PartialEq, Eq, Structural)]
pub enum CheckStatus {
    Pass,
    Warning,
    Error,
}

/// One line of detail under a check.
#[derive(Debug, Clone)]
pub struct CheckDetail {
    pub text: String,
}

/// The outcome of one check.
#[derive(Debug, Clone)]
pub struct CheckResult {
    pub name: String,
    pub status: CheckStatus,
    pub summary: String,
    pub details: Vec<CheckDetail>,
    pub remediation: Option<String>,
}

/// The outcomes of all checks of one run.
pub struct DoctorReport {
    pub checks: Vec<CheckResult>,
    pub live: bool,
}

/// A check outcome as plain text values.
pub struct CheckView {
    pub name: Seq<char>,
    pub status: CheckStatus,
    pub summary: Seq<char>,
    pub details: Seq<Seq<char>>,
    pub remediation: Option<Seq<char>>,
}

pub open spec fn opt_text(o: Option<String>) -> Option<Seq<char>> {
    match o {
        Some(s) => Some(s@),
        None => None,
    }
}

/// A connectivity probe result as plain values.
pub open spec fn probe_view(p: Option<Result<(), String>>) -> Option<Result<(), Seq<char>>> {
    match p {
        Some(Ok(())) => Some(Ok(())),
        Some(Err(e)) => Some(Err(e@)),
        None => None,
    }
}

pub open spec fn probe_ref_view(p: Option<&Result<(), String>>) -> Option<Result<(), Seq<char>>> {
    match p {
        Some(r) => probe_view(Some(*r)),
        None => None,
    }
}

impl View for CheckDetail {
    type V = Seq<char>;

    open spec fn view(&self) -> Seq<char> {
        self.text@
    }
}

impl View for CheckResult {
    type V = CheckView;

    open spec fn view(&self) -> CheckView {
        CheckView {
            name: self.name@,
            status: self.status,
            summary: self.summary@,
            details: self.details@.map_values(|d: CheckDetail| d@),
            remediation: opt_text(self.remediation),
        }
    }
}

pub open spec fn check_views(cs: Seq<CheckResult>) -> Seq<CheckView> {
    cs.map_values(|c: CheckResult| c@)
}

pub open spec fn is_issue() -> spec_fn(CheckView) -> bool {
    |c: CheckView| c.status != CheckStatus::Pass
}

pub open spec fn has_status(st: CheckStatus) -> spec_fn(CheckView) -> bool {
    |c: CheckView| c.status == st
}

/// Appends the line of one check (and its details when `verbose`) to `out`.
fn push_check_line(out: &mut String, check: &CheckResult, s: &Styles, verbose: bool)
    ensures
        final(out)@ == old(out)@ + check_line(check@, s.bold@, s.green@, s.yellow@, s.red@, s.reset@, verbose),
{
    let ghost before = out@;
    let (icon, color) = match check.status {
        CheckStatus::Pass => ("[✓]", &s.green),
        CheckStatus::Warning => ("[!]", &s.yellow),
        CheckStatus::Error => ("[✗]", &s.red),
    };
    append_str(out, "  ");
    let painted_icon = s.paint(color, icon);
    append_str(out, painted_icon.as_str());
    append_str(out, " ");
    let painted_name = s.paint(&s.bold, check.name.as_str());
    append_str(out, painted_name.as_str());
    append_str(out, " (");
    append_str(out, check.summary.as_str());
    append_str(out, ")\n");
    proof {
        assert(out@ =~= before + head_line(check@, s.bold@, s.green@, s.yellow@, s.red@, s.reset@));
    }
    if verbose {
        let ghost ds = check@.details;
        let ghost mid = out@;
        let mut j: usize = 0;
        while j < check.details.len()
            invariant
                j <= check.details.len(),
                ds == check.details@.map_values(|d: CheckDetail| d@),
                out@ == mid + flat_map(ds.take(j as int), |d: Seq<char>| detail_line(d)),
            decreases check.details.len() - j,
        {
            proof {
                lemma_flat_map_step(ds, |d: Seq<char>| detail_line(d), j as int);
            }
            append_str(out, "      • ");
            append_str(out, check.details[j].text.as_str());
            append_str(out, "\n");
            proof {
                assert(out@ =~= mid + flat_map(ds.take(j + 1), |d: Seq<char>| detail_line(d)));
            }
            j += 1;
        }
        proof {
            lemma_take_full(ds);
        }
    }
}

impl DoctorReport {
    pub open spec fn check_list(&self) -> Seq<CheckView> {
        check_views(self.checks@)
    }

    /// Whether any check ended in an error.
    pub fn has_errors(&self) -> (r: bool)
        ensures
            r == exists|i: int| 0 <= i < self.checks@.len() && self.checks@[i].status == CheckStatus::Error,
    {
        let mut i: usize = 0;
        while i < self.checks.len()
            invariant
                i <= self.checks.len(),
                forall|j: int| 0 <= j < i ==> self.checks@[j].status != CheckStatus::Error,
            decreases self.checks.len() - i,
        {
            if self.checks[i].status == CheckStatus::Error {
                return true;
            }
            i += 1;
        }
        false
    }

    /// The exit status of a doctor run: 1 when any check ended in an error,
    /// 0 otherwise.
    pub fn exit_code(&self) -> (c: i32)
        ensures
            c == if exists|i: int| 0 <= i < self.checks@.len() && self.checks@[i].status == CheckStatus::Error {
                1i32
            } else {
                0i32
            },
    {
        if self.has_errors() {
            1
        } else {
            0
        }
    }

    /// Number of checks that ended in a warning or an error.
    pub fn issue_count(&self) -> (n: usize)
        ensures
            n == count(self.check_list(), is_issue()),
    {
        let ghost cs = self.check_list();
        let mut n: usize = 0;
        let mut i: usize = 0;
        while i < self.checks.len()
            invariant
                i <= self.checks.len(),
                cs == self.check_list(),
                cs.len() == self.checks.len(),
                n == count(cs.take(i as int), is_issue()),
                n <= i,
            decreases self.checks.len() - i,
        {
            proof {
                lemma_count_step(cs, is_issue(), i as int);
            }
            if self.checks[i].status != CheckStatus::Pass {
                n = n + 1;
            }
            i += 1;
        }
        proof {
            lemma_take_full(cs);
        }
        n
    }

    /// The report as text: one line per check (with its details when
    /// `verbose`), then the tally of issues and the lists of errors and
    /// warnings with their remediations.
    pub fn render(&self, s: &Styles, verbose: bool) -> (out: String)
        ensures
            out@ == render_text(self.check_list(), self.live, s.bold@, s.green@, s.yellow@, s.red@, s.reset@, verbose),
    {
        let ghost cs = self.check_list();
        let ghost b = s.bold@;
        let ghost g = s.green@;
        let ghost y = s.yellow@;
        let ghost rd = s.red@;
        let ghost z = s.reset@;
        let mut out = s.paint(&s.bold, "Arc Doctor");
        append_str(&mut out, "\n\n");
        let ghost head = out@;
        let mut i: usize = 0;
        while i < self.checks.len()
            invariant
                i <= self.checks.len(),
                cs == self.check_list(),
                cs.len() == self.checks.len(),
                b == s.bold@ && g == s.green@ && y == s.yellow@ && rd == s.red@ && z == s.reset@,
                out@ == head + flat_map(cs.take(i as int), |c: CheckView| check_line(c, b, g, y, rd, z, verbose)),
            decreases self.checks.len() - i,
        {
            proof {
                lemma_flat_map_step(cs, |c: CheckView| check_line(c, b, g, y, rd, z, verbose), i as int);
            }
            push_check_line(&mut out, &self.checks[i], s, verbose);
            proof {
                assert(self.checks@[i as int]@ == cs[i as int]);
            }
            i += 1;
        }
        proof {
            lemma_take_full(cs);
        }
        let issues = self.issue_count();
        append_str(&mut out, "\n");
        if issues == 0 {
            append_str(&mut out, "All checks passed.\n");
        } else {
            append_str(&mut out, "Doctor found issues in ");
            let n = usize_text(issues);
            append_str(&mut out, n.as_str());
            if issues == 1 {
                append_str(&mut out, " category.\n");
            } else {
                append_str(&mut out, " categories.\n");
            }
            let errs = self.render_section(s, CheckStatus::Error, "Errors:");
            append_str(&mut out, errs.as_str());
            let warns = self.render_section(s, CheckStatus::Warning, "Warnings:");
            append_str(&mut out, warns.as_str());
        }
        if !self.live {
            append_str(&mut out, "\nRun with --live to probe service connectivity.\n");
        }
        out
    }

    /// The list of checks with status `st` under `title`, or nothing when
    /// there is none.
    fn render_section(&self, s: &Styles, st: CheckStatus, title: &str) -> (r: String)
        ensures
            r@ == section_text(self.check_list(), st, title@, s.bold@, s.reset@),
    {
        let ghost cs = self.check_list();
        let ghost f = |c: CheckView| bullet_line(c, st);
        let mut any = false;
        let mut body = String::new();
        let mut i: usize = 0;
        while i < self.checks.len()
            invariant
                i <= self.checks.len(),
                cs == self.check_list(),
                cs.len() == self.checks.len(),
                f == (|c: CheckView| bullet_line(c, st)),
                any == (count(cs.take(i as int), has_status(st)) > 0),
                body@ == flat_map(cs.take(i as int), f),
            decreases self.checks.len() - i,
        {
            proof {
                lemma_count_step(cs, has_status(st), i as int);
                lemma_flat_map_step(cs, f, i as int);
            }
            let check = &self.checks[i];
            if check.status == st {
                any = true;
                append_str(&mut body, "  • ");
                append_str(&mut body, check.name.as_str());
                match &check.remediation {
                    Some(rem) => {
                        append_str(&mut body, " — ");
                        append_str(&mut body, rem.as_str());
                    },
                    None => {},
                }
                append_str(&mut body, "\n");
            }
            proof {
                assert(body@ =~= flat_map(cs.take(i + 1), f));
            }
            i += 1;
        }
        proof {
            lemma_take_full(cs);
        }
        if any {
            let mut r = owned("\n");
            let t = s.paint(&s.bold, title);
            append_str(&mut r, t.as_str());
            append_str(&mut r, "\n");
            append_str(&mut r, body.as_str());
            r
        } else {
            String::new()
        }
    }
}

/// A report with an error always has at least one issue.
pub proof fn law_errors_are_issues(cs: Seq<CheckView>, i: int)
    requires
        0 <= i < cs.len(),
        cs[i].status == CheckStatus::Error,
    ensures
        count(cs, is_issue()) > 0,
    decreases cs.len(),
{
    if i < cs.len() - 1 {
        law_errors_are_issues(cs.drop_last(), i);
    }
}

/// No more issues are counted than there are checks, and with every check
/// passing there are none.
pub proof fn law_issue_count_bounds(cs: Seq<CheckView>)
    ensures
        count(cs, is_issue()) <= cs.len(),
        (forall|i: int| 0 <= i < cs.len() ==> #[trigger] cs[i].status == CheckStatus::Pass) ==> count(cs, is_issue())
            == 0,
    decreases cs.len(),
{
    if cs.len() > 0 {
        law_issue_count_bounds(cs.drop_last());
        assert forall|i: int| 0 <= i < cs.drop_last().len() implies #[trigger] cs.drop_last()[i] == cs[i] by {}
    }
}

/// The status mark of a check.
pub open spec fn status_icon(st: CheckStatus) -> Seq<char> {
    match st {
        CheckStatus::Pass => "[✓]"@,
        CheckStatus::Warning => "[!]"@,
        CheckStatus::Error => "[✗]"@,
    }
}

/// The first line of a check: its coloured mark, bold name and summary.
pub open spec fn head_line(
    c: CheckView,
    bold: Seq<char>,
    green: Seq<char>,
    yellow: Seq<char>,
    red: Seq<char>,
    reset: Seq<char>,
) -> Seq<char> {
    let color = match c.status {
        CheckStatus::Pass => green,
        CheckStatus::Warning => yellow,
        CheckStatus::Error => red,
    };
    "  "@ + painted(color, status_icon(c.status), reset) + " "@ + painted(bold, c.name, reset) + " ("@
        + c.summary + ")\n"@
}

pub open spec fn detail_line(d: Seq<char>) -> Seq<char> {
    "      • "@ + d + "\n"@
}

/// The lines of one check in the report.
pub open spec fn check_line(
    c: CheckView,
    bold: Seq<char>,
    green: Seq<char>,
    yellow: Seq<char>,
    red: Seq<char>,
    reset: Seq<char>,
    verbose: bool,
) -> Seq<char> {
    head_line(c, bold, green, yellow, red, reset) + if verbose {
        flat_map(c.details, |d: Seq<char>| detail_line(d))
    } else {
        Seq::empty()
    }
}

/// The line of a check in the error or warning list, if it has status `st`.
pub open spec fn bullet_line(c: CheckView, st: CheckStatus) -> Seq<char> {
    if c.status == st {
        "  • "@ + c.name + match c.remediation {
            Some(r) => " — "@ + r,
            None => Seq::empty(),
        } + "\n"@
    } else {
        Seq::empty()
    }
}

pub open spec fn section_text(
    cs: Seq<CheckView>,
    st: CheckStatus,
    title: Seq<char>,
    bold: Seq<char>,
    reset: Seq<char>,
) -> Seq<char> {
    if count(cs, has_status(st)) > 0 {
        "\n"@ + painted(bold, title, reset) + "\n"@ + flat_map(cs, |c: CheckView| bullet_line(c, st))
    } else {
        Seq::empty()
    }
}

/// The whole report text.
pub open spec fn render_text(
    cs: Seq<CheckView>,
    live: bool,
    bold: Seq<char>,
    green: Seq<char>,
    yellow: Seq<char>,
    red: Seq<char>,
    reset: Seq<char>,
    verbose: bool,
) -> Seq<char> {
    let issues = count(cs, is_issue());
    painted(bold, "Arc Doctor"@, reset) + "\n\n"@ + flat_map(
        cs,
        |c: CheckView| check_line(c, bold, green, yellow, red, reset, verbose),
    ) + "\n"@ + (if issues == 0 {
        "All checks passed.\n"@
    } else {
        "Doctor found issues in "@ + decimal(issues) + (if issues == 1 {
            " category.\n"@
        } else {
            " categories.\n"@
        }) + section_text(cs, CheckStatus::Error, "Errors:"@, bold, reset) + section_text(
            cs,
            CheckStatus::Warning,
            "Warnings:"@,
            bold,
            reset,
        )
    }) + (if live {
        Seq::empty()
    } else {
        "\nRun with --live to probe service connectivity.\n"@
    })
}


// ---------------------------------------------------------------------------
// Checks
// ---------------------------------------------------------------------------

/// A check outcome from its parts.
pub open spec fn outcome(
    name: Seq<char>,
    status: CheckStatus,
    summary: Seq<char>,
    details: Seq<Seq<char>>,
    remediation: Option<Seq<char>>,
) -> CheckView {
    CheckView { name, status, summary, details, remediation }
}

fn make_result(
    name: &str,
    status: CheckStatus,
    summary: String,
    details: Vec<CheckDetail>,
    remediation: Option<String>,
) -> (r: CheckResult)
    ensures
        r@ == outcome(name@, status, summary@, details@.map_values(|d: CheckDetail| d@), opt_text(remediation)),
{
    CheckResult { name: owned(name), status, summary, details, remediation }
}

fn push_detail(details: &mut Vec<CheckDetail>, text: String)
    ensures
        final(details)@.map_values(|d: CheckDetail| d@) == old(details)@.map_values(|d: CheckDetail| d@).push(text@),
{
    let ghost before = details@.map_values(|d: CheckDetail| d@);
    details.push(CheckDetail { text });
    assert(details@.map_values(|d: CheckDetail| d@) =~= before.push(text@));
}

/// The detail lines that a connectivity probe adds.
pub open spec fn live_details(live: Option<Result<(), Seq<char>>>) -> Seq<Seq<char>> {
    match live {
        Some(Ok(())) => seq!["Connectivity: OK"@],
        Some(Err(e)) => seq!["Connectivity: "@ + e],
        None => Seq::empty(),
    }
}

pub open spec fn live_failed(live: Option<Result<(), Seq<char>>>) -> bool {
    live matches Some(Err(_))
}

/// `set` or `not set`.
pub open spec fn set_text(b: bool) -> Seq<char> {
    if b { "set"@ } else { "not set"@ }
}

pub open spec fn config_check(path: Option<Seq<char>>) -> CheckView {
    match path {
        Some(p) => outcome("Configuration"@, CheckStatus::Pass, p, seq!["Loaded from "@ + p], None),
        None => outcome(
            "Configuration"@,
            CheckStatus::Warning,
            "no config file found"@,
            seq!["Create ~/.arc/arc.toml to configure Arc"@],
            Some("Create ~/.arc/arc.toml"@),
        ),
    }
}

/// The configuration file check: passes with the file's path, warns when
/// there is none.
pub fn check_config(path: Option<PathBuf>) -> (r: CheckResult)
    ensures
        r@ == config_check(
            match path {
                Some(p) => Some(path_display(p)),
                None => None,
            },
        ),
{
    match path {
        Some(p) => {
            let shown = display_path(&p);
            let mut details: Vec<CheckDetail> = Vec::new();
            assert(details@.map_values(|d: CheckDetail| d@) =~= Seq::<Seq<char>>::empty());
            push_detail(&mut details, concat2("Loaded from ", shown.as_str()));
            assert(details@.map_values(|d: CheckDetail| d@) =~= seq!["Loaded from "@ + shown@]);
            make_result("Configuration", CheckStatus::Pass, shown, details, None)
        },
        None => {
            let mut details: Vec<CheckDetail> = Vec::new();
            assert(details@.map_values(|d: CheckDetail| d@) =~= Seq::<Seq<char>>::empty());
            push_detail(&mut details, owned("Create ~/.arc/arc.toml to configure Arc"));
            assert(details@.map_values(|d: CheckDetail| d@) =~= seq!["Create ~/.arc/arc.toml to configure Arc"@]);
            make_result(
                "Configuration",
                CheckStatus::Warning,
                owned("no config file found"),
                details,
                Some(owned("Create ~/.arc/arc.toml")),
            )
        },
    }
}

/// A language-model provider as the doctor reports it: its name and the
/// environment variables that may hold its API key.
pub struct ProviderInfo {
    pub name: String,
    pub env_vars: Vec<String>,
}

impl ProviderInfo {
    /// A copy of the provider's description.
    pub fn duplicate(&self) -> (r: ProviderInfo)
        ensures
            r.name@ == self.name@,
            views(r.env_vars@) == views(self.env_vars@),
    {
        let mut vars: Vec<String> = Vec::new();
        let mut i: usize = 0;
        while i < self.env_vars.len()
            invariant
                i <= self.env_vars.len(),
                views(vars@) == views(self.env_vars@).take(i as int),
            decreases self.env_vars.len() - i,
        {
            push_text(&mut vars, owned(self.env_vars[i].as_str()));
            assert(views(self.env_vars@).take(i + 1) =~= views(self.env_vars@).take(i as int).push(
                self.env_vars@[i as int]@,
            ));
            i += 1;
        }
        assert(views(self.env_vars@).take(self.env_vars.len() as int) =~= views(self.env_vars@));
        ProviderInfo { name: owned(self.name.as_str()), env_vars: vars }
    }
}

pub open spec fn provider_status_views(v: Seq<(ProviderInfo, bool)>) -> Seq<(Seq<char>, Seq<Seq<char>>, bool)> {
    v.map_values(|e: (ProviderInfo, bool)| (e.0.name@, views(e.0.env_vars@), e.1))
}

pub open spec fn provider_live_views(v: Seq<(ProviderInfo, Result<(), String>)>) -> Seq<(Seq<char>, Result<(), Seq<char>>)> {
    v.map_values(|e: (ProviderInfo, Result<(), String>)| (e.0.name@, match e.1 {
        Ok(()) => Ok(()),
        Err(m) => Err(m@),
    }))
}

pub open spec fn is_configured() -> spec_fn((Seq<char>, Seq<Seq<char>>, bool)) -> bool {
    |e: (Seq<char>, Seq<Seq<char>>, bool)| e.2
}

pub open spec fn live_line(e: (Seq<char>, Result<(), Seq<char>>)) -> Seq<char> {
    match e.1 {
        Ok(()) => e.0 + " connectivity: OK"@,
        Err(m) => e.0 + " connectivity: "@ + m,
    }
}

pub open spec fn is_live_error() -> spec_fn((Seq<char>, Result<(), Seq<char>>)) -> bool {
    |e: (Seq<char>, Result<(), Seq<char>>)| e.1 is Err
}

/// The language-model provider check: an error when no provider has a key,
/// a warning when a probed provider could not be reached.
pub open spec fn llm_check(
    st: Seq<(Seq<char>, Seq<Seq<char>>, bool)>,
    live: Option<Seq<(Seq<char>, Result<(), Seq<char>>)>>,
) -> CheckView {
    let n = count(st, is_configured());
    let total = st.len();
    let details = st.map_values(
        |e: (Seq<char>, Seq<Seq<char>>, bool)| e.0 + " ("@ + join(e.1, " or "@) + "): "@ + set_text(e.2),
    ) + match live {
        Some(l) => l.map_values(|e: (Seq<char>, Result<(), Seq<char>>)| live_line(e)),
        None => Seq::empty(),
    };
    let live_error = match live {
        Some(l) => count(l, is_live_error()) > 0,
        None => false,
    };
    let tally = decimal(n) + " of "@ + decimal(total);
    if n == 0 {
        outcome(
            "LLM providers"@,
            CheckStatus::Error,
            tally + " configured"@,
            details,
            Some("Set at least one provider API key"@),
        )
    } else if live_error {
        outcome(
            "LLM providers"@,
            CheckStatus::Warning,
            tally + " configured (connectivity issues)"@,
            details,
            Some("Check provider API keys and network connectivity"@),
        )
    } else {
        outcome("LLM providers"@, CheckStatus::Pass, tally + " configured"@, details, None)
    }
}

/// The language-model provider check: how many providers have an API key,
/// and, when probed, whether each answered.
pub fn check_llm_providers(
    statuses: &[(ProviderInfo, bool)],
    live_results: Option<&[(ProviderInfo, Result<(), String>)]>,
) -> (r: CheckResult)
    ensures
        r@ == llm_check(
            provider_status_views(statuses@),
            match live_results {
                Some(l) => Some(provider_live_views(l@)),
                None => None,
            },
        ),
{
    let ghost st = provider_status_views(statuses@);
    let ghost f = |e: (Seq<char>, Seq<Seq<char>>, bool)| e.0 + " ("@ + join(e.1, " or "@) + "): "@ + set_text(e.2);
    let mut details: Vec<CheckDetail> = Vec::new();
    let mut count_set: usize = 0;
    let mut i: usize = 0;
    assert(details@.map_values(|d: CheckDetail| d@) =~= Seq::<Seq<char>>::empty());
    while i < statuses.len()
        invariant
            i <= statuses.len(),
            st == provider_status_views(statuses@),
            f == (|e: (Seq<char>, Seq<Seq<char>>, bool)| e.0 + " ("@ + join(e.1, " or "@) + "): "@ + set_text(e.2)),
            details@.map_values(|d: CheckDetail| d@) == st.take(i as int).map_values(f),
            count_set == count(st.take(i as int), is_configured()),
            count_set <= i,
        decreases statuses.len() - i,
    {
        proof {
            lemma_count_step(st, is_configured(), i as int);
        }
        let (p, set) = (&statuses[i].0, statuses[i].1);
        let vars = join_strings(&p.env_vars, " or ");
        let mut line = concat3(p.name.as_str(), " (", vars.as_str());
        append_str(&mut line, "): ");
        append_str(&mut line, if set { "set" } else { "not set" });
        push_detail(&mut details, line);
        if set {
            count_set = count_set + 1;
        }
        proof {
            assert(st.take(i + 1) =~= st.take(i as int).push(st[i as int]));
        }
        i += 1;
    }
    proof {
        lemma_take_full(st);
    }
    let ghost d0 = details@.map_values(|d: CheckDetail| d@);
    let mut live_error = false;
    match live_results {
        Some(results) => {
            let ghost lv = provider_live_views(results@);
            let mut j: usize = 0;
            while j < results.len()
                invariant
                    j <= results.len(),
                    lv == provider_live_views(results@),
                    details@.map_values(|d: CheckDetail| d@) == d0 + lv.take(j as int).map_values(
                        |e: (Seq<char>, Result<(), Seq<char>>)| live_line(e),
                    ),
                    live_error == (count(lv.take(j as int), is_live_error()) > 0),
                decreases results.len() - j,
            {
                proof {
                    lemma_count_step(lv, is_live_error(), j as int);
                }
                let name = results[j].0.name.as_str();
                match &results[j].1 {
                    Ok(()) => {
                        push_detail(&mut details, concat2(name, " connectivity: OK"));
                    },
                    Err(e) => {
                        live_error = true;
                        push_detail(&mut details, concat3(name, " connectivity: ", e.as_str()));
                    },
                }
                proof {
                    assert(lv.take(j + 1) =~= lv.take(j as int).push(lv[j as int]));
                }
                j += 1;
            }
            proof {
                lemma_take_full(lv);
            }
        },
        None => {
            assert(d0 =~= d0 + Seq::<Seq<char>>::empty());
        },
    }
    let total = usize_text(statuses.len());
    let counted = usize_text(count_set);
    let mut tally = concat3(counted.as_str(), " of ", total.as_str());
    if count_set == 0 {
        append_str(&mut tally, " configured");
        make_result("LLM providers", CheckStatus::Error, tally, details, Some(owned("Set at least one provider API key")))
    } else if live_error {
        append_str(&mut tally, " configured (connectivity issues)");
        make_result(
            "LLM providers",
            CheckStatus::Warning,
            tally,
            details,
            Some(owned("Check provider API keys and network connectivity")),
        )
    } else {
        append_str(&mut tally, " configured");
        make_result("LLM providers", CheckStatus::Pass, tally, details, None)
    }
}

pub open spec fn brave_check(set: bool, live: Option<Result<(), Seq<char>>>) -> CheckView {
    outcome(
        "Brave Search"@,
        if set && !live_failed(live) { CheckStatus::Pass } else { CheckStatus::Warning },
        if !set {
            "not configured"@
        } else {
            match live {
                Some(Ok(())) => "API key set, connected"@,
                Some(Err(_)) => "API key set, connectivity error"@,
                None => "API key set"@,
            }
        },
        seq!["BRAVE_SEARCH_API_KEY is "@ + set_text(set)] + live_details(live),
        if live_failed(live) {
            Some("Check BRAVE_SEARCH_API_KEY and network connectivity"@)
        } else if set {
            None
        } else {
            Some("Set BRAVE_SEARCH_API_KEY to enable web search"@)
        },
    )
}

/// Appends the connectivity detail of a probe result; tells whether it failed.
fn add_live_detail(details: &mut Vec<CheckDetail>, live: Option<&Result<(), String>>) -> (failed: bool)
    ensures
        final(details)@.map_values(|d: CheckDetail| d@) == old(details)@.map_values(|d: CheckDetail| d@)
            + live_details(probe_ref_view(live)),
        failed == live_failed(probe_ref_view(live)),
{
    let ghost before = details@.map_values(|d: CheckDetail| d@);
    match live {
        Some(Ok(())) => {
            push_detail(details, owned("Connectivity: OK"));
            assert(before.push("Connectivity: OK"@) =~= before + seq!["Connectivity: OK"@]);
            false
        },
        Some(Err(e)) => {
            let t = concat2("Connectivity: ", e.as_str());
            push_detail(details, t);
            assert(before.push(t@) =~= before + seq![t@]);
            true
        },
        None => {
            assert(before =~= before + Seq::<Seq<char>>::empty());
            false
        },
    }
}

/// The Brave Search check: the API key and, when probed, connectivity.
pub fn check_brave_search(api_key_set: bool, live_result: Option<&Result<(), String>>) -> (r: CheckResult)
    ensures
        r@ == brave_check(api_key_set, probe_ref_view(live_result)),
{
    let mut details: Vec<CheckDetail> = Vec::new();
    let first = concat2("BRAVE_SEARCH_API_KEY is ", if api_key_set { "set" } else { "not set" });
    assert(details@.map_values(|d: CheckDetail| d@) =~= Seq::<Seq<char>>::empty());
    push_detail(&mut details, first);
    assert(details@.map_values(|d: CheckDetail| d@) =~= seq![first@]);
    let failed = add_live_detail(&mut details, live_result);
    let status = if api_key_set && !failed { CheckStatus::Pass } else { CheckStatus::Warning };
    let remediation = if failed {
        Some(owned("Check BRAVE_SEARCH_API_KEY and network connectivity"))
    } else if api_key_set {
        None
    } else {
        Some(owned("Set BRAVE_SEARCH_API_KEY to enable web search"))
    };
    let summary = if !api_key_set {
        owned("not configured")
    } else {
        match live_result {
            Some(Ok(())) => owned("API key set, connected"),
            Some(Err(_)) => owned("API key set, connectivity error"),
            None => owned("API key set"),
        }
    };
    make_result("Brave Search", status, summary, details, remediation)
}

/// What is known of the sandboxes before the check.
pub struct SandboxStatus {
    pub daytona_configured: bool,
    pub daytona_probe: Option<Result<(), String>>,
    pub docker_probe: Option<Result<(), String>>,
}

pub open spec fn sandbox_available(s: &SandboxStatus) -> Seq<Seq<char>> {
    (if s.daytona_probe matches Some(Ok(_)) { seq!["Daytona"@] } else { Seq::empty() }) + (
    if s.docker_probe matches Some(Ok(_)) { seq!["Docker"@] } else { Seq::empty() })
}

pub open spec fn sandbox_errors(s: &SandboxStatus) -> Seq<Seq<char>> {
    (match s.daytona_probe {
        Some(Err(e)) => seq!["Daytona: "@ + e@],
        _ => Seq::empty(),
    }) + (match s.docker_probe {
        Some(Err(e)) => seq!["Docker: "@ + e@],
        _ => Seq::empty(),
    })
}

pub open spec fn sandbox_details(s: &SandboxStatus) -> Seq<Seq<char>> {
    seq![
        match s.daytona_probe {
            Some(Ok(_)) => "Daytona (DAYTONA_API_KEY): available"@,
            Some(Err(e)) => "Daytona (DAYTONA_API_KEY): error — "@ + e@,
            None => if s.daytona_configured {
                "Daytona (DAYTONA_API_KEY): configured"@
            } else {
                "Daytona (DAYTONA_API_KEY): not configured"@
            },
        },
        match s.docker_probe {
            Some(Ok(_)) => "Docker: available"@,
            Some(Err(e)) => "Docker: error — "@ + e@,
            None => "Docker: not probed"@,
        },
    ]
}

pub open spec fn sandbox_check(s: &SandboxStatus) -> CheckView {
    let available = sandbox_available(s);
    let errors = sandbox_errors(s);
    let details = sandbox_details(s);
    if errors.len() > 0 {
        outcome(
            "Sandbox"@,
            CheckStatus::Error,
            join(errors, "; "@),
            details,
            Some("Fix sandbox configuration errors"@),
        )
    } else if !s.daytona_configured && available.len() == 0 {
        outcome(
            "Sandbox"@,
            CheckStatus::Warning,
            "no sandbox configured"@,
            details,
            Some("Install Docker or set DAYTONA_API_KEY to enable sandboxed execution"@),
        )
    } else {
        outcome(
            "Sandbox"@,
            CheckStatus::Pass,
            if available.len() == 0 {
                join(seq!["Daytona"@], " + "@) + " configured"@
            } else {
                join(available, " + "@) + " available"@
            },
            details,
            None,
        )
    }
}

fn push_text(v: &mut Vec<String>, t: String)
    ensures
        views(final(v)@) == views(old(v)@).push(t@),
{
    let ghost before = views(v@);
    v.push(t);
    assert(views(v@) =~= before.push(t@));
}

/// The sandbox check: errors from probes first, then whether any sandbox is
/// configured or available.
pub fn check_sandbox(status: &SandboxStatus) -> (r: CheckResult)
    ensures
        r@ == sandbox_check(status),
{
    let mut configured: Vec<String> = Vec::new();
    let mut available: Vec<String> = Vec::new();
    let mut details: Vec<CheckDetail> = Vec::new();
    let mut errors: Vec<String> = Vec::new();
    if status.daytona_configured {
        push_text(&mut configured, owned("Daytona"));
    }
    match &status.daytona_probe {
        Some(Ok(())) => {
            push_text(&mut available, owned("Daytona"));
            push_detail(&mut details, owned("Daytona (DAYTONA_API_KEY): available"));
        },
        Some(Err(e)) => {
            push_text(&mut errors, concat2("Daytona: ", e.as_str()));
            push_detail(&mut details, concat2("Daytona (DAYTONA_API_KEY): error — ", e.as_str()));
        },
        None => {
            if status.daytona_configured {
                push_detail(&mut details, owned("Daytona (DAYTONA_API_KEY): configured"));
            } else {
                push_detail(&mut details, owned("Daytona (DAYTONA_API_KEY): not configured"));
            }
        },
    }
    match &status.docker_probe {
        Some(Ok(())) => {
            push_text(&mut available, owned("Docker"));
            push_detail(&mut details, owned("Docker: available"));
        },
        Some(Err(e)) => {
            push_text(&mut errors, concat2("Docker: ", e.as_str()));
            push_detail(&mut details, concat2("Docker: error — ", e.as_str()));
        },
        None => {
            push_detail(&mut details, owned("Docker: not probed"));
        },
    }
    proof {
        assert(views(errors@) =~= sandbox_errors(status));
        assert(views(available@) =~= sandbox_available(status));
        assert(details@.map_values(|d: CheckDetail| d@) =~= sandbox_details(status));
        if status.daytona_configured {
            assert(views(configured@) =~= seq!["Daytona"@]);
        } else {
            assert(views(configured@).len() == 0);
        }
    }
    if errors.len() > 0 {
        let summary = join_strings(&errors, "; ");
        make_result(
            "Sandbox",
            CheckStatus::Error,
            summary,
            details,
            Some(owned("Fix sandbox configuration errors")),
        )
    } else if configured.len() == 0 && available.len() == 0 {
        make_result(
            "Sandbox",
            CheckStatus::Warning,
            owned("no sandbox configured"),
            details,
            Some(owned("Install Docker or set DAYTONA_API_KEY to enable sandboxed execution")),
        )
    } else {
        let summary = if available.len() == 0 {
            let mut t = join_strings(&configured, " + ");
            append_str(&mut t, " configured");
            t
        } else {
            let mut t = join_strings(&available, " + ");
            append_str(&mut t, " available");
            t
        };
        make_result("Sandbox", CheckStatus::Pass, summary, details, None)
    }
}

/// Which parts of the GitHub App configuration are present.
pub struct GithubAppStatus {
    pub app_id: bool,
    pub client_id: bool,
    pub client_secret: bool,
    pub webhook_secret: bool,
    pub private_key: bool,
}

impl GithubAppStatus {
    /// Each setting with the name it is reported under.
    pub open spec fn fields(&self) -> Seq<(Seq<char>, bool)> {
        seq![
            ("git.app_id"@, self.app_id),
            ("git.client_id"@, self.client_id),
            ("GITHUB_APP_CLIENT_SECRET"@, self.client_secret),
            ("GITHUB_APP_WEBHOOK_SECRET"@, self.webhook_secret),
            ("GITHUB_APP_PRIVATE_KEY"@, self.private_key),
        ]
    }

    fn all_set(&self) -> (r: bool)
        ensures
            r == (self.app_id && self.client_id && self.client_secret && self.webhook_secret && self.private_key),
    {
        self.app_id && self.client_id && self.client_secret && self.webhook_secret && self.private_key
    }

    fn none_set(&self) -> (r: bool)
        ensures
            r == (!self.app_id && !self.client_id && !self.client_secret && !self.webhook_secret
                && !self.private_key),
    {
        !self.app_id && !self.client_id && !self.client_secret && !self.webhook_secret && !self.private_key
    }
}

/// The names of the settings that are not set, in order.
pub open spec fn unset_names(fields: Seq<(Seq<char>, bool)>) -> Seq<Seq<char>>
    decreases fields.len(),
{
    if fields.len() == 0 {
        Seq::empty()
    } else {
        unset_names(fields.drop_last()) + if fields.last().1 {
            Seq::<Seq<char>>::empty()
        } else {
            seq![fields.last().0]
        }
    }
}

pub open spec fn field_line(f: (Seq<char>, bool)) -> Seq<char> {
    f.0 + ": "@ + set_text(f.1)
}

pub open spec fn github_check(s: &GithubAppStatus) -> CheckView {
    let fields = s.fields();
    let details = fields.map_values(|f: (Seq<char>, bool)| field_line(f));
    if s.app_id && s.client_id && s.client_secret && s.webhook_secret && s.private_key {
        outcome("GitHub App"@, CheckStatus::Pass, "fully configured"@, details, None)
    } else if !s.app_id && !s.client_id && !s.client_secret && !s.webhook_secret && !s.private_key {
        outcome(
            "GitHub App"@,
            CheckStatus::Warning,
            "not configured"@,
            details,
            Some("Configure GitHub App in arc.toml and set env vars to enable GitHub integration"@),
        )
    } else {
        outcome(
            "GitHub App"@,
            CheckStatus::Error,
            "partially configured"@,
            details,
            Some("Missing: "@ + join(unset_names(fields), ", "@)),
        )
    }
}

/// The GitHub App check: passes when every setting is present, warns when
/// none is, and otherwise names the missing ones.
pub fn check_github_app(status: &GithubAppStatus) -> (r: CheckResult)
    ensures
        r@ == github_check(status),
{
    let names: [&str; 5] = [
        "git.app_id",
        "git.client_id",
        "GITHUB_APP_CLIENT_SECRET",
        "GITHUB_APP_WEBHOOK_SECRET",
        "GITHUB_APP_PRIVATE_KEY",
    ];
    let set: [bool; 5] = [
        status.app_id,
        status.client_id,
        status.client_secret,
        status.webhook_secret,
        status.private_key,
    ];
    let ghost fields = status.fields();
    proof {
        reveal_strlit("git.app_id");
        reveal_strlit("git.client_id");
        reveal_strlit("GITHUB_APP_CLIENT_SECRET");
        reveal_strlit("GITHUB_APP_WEBHOOK_SECRET");
        reveal_strlit("GITHUB_APP_PRIVATE_KEY");
        assert(names@.len() == 5 && set@.len() == 5);
    }
    let mut details: Vec<CheckDetail> = Vec::new();
    let mut missing: Vec<String> = Vec::new();
    let mut i: usize = 0;
    assert(details@.map_values(|d: CheckDetail| d@) =~= Seq::<Seq<char>>::empty());
    assert(views(missing@) =~= Seq::<Seq<char>>::empty());
    while i < 5
        invariant
            i <= 5,
            fields == status.fields(),
            forall|j: int| 0 <= j < 5 ==> (#[trigger] names@[j])@ == fields[j].0 && set@[j] == fields[j].1,
            details@.map_values(|d: CheckDetail| d@) == fields.take(i as int).map_values(
                |f: (Seq<char>, bool)| field_line(f),
            ),
            views(missing@) == unset_names(fields.take(i as int)),
        decreases 5 - i,
    {
        let name = names[i];
        let is_set = set[i];
        assert(name@ == fields[i as int].0);
        let line = concat3(name, ": ", if is_set { "set" } else { "not set" });
        push_detail(&mut details, line);
        if !is_set {
            push_text(&mut missing, owned(name));
        }
        proof {
            assert(fields.take(i + 1).drop_last() =~= fields.take(i as int));
            assert(fields.take(i + 1).map_values(|f: (Seq<char>, bool)| field_line(f)) =~= fields.take(
                i as int,
            ).map_values(|f: (Seq<char>, bool)| field_line(f)).push(line@));
            if is_set {
                assert(views(missing@) =~= unset_names(fields.take(i + 1)));
            } else {
                assert(views(missing@) =~= unset_names(fields.take(i + 1)));
            }
        }
        i += 1;
    }
    proof {
        assert(fields.take(5) =~= fields);
    }
    if status.all_set() {
        make_result("GitHub App", CheckStatus::Pass, owned("fully configured"), details, None)
    } else if status.none_set() {
        make_result(
            "GitHub App",
            CheckStatus::Warning,
            owned("not configured"),
            details,
            Some(owned("Configure GitHub App in arc.toml and set env vars to enable GitHub integration")),
        )
    } else {
        let list = join_strings(&missing, ", ");
        make_result(
            "GitHub App",
            CheckStatus::Error,
            owned("partially configured"),
            details,
            Some(concat2("Missing: ", list.as_str())),
        )
    }
}

/// How the API server is configured.
pub struct ApiStatus {
    pub base_url: String,
    pub authentication_strategy: String,
}

pub open spec fn api_check(s: &ApiStatus, live: Option<Result<(), Seq<char>>>) -> CheckView {
    outcome(
        "Arc API"@,
        if live_failed(live) { CheckStatus::Warning } else { CheckStatus::Pass },
        s.base_url@,
        seq!["Base URL: "@ + s.base_url@, "Authentication: "@ + s.authentication_strategy@] + live_details(live),
        if live_failed(live) { Some("Check that the API server is running and reachable"@) } else { None },
    )
}

/// The API server check: its address, how it authenticates, and, when
/// probed, whether it answered.
pub fn check_api(status: &ApiStatus, live_result: Option<&Result<(), String>>) -> (r: CheckResult)
    ensures
        r@ == api_check(status, probe_ref_view(live_result)),
{
    let mut details: Vec<CheckDetail> = Vec::new();
    assert(details@.map_values(|d: CheckDetail| d@) =~= Seq::<Seq<char>>::empty());
    let a = concat2("Base URL: ", status.base_url.as_str());
    let b = concat2("Authentication: ", status.authentication_strategy.as_str());
    push_detail(&mut details, a);
    push_detail(&mut details, b);
    assert(details@.map_values(|d: CheckDetail| d@) =~= seq![a@, b@]);
    let failed = add_live_detail(&mut details, live_result);
    let status_out = if failed { CheckStatus::Warning } else { CheckStatus::Pass };
    let remediation = if failed {
        Some(owned("Check that the API server is running and reachable"))
    } else {
        None
    };
    make_result("Arc API", status_out, owned(status.base_url.as_str()), details, remediation)
}

/// How the web app is configured.
pub struct WebStatus {
    pub url: String,
    pub auth_provider: String,
    pub allowed_usernames_count: usize,
}

pub open spec fn web_check(s: &WebStatus, live: Option<Result<(), Seq<char>>>) -> CheckView {
    outcome(
        "Arc Web"@,
        if live_failed(live) { CheckStatus::Warning } else { CheckStatus::Pass },
        s.url@,
        seq![
            "URL: "@ + s.url@,
            "Auth provider: "@ + s.auth_provider@,
            "Allowed usernames: "@ + decimal(s.allowed_usernames_count as nat),
        ] + live_details(live),
        if live_failed(live) { Some("Check that the web app is running and reachable"@) } else { None },
    )
}

/// The web app check: its address, its sign-in provider and how many users
/// may sign in, and, when probed, whether it answered.
pub fn check_web(status: &WebStatus, live_result: Option<&Result<(), String>>) -> (r: CheckResult)
    ensures
        r@ == web_check(status, probe_ref_view(live_result)),
{
    let mut details: Vec<CheckDetail> = Vec::new();
    assert(details@.map_values(|d: CheckDetail| d@) =~= Seq::<Seq<char>>::empty());
    let a = concat2("URL: ", status.url.as_str());
    let b = concat2("Auth provider: ", status.auth_provider.as_str());
    let n = usize_text(status.allowed_usernames_count);
    let c = concat2("Allowed usernames: ", n.as_str());
    push_detail(&mut details, a);
    push_detail(&mut details, b);
    push_detail(&mut details, c);
    assert(details@.map_values(|d: CheckDetail| d@) =~= seq![a@, b@, c@]);
    let failed = add_live_detail(&mut details, live_result);
    let status_out = if failed { CheckStatus::Warning } else { CheckStatus::Pass };
    let remediation = if failed {
        Some(owned("Check that the web app is running and reachable"))
    } else {
        None
    };
    make_result("Arc Web", status_out, owned(status.url.as_str()), details, remediation)
}

} // verus!
