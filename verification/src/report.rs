use vstd::prelude::*;

use crate::style::{painted, Styles};
use crate::text::{append_str, concat4, owned};
use crate::validation::{Diagnostic, DiagnosticView, Severity};

verus! {

/// Where a diagnostic points: ` [node: <id>]`, else ` [edge: <from> -> <to>]`,
/// else nothing.
pub open spec fn location_text(d: DiagnosticView) -> Seq<char> {
    match d.node_id {
        Some(n) => " [node: "@ + n + "]"@,
        None => match d.edge {
            Some((a, b)) => " [edge: "@ + a + " -> "@ + b + "]"@,
            None => Seq::empty(),
        },
    }
}

/// The line that reports a diagnostic: its coloured severity, where it
/// points, its message and its rule (dimmed).
pub open spec fn diagnostic_text(
    d: DiagnosticView,
    red: Seq<char>,
    yellow: Seq<char>,
    dim: Seq<char>,
    reset: Seq<char>,
) -> Seq<char> {
    let loc = location_text(d);
    match d.severity {
        Severity::Error => painted(red, "error"@, reset) + loc + ": "@ + d.message + " ("@ + painted(
            dim,
            d.rule,
            reset,
        ) + ")"@,
        Severity::Warning => painted(yellow, "warning"@, reset) + loc + ": "@ + d.message + " ("@
            + painted(dim, d.rule, reset) + ")"@,
        Severity::Info => painted(dim, "info"@ + loc + ": "@ + d.message + " ("@ + d.rule + ")"@, reset),
    }
}

/// The line that reports a diagnostic, coloured by its severity.
pub fn format_diagnostic(d: &Diagnostic, styles: &Styles) -> (r: String)
    ensures
        r@ == diagnostic_text(d@, styles.red@, styles.yellow@, styles.dim@, styles.reset@),
{
    let location = match &d.node_id {
        Some(n) => crate::text::concat3(" [node: ", n.as_str(), "]"),
        None => match &d.edge {
            Some((a, b)) => {
                let mut t = concat4(" [edge: ", a.as_str(), " -> ", b.as_str());
                append_str(&mut t, "]");
                t
            },
            None => String::new(),
        },
    };
    match d.severity {
        Severity::Error => {
            let mut r = styles.paint(&styles.red, "error");
            append_str(&mut r, location.as_str());
            append_str(&mut r, ": ");
            append_str(&mut r, d.message.as_str());
            append_str(&mut r, " (");
            let rule = styles.paint(&styles.dim, d.rule.as_str());
            append_str(&mut r, rule.as_str());
            append_str(&mut r, ")");
            r
        },
        Severity::Warning => {
            let mut r = styles.paint(&styles.yellow, "warning");
            append_str(&mut r, location.as_str());
            append_str(&mut r, ": ");
            append_str(&mut r, d.message.as_str());
            append_str(&mut r, " (");
            let rule = styles.paint(&styles.dim, d.rule.as_str());
            append_str(&mut r, rule.as_str());
            append_str(&mut r, ")");
            r
        },
        Severity::Info => {
            let mut body = owned("info");
            append_str(&mut body, location.as_str());
            append_str(&mut body, ": ");
            append_str(&mut body, d.message.as_str());
            append_str(&mut body, " (");
            append_str(&mut body, d.rule.as_str());
            append_str(&mut body, ")");
            styles.paint(&styles.dim, body.as_str())
        },
    }
}

/// Whether any diagnostic is an error, which fails validation.
pub fn has_error(ds: &[Diagnostic]) -> (r: bool)
    ensures
        r == exists|i: int| 0 <= i < ds@.len() && ds@[i].severity == Severity::Error,
{
    let mut i: usize = 0;
    while i < ds.len()
        invariant
            i <= ds.len(),
            forall|j: int| 0 <= j < i ==> ds@[j].severity != Severity::Error,
        decreases ds.len() - i,
    {
        if ds[i].severity == Severity::Error {
            return true;
        }
        i += 1;
    }
    false
}

} // verus!
