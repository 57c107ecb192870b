use arc::report::{format_diagnostic, has_error};
use arc::style::Styles;
use arc::validation::{Diagnostic, Severity};

fn diag(severity: Severity, node: Option<&str>, edge: Option<(&str, &str)>) -> Diagnostic {
    Diagnostic {
        rule: "rule_x".to_string(),
        severity,
        message: "something".to_string(),
        node_id: node.map(String::from),
        edge: edge.map(|(a, b)| (a.to_string(), b.to_string())),
        fix: None,
    }
}

#[test]
fn diagnostic_lines_without_color() {
    let s = Styles::new(false);
    assert_eq!(
        format_diagnostic(&diag(Severity::Error, Some("n1"), None), &s),
        "error [node: n1]: something (rule_x)"
    );
    assert_eq!(
        format_diagnostic(&diag(Severity::Warning, None, Some(("a", "b"))), &s),
        "warning [edge: a -> b]: something (rule_x)"
    );
    assert_eq!(format_diagnostic(&diag(Severity::Info, None, None), &s), "info: something (rule_x)");
}

#[test]
fn diagnostic_line_with_color() {
    let s = Styles::new(true);
    assert_eq!(
        format_diagnostic(&diag(Severity::Error, None, None), &s),
        "\x1b[31merror\x1b[0m: something (\x1b[2mrule_x\x1b[0m)"
    );
    assert_eq!(
        format_diagnostic(&diag(Severity::Info, Some("n"), None), &s),
        "\x1b[2minfo [node: n]: something (rule_x)\x1b[0m"
    );
}

#[test]
fn errors_fail_validation() {
    assert!(!has_error(&[diag(Severity::Warning, None, None)]));
    assert!(has_error(&[diag(Severity::Info, None, None), diag(Severity::Error, None, None)]));
}
