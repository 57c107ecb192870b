use std::path::PathBuf;

use arc::doctor::{
    check_api, check_brave_search, check_config, check_github_app, check_llm_providers, check_sandbox, check_web, ApiStatus,
    CheckDetail, CheckResult, CheckStatus, DoctorReport, GithubAppStatus, ProviderInfo, SandboxStatus, WebStatus,
};
use arc::style::Styles;

fn pass_check(name: &str) -> CheckResult {
    CheckResult {
        name: name.to_string(),
        status: CheckStatus::Pass,
        summary: "all good".to_string(),
        details: vec![CheckDetail {
            text: "everything is fine".to_string(),
        }],
        remediation: None,
    }
}

fn warning_check(name: &str) -> CheckResult {
    CheckResult {
        name: name.to_string(),
        status: CheckStatus::Warning,
        summary: "not configured".to_string(),
        details: vec![CheckDetail {
            text: "missing something".to_string(),
        }],
        remediation: Some("fix it".to_string()),
    }
}

fn error_check(name: &str) -> CheckResult {
    CheckResult {
        name: name.to_string(),
        status: CheckStatus::Error,
        summary: "broken".to_string(),
        details: vec![CheckDetail {
            text: "something is wrong".to_string(),
        }],
        remediation: Some("repair it".to_string()),
    }
}

// -- render: all-pass, no color --

#[test]
fn render_all_pass_no_color() {
    let report = DoctorReport {
        live: false,
        checks: vec![pass_check("Test")],
    };
    let out = report.render(&Styles::new(false), false);
    assert!(out.contains("[✓]"));
    assert!(out.contains("All checks passed."));
    assert!(out.contains("Arc Doctor"));
}

// -- render: warning footer --

#[test]
fn render_warning_footer() {
    let report = DoctorReport {
        live: false,
        checks: vec![warning_check("Optional")],
    };
    let out = report.render(&Styles::new(false), false);
    assert!(out.contains("[!]"));
    assert!(out.contains("Doctor found issues in 1 category."));
    assert!(out.contains("Warnings:"));
    assert!(out.contains("fix it"));
}

// -- render: error footer --

#[test]
fn render_error_footer() {
    let report = DoctorReport {
        live: false,
        checks: vec![error_check("Broken")],
    };
    let out = report.render(&Styles::new(false), false);
    assert!(out.contains("[✗]"));
    assert!(out.contains("Errors:"));
    assert!(out.contains("repair it"));
}

// -- render: verbose mode --

#[test]
fn render_verbose_shows_details() {
    let report = DoctorReport {
        live: false,
        checks: vec![pass_check("Verbose")],
    };
    let out = report.render(&Styles::new(false), true);
    assert!(out.contains("•"));
    assert!(out.contains("everything is fine"));
}

#[test]
fn render_default_hides_details() {
    let report = DoctorReport {
        live: false,
        checks: vec![pass_check("Verbose")],
    };
    let out = report.render(&Styles::new(false), false);
    assert!(!out.contains("everything is fine"));
}

// -- render: color --

#[test]
fn render_color_pass_green() {
    let report = DoctorReport {
        live: false,
        checks: vec![pass_check("Color")],
    };
    let out = report.render(&Styles::new(true), false);
    assert!(out.contains("\x1b[32m")); // green
}

#[test]
fn render_color_warning_yellow() {
    let report = DoctorReport {
        live: false,
        checks: vec![warning_check("Color")],
    };
    let out = report.render(&Styles::new(true), false);
    assert!(out.contains("\x1b[33m")); // yellow
}

#[test]
fn render_color_error_red() {
    let report = DoctorReport {
        live: false,
        checks: vec![error_check("Color")],
    };
    let out = report.render(&Styles::new(true), false);
    assert!(out.contains("\x1b[31m")); // red
}

// -- has_errors / issue_count --

#[test]
fn has_errors_false_for_warnings_only() {
    let report = DoctorReport {
        live: false,
        checks: vec![pass_check("OK"), warning_check("Warn")],
    };
    assert!(!report.has_errors());
}

#[test]
fn has_errors_true_when_error_present() {
    let report = DoctorReport {
        live: false,
        checks: vec![pass_check("OK"), error_check("Broken")],
    };
    assert!(report.has_errors());
}

#[test]
fn issue_count_counts_warnings_and_errors() {
    let report = DoctorReport {
        live: false,
        checks: vec![
            pass_check("OK"),
            warning_check("Warn"),
            error_check("Broken"),
        ],
    };
    assert_eq!(report.issue_count(), 2);
}

// -- check_config --

#[test]
fn check_config_pass_with_path() {
    let result = check_config(Some(PathBuf::from("/home/user/.arc/arc.toml")));
    assert_eq!(result.status, CheckStatus::Pass);
    assert!(result.summary.contains(".arc/arc.toml"));
}

#[test]
fn check_config_warning_without_path() {
    let result = check_config(None);
    assert_eq!(result.status, CheckStatus::Warning);
    assert!(result.remediation.is_some());
}


// -- check_brave_search --

#[test]
fn check_brave_configured() {
    let result = check_brave_search(true, None);
    assert_eq!(result.status, CheckStatus::Pass);
}

#[test]
fn check_brave_not_configured() {
    let result = check_brave_search(false, None);
    assert_eq!(result.status, CheckStatus::Warning);
    assert!(result.remediation.is_some());
}

#[test]
fn check_brave_live_ok() {
    let live = Ok(());
    let result = check_brave_search(true, Some(&live));
    assert_eq!(result.status, CheckStatus::Pass);
    assert!(result.summary.contains("connected"));
}

#[test]
fn check_brave_live_error() {
    let live = Err("HTTP 401".to_string());
    let result = check_brave_search(true, Some(&live));
    assert_eq!(result.status, CheckStatus::Warning);
    assert!(result.details.iter().any(|d| d.text.contains("HTTP 401")));
}

// -- check_sandbox --

#[test]
fn check_sandbox_daytona_probed_ok() {
    let status = SandboxStatus {
        daytona_configured: true,
        daytona_probe: Some(Ok(())),
        docker_probe: None,
    };
    let result = check_sandbox(&status);
    assert_eq!(result.status, CheckStatus::Pass);
    assert!(result.summary.contains("Daytona available"));
}

#[test]
fn check_sandbox_docker_probed_ok() {
    let status = SandboxStatus {
        daytona_configured: false,
        daytona_probe: None,
        docker_probe: Some(Ok(())),
    };
    let result = check_sandbox(&status);
    assert_eq!(result.status, CheckStatus::Pass);
    assert!(result.summary.contains("Docker available"));
}

#[test]
fn check_sandbox_both_probed_ok() {
    let status = SandboxStatus {
        daytona_configured: true,
        daytona_probe: Some(Ok(())),
        docker_probe: Some(Ok(())),
    };
    let result = check_sandbox(&status);
    assert_eq!(result.status, CheckStatus::Pass);
    assert!(result.summary.contains("Daytona + Docker available"));
}

#[test]
fn check_sandbox_nothing_configured() {
    let status = SandboxStatus {
        daytona_configured: false,
        daytona_probe: None,
        docker_probe: None,
    };
    let result = check_sandbox(&status);
    assert_eq!(result.status, CheckStatus::Warning);
    assert!(result.summary.contains("no sandbox configured"));
}

#[test]
fn check_sandbox_daytona_configured_not_probed() {
    let status = SandboxStatus {
        daytona_configured: true,
        daytona_probe: None,
        docker_probe: None,
    };
    let result = check_sandbox(&status);
    assert_eq!(result.status, CheckStatus::Pass);
    assert!(result.summary.contains("Daytona configured"));
    assert!(result.details.iter().any(|d| d.text.contains("configured")));
}

#[test]
fn check_sandbox_configured_but_broken() {
    let status = SandboxStatus {
        daytona_configured: true,
        daytona_probe: Some(Err("connection refused".to_string())),
        docker_probe: None,
    };
    let result = check_sandbox(&status);
    assert_eq!(result.status, CheckStatus::Error);
}

// -- check_github_app --

#[test]
fn check_github_all_set() {
    let status = GithubAppStatus {
        app_id: true,
        client_id: true,
        client_secret: true,
        webhook_secret: true,
        private_key: true,
    };
    let result = check_github_app(&status);
    assert_eq!(result.status, CheckStatus::Pass);
}

#[test]
fn check_github_none_set() {
    let status = GithubAppStatus {
        app_id: false,
        client_id: false,
        client_secret: false,
        webhook_secret: false,
        private_key: false,
    };
    let result = check_github_app(&status);
    assert_eq!(result.status, CheckStatus::Warning);
}

#[test]
fn check_github_partial() {
    let status = GithubAppStatus {
        app_id: true,
        client_id: true,
        client_secret: false,
        webhook_secret: false,
        private_key: false,
    };
    let result = check_github_app(&status);
    assert_eq!(result.status, CheckStatus::Error);
    let rem = result.remediation.unwrap();
    assert!(rem.contains("GITHUB_APP_CLIENT_SECRET"));
    assert!(rem.contains("GITHUB_APP_WEBHOOK_SECRET"));
    assert!(rem.contains("GITHUB_APP_PRIVATE_KEY"));
}

// -- check_api --

#[test]
fn check_api_shows_base_url() {
    let status = ApiStatus {
        base_url: "http://localhost:3000".to_string(),
        authentication_strategy: "jwt".to_string(),
    };
    let result = check_api(&status, None);
    assert_eq!(result.status, CheckStatus::Pass);
    assert_eq!(result.summary, "http://localhost:3000");
}

#[test]
fn check_api_details_show_auth_strategy() {
    let status = ApiStatus {
        base_url: "https://api.example.com".to_string(),
        authentication_strategy: "jwt".to_string(),
    };
    let result = check_api(&status, None);
    assert!(result.details.iter().any(|d| d.text.contains("jwt")));
    assert!(result
        .details
        .iter()
        .any(|d| d.text.contains("https://api.example.com")));
}

#[test]
fn check_api_live_ok() {
    let status = ApiStatus {
        base_url: "http://localhost:3000".to_string(),
        authentication_strategy: "jwt".to_string(),
    };
    let live = Ok(());
    let result = check_api(&status, Some(&live));
    assert_eq!(result.status, CheckStatus::Pass);
    assert!(result.details.iter().any(|d| d.text.contains("Connectivity: OK")));
}

#[test]
fn check_api_live_error() {
    let status = ApiStatus {
        base_url: "http://localhost:3000".to_string(),
        authentication_strategy: "jwt".to_string(),
    };
    let live = Err("connection refused".to_string());
    let result = check_api(&status, Some(&live));
    assert_eq!(result.status, CheckStatus::Warning);
    assert!(result.details.iter().any(|d| d.text.contains("connection refused")));
}

// -- check_web --

#[test]
fn check_web_shows_url() {
    let status = WebStatus {
        url: "http://localhost:5173".to_string(),
        auth_provider: "github".to_string(),
        allowed_usernames_count: 0,
    };
    let result = check_web(&status, None);
    assert_eq!(result.status, CheckStatus::Pass);
    assert_eq!(result.summary, "http://localhost:5173");
}

#[test]
fn check_web_details_show_auth() {
    let status = WebStatus {
        url: "https://arc.example.com".to_string(),
        auth_provider: "github".to_string(),
        allowed_usernames_count: 3,
    };
    let result = check_web(&status, None);
    assert!(result.details.iter().any(|d| d.text.contains("github")));
    assert!(result
        .details
        .iter()
        .any(|d| d.text.contains("https://arc.example.com")));
    assert!(result
        .details
        .iter()
        .any(|d| d.text.contains("Allowed usernames: 3")));
}

#[test]
fn check_web_live_ok() {
    let status = WebStatus {
        url: "http://localhost:5173".to_string(),
        auth_provider: "github".to_string(),
        allowed_usernames_count: 0,
    };
    let live = Ok(());
    let result = check_web(&status, Some(&live));
    assert_eq!(result.status, CheckStatus::Pass);
    assert!(result.details.iter().any(|d| d.text.contains("Connectivity: OK")));
}

#[test]
fn check_web_live_error() {
    let status = WebStatus {
        url: "http://localhost:5173".to_string(),
        auth_provider: "github".to_string(),
        allowed_usernames_count: 0,
    };
    let live = Err("connection refused".to_string());
    let result = check_web(&status, Some(&live));
    assert_eq!(result.status, CheckStatus::Warning);
    assert!(result.details.iter().any(|d| d.text.contains("connection refused")));
}

// -- render: multiple issues --

#[test]
fn render_multiple_issues_pluralizes() {
    let report = DoctorReport {
        live: false,
        checks: vec![warning_check("A"), error_check("B")],
    };
    let out = report.render(&Styles::new(false), false);
    assert!(out.contains("2 categories"));
}

#[test]
fn render_exact_text_without_color() {
    let report = DoctorReport {
        live: true,
        checks: vec![pass_check("A"), warning_check("B"), error_check("C")],
    };
    let out = report.render(&Styles::new(false), true);
    assert_eq!(
        out,
        "Arc Doctor\n\n  [✓] A (all good)\n      • everything is fine\n  [!] B (not configured)\n      • missing something\n  [✗] C (broken)\n      • something is wrong\n\nDoctor found issues in 2 categories.\n\nErrors:\n  • C — repair it\n\nWarnings:\n  • B — fix it\n"
    );
}

#[test]
fn render_colors_wrap_icon_and_name() {
    let report = DoctorReport {
        live: true,
        checks: vec![pass_check("A")],
    };
    let out = report.render(&Styles::new(true), false);
    assert_eq!(
        out,
        "\x1b[1mArc Doctor\x1b[0m\n\n  \x1b[32m[✓]\x1b[0m \x1b[1mA\x1b[0m (all good)\n\nAll checks passed.\n"
    );
}

#[test]
fn render_hint_when_not_live() {
    let report = DoctorReport { live: false, checks: vec![] };
    let out = report.render(&Styles::new(false), false);
    assert_eq!(
        out,
        "Arc Doctor\n\n\nAll checks passed.\n\nRun with --live to probe service connectivity.\n"
    );
}

#[test]
fn issue_count_of_empty_report_is_zero() {
    let report = DoctorReport { live: false, checks: vec![] };
    assert_eq!(report.issue_count(), 0);
    assert!(!report.has_errors());
}

#[test]
fn check_config_reports_path_in_detail() {
    let result = check_config(Some(PathBuf::from("/etc/arc.toml")));
    assert_eq!(result.name, "Configuration");
    assert_eq!(result.summary, "/etc/arc.toml");
    assert_eq!(result.details[0].text, "Loaded from /etc/arc.toml");
    assert!(result.remediation.is_none());
}

#[test]
fn check_brave_live_error_exact() {
    let live = Err("HTTP 401".to_string());
    let result = check_brave_search(false, Some(&live));
    assert_eq!(result.status, CheckStatus::Warning);
    assert_eq!(result.summary, "not configured");
    assert_eq!(result.details.len(), 2);
    assert_eq!(result.details[0].text, "BRAVE_SEARCH_API_KEY is not set");
    assert_eq!(result.details[1].text, "Connectivity: HTTP 401");
    assert_eq!(
        result.remediation.as_deref(),
        Some("Check BRAVE_SEARCH_API_KEY and network connectivity")
    );
}

#[test]
fn check_sandbox_errors_joined() {
    let status = SandboxStatus {
        daytona_configured: true,
        daytona_probe: Some(Err("down".to_string())),
        docker_probe: Some(Err("no socket".to_string())),
    };
    let result = check_sandbox(&status);
    assert_eq!(result.status, CheckStatus::Error);
    assert_eq!(result.summary, "Daytona: down; Docker: no socket");
    assert_eq!(result.details[0].text, "Daytona (DAYTONA_API_KEY): error — down");
    assert_eq!(result.details[1].text, "Docker: error — no socket");
}

#[test]
fn check_github_partial_lists_missing_in_order() {
    let status = GithubAppStatus {
        app_id: false,
        client_id: true,
        client_secret: true,
        webhook_secret: false,
        private_key: true,
    };
    let result = check_github_app(&status);
    assert_eq!(result.summary, "partially configured");
    assert_eq!(
        result.remediation.as_deref(),
        Some("Missing: git.app_id, GITHUB_APP_WEBHOOK_SECRET")
    );
    assert_eq!(result.details[0].text, "git.app_id: not set");
    assert_eq!(result.details[1].text, "git.client_id: set");
}

#[test]
fn check_web_counts_usernames() {
    let status = WebStatus {
        url: "u".to_string(),
        auth_provider: "github".to_string(),
        allowed_usernames_count: 120,
    };
    let result = check_web(&status, None);
    assert_eq!(result.details[2].text, "Allowed usernames: 120");
    assert_eq!(result.details.len(), 3);
}

#[test]
fn check_api_without_probe_has_two_details() {
    let status = ApiStatus {
        base_url: "b".to_string(),
        authentication_strategy: "insecure_disabled".to_string(),
    };
    let result = check_api(&status, None);
    assert_eq!(result.details.len(), 2);
    assert_eq!(result.details[1].text, "Authentication: insecure_disabled");
    let _ = CheckDetail { text: String::new() };
}

fn providers(set: &[bool]) -> Vec<(ProviderInfo, bool)> {
    set.iter()
        .enumerate()
        .map(|(i, s)| {
            (
                ProviderInfo {
                    name: format!("p{}", i + 1),
                    env_vars: vec![format!("P{}_API_KEY", i + 1)],
                },
                *s,
            )
        })
        .collect()
}

#[test]
fn check_llm_all_configured() {
    let statuses = providers(&[true; 7]);
    let result = check_llm_providers(&statuses, None);
    assert_eq!(result.status, CheckStatus::Pass);
    assert!(result.summary.contains("7 of 7"));
}

#[test]
fn check_llm_some_configured() {
    let statuses = providers(&[true, true, true, true, true, false, false]);
    let result = check_llm_providers(&statuses, None);
    assert_eq!(result.status, CheckStatus::Pass);
    assert!(result.summary.contains("5 of 7"));
}

#[test]
fn check_llm_none_configured() {
    let statuses = providers(&[false; 7]);
    let result = check_llm_providers(&statuses, None);
    assert_eq!(result.status, CheckStatus::Error);
    assert!(result.summary.contains("0 of 7"));
}

#[test]
fn check_llm_live_ok() {
    let statuses = providers(&[true]);
    let live = vec![(statuses[0].0.duplicate(), Ok(()))];
    let result = check_llm_providers(&statuses, Some(&live));
    assert_eq!(result.status, CheckStatus::Pass);
    assert!(result.details.iter().any(|d| d.text.contains("connectivity: OK")));
}

#[test]
fn check_llm_live_error() {
    let statuses = providers(&[true]);
    let live = vec![(statuses[0].0.duplicate(), Err("timeout".to_string()))];
    let result = check_llm_providers(&statuses, Some(&live));
    assert_eq!(result.status, CheckStatus::Warning);
    assert!(result.details.iter().any(|d| d.text.contains("timeout")));
    assert_eq!(result.summary, "1 of 1 configured (connectivity issues)");
}

#[test]
fn check_llm_detail_lists_env_vars() {
    let statuses = vec![(
        ProviderInfo {
            name: "gemini".to_string(),
            env_vars: vec!["GEMINI_API_KEY".to_string(), "GOOGLE_API_KEY".to_string()],
        },
        false,
    )];
    let result = check_llm_providers(&statuses, None);
    assert_eq!(result.details[0].text, "gemini (GEMINI_API_KEY or GOOGLE_API_KEY): not set");
}

#[test]
fn exit_code_follows_errors() {
    let ok = DoctorReport { live: false, checks: vec![pass_check("A"), warning_check("B")] };
    assert_eq!(ok.exit_code(), 0);
    let bad = DoctorReport { live: false, checks: vec![error_check("C")] };
    assert_eq!(bad.exit_code(), 1);
}
