use std::path::PathBuf;

use arc::runs::{
    filter_runs, newest_first, orphan_run, parse_label_filters, run_from_manifest_text, status_of, RunInfo, RunsListArgs,
    RunsPruneArgs,
};

#[test]
fn filter_runs_before() {
    let runs = vec![
        RunInfo {
            run_id: "old".into(),
            dir_name: "d1".into(),
            pipeline_name: "p".into(),
            status: "success".into(),
            start_time: "2025-06-01T00:00:00Z".into(),
            labels: Vec::new(),
            path: PathBuf::from("/tmp/d1"),
            is_orphan: false,
        },
        RunInfo {
            run_id: "new".into(),
            dir_name: "d2".into(),
            pipeline_name: "p".into(),
            status: "success".into(),
            start_time: "2026-03-01T00:00:00Z".into(),
            labels: Vec::new(),
            path: PathBuf::from("/tmp/d2"),
            is_orphan: false,
        },
    ];
    let filtered = filter_runs(&runs, Some("2026-01-01"), None, &[], false);
    assert_eq!(filtered.len(), 1);
    assert_eq!(filtered[0].run_id, "old");
}

#[test]
fn filter_runs_pipeline() {
    let runs = vec![
        RunInfo {
            run_id: "a".into(),
            dir_name: "d1".into(),
            pipeline_name: "deploy-prod".into(),
            status: "success".into(),
            start_time: "2026-01-01T00:00:00Z".into(),
            labels: Vec::new(),
            path: PathBuf::from("/tmp/d1"),
            is_orphan: false,
        },
        RunInfo {
            run_id: "b".into(),
            dir_name: "d2".into(),
            pipeline_name: "test-suite".into(),
            status: "success".into(),
            start_time: "2026-01-01T00:00:00Z".into(),
            labels: Vec::new(),
            path: PathBuf::from("/tmp/d2"),
            is_orphan: false,
        },
    ];
    let filtered = filter_runs(&runs, None, Some("deploy"), &[], false);
    assert_eq!(filtered.len(), 1);
    assert_eq!(filtered[0].run_id, "a");
}

#[test]
fn filter_runs_labels() {
    let runs = vec![
        RunInfo {
            run_id: "a".into(),
            dir_name: "d1".into(),
            pipeline_name: "p".into(),
            status: "success".into(),
            start_time: "2026-01-01T00:00:00Z".into(),
            labels: vec![("env".into(), "prod".into())],
            path: PathBuf::from("/tmp/d1"),
            is_orphan: false,
        },
        RunInfo {
            run_id: "b".into(),
            dir_name: "d2".into(),
            pipeline_name: "p".into(),
            status: "success".into(),
            start_time: "2026-01-01T00:00:00Z".into(),
            labels: vec![("env".into(), "staging".into())],
            path: PathBuf::from("/tmp/d2"),
            is_orphan: false,
        },
    ];
    let filtered = filter_runs(
        &runs,
        None,
        None,
        &[("env".to_string(), "prod".to_string())],
        false,
    );
    assert_eq!(filtered.len(), 1);
    assert_eq!(filtered[0].run_id, "a");
}

#[test]
fn filter_runs_orphans_excluded_by_default() {
    let runs = vec![RunInfo {
        run_id: "orphan".into(),
        dir_name: "d1".into(),
        pipeline_name: "[no manifest]".into(),
        status: "unknown".into(),
        start_time: "".into(),
        labels: Vec::new(),
        path: PathBuf::from("/tmp/d1"),
        is_orphan: true,
    }];
    let filtered = filter_runs(&runs, None, None, &[], false);
    assert!(filtered.is_empty());

    let filtered = filter_runs(&runs, None, None, &[], true);
    assert_eq!(filtered.len(), 1);
}

fn run(id: &str, pipeline: &str, start: &str, labels: Vec<(String, String)>, orphan: bool) -> RunInfo {
    RunInfo {
        run_id: id.into(),
        dir_name: format!("dir-{id}"),
        pipeline_name: pipeline.into(),
        status: "success".into(),
        start_time: start.into(),
        labels,
        path: PathBuf::from(format!("/tmp/{id}")),
        is_orphan: orphan,
    }
}

#[test]
fn filter_runs_keeps_unknown_start_time_with_before() {
    let runs = vec![run("a", "p", "", Vec::new(), false), run("b", "p", "2027-01-01", Vec::new(), false)];
    let filtered = filter_runs(&runs, Some("2026-01-01"), None, &[], false);
    assert_eq!(filtered.len(), 1);
    assert_eq!(filtered[0].run_id, "a");
    assert_eq!(filtered[0].path, PathBuf::from("/tmp/a"));
}

#[test]
fn filter_runs_requires_every_label() {
    let labels = vec![("env".to_string(), "prod".to_string()), ("team".to_string(), "x".to_string())];
    let runs = vec![
        run("a", "p", "", labels.clone(), false),
        run("b", "p", "", vec![("env".to_string(), "prod".to_string())], false),
    ];
    let filtered = filter_runs(&runs, None, None, &labels, false);
    assert_eq!(filtered.len(), 1);
    assert_eq!(filtered[0].run_id, "a");
}

#[test]
fn parse_label_filters_splits_at_first_equals() {
    let args = vec!["a=b=c".to_string(), "novalue".to_string(), "=x".to_string()];
    let parsed = parse_label_filters(&args);
    assert_eq!(
        parsed,
        vec![("a".to_string(), "b=c".to_string()), (String::new(), "x".to_string())]
    );
}

#[test]
fn prune_args_select_matching_runs() {
    let runs = vec![
        run("old", "old-pipeline", "2025-01-01T12:00:00Z", Vec::new(), false),
        run("new", "new-pipeline", "2026-03-01T12:00:00Z", Vec::new(), false),
        run("orphan", "[no manifest]", "", Vec::new(), true),
    ];
    let args = RunsPruneArgs {
        before: Some("2026-01-01".into()),
        pipeline: None,
        label: Vec::new(),
        orphans: false,
        yes: false,
    };
    let selected = args.select(&runs);
    assert_eq!(selected.len(), 1);
    assert_eq!(selected[0].run_id, "old");
    let list = RunsListArgs {
        before: None,
        pipeline: Some("pipeline".into()),
        label: vec!["env=prod".into()],
        orphans: true,
        json: false,
    };
    assert!(list.select(&runs).is_empty());
}

#[test]
fn manifest_text_gives_run_fields_and_defaults() {
    let text = r#"{"run_id":"abc123","pipeline_name":"my-pipeline","start_time":"2026-01-01T12:00:00Z","labels":{"env":"prod"}}"#;
    let r = run_from_manifest_text("arc-run-1", text, "success", PathBuf::from("/logs/arc-run-1")).unwrap();
    assert_eq!(r.run_id, "abc123");
    assert_eq!(r.pipeline_name, "my-pipeline");
    assert_eq!(r.start_time, "2026-01-01T12:00:00Z");
    assert_eq!(r.status, "success");
    assert_eq!(r.labels, vec![("env".to_string(), "prod".to_string())]);
    assert!(!r.is_orphan);

    let r = run_from_manifest_text("arc-run-2", "{}", "unknown", PathBuf::from("/x")).unwrap();
    assert_eq!(r.run_id, "arc-run-2");
    assert_eq!(r.pipeline_name, "unknown");
    assert_eq!(r.start_time, "");
    assert!(r.labels.is_empty());

    assert!(run_from_manifest_text("arc-run-3", "not json", "unknown", PathBuf::from("/x")).is_err());
}

#[test]
fn orphan_run_fields() {
    let r = orphan_run("stray", "2026-02-01T00:00:00+00:00", PathBuf::from("/logs/stray"));
    assert_eq!(r.run_id, "stray");
    assert_eq!(r.dir_name, "stray");
    assert_eq!(r.pipeline_name, "[no manifest]");
    assert_eq!(r.status, "unknown");
    assert_eq!(r.start_time, "2026-02-01T00:00:00+00:00");
    assert!(r.is_orphan);
}

#[test]
fn newest_first_orders_by_start_time_descending() {
    let runs = vec![
        orphan_run("a", "2026-01-01", PathBuf::from("/a")),
        orphan_run("b", "2026-03-01", PathBuf::from("/b")),
        orphan_run("c", "", PathBuf::from("/c")),
        orphan_run("d", "2026-02-01", PathBuf::from("/d")),
    ];
    let sorted = newest_first(runs);
    let ids: Vec<&str> = sorted.iter().map(|r| r.run_id.as_str()).collect();
    assert_eq!(ids, vec!["b", "d", "a", "c"]);
}

#[test]
fn status_of_final_pid_and_defaults() {
    assert_eq!(status_of(Some(Some(r#"{"status":"success"}"#.to_string())), true), "success");
    assert_eq!(status_of(Some(Some("{}".to_string())), true), "unknown");
    assert_eq!(status_of(Some(Some("garbage".to_string())), false), "unknown");
    assert_eq!(status_of(Some(None), true), "unknown");
    assert_eq!(status_of(None, true), "running");
    assert_eq!(status_of(None, false), "unknown");
}
