use arc::retro::{progress_event_values, stage_durations};

#[test]
fn progress_events_skip_lines_that_are_not_json() {
    let text = "{\"event\":{\"StageCompleted\":{\"name\":\"plan\",\"duration_ms\":10}}}\nnot json\n{\"other\":1}\n";
    let evs = progress_event_values(text);
    assert_eq!(evs.len(), 2);
    assert_eq!(evs[0]["StageCompleted"]["name"], "plan");
    assert!(evs[1].is_null());
}

#[test]
fn stage_durations_keep_the_last_duration_per_stage() {
    let done = vec![
        ("plan".to_string(), 10u64),
        ("code".to_string(), 20u64),
        ("plan".to_string(), 30u64),
    ];
    let mut r = stage_durations(&done);
    r.sort();
    assert_eq!(r, vec![("code".to_string(), 20), ("plan".to_string(), 30)]);
}

use arc::context::StageStatus;
use arc::retro::{derive_retro, StageRecord};

fn record(id: &str, status: Option<StageStatus>, attempts: Option<u32>, files: &[&str]) -> StageRecord {
    StageRecord {
        node_id: id.to_string(),
        status,
        attempts,
        notes: None,
        failure_reason: None,
        files_touched: files.iter().map(|f| f.to_string()).collect(),
    }
}

#[test]
fn derive_retro_builds_stages_from_checkpoint() {
    let mut plan = record("plan", Some(StageStatus::Success), None, &["src/main.rs"]);
    plan.notes = Some("Planned the approach".to_string());
    let code = record("code", Some(StageStatus::Success), Some(2), &["src/main.rs", "src/lib.rs"]);
    let durations = vec![("plan".to_string(), 5000u64), ("code".to_string(), 15000u64)];
    let (stages, stats) = derive_retro(&[plan, code], false, 20000, &durations);
    assert_eq!(stages.len(), 2);
    assert_eq!(stages[0].stage_id, "plan");
    assert_eq!(stages[0].duration_ms, 5000);
    assert_eq!(stages[0].retries, 0);
    assert_eq!(stages[0].notes.as_deref(), Some("Planned the approach"));
    assert_eq!(stages[1].stage_id, "code");
    assert_eq!(stages[1].duration_ms, 15000);
    assert_eq!(stages[1].retries, 1);
    assert_eq!(stats.total_duration_ms, 20000);
    assert_eq!(stats.total_retries, 1);
    assert_eq!(stats.stages_completed, 2);
    assert_eq!(stats.stages_failed, 0);
    assert_eq!(stats.files_touched, vec!["src/lib.rs", "src/main.rs"]);
}

#[test]
fn derive_retro_handles_failed_run() {
    let start = record("start", Some(StageStatus::Success), None, &[]);
    let (stages, stats) = derive_retro(&[start], true, 5000, &[]);
    assert_eq!(stages.len(), 1);
    assert_eq!(stages[0].duration_ms, 0);
    assert_eq!(stats.stages_completed, 1);
    assert_eq!(stats.stages_failed, 1);
}

#[test]
fn derive_retro_stage_without_outcome_is_unknown() {
    let (stages, stats) = derive_retro(&[record("x", None, None, &[])], false, 1, &[]);
    assert_eq!(stages[0].status, "unknown");
    assert_eq!(stats.stages_completed, 0);
    assert_eq!(stats.stages_failed, 0);
}
