use arc::event::{format_event_detail, format_event_summary, PipelineEvent};
use arc::style::Styles;

#[test]
fn summary_of_stage_completed_with_extras() {
    let event = PipelineEvent::StageCompleted {
        name: "plan".into(),
        index: 2,
        duration_ms: 1500,
        status: "success".into(),
        preferred_label: Some("Yes".into()),
        suggested_next_ids: vec!["a".into(), "b".into()],
    };
    let s = format_event_summary(&event, &Styles::new(false));
    assert_eq!(
        s,
        "[STAGE_COMPLETED] name=plan index=2 duration=1500ms status=success preferred_label=\"Yes\" suggested_next_ids=a,b"
    );
}

#[test]
fn summary_is_dimmed_with_color() {
    let event = PipelineEvent::CheckpointSaved { node_id: "n1".into() };
    let s = format_event_summary(&event, &Styles::new(true));
    assert_eq!(s, "\x1b[2m[CHECKPOINT_SAVED] node=n1\x1b[0m");
}

#[test]
fn summary_of_failures_and_retries() {
    let styles = Styles::new(false);
    let failed = PipelineEvent::StageFailed {
        name: "code".into(),
        index: 1,
        error: "boom".into(),
        will_retry: true,
    };
    assert_eq!(
        format_event_summary(&failed, &styles),
        "[STAGE_FAILED] name=code index=1 error=\"boom\" will_retry=true"
    );
    let retry = PipelineEvent::StageRetrying {
        name: "code".into(),
        index: 1,
        attempt: 2,
        delay_ms: 250,
    };
    assert_eq!(
        format_event_summary(&retry, &styles),
        "[STAGE_RETRYING] name=code index=1 attempt=2 delay=250ms"
    );
}

#[test]
fn detail_of_pipeline_started() {
    let event = PipelineEvent::PipelineStarted { name: "p".into(), id: "42".into() };
    let s = format_event_detail(&event, &Styles::new(false));
    assert_eq!(
        s,
        "── PIPELINE_STARTED ─────────────────────────\n  name: p\n  id:   42\n"
    );
}

#[test]
fn detail_of_stage_completed_lists_next_ids() {
    let event = PipelineEvent::StageCompleted {
        name: "plan".into(),
        index: 0,
        duration_ms: 10,
        status: "fail".into(),
        preferred_label: None,
        suggested_next_ids: vec!["x".into(), "y".into()],
    };
    let s = format_event_detail(&event, &Styles::new(false));
    assert!(s.ends_with("  status:      fail\n  suggested_next_ids: x, y\n"));
    assert!(!s.contains("preferred_label"));
}

#[test]
fn detail_dims_field_names() {
    let event = PipelineEvent::ParallelStarted { branch_count: 3 };
    let s = format_event_detail(&event, &Styles::new(true));
    assert_eq!(
        s,
        "\x1b[2m── PARALLEL_STARTED ─────────────────────────\x1b[0m\n  \x1b[2mbranch_count:\x1b[0m 3\n"
    );
}
