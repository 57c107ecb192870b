use arc::style::Styles;
use arc::workflow_event::{format_event_summary, AgentEvent, FailureDetail, SandboxEvent, UsageText, WorkflowRunEvent};

fn summary(event: &WorkflowRunEvent) -> String {
    format_event_summary(event, &Styles::new(false))
}

fn stage_completed(
    status: &str,
    usage: Option<UsageText>,
    failure: Option<FailureDetail>,
    notes: Option<String>,
    files: Vec<String>,
) -> WorkflowRunEvent {
    WorkflowRunEvent::StageCompleted {
        node_id: "n1".into(),
        name: "code".into(),
        index: 0,
        duration_ms: 2000,
        status: status.into(),
        preferred_label: None,
        suggested_next_ids: vec![],
        usage,
        failure,
        notes,
        files_touched: files,
        attempt: 1,
        max_attempts: 1,
    }
}

#[test]
fn format_summary_sandbox_initializing() {
    let s = summary(&WorkflowRunEvent::Sandbox { event: SandboxEvent::Initializing { provider: "docker".into() } });
    assert!(s.contains("[SANDBOX_INITIALIZING]"));
    assert!(s.contains("docker"));
}

#[test]
fn format_summary_setup_started() {
    let s = summary(&WorkflowRunEvent::SetupStarted { command_count: 3 });
    assert!(s.contains("[SETUP_STARTED]"));
    assert!(s.contains("3"));
}

#[test]
fn format_summary_subagent_spawned() {
    let s = summary(&WorkflowRunEvent::Agent {
        stage: "code".into(),
        event: AgentEvent::SubAgentSpawned {
            agent_id: "abcdef12-3456-7890-abcd-ef1234567890".into(),
            depth: 1,
            task: "list files".into(),
        },
    });
    assert!(s.contains("[SUBAGENT_SPAWNED]"));
    assert!(s.contains("abcdef12"));
    assert!(s.contains("depth=1"));
}

#[test]
fn format_summary_subagent_completed() {
    let s = summary(&WorkflowRunEvent::Agent {
        stage: "code".into(),
        event: AgentEvent::SubAgentCompleted { agent_id: "abcdef12-xxxx".into(), depth: 1, success: true, turns_used: 5 },
    });
    assert!(s.contains("[SUBAGENT_COMPLETED]"));
    assert!(s.contains("success=true"));
    assert!(s.contains("turns=5"));
}

#[test]
fn format_summary_subagent_event() {
    let s = summary(&WorkflowRunEvent::Agent {
        stage: "code".into(),
        event: AgentEvent::SubAgentEvent { agent_id: "abcdef12-xxxx".into(), depth: 1, event: "SessionStarted".into() },
    });
    assert!(s.contains("[SUBAGENT_EVENT]"));
    assert!(s.contains("abcdef12"));
}

#[test]
fn format_summary_workflow_run_started() {
    let s = summary(&WorkflowRunEvent::WorkflowRunStarted {
        name: "test-wf".into(),
        run_id: "run-123".into(),
        base_sha: None,
        run_branch: None,
        worktree_dir: None,
    });
    assert!(s.contains("[WORKFLOW_RUN_STARTED]"));
    assert!(s.contains("test-wf"));
    assert!(s.contains("run-123"));
}

#[test]
fn format_summary_workflow_run_completed_no_cost() {
    let s = summary(&WorkflowRunEvent::WorkflowRunCompleted {
        duration_ms: 5000,
        artifact_count: 3,
        total_cost: None,
        final_git_commit_sha: None,
    });
    assert!(s.contains("[WORKFLOW_RUN_COMPLETED]"));
    assert!(s.contains("5000"));
    assert!(s.contains("artifacts=3"));
}

#[test]
fn format_summary_workflow_run_completed_with_cost() {
    let s = summary(&WorkflowRunEvent::WorkflowRunCompleted {
        duration_ms: 5000,
        artifact_count: 3,
        total_cost: Some("$1.50".into()),
        final_git_commit_sha: None,
    });
    assert!(s.contains("[WORKFLOW_RUN_COMPLETED]"));
    assert!(s.contains("total_cost=$1.50"));
}

#[test]
fn format_summary_workflow_run_failed() {
    let s = summary(&WorkflowRunEvent::WorkflowRunFailed {
        error: "Parse error: bad input".into(),
        duration_ms: 1000,
        git_commit_sha: None,
    });
    assert!(s.contains("[WORKFLOW_RUN_FAILED]"));
    assert!(s.contains("1000"));
}

#[test]
fn format_summary_stage_started_no_handler() {
    let s = summary(&WorkflowRunEvent::StageStarted {
        node_id: "n1".into(),
        name: "build".into(),
        index: 0,
        handler_type: None,
        attempt: 1,
        max_attempts: 3,
    });
    assert!(s.contains("[STAGE_STARTED]"));
    assert!(s.contains("node_id=n1"));
    assert!(s.contains("name=build"));
    assert!(s.contains("attempt=1/3"));
    assert!(!s.contains("handler_type"));
}

#[test]
fn format_summary_stage_started_with_handler() {
    let s = summary(&WorkflowRunEvent::StageStarted {
        node_id: "n1".into(),
        name: "build".into(),
        index: 0,
        handler_type: Some("agent".into()),
        attempt: 1,
        max_attempts: 3,
    });
    assert!(s.contains("[STAGE_STARTED]"));
    assert!(s.contains("handler_type=agent"));
}

#[test]
fn format_summary_stage_completed_with_usage() {
    let s = summary(&stage_completed("success", Some(UsageText { tokens: "800".into(), cost: None }), None, None, vec![]));
    assert!(s.contains("[STAGE_COMPLETED]"));
    assert!(s.contains("tokens=800"));
}

#[test]
fn format_summary_stage_completed_with_failure() {
    let failure = FailureDetail { message: "tests failed".into(), failure_class: "deterministic".into() };
    let s = summary(&stage_completed("failure", None, Some(failure), None, vec![]));
    assert!(s.contains("[STAGE_COMPLETED]"));
    assert!(s.contains("failure_reason=\"tests failed\""));
    assert!(s.contains("failure_class=deterministic"));
}

#[test]
fn format_summary_stage_completed_with_notes() {
    let s = summary(&stage_completed("success", None, None, Some("all good".into()), vec![]));
    assert!(s.contains("[STAGE_COMPLETED]"));
    assert!(s.contains("notes=\"all good\""));
}

#[test]
fn format_summary_stage_completed_with_files() {
    let s = summary(&stage_completed("success", None, None, None, vec!["a.rs".into(), "b.rs".into()]));
    assert!(s.contains("[STAGE_COMPLETED]"));
    assert!(s.contains("files_touched=2"));
}

#[test]
fn stage_completed_summary_exact_text() {
    let s = summary(&stage_completed(
        "success",
        Some(UsageText { tokens: "1.5k".into(), cost: Some("$0.02".into()) }),
        None,
        None,
        vec!["a.rs".into()],
    ));
    assert_eq!(
        s,
        "[STAGE_COMPLETED] node_id=n1 name=code index=0 duration=2000ms status=success tokens=1.5k cost=$0.02 files_touched=1 attempt=1/1"
    );
}

#[test]
fn format_summary_stage_failed() {
    let s = summary(&WorkflowRunEvent::StageFailed {
        node_id: "n1".into(),
        name: "build".into(),
        index: 0,
        failure: FailureDetail { message: "timeout".into(), failure_class: "transient_infra".into() },
        will_retry: true,
    });
    assert!(s.contains("[STAGE_FAILED]"));
    assert!(s.contains("will_retry=true"));
    assert!(s.contains("transient_infra"));
}

#[test]
fn format_summary_stage_retrying() {
    let s = summary(&WorkflowRunEvent::StageRetrying {
        node_id: "n1".into(),
        name: "build".into(),
        index: 0,
        attempt: 2,
        max_attempts: 3,
        delay_ms: 5000,
    });
    assert!(s.contains("[STAGE_RETRYING]"));
    assert!(s.contains("attempt=2/3"));
    assert!(s.contains("delay=5000ms"));
}

#[test]
fn format_summary_parallel_started() {
    let s = summary(&WorkflowRunEvent::ParallelStarted {
        branch_count: 3,
        join_policy: "all".into(),
        error_policy: "fail_fast".into(),
    });
    assert!(s.contains("[PARALLEL_STARTED]"));
    assert!(s.contains("branches=3"));
    assert!(s.contains("join_policy=all"));
}

#[test]
fn format_summary_parallel_branch_completed() {
    let s = summary(&WorkflowRunEvent::ParallelBranchCompleted {
        branch: "lint".into(),
        index: 0,
        duration_ms: 3000,
        status: "success".into(),
    });
    assert!(s.contains("[PARALLEL_BRANCH_COMPLETED]"));
    assert!(s.contains("branch=lint"));
    assert!(s.contains("status=success"));
}

#[test]
fn format_summary_parallel_early_termination() {
    let s = summary(&WorkflowRunEvent::ParallelEarlyTermination {
        reason: "fail_fast".into(),
        completed_count: 1,
        pending_count: 2,
    });
    assert!(s.contains("[PARALLEL_EARLY_TERMINATION]"));
    assert!(s.contains("reason=fail_fast"));
    assert!(s.contains("completed=1"));
    assert!(s.contains("pending=2"));
}

#[test]
fn format_summary_interview_completed() {
    let s = summary(&WorkflowRunEvent::InterviewCompleted {
        question: "What?".into(),
        answer: "Everything".into(),
        duration_ms: 1000,
    });
    assert!(s.contains("[INTERVIEW_COMPLETED]"));
    assert!(s.contains("question=\"What?\""));
    assert!(s.contains("answer=\"Everything\""));
}

#[test]
fn format_summary_git_checkpoint() {
    let s = summary(&WorkflowRunEvent::GitCheckpoint {
        run_id: "run-1".into(),
        node_id: "n1".into(),
        git_commit_sha: "abc123".into(),
        status: "committed".into(),
    });
    assert!(s.contains("[GIT_CHECKPOINT]"));
    assert!(s.contains("sha=abc123"));
    assert!(s.contains("status=committed"));
}

#[test]
fn format_summary_edge_selected_with_label_and_condition() {
    let s = summary(&WorkflowRunEvent::EdgeSelected {
        from_node: "a".into(),
        to_node: "b".into(),
        label: Some("pass".into()),
        condition: Some("tests_pass".into()),
    });
    assert!(s.contains("[EDGE_SELECTED]"));
    assert!(s.contains("label=\"pass\""));
    assert!(s.contains("condition=\"tests_pass\""));
}

#[test]
fn format_summary_prompt_long_truncates() {
    let s = summary(&WorkflowRunEvent::Prompt { stage: "code".into(), text: "x".repeat(200) });
    assert!(s.contains("[PROMPT]"));
    assert!(!s.contains(&"x".repeat(200)));
    assert!(s.contains(&"x".repeat(80)));
    assert!(!s.contains(&"x".repeat(81)));
}

#[test]
fn format_summary_agent_assistant_message_with_cache_and_reasoning() {
    let s = summary(&WorkflowRunEvent::Agent {
        stage: "code".into(),
        event: AgentEvent::AssistantMessage {
            text: "hello".into(),
            model: "sonnet-large".into(),
            tokens: "1.5k".into(),
            tool_call_count: 0,
            cache_read: Some("800".into()),
            reasoning: Some("200".into()),
        },
    });
    assert!(s.contains("[ASSISTANT_MESSAGE]"));
    assert!(s.contains("cache_read=800"));
    assert!(s.contains("reasoning=200"));
}

#[test]
fn format_summary_agent_context_window_warning() {
    let s = summary(&WorkflowRunEvent::Agent {
        stage: "code".into(),
        event: AgentEvent::ContextWindowWarning { estimated_tokens: 90000, context_window_size: 100000, usage_percent: 90 },
    });
    assert!(s.contains("[CONTEXT_WINDOW_WARNING]"));
    assert!(s.contains("usage=90%"));
}

#[test]
fn format_summary_agent_llm_retry() {
    let s = summary(&WorkflowRunEvent::Agent {
        stage: "code".into(),
        event: AgentEvent::LlmRetry {
            provider: "anthropic".into(),
            model: "sonnet-large".into(),
            attempt: 2,
            delay_ms: 1500,
            error: "Request timeout: timed out".into(),
        },
    });
    assert!(s.contains("[LLM_RETRY]"));
    assert!(s.contains("provider=anthropic"));
    assert!(s.contains("attempt=2"));
    assert!(s.contains("delay=1500ms"));
}

#[test]
fn format_summary_sandbox_git_clone_started_no_branch() {
    let s = summary(&WorkflowRunEvent::Sandbox {
        event: SandboxEvent::GitCloneStarted { url: "https://github.com/repo".into(), branch: None },
    });
    assert!(s.contains("[SANDBOX_GIT_CLONE_STARTED]"));
    assert!(s.contains("branch=(default)"));
}

#[test]
fn format_summary_setup_command_completed() {
    let s = summary(&WorkflowRunEvent::SetupCommandCompleted {
        command: "npm install".into(),
        index: 0,
        exit_code: 0,
        duration_ms: 3000,
    });
    assert!(s.contains("[SETUP_COMMAND_COMPLETED]"));
    assert!(s.contains("exit_code=0"));
    assert!(s.contains("3000"));
}

#[test]
fn format_summary_setup_failed_truncates_long_stderr() {
    let s = summary(&WorkflowRunEvent::SetupFailed {
        command: "make".into(),
        index: 0,
        exit_code: -1,
        stderr: "e".repeat(200),
    });
    assert!(s.contains("[SETUP_FAILED]"));
    assert!(s.contains("exit_code=-1"));
    assert!(!s.contains(&"e".repeat(200)));
    assert!(s.contains(&"e".repeat(80)));
}

#[test]
fn format_summary_assets_captured() {
    let s = summary(&WorkflowRunEvent::AssetsCaptured { node_id: "n1".into(), files_copied: 5, total_bytes: 1024, files_skipped: 1 });
    assert!(s.contains("[ASSETS_CAPTURED]"));
    assert!(s.contains("node=n1"));
    assert!(s.contains("total_bytes=1.00 KiB"));
    assert!(s.contains("files_skipped=1"));
}

#[test]
fn workflow_summary_is_dimmed_with_color() {
    let s = format_event_summary(&WorkflowRunEvent::SetupCompleted { duration_ms: 10000 }, &Styles::new(true));
    assert_eq!(s, "\u{1b}[2m[SETUP_COMPLETED] duration=10000ms\u{1b}[0m");
}

#[test]
fn prompt_text_is_cut_to_80_bytes() {
    let s = summary(&WorkflowRunEvent::Prompt { stage: "code".into(), text: "\u{e9}".repeat(50) });
    assert_eq!(s, format!("[PROMPT] stage=code text=\"{}\"", "\u{e9}".repeat(40)));
}
