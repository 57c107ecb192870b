use vstd::prelude::*;

use indicatif::HumanBytes;

use crate::style::Styles;
use crate::text::{
    append_str, bool_string, bool_text, byte_cut, byte_cut_text, cut_on_boundary, decimal, i64_text, join, join_strings, owned, signed_decimal, u64_text,
    usize_text, views,
};

verus! {

/// What `indicatif::HumanBytes` displays for a byte count.
pub uninterp spec fn human_bytes(n: u64) -> Seq<char>;

/// Formats a byte count with `indicatif::HumanBytes` (binary prefixes, two
/// decimals); the contract names the text `human_bytes(n)`.
#[verifier::external_body]
fn human_bytes_text(n: u64) -> (r: String)
    ensures
        r@ == human_bytes(n),
{
    HumanBytes(n).to_string()
}

/// The token usage of a stage as display text: the total token count and,
/// when the model's pricing is known, the cost.
#[derive(Debug, Clone)]
pub struct UsageText {
    pub tokens: String,
    pub cost: Option<String>,
}

/// Why a stage failed, with its failure class as display text.
#[derive(Debug, Clone)]
pub struct FailureDetail {
    pub message: String,
    pub failure_class: String,
}

/// What a sandbox reports while it is set up, used and torn down.
#[derive(Debug, Clone)]
pub enum SandboxEvent {
    Initializing { provider: String },
    Ready { provider: String, duration_ms: u64 },
    InitializeFailed { provider: String, error: String, duration_ms: u64 },
    CleanupStarted { provider: String },
    CleanupCompleted { provider: String, duration_ms: u64 },
    CleanupFailed { provider: String, error: String },
    SnapshotPulling { name: String },
    SnapshotPulled { name: String, duration_ms: u64 },
    SnapshotEnsuring { name: String },
    SnapshotCreating { name: String },
    SnapshotReady { name: String, duration_ms: u64 },
    SnapshotFailed { name: String, error: String },
    GitCloneStarted { url: String, branch: Option<String> },
    GitCloneCompleted { url: String, duration_ms: u64 },
    GitCloneFailed { url: String, error: String },
}

/// What an agent session reports during a stage; a nested or unlisted event
/// is held as its debug text.
#[derive(Debug)]
pub enum AgentEvent {
    AssistantMessage { text: String, model: String, tokens: String, tool_call_count: usize, cache_read: Option<String>, reasoning: Option<String> },
    ToolCallStarted { tool_name: String, tool_call_id: String, arguments: serde_json::Value },
    ToolCallCompleted { tool_name: String, tool_call_id: String, output: serde_json::Value, is_error: bool },
    Error { error: String },
    ContextWindowWarning { estimated_tokens: usize, context_window_size: usize, usage_percent: usize },
    LoopDetected,
    TurnLimitReached { max_turns: usize },
    CompactionStarted { estimated_tokens: usize, context_window_size: usize },
    CompactionCompleted { original_turn_count: usize, preserved_turn_count: usize, summary_token_estimate: usize, tracked_file_count: usize },
    LlmRetry { provider: String, model: String, attempt: usize, delay_ms: u64, error: String },
    SubAgentSpawned { agent_id: String, depth: usize, task: String },
    SubAgentCompleted { agent_id: String, depth: usize, success: bool, turns_used: usize },
    SubAgentFailed { agent_id: String, depth: usize, error: String },
    SubAgentClosed { agent_id: String, depth: usize },
    SubAgentEvent { agent_id: String, depth: usize, event: String },
    Other { event: String },
}

/// What a workflow run reports, with amounts that go through floating point
/// (costs, token counts) held as their display text.
#[derive(Debug)]
pub enum WorkflowRunEvent {
    WorkflowRunStarted { name: String, run_id: String, base_sha: Option<String>, run_branch: Option<String>, worktree_dir: Option<String> },
    WorkflowRunCompleted { duration_ms: u64, artifact_count: usize, total_cost: Option<String>, final_git_commit_sha: Option<String> },
    WorkflowRunFailed { error: String, duration_ms: u64, git_commit_sha: Option<String> },
    StageStarted { node_id: String, name: String, index: usize, handler_type: Option<String>, attempt: usize, max_attempts: usize },
    StageCompleted { node_id: String, name: String, index: usize, duration_ms: u64, status: String, preferred_label: Option<String>, suggested_next_ids: Vec<String>, usage: Option<UsageText>, failure: Option<FailureDetail>, notes: Option<String>, files_touched: Vec<String>, attempt: usize, max_attempts: usize },
    StageFailed { node_id: String, name: String, index: usize, failure: FailureDetail, will_retry: bool },
    StageRetrying { node_id: String, name: String, index: usize, attempt: usize, max_attempts: usize, delay_ms: u64 },
    ParallelStarted { branch_count: usize, join_policy: String, error_policy: String },
    ParallelBranchStarted { branch: String, index: usize },
    ParallelBranchCompleted { branch: String, index: usize, duration_ms: u64, status: String },
    ParallelCompleted { duration_ms: u64, success_count: usize, failure_count: usize },
    InterviewStarted { question: String, stage: String, question_type: String },
    InterviewCompleted { question: String, answer: String, duration_ms: u64 },
    InterviewTimeout { question: String, stage: String, duration_ms: u64 },
    CheckpointSaved { node_id: String },
    GitCheckpoint { run_id: String, node_id: String, git_commit_sha: String, status: String },
    EdgeSelected { from_node: String, to_node: String, label: Option<String>, condition: Option<String> },
    LoopRestart { from_node: String, to_node: String },
    Prompt { stage: String, text: String },
    Agent { stage: String, event: AgentEvent },
    ParallelEarlyTermination { reason: String, completed_count: usize, pending_count: usize },
    SubgraphStarted { node_id: String, start_node: String },
    SubgraphCompleted { node_id: String, steps_executed: usize, status: String, duration_ms: u64 },
    Sandbox { event: SandboxEvent },
    SetupStarted { command_count: usize },
    SetupCommandStarted { command: String, index: usize },
    SetupCommandCompleted { command: String, index: usize, exit_code: i32, duration_ms: u64 },
    SetupCompleted { duration_ms: u64 },
    SetupFailed { command: String, index: usize, exit_code: i32, stderr: String },
    StallWatchdogTimeout { node: String, idle_seconds: u64 },
    AssetsCaptured { node_id: String, files_copied: usize, total_bytes: u64, files_skipped: usize },
}

/// The texts that the summary of an agent event cuts to a byte length are
/// cut between characters.
pub open spec fn agent_cuts_ok(e: AgentEvent) -> bool {
    match e {
        AgentEvent::SubAgentSpawned { agent_id, task, .. } => cut_on_boundary(agent_id@, 8) && cut_on_boundary(task@, 60),
        AgentEvent::SubAgentCompleted { agent_id, .. } => cut_on_boundary(agent_id@, 8),
        AgentEvent::SubAgentFailed { agent_id, .. } => cut_on_boundary(agent_id@, 8),
        AgentEvent::SubAgentClosed { agent_id, .. } => cut_on_boundary(agent_id@, 8),
        AgentEvent::SubAgentEvent { agent_id, .. } => cut_on_boundary(agent_id@, 8),
        _ => true,
    }
}

/// The texts that the summary of a workflow run event cuts to a byte length
/// are cut between characters.
pub open spec fn summary_cuts_ok(e: WorkflowRunEvent) -> bool {
    match e {
        WorkflowRunEvent::Prompt { text, .. } => cut_on_boundary(text@, 80),
        WorkflowRunEvent::SetupFailed { stderr, .. } => cut_on_boundary(stderr@, 80),
        WorkflowRunEvent::Agent { event, .. } => agent_cuts_ok(event),
        _ => true,
    }
}

/// The summary text of a sandbox event.
pub open spec fn sandbox_summary_body(e: SandboxEvent) -> Seq<char> {
    match e {
        SandboxEvent::Initializing { provider } => "[SANDBOX_INITIALIZING] provider="@ + provider@,
        SandboxEvent::Ready { provider, duration_ms } => "[SANDBOX_READY] provider="@ + provider@ + " duration="@ + decimal(duration_ms as nat) + "ms"@,
        SandboxEvent::InitializeFailed { provider, error, duration_ms } => "[SANDBOX_INIT_FAILED] provider="@ + provider@ + " error=\""@ + error@ + "\" duration="@ + decimal(duration_ms as nat) + "ms"@,
        SandboxEvent::CleanupStarted { provider } => "[SANDBOX_CLEANUP_STARTED] provider="@ + provider@,
        SandboxEvent::CleanupCompleted { provider, duration_ms } => "[SANDBOX_CLEANUP_COMPLETED] provider="@ + provider@ + " duration="@ + decimal(duration_ms as nat) + "ms"@,
        SandboxEvent::CleanupFailed { provider, error } => "[SANDBOX_CLEANUP_FAILED] provider="@ + provider@ + " error=\""@ + error@ + "\""@,
        SandboxEvent::SnapshotPulling { name } => "[SANDBOX_SNAPSHOT_PULLING] name="@ + name@,
        SandboxEvent::SnapshotPulled { name, duration_ms } => "[SANDBOX_SNAPSHOT_PULLED] name="@ + name@ + " duration="@ + decimal(duration_ms as nat) + "ms"@,
        SandboxEvent::SnapshotEnsuring { name } => "[SANDBOX_SNAPSHOT_ENSURING] name="@ + name@,
        SandboxEvent::SnapshotCreating { name } => "[SANDBOX_SNAPSHOT_CREATING] name="@ + name@,
        SandboxEvent::SnapshotReady { name, duration_ms } => "[SANDBOX_SNAPSHOT_READY] name="@ + name@ + " duration="@ + decimal(duration_ms as nat) + "ms"@,
        SandboxEvent::SnapshotFailed { name, error } => "[SANDBOX_SNAPSHOT_FAILED] name="@ + name@ + " error=\""@ + error@ + "\""@,
        SandboxEvent::GitCloneStarted { url, branch } => "[SANDBOX_GIT_CLONE_STARTED] url="@ + url@ + " branch="@ + (match branch { Some(x) => x@, None => "(default)"@ }),
        SandboxEvent::GitCloneCompleted { url, duration_ms } => "[SANDBOX_GIT_CLONE_COMPLETED] url="@ + url@ + " duration="@ + decimal(duration_ms as nat) + "ms"@,
        SandboxEvent::GitCloneFailed { url, error } => "[SANDBOX_GIT_CLONE_FAILED] url="@ + url@ + " error=\""@ + error@ + "\""@,
    }
}

/// The summary text of an agent event in `stage`.
pub open spec fn agent_summary_body(stage: Seq<char>, e: AgentEvent) -> Seq<char> {
    match e {
        AgentEvent::AssistantMessage { text: _, model, tokens, tool_call_count, cache_read, reasoning } => "[ASSISTANT_MESSAGE]"@ + " stage="@ + stage + " model="@ + model@ + " tokens="@ + tokens@ + " tool_calls="@ + decimal(tool_call_count as nat) + (match cache_read { Some(x) => " cache_read="@ + x@ + ""@, None => Seq::<char>::empty() }) + (match reasoning { Some(x) => " reasoning="@ + x@ + ""@, None => Seq::<char>::empty() }),
        AgentEvent::ToolCallStarted { tool_name, .. } => "[TOOL_CALL_STARTED]"@ + " stage="@ + stage + " tool="@ + tool_name@,
        AgentEvent::ToolCallCompleted { tool_name, is_error, .. } => "[TOOL_CALL_COMPLETED]"@ + " stage="@ + stage + " tool="@ + tool_name@ + " is_error="@ + bool_text(is_error),
        AgentEvent::Error { error } => "[SESSION_ERROR]"@ + " stage="@ + stage + " error=\""@ + error@ + "\""@,
        AgentEvent::ContextWindowWarning { usage_percent, .. } => "[CONTEXT_WINDOW_WARNING]"@ + " stage="@ + stage + " usage="@ + decimal(usage_percent as nat) + "%"@,
        AgentEvent::LoopDetected => "[LOOP_DETECTED]"@ + " stage="@ + stage,
        AgentEvent::TurnLimitReached { max_turns } => "[TURN_LIMIT_REACHED]"@ + " stage="@ + stage + " max_turns="@ + decimal(max_turns as nat),
        AgentEvent::CompactionStarted { estimated_tokens, context_window_size } => "[COMPACTION_STARTED]"@ + " stage="@ + stage + " estimated_tokens="@ + decimal(estimated_tokens as nat) + " context_window="@ + decimal(context_window_size as nat),
        AgentEvent::CompactionCompleted { original_turn_count, preserved_turn_count, summary_token_estimate, tracked_file_count } => "[COMPACTION_COMPLETED]"@ + " stage="@ + stage + " original_turns="@ + decimal(original_turn_count as nat) + " preserved_turns="@ + decimal(preserved_turn_count as nat) + " summary_tokens="@ + decimal(summary_token_estimate as nat) + " tracked_files="@ + decimal(tracked_file_count as nat),
        AgentEvent::LlmRetry { provider, model, attempt, delay_ms, error } => "[LLM_RETRY]"@ + " stage="@ + stage + " provider="@ + provider@ + " model="@ + model@ + " attempt="@ + decimal(attempt as nat) + " delay="@ + decimal(delay_ms as nat) + "ms error=\""@ + error@ + "\""@,
        AgentEvent::SubAgentSpawned { agent_id, depth, task } => "[SUBAGENT_SPAWNED]"@ + " stage="@ + stage + " agent_id="@ + byte_cut(agent_id@, 8) + " depth="@ + decimal(depth as nat) + " task=\""@ + byte_cut(task@, 60) + "\""@,
        AgentEvent::SubAgentCompleted { agent_id, depth, success, turns_used } => "[SUBAGENT_COMPLETED]"@ + " stage="@ + stage + " agent_id="@ + byte_cut(agent_id@, 8) + " depth="@ + decimal(depth as nat) + " success="@ + bool_text(success) + " turns="@ + decimal(turns_used as nat),
        AgentEvent::SubAgentFailed { agent_id, depth, error } => "[SUBAGENT_FAILED]"@ + " stage="@ + stage + " agent_id="@ + byte_cut(agent_id@, 8) + " depth="@ + decimal(depth as nat) + " error=\""@ + error@ + "\""@,
        AgentEvent::SubAgentClosed { agent_id, depth } => "[SUBAGENT_CLOSED]"@ + " stage="@ + stage + " agent_id="@ + byte_cut(agent_id@, 8) + " depth="@ + decimal(depth as nat),
        AgentEvent::SubAgentEvent { agent_id, depth, event } => "[SUBAGENT_EVENT]"@ + " stage="@ + stage + " agent_id="@ + byte_cut(agent_id@, 8) + " depth="@ + decimal(depth as nat) + " event="@ + event@,
        AgentEvent::Other { event } => "[AGENT]"@ + " stage="@ + stage + " event="@ + event@,
    }
}

/// The one-line text of a workflow run event, before dimming.
pub open spec fn workflow_summary_body(e: WorkflowRunEvent) -> Seq<char> {
    match e {
        WorkflowRunEvent::WorkflowRunStarted { name, run_id, base_sha, run_branch, worktree_dir } => "[WORKFLOW_RUN_STARTED] name="@ + name@ + " id="@ + run_id@,
        WorkflowRunEvent::WorkflowRunCompleted { duration_ms, artifact_count, total_cost, final_git_commit_sha } => "[WORKFLOW_RUN_COMPLETED] duration="@ + decimal(duration_ms as nat) + "ms artifacts="@ + decimal(artifact_count as nat) + (match total_cost { Some(x) => " total_cost="@ + x@ + ""@, None => Seq::<char>::empty() }),
        WorkflowRunEvent::WorkflowRunFailed { error, duration_ms, git_commit_sha } => "[WORKFLOW_RUN_FAILED] error=\""@ + error@ + "\" duration="@ + decimal(duration_ms as nat) + "ms"@,
        WorkflowRunEvent::StageStarted { node_id, name, index, handler_type, attempt, max_attempts } => "[STAGE_STARTED] node_id="@ + node_id@ + " name="@ + name@ + " index="@ + decimal(index as nat) + (match handler_type { Some(x) => " handler_type="@ + x@ + ""@, None => Seq::<char>::empty() }) + " attempt="@ + decimal(attempt as nat) + "/"@ + decimal(max_attempts as nat),
        WorkflowRunEvent::StageCompleted { node_id, name, index, duration_ms, status, preferred_label, suggested_next_ids, usage, failure, notes, files_touched, attempt, max_attempts } => stage_completed_text(node_id, name, index, duration_ms, status, preferred_label, suggested_next_ids, usage, failure, notes, files_touched, attempt, max_attempts),
        WorkflowRunEvent::StageFailed { node_id, name, index, failure, will_retry } => "[STAGE_FAILED] node_id="@ + node_id@ + " name="@ + name@ + " index="@ + decimal(index as nat) + " error=\""@ + failure.message@ + "\" will_retry="@ + bool_text(will_retry) + " failure_class="@ + failure.failure_class@,
        WorkflowRunEvent::StageRetrying { node_id, name, index, attempt, max_attempts, delay_ms } => "[STAGE_RETRYING] node_id="@ + node_id@ + " name="@ + name@ + " index="@ + decimal(index as nat) + " attempt="@ + decimal(attempt as nat) + "/"@ + decimal(max_attempts as nat) + " delay="@ + decimal(delay_ms as nat) + "ms"@,
        WorkflowRunEvent::ParallelStarted { branch_count, join_policy, error_policy } => "[PARALLEL_STARTED] branches="@ + decimal(branch_count as nat) + " join_policy="@ + join_policy@ + " error_policy="@ + error_policy@,
        WorkflowRunEvent::ParallelBranchStarted { branch, index } => "[PARALLEL_BRANCH_STARTED] branch="@ + branch@ + " index="@ + decimal(index as nat),
        WorkflowRunEvent::ParallelBranchCompleted { branch, index, duration_ms, status } => "[PARALLEL_BRANCH_COMPLETED] branch="@ + branch@ + " index="@ + decimal(index as nat) + " duration="@ + decimal(duration_ms as nat) + "ms status="@ + status@,
        WorkflowRunEvent::ParallelCompleted { duration_ms, success_count, failure_count } => "[PARALLEL_COMPLETED] duration="@ + decimal(duration_ms as nat) + "ms succeeded="@ + decimal(success_count as nat) + " failed="@ + decimal(failure_count as nat),
        WorkflowRunEvent::InterviewStarted { question, stage, question_type } => "[INTERVIEW_STARTED] stage="@ + stage@ + " question=\""@ + question@ + "\" question_type="@ + question_type@,
        WorkflowRunEvent::InterviewCompleted { question, answer, duration_ms } => "[INTERVIEW_COMPLETED] question=\""@ + question@ + "\" answer=\""@ + answer@ + "\" duration="@ + decimal(duration_ms as nat) + "ms"@,
        WorkflowRunEvent::InterviewTimeout { question, stage, duration_ms } => "[INTERVIEW_TIMEOUT] stage="@ + stage@ + " duration="@ + decimal(duration_ms as nat) + "ms"@,
        WorkflowRunEvent::CheckpointSaved { node_id } => "[CHECKPOINT_SAVED] node="@ + node_id@,
        WorkflowRunEvent::GitCheckpoint { run_id, node_id, git_commit_sha, status } => "[GIT_CHECKPOINT] node="@ + node_id@ + " sha="@ + git_commit_sha@ + " status="@ + status@,
        WorkflowRunEvent::EdgeSelected { from_node, to_node, label, condition } => "[EDGE_SELECTED] from="@ + from_node@ + " to="@ + to_node@ + (match label { Some(x) => " label=\""@ + x@ + "\""@, None => Seq::<char>::empty() }) + (match condition { Some(x) => " condition=\""@ + x@ + "\""@, None => Seq::<char>::empty() }),
        WorkflowRunEvent::LoopRestart { from_node, to_node } => "[LOOP_RESTART] from="@ + from_node@ + " to="@ + to_node@,
        WorkflowRunEvent::Prompt { stage, text } => "[PROMPT] stage="@ + stage@ + " text=\""@ + byte_cut(text@, 80) + "\""@,
        WorkflowRunEvent::Agent { stage, event } => agent_summary_body(stage@, event),
        WorkflowRunEvent::ParallelEarlyTermination { reason, completed_count, pending_count } => "[PARALLEL_EARLY_TERMINATION] reason="@ + reason@ + " completed="@ + decimal(completed_count as nat) + " pending="@ + decimal(pending_count as nat),
        WorkflowRunEvent::SubgraphStarted { node_id, start_node } => "[SUBGRAPH_STARTED] node="@ + node_id@ + " start_node="@ + start_node@,
        WorkflowRunEvent::SubgraphCompleted { node_id, steps_executed, status, duration_ms } => "[SUBGRAPH_COMPLETED] node="@ + node_id@ + " steps="@ + decimal(steps_executed as nat) + " status="@ + status@ + " duration="@ + decimal(duration_ms as nat) + "ms"@,
        WorkflowRunEvent::Sandbox { event } => sandbox_summary_body(event),
        WorkflowRunEvent::SetupStarted { command_count } => "[SETUP_STARTED] command_count="@ + decimal(command_count as nat),
        WorkflowRunEvent::SetupCommandStarted { command, index } => "[SETUP_COMMAND_STARTED] index="@ + decimal(index as nat) + " command=\""@ + command@ + "\""@,
        WorkflowRunEvent::SetupCommandCompleted { command, index, exit_code, duration_ms } => "[SETUP_COMMAND_COMPLETED] index="@ + decimal(index as nat) + " command=\""@ + command@ + "\" exit_code="@ + signed_decimal(exit_code as int) + " duration="@ + decimal(duration_ms as nat) + "ms"@,
        WorkflowRunEvent::SetupCompleted { duration_ms } => "[SETUP_COMPLETED] duration="@ + decimal(duration_ms as nat) + "ms"@,
        WorkflowRunEvent::SetupFailed { command, index, exit_code, stderr } => "[SETUP_FAILED] index="@ + decimal(index as nat) + " command=\""@ + command@ + "\" exit_code="@ + signed_decimal(exit_code as int) + " stderr=\""@ + byte_cut(stderr@, 80) + "\""@,
        WorkflowRunEvent::StallWatchdogTimeout { node, idle_seconds } => "[STALL_WATCHDOG_TIMEOUT] node="@ + node@ + " idle_seconds="@ + decimal(idle_seconds as nat),
        WorkflowRunEvent::AssetsCaptured { node_id, files_copied, total_bytes, files_skipped } => "[ASSETS_CAPTURED] node="@ + node_id@ + " files_copied="@ + decimal(files_copied as nat) + " total_bytes="@ + human_bytes(total_bytes) + " files_skipped="@ + decimal(files_skipped as nat),
    }
}

/// Appends the summary text of a sandbox event.
fn push_sandbox_summary(out: &mut String, e: &SandboxEvent)
    ensures
        final(out)@ == old(out)@ + sandbox_summary_body(*e),
{
    match e {
        SandboxEvent::Initializing { provider } => {
            append_str(out, "[SANDBOX_INITIALIZING] provider=");
            append_str(out, provider.as_str());
        },
        SandboxEvent::Ready { provider, duration_ms } => {
            append_str(out, "[SANDBOX_READY] provider=");
            append_str(out, provider.as_str());
            append_str(out, " duration=");
            { let n = u64_text(*duration_ms); append_str(out, n.as_str()); }
            append_str(out, "ms");
        },
        SandboxEvent::InitializeFailed { provider, error, duration_ms } => {
            append_str(out, "[SANDBOX_INIT_FAILED] provider=");
            append_str(out, provider.as_str());
            append_str(out, " error=\"");
            append_str(out, error.as_str());
            append_str(out, "\" duration=");
            { let n = u64_text(*duration_ms); append_str(out, n.as_str()); }
            append_str(out, "ms");
        },
        SandboxEvent::CleanupStarted { provider } => {
            append_str(out, "[SANDBOX_CLEANUP_STARTED] provider=");
            append_str(out, provider.as_str());
        },
        SandboxEvent::CleanupCompleted { provider, duration_ms } => {
            append_str(out, "[SANDBOX_CLEANUP_COMPLETED] provider=");
            append_str(out, provider.as_str());
            append_str(out, " duration=");
            { let n = u64_text(*duration_ms); append_str(out, n.as_str()); }
            append_str(out, "ms");
        },
        SandboxEvent::CleanupFailed { provider, error } => {
            append_str(out, "[SANDBOX_CLEANUP_FAILED] provider=");
            append_str(out, provider.as_str());
            append_str(out, " error=\"");
            append_str(out, error.as_str());
            append_str(out, "\"");
        },
        SandboxEvent::SnapshotPulling { name } => {
            append_str(out, "[SANDBOX_SNAPSHOT_PULLING] name=");
            append_str(out, name.as_str());
        },
        SandboxEvent::SnapshotPulled { name, duration_ms } => {
            append_str(out, "[SANDBOX_SNAPSHOT_PULLED] name=");
            append_str(out, name.as_str());
            append_str(out, " duration=");
            { let n = u64_text(*duration_ms); append_str(out, n.as_str()); }
            append_str(out, "ms");
        },
        SandboxEvent::SnapshotEnsuring { name } => {
            append_str(out, "[SANDBOX_SNAPSHOT_ENSURING] name=");
            append_str(out, name.as_str());
        },
        SandboxEvent::SnapshotCreating { name } => {
            append_str(out, "[SANDBOX_SNAPSHOT_CREATING] name=");
            append_str(out, name.as_str());
        },
        SandboxEvent::SnapshotReady { name, duration_ms } => {
            append_str(out, "[SANDBOX_SNAPSHOT_READY] name=");
            append_str(out, name.as_str());
            append_str(out, " duration=");
            { let n = u64_text(*duration_ms); append_str(out, n.as_str()); }
            append_str(out, "ms");
        },
        SandboxEvent::SnapshotFailed { name, error } => {
            append_str(out, "[SANDBOX_SNAPSHOT_FAILED] name=");
            append_str(out, name.as_str());
            append_str(out, " error=\"");
            append_str(out, error.as_str());
            append_str(out, "\"");
        },
        SandboxEvent::GitCloneStarted { url, branch } => {
            append_str(out, "[SANDBOX_GIT_CLONE_STARTED] url=");
            append_str(out, url.as_str());
            append_str(out, " branch=");
            match branch { Some(x) => { append_str(out, x.as_str()); }, None => { append_str(out, "(default)"); } }
        },
        SandboxEvent::GitCloneCompleted { url, duration_ms } => {
            append_str(out, "[SANDBOX_GIT_CLONE_COMPLETED] url=");
            append_str(out, url.as_str());
            append_str(out, " duration=");
            { let n = u64_text(*duration_ms); append_str(out, n.as_str()); }
            append_str(out, "ms");
        },
        SandboxEvent::GitCloneFailed { url, error } => {
            append_str(out, "[SANDBOX_GIT_CLONE_FAILED] url=");
            append_str(out, url.as_str());
            append_str(out, " error=\"");
            append_str(out, error.as_str());
            append_str(out, "\"");
        },
    }
}

/// Appends the summary text of an agent event in `stage`.
#[verifier::rlimit(100)]
#[verifier::spinoff_prover]
fn push_agent_summary(out: &mut String, stage: &String, e: &AgentEvent)
    requires
        agent_cuts_ok(*e),
    ensures
        final(out)@ == old(out)@ + agent_summary_body(stage@, *e),
{
    match e {
        AgentEvent::AssistantMessage { text: _, model, tokens, tool_call_count, cache_read, reasoning } => {
            append_str(out, "[ASSISTANT_MESSAGE]");
            append_str(out, " stage=");
            append_str(out, stage.as_str());
            append_str(out, " model=");
            append_str(out, model.as_str());
            append_str(out, " tokens=");
            append_str(out, tokens.as_str());
            append_str(out, " tool_calls=");
            { let n = usize_text(*tool_call_count); append_str(out, n.as_str()); }
            match cache_read { Some(x) => { append_str(out, " cache_read="); append_str(out, x.as_str()); append_str(out, ""); }, None => {} }
            match reasoning { Some(x) => { append_str(out, " reasoning="); append_str(out, x.as_str()); append_str(out, ""); }, None => {} }
        },
        AgentEvent::ToolCallStarted { tool_name, .. } => {
            append_str(out, "[TOOL_CALL_STARTED]");
            append_str(out, " stage=");
            append_str(out, stage.as_str());
            append_str(out, " tool=");
            append_str(out, tool_name.as_str());
        },
        AgentEvent::ToolCallCompleted { tool_name, is_error, .. } => {
            append_str(out, "[TOOL_CALL_COMPLETED]");
            append_str(out, " stage=");
            append_str(out, stage.as_str());
            append_str(out, " tool=");
            append_str(out, tool_name.as_str());
            append_str(out, " is_error=");
            { let b = bool_string(*is_error); append_str(out, b.as_str()); }
        },
        AgentEvent::Error { error } => {
            append_str(out, "[SESSION_ERROR]");
            append_str(out, " stage=");
            append_str(out, stage.as_str());
            append_str(out, " error=\"");
            append_str(out, error.as_str());
            append_str(out, "\"");
        },
        AgentEvent::ContextWindowWarning { usage_percent, .. } => {
            append_str(out, "[CONTEXT_WINDOW_WARNING]");
            append_str(out, " stage=");
            append_str(out, stage.as_str());
            append_str(out, " usage=");
            { let n = usize_text(*usage_percent); append_str(out, n.as_str()); }
            append_str(out, "%");
        },
        AgentEvent::LoopDetected => {
            append_str(out, "[LOOP_DETECTED]");
            append_str(out, " stage=");
            append_str(out, stage.as_str());
        },
        AgentEvent::TurnLimitReached { max_turns } => {
            append_str(out, "[TURN_LIMIT_REACHED]");
            append_str(out, " stage=");
            append_str(out, stage.as_str());
            append_str(out, " max_turns=");
            { let n = usize_text(*max_turns); append_str(out, n.as_str()); }
        },
        AgentEvent::CompactionStarted { estimated_tokens, context_window_size } => {
            append_str(out, "[COMPACTION_STARTED]");
            append_str(out, " stage=");
            append_str(out, stage.as_str());
            append_str(out, " estimated_tokens=");
            { let n = usize_text(*estimated_tokens); append_str(out, n.as_str()); }
            append_str(out, " context_window=");
            { let n = usize_text(*context_window_size); append_str(out, n.as_str()); }
        },
        AgentEvent::CompactionCompleted { original_turn_count, preserved_turn_count, summary_token_estimate, tracked_file_count } => {
            append_str(out, "[COMPACTION_COMPLETED]");
            append_str(out, " stage=");
            append_str(out, stage.as_str());
            append_str(out, " original_turns=");
            { let n = usize_text(*original_turn_count); append_str(out, n.as_str()); }
            append_str(out, " preserved_turns=");
            { let n = usize_text(*preserved_turn_count); append_str(out, n.as_str()); }
            append_str(out, " summary_tokens=");
            { let n = usize_text(*summary_token_estimate); append_str(out, n.as_str()); }
            append_str(out, " tracked_files=");
            { let n = usize_text(*tracked_file_count); append_str(out, n.as_str()); }
        },
        AgentEvent::LlmRetry { provider, model, attempt, delay_ms, error } => {
            append_str(out, "[LLM_RETRY]");
            append_str(out, " stage=");
            append_str(out, stage.as_str());
            append_str(out, " provider=");
            append_str(out, provider.as_str());
            append_str(out, " model=");
            append_str(out, model.as_str());
            append_str(out, " attempt=");
            { let n = usize_text(*attempt); append_str(out, n.as_str()); }
            append_str(out, " delay=");
            { let n = u64_text(*delay_ms); append_str(out, n.as_str()); }
            append_str(out, "ms error=\"");
            append_str(out, error.as_str());
            append_str(out, "\"");
        },
        AgentEvent::SubAgentSpawned { agent_id, depth, task } => {
            append_str(out, "[SUBAGENT_SPAWNED]");
            append_str(out, " stage=");
            append_str(out, stage.as_str());
            append_str(out, " agent_id=");
            { let t = byte_cut_text(agent_id.as_str(), 8); append_str(out, t.as_str()); }
            append_str(out, " depth=");
            { let n = usize_text(*depth); append_str(out, n.as_str()); }
            append_str(out, " task=\"");
            { let t = byte_cut_text(task.as_str(), 60); append_str(out, t.as_str()); }
            append_str(out, "\"");
        },
        AgentEvent::SubAgentCompleted { agent_id, depth, success, turns_used } => {
            append_str(out, "[SUBAGENT_COMPLETED]");
            append_str(out, " stage=");
            append_str(out, stage.as_str());
            append_str(out, " agent_id=");
            { let t = byte_cut_text(agent_id.as_str(), 8); append_str(out, t.as_str()); }
            append_str(out, " depth=");
            { let n = usize_text(*depth); append_str(out, n.as_str()); }
            append_str(out, " success=");
            { let b = bool_string(*success); append_str(out, b.as_str()); }
            append_str(out, " turns=");
            { let n = usize_text(*turns_used); append_str(out, n.as_str()); }
        },
        AgentEvent::SubAgentFailed { agent_id, depth, error } => {
            append_str(out, "[SUBAGENT_FAILED]");
            append_str(out, " stage=");
            append_str(out, stage.as_str());
            append_str(out, " agent_id=");
            { let t = byte_cut_text(agent_id.as_str(), 8); append_str(out, t.as_str()); }
            append_str(out, " depth=");
            { let n = usize_text(*depth); append_str(out, n.as_str()); }
            append_str(out, " error=\"");
            append_str(out, error.as_str());
            append_str(out, "\"");
        },
        AgentEvent::SubAgentClosed { agent_id, depth } => {
            append_str(out, "[SUBAGENT_CLOSED]");
            append_str(out, " stage=");
            append_str(out, stage.as_str());
            append_str(out, " agent_id=");
            { let t = byte_cut_text(agent_id.as_str(), 8); append_str(out, t.as_str()); }
            append_str(out, " depth=");
            { let n = usize_text(*depth); append_str(out, n.as_str()); }
        },
        AgentEvent::SubAgentEvent { agent_id, depth, event } => {
            append_str(out, "[SUBAGENT_EVENT]");
            append_str(out, " stage=");
            append_str(out, stage.as_str());
            append_str(out, " agent_id=");
            { let t = byte_cut_text(agent_id.as_str(), 8); append_str(out, t.as_str()); }
            append_str(out, " depth=");
            { let n = usize_text(*depth); append_str(out, n.as_str()); }
            append_str(out, " event=");
            append_str(out, event.as_str());
        },
        AgentEvent::Other { event } => {
            append_str(out, "[AGENT]");
            append_str(out, " stage=");
            append_str(out, stage.as_str());
            append_str(out, " event=");
            append_str(out, event.as_str());
        },
    }
}

/// `pre`, the text and `post` when there is a text; nothing otherwise.
#[verifier::opaque]
pub open spec fn opt_part(o: Option<String>, pre: Seq<char>, post: Seq<char>) -> Seq<char> {
    match o {
        Some(x) => pre + x@ + post,
        None => Seq::<char>::empty(),
    }
}

/// The token count and, when known, the cost of a stage's usage.
#[verifier::opaque]
pub open spec fn usage_part(u: Option<UsageText>) -> Seq<char> {
    match u {
        Some(u) => " tokens="@ + u.tokens@ + match u.cost {
            Some(c) => " cost="@ + c@,
            None => Seq::<char>::empty(),
        },
        None => Seq::<char>::empty(),
    }
}

/// The reason and class of a stage's failure.
#[verifier::opaque]
pub open spec fn failure_part(f: Option<FailureDetail>) -> Seq<char> {
    match f {
        Some(f) => " failure_reason=\""@ + f.message@ + "\" failure_class="@ + f.failure_class@,
        None => Seq::<char>::empty(),
    }
}

/// The suggested next stages, comma-separated, when there are any.
#[verifier::opaque]
pub open spec fn ids_part(v: Vec<String>) -> Seq<char> {
    if v.len() > 0 {
        " suggested_next_ids="@ + join(views(v@), ","@)
    } else {
        Seq::<char>::empty()
    }
}

/// The number of files touched, when there are any.
#[verifier::opaque]
pub open spec fn files_part(v: Vec<String>) -> Seq<char> {
    if v.len() > 0 {
        " files_touched="@ + decimal(v.len() as nat)
    } else {
        Seq::<char>::empty()
    }
}

/// The identifying part of a completed stage's text.
#[verifier::opaque]
pub open spec fn stage_head_part(node_id: String, name: String, index: usize, duration_ms: u64, status: String) -> Seq<char> {
    "[STAGE_COMPLETED] node_id="@ + node_id@ + " name="@ + name@ + " index="@ + decimal(index as nat) + " duration="@
        + decimal(duration_ms as nat) + "ms status="@ + status@
}

/// ` attempt=a/m`.
#[verifier::opaque]
pub open spec fn attempts_part(attempt: usize, max_attempts: usize) -> Seq<char> {
    " attempt="@ + decimal(attempt as nat) + "/"@ + decimal(max_attempts as nat)
}

/// The summary text of a completed stage.
pub open spec fn stage_completed_text(
    node_id: String,
    name: String,
    index: usize,
    duration_ms: u64,
    status: String,
    preferred_label: Option<String>,
    suggested_next_ids: Vec<String>,
    usage: Option<UsageText>,
    failure: Option<FailureDetail>,
    notes: Option<String>,
    files_touched: Vec<String>,
    attempt: usize,
    max_attempts: usize,
) -> Seq<char> {
    stage_head_part(node_id, name, index, duration_ms, status) + opt_part(preferred_label, " preferred_label=\""@, "\""@)
        + ids_part(suggested_next_ids) + usage_part(usage) + failure_part(failure) + opt_part(notes, " notes=\""@, "\""@)
        + files_part(files_touched) + attempts_part(attempt, max_attempts)
}

fn push_opt(out: &mut String, o: &Option<String>, pre: &str, post: &str)
    ensures
        final(out)@ == old(out)@ + opt_part(*o, pre@, post@),
{
    reveal(opt_part);
    match o {
        Some(x) => {
            append_str(out, pre);
            append_str(out, x.as_str());
            append_str(out, post);
            assert(out@ =~= old(out)@ + (pre@ + x@ + post@));
        },
        None => {
            assert(out@ =~= old(out)@ + Seq::<char>::empty());
        },
    }
}

fn push_usage(out: &mut String, usage: &Option<UsageText>)
    ensures
        final(out)@ == old(out)@ + usage_part(*usage),
{
    reveal(usage_part);
    match usage {
        Some(u) => {
            append_str(out, " tokens=");
            append_str(out, u.tokens.as_str());
            match &u.cost {
                Some(c) => {
                    append_str(out, " cost=");
                    append_str(out, c.as_str());
                },
                None => {},
            }
            assert(out@ =~= old(out)@ + usage_part(*usage));
        },
        None => {
            assert(out@ =~= old(out)@ + Seq::<char>::empty());
        },
    }
}

fn push_failure(out: &mut String, failure: &Option<FailureDetail>)
    ensures
        final(out)@ == old(out)@ + failure_part(*failure),
{
    reveal(failure_part);
    match failure {
        Some(f) => {
            append_str(out, " failure_reason=\"");
            append_str(out, f.message.as_str());
            append_str(out, "\" failure_class=");
            append_str(out, f.failure_class.as_str());
            assert(out@ =~= old(out)@ + (" failure_reason=\""@ + f.message@ + "\" failure_class="@ + f.failure_class@));
        },
        None => {
            assert(out@ =~= old(out)@ + Seq::<char>::empty());
        },
    }
}

fn push_ids(out: &mut String, v: &Vec<String>)
    ensures
        final(out)@ == old(out)@ + ids_part(*v),
{
    reveal(ids_part);
    if v.len() > 0 {
        append_str(out, " suggested_next_ids=");
        let j = join_strings(v, ",");
        append_str(out, j.as_str());
    } else {
        assert(out@ =~= old(out)@ + Seq::<char>::empty());
    }
}

fn push_files(out: &mut String, v: &Vec<String>)
    ensures
        final(out)@ == old(out)@ + files_part(*v),
{
    reveal(files_part);
    if v.len() > 0 {
        append_str(out, " files_touched=");
        let n = usize_text(v.len());
        append_str(out, n.as_str());
    } else {
        assert(out@ =~= old(out)@ + Seq::<char>::empty());
    }
}

fn push_stage_head(out: &mut String, node_id: &String, name: &String, index: &usize, duration_ms: &u64, status: &String)
    ensures
        final(out)@ == old(out)@ + stage_head_part(*node_id, *name, *index, *duration_ms, *status),
{
    reveal(stage_head_part);
    append_str(out, "[STAGE_COMPLETED] node_id=");
    append_str(out, node_id.as_str());
    append_str(out, " name=");
    append_str(out, name.as_str());
    append_str(out, " index=");
    { let n = usize_text(*index); append_str(out, n.as_str()); }
    append_str(out, " duration=");
    { let n = u64_text(*duration_ms); append_str(out, n.as_str()); }
    append_str(out, "ms status=");
    append_str(out, status.as_str());
}

fn push_attempts(out: &mut String, attempt: &usize, max_attempts: &usize)
    ensures
        final(out)@ == old(out)@ + attempts_part(*attempt, *max_attempts),
{
    reveal(attempts_part);
    append_str(out, " attempt=");
    { let n = usize_text(*attempt); append_str(out, n.as_str()); }
    append_str(out, "/");
    { let n = usize_text(*max_attempts); append_str(out, n.as_str()); }
}

/// Appends the text of a completed stage.
fn push_stage_completed(out: &mut String, node_id: &String, name: &String, index: &usize, duration_ms: &u64, status: &String, preferred_label: &Option<String>, suggested_next_ids: &Vec<String>, usage: &Option<UsageText>, failure: &Option<FailureDetail>, notes: &Option<String>, files_touched: &Vec<String>, attempt: &usize, max_attempts: &usize)
    ensures
        final(out)@ == old(out)@ + stage_completed_text(*node_id, *name, *index, *duration_ms, *status, *preferred_label, *suggested_next_ids, *usage, *failure, *notes, *files_touched, *attempt, *max_attempts),
{
    let ghost o = out@;
    push_stage_head(out, node_id, name, index, duration_ms, status);
    push_opt(out, preferred_label, " preferred_label=\"", "\"");
    push_ids(out, suggested_next_ids);
    push_usage(out, usage);
    push_failure(out, failure);
    push_opt(out, notes, " notes=\"", "\"");
    push_files(out, files_touched);
    push_attempts(out, attempt, max_attempts);
    assert(out@ =~= o + stage_completed_text(*node_id, *name, *index, *duration_ms, *status, *preferred_label, *suggested_next_ids, *usage, *failure, *notes, *files_touched, *attempt, *max_attempts));
}

/// Appends the one-line text of a workflow run event.
#[verifier::rlimit(100)]
#[verifier::spinoff_prover]
fn push_workflow_summary(out: &mut String, e: &WorkflowRunEvent)
    requires
        summary_cuts_ok(*e),
    ensures
        final(out)@ == old(out)@ + workflow_summary_body(*e),
{
    match e {
        WorkflowRunEvent::WorkflowRunStarted { name, run_id, base_sha, run_branch, worktree_dir } => {
            append_str(out, "[WORKFLOW_RUN_STARTED] name=");
            append_str(out, name.as_str());
            append_str(out, " id=");
            append_str(out, run_id.as_str());
        },
        WorkflowRunEvent::WorkflowRunCompleted { duration_ms, artifact_count, total_cost, final_git_commit_sha } => {
            append_str(out, "[WORKFLOW_RUN_COMPLETED] duration=");
            { let n = u64_text(*duration_ms); append_str(out, n.as_str()); }
            append_str(out, "ms artifacts=");
            { let n = usize_text(*artifact_count); append_str(out, n.as_str()); }
            match total_cost { Some(x) => { append_str(out, " total_cost="); append_str(out, x.as_str()); append_str(out, ""); }, None => {} }
        },
        WorkflowRunEvent::WorkflowRunFailed { error, duration_ms, git_commit_sha } => {
            append_str(out, "[WORKFLOW_RUN_FAILED] error=\"");
            append_str(out, error.as_str());
            append_str(out, "\" duration=");
            { let n = u64_text(*duration_ms); append_str(out, n.as_str()); }
            append_str(out, "ms");
        },
        WorkflowRunEvent::StageStarted { node_id, name, index, handler_type, attempt, max_attempts } => {
            append_str(out, "[STAGE_STARTED] node_id=");
            append_str(out, node_id.as_str());
            append_str(out, " name=");
            append_str(out, name.as_str());
            append_str(out, " index=");
            { let n = usize_text(*index); append_str(out, n.as_str()); }
            match handler_type { Some(x) => { append_str(out, " handler_type="); append_str(out, x.as_str()); append_str(out, ""); }, None => {} }
            append_str(out, " attempt=");
            { let n = usize_text(*attempt); append_str(out, n.as_str()); }
            append_str(out, "/");
            { let n = usize_text(*max_attempts); append_str(out, n.as_str()); }
        },
        WorkflowRunEvent::StageCompleted { node_id, name, index, duration_ms, status, preferred_label, suggested_next_ids, usage, failure, notes, files_touched, attempt, max_attempts } => {
            push_stage_completed(out, node_id, name, index, duration_ms, status, preferred_label, suggested_next_ids, usage, failure, notes, files_touched, attempt, max_attempts);
        },
        WorkflowRunEvent::StageFailed { node_id, name, index, failure, will_retry } => {
            append_str(out, "[STAGE_FAILED] node_id=");
            append_str(out, node_id.as_str());
            append_str(out, " name=");
            append_str(out, name.as_str());
            append_str(out, " index=");
            { let n = usize_text(*index); append_str(out, n.as_str()); }
            append_str(out, " error=\"");
            append_str(out, failure.message.as_str());
            append_str(out, "\" will_retry=");
            { let b = bool_string(*will_retry); append_str(out, b.as_str()); }
            append_str(out, " failure_class=");
            append_str(out, failure.failure_class.as_str());
        },
        WorkflowRunEvent::StageRetrying { node_id, name, index, attempt, max_attempts, delay_ms } => {
            append_str(out, "[STAGE_RETRYING] node_id=");
            append_str(out, node_id.as_str());
            append_str(out, " name=");
            append_str(out, name.as_str());
            append_str(out, " index=");
            { let n = usize_text(*index); append_str(out, n.as_str()); }
            append_str(out, " attempt=");
            { let n = usize_text(*attempt); append_str(out, n.as_str()); }
            append_str(out, "/");
            { let n = usize_text(*max_attempts); append_str(out, n.as_str()); }
            append_str(out, " delay=");
            { let n = u64_text(*delay_ms); append_str(out, n.as_str()); }
            append_str(out, "ms");
        },
        WorkflowRunEvent::ParallelStarted { branch_count, join_policy, error_policy } => {
            append_str(out, "[PARALLEL_STARTED] branches=");
            { let n = usize_text(*branch_count); append_str(out, n.as_str()); }
            append_str(out, " join_policy=");
            append_str(out, join_policy.as_str());
            append_str(out, " error_policy=");
            append_str(out, error_policy.as_str());
        },
        WorkflowRunEvent::ParallelBranchStarted { branch, index } => {
            append_str(out, "[PARALLEL_BRANCH_STARTED] branch=");
            append_str(out, branch.as_str());
            append_str(out, " index=");
            { let n = usize_text(*index); append_str(out, n.as_str()); }
        },
        WorkflowRunEvent::ParallelBranchCompleted { branch, index, duration_ms, status } => {
            append_str(out, "[PARALLEL_BRANCH_COMPLETED] branch=");
            append_str(out, branch.as_str());
            append_str(out, " index=");
            { let n = usize_text(*index); append_str(out, n.as_str()); }
            append_str(out, " duration=");
            { let n = u64_text(*duration_ms); append_str(out, n.as_str()); }
            append_str(out, "ms status=");
            append_str(out, status.as_str());
        },
        WorkflowRunEvent::ParallelCompleted { duration_ms, success_count, failure_count } => {
            append_str(out, "[PARALLEL_COMPLETED] duration=");
            { let n = u64_text(*duration_ms); append_str(out, n.as_str()); }
            append_str(out, "ms succeeded=");
            { let n = usize_text(*success_count); append_str(out, n.as_str()); }
            append_str(out, " failed=");
            { let n = usize_text(*failure_count); append_str(out, n.as_str()); }
        },
        WorkflowRunEvent::InterviewStarted { question, stage, question_type } => {
            append_str(out, "[INTERVIEW_STARTED] stage=");
            append_str(out, stage.as_str());
            append_str(out, " question=\"");
            append_str(out, question.as_str());
            append_str(out, "\" question_type=");
            append_str(out, question_type.as_str());
        },
        WorkflowRunEvent::InterviewCompleted { question, answer, duration_ms } => {
            append_str(out, "[INTERVIEW_COMPLETED] question=\"");
            append_str(out, question.as_str());
            append_str(out, "\" answer=\"");
            append_str(out, answer.as_str());
            append_str(out, "\" duration=");
            { let n = u64_text(*duration_ms); append_str(out, n.as_str()); }
            append_str(out, "ms");
        },
        WorkflowRunEvent::InterviewTimeout { question, stage, duration_ms } => {
            append_str(out, "[INTERVIEW_TIMEOUT] stage=");
            append_str(out, stage.as_str());
            append_str(out, " duration=");
            { let n = u64_text(*duration_ms); append_str(out, n.as_str()); }
            append_str(out, "ms");
        },
        WorkflowRunEvent::CheckpointSaved { node_id } => {
            append_str(out, "[CHECKPOINT_SAVED] node=");
            append_str(out, node_id.as_str());
        },
        WorkflowRunEvent::GitCheckpoint { run_id, node_id, git_commit_sha, status } => {
            append_str(out, "[GIT_CHECKPOINT] node=");
            append_str(out, node_id.as_str());
            append_str(out, " sha=");
            append_str(out, git_commit_sha.as_str());
            append_str(out, " status=");
            append_str(out, status.as_str());
        },
        WorkflowRunEvent::EdgeSelected { from_node, to_node, label, condition } => {
            append_str(out, "[EDGE_SELECTED] from=");
            append_str(out, from_node.as_str());
            append_str(out, " to=");
            append_str(out, to_node.as_str());
            match label { Some(x) => { append_str(out, " label=\""); append_str(out, x.as_str()); append_str(out, "\""); }, None => {} }
            match condition { Some(x) => { append_str(out, " condition=\""); append_str(out, x.as_str()); append_str(out, "\""); }, None => {} }
        },
        WorkflowRunEvent::LoopRestart { from_node, to_node } => {
            append_str(out, "[LOOP_RESTART] from=");
            append_str(out, from_node.as_str());
            append_str(out, " to=");
            append_str(out, to_node.as_str());
        },
        WorkflowRunEvent::Prompt { stage, text } => {
            append_str(out, "[PROMPT] stage=");
            append_str(out, stage.as_str());
            append_str(out, " text=\"");
            { let t = byte_cut_text(text.as_str(), 80); append_str(out, t.as_str()); }
            append_str(out, "\"");
        },
        WorkflowRunEvent::Agent { stage, event } => {
            push_agent_summary(out, stage, event);
        },
        WorkflowRunEvent::ParallelEarlyTermination { reason, completed_count, pending_count } => {
            append_str(out, "[PARALLEL_EARLY_TERMINATION] reason=");
            append_str(out, reason.as_str());
            append_str(out, " completed=");
            { let n = usize_text(*completed_count); append_str(out, n.as_str()); }
            append_str(out, " pending=");
            { let n = usize_text(*pending_count); append_str(out, n.as_str()); }
        },
        WorkflowRunEvent::SubgraphStarted { node_id, start_node } => {
            append_str(out, "[SUBGRAPH_STARTED] node=");
            append_str(out, node_id.as_str());
            append_str(out, " start_node=");
            append_str(out, start_node.as_str());
        },
        WorkflowRunEvent::SubgraphCompleted { node_id, steps_executed, status, duration_ms } => {
            append_str(out, "[SUBGRAPH_COMPLETED] node=");
            append_str(out, node_id.as_str());
            append_str(out, " steps=");
            { let n = usize_text(*steps_executed); append_str(out, n.as_str()); }
            append_str(out, " status=");
            append_str(out, status.as_str());
            append_str(out, " duration=");
            { let n = u64_text(*duration_ms); append_str(out, n.as_str()); }
            append_str(out, "ms");
        },
        WorkflowRunEvent::Sandbox { event } => {
            push_sandbox_summary(out, event);
        },
        WorkflowRunEvent::SetupStarted { command_count } => {
            append_str(out, "[SETUP_STARTED] command_count=");
            { let n = usize_text(*command_count); append_str(out, n.as_str()); }
        },
        WorkflowRunEvent::SetupCommandStarted { command, index } => {
            append_str(out, "[SETUP_COMMAND_STARTED] index=");
            { let n = usize_text(*index); append_str(out, n.as_str()); }
            append_str(out, " command=\"");
            append_str(out, command.as_str());
            append_str(out, "\"");
        },
        WorkflowRunEvent::SetupCommandCompleted { command, index, exit_code, duration_ms } => {
            append_str(out, "[SETUP_COMMAND_COMPLETED] index=");
            { let n = usize_text(*index); append_str(out, n.as_str()); }
            append_str(out, " command=\"");
            append_str(out, command.as_str());
            append_str(out, "\" exit_code=");
            { let n = i64_text(*exit_code as i64); append_str(out, n.as_str()); }
            append_str(out, " duration=");
            { let n = u64_text(*duration_ms); append_str(out, n.as_str()); }
            append_str(out, "ms");
        },
        WorkflowRunEvent::SetupCompleted { duration_ms } => {
            append_str(out, "[SETUP_COMPLETED] duration=");
            { let n = u64_text(*duration_ms); append_str(out, n.as_str()); }
            append_str(out, "ms");
        },
        WorkflowRunEvent::SetupFailed { command, index, exit_code, stderr } => {
            append_str(out, "[SETUP_FAILED] index=");
            { let n = usize_text(*index); append_str(out, n.as_str()); }
            append_str(out, " command=\"");
            append_str(out, command.as_str());
            append_str(out, "\" exit_code=");
            { let n = i64_text(*exit_code as i64); append_str(out, n.as_str()); }
            append_str(out, " stderr=\"");
            { let t = byte_cut_text(stderr.as_str(), 80); append_str(out, t.as_str()); }
            append_str(out, "\"");
        },
        WorkflowRunEvent::StallWatchdogTimeout { node, idle_seconds } => {
            append_str(out, "[STALL_WATCHDOG_TIMEOUT] node=");
            append_str(out, node.as_str());
            append_str(out, " idle_seconds=");
            { let n = u64_text(*idle_seconds); append_str(out, n.as_str()); }
        },
        WorkflowRunEvent::AssetsCaptured { node_id, files_copied, total_bytes, files_skipped } => {
            append_str(out, "[ASSETS_CAPTURED] node=");
            append_str(out, node_id.as_str());
            append_str(out, " files_copied=");
            { let n = usize_text(*files_copied); append_str(out, n.as_str()); }
            append_str(out, " total_bytes=");
            { let t = human_bytes_text(*total_bytes); append_str(out, t.as_str()); }
            append_str(out, " files_skipped=");
            { let n = usize_text(*files_skipped); append_str(out, n.as_str()); }
        },
    }
}

/// One-line summary of a workflow run event for `-v` output, dimmed.
pub fn format_event_summary(event: &WorkflowRunEvent, styles: &Styles) -> (out: String)
    requires
        summary_cuts_ok(*event),
    ensures
        out@ == styles.dim@ + workflow_summary_body(*event) + styles.reset@,
{
    let mut s = owned(styles.dim.as_str());
    push_workflow_summary(&mut s, event);
    append_str(&mut s, styles.reset.as_str());
    s
}

} // verus!
