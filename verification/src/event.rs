use vstd::prelude::*;

use crate::style::Styles;
use crate::text::{append_str, bool_string, bool_text, decimal, join, join_strings, owned, u64_text, usize_text, views};

verus! {

/// Events emitted during pipeline execution, for observability.
#[derive(Debug, Clone)]
pub enum PipelineEvent {
    PipelineStarted { name: String, id: String },
    PipelineCompleted { duration_ms: u64, artifact_count: usize },
    PipelineFailed { error: String, duration_ms: u64 },
    StageStarted { name: String, index: usize },
    StageCompleted { name: String, index: usize, duration_ms: u64, status: String, preferred_label: Option<String>, suggested_next_ids: Vec<String> },
    StageFailed { name: String, index: usize, error: String, will_retry: bool },
    StageRetrying { name: String, index: usize, attempt: usize, delay_ms: u64 },
    ParallelStarted { branch_count: usize },
    ParallelBranchStarted { branch: String, index: usize },
    ParallelBranchCompleted { branch: String, index: usize, duration_ms: u64, success: bool },
    ParallelCompleted { duration_ms: u64, success_count: usize, failure_count: usize },
    InterviewStarted { question: String, stage: String },
    InterviewCompleted { question: String, answer: String, duration_ms: u64 },
    InterviewTimeout { question: String, stage: String, duration_ms: u64 },
    CheckpointSaved { node_id: String },
}

/// The one-line text of an event, before dimming.
pub open spec fn summary_body(e: PipelineEvent) -> Seq<char> {
    match e {
        PipelineEvent::PipelineStarted { name, id } => "[PIPELINE_STARTED] name="@ + name@ + " id="@ + id@,
        PipelineEvent::PipelineCompleted { duration_ms, artifact_count } => "[PIPELINE_COMPLETED] duration="@ + decimal(duration_ms as nat) + "ms artifacts="@ + decimal(artifact_count as nat),
        PipelineEvent::PipelineFailed { error, duration_ms } => "[PIPELINE_FAILED] error=\""@ + error@ + "\" duration="@ + decimal(duration_ms as nat) + "ms"@,
        PipelineEvent::StageStarted { name, index } => "[STAGE_STARTED] name="@ + name@ + " index="@ + decimal(index as nat),
        PipelineEvent::StageCompleted { name, index, duration_ms, status, preferred_label, suggested_next_ids } => ("[STAGE_COMPLETED] name="@ + name@ + " index="@ + decimal(index as nat) + " duration="@ + decimal(duration_ms as nat) + "ms status="@ + status@) + match preferred_label {
            Some(l) => " preferred_label=\""@ + l@ + "\""@,
            None => Seq::<char>::empty(),
        } + if suggested_next_ids.len() > 0 {
            " suggested_next_ids="@ + join(views(suggested_next_ids@), ","@)
        } else {
            Seq::<char>::empty()
        },
        PipelineEvent::StageFailed { name, index, error, will_retry } => "[STAGE_FAILED] name="@ + name@ + " index="@ + decimal(index as nat) + " error=\""@ + error@ + "\" will_retry="@ + bool_text(will_retry),
        PipelineEvent::StageRetrying { name, index, attempt, delay_ms } => "[STAGE_RETRYING] name="@ + name@ + " index="@ + decimal(index as nat) + " attempt="@ + decimal(attempt as nat) + " delay="@ + decimal(delay_ms as nat) + "ms"@,
        PipelineEvent::ParallelStarted { branch_count } => "[PARALLEL_STARTED] branches="@ + decimal(branch_count as nat),
        PipelineEvent::ParallelBranchStarted { branch, index } => "[PARALLEL_BRANCH_STARTED] branch="@ + branch@ + " index="@ + decimal(index as nat),
        PipelineEvent::ParallelBranchCompleted { branch, index, duration_ms, success } => "[PARALLEL_BRANCH_COMPLETED] branch="@ + branch@ + " index="@ + decimal(index as nat) + " duration="@ + decimal(duration_ms as nat) + "ms success="@ + bool_text(success),
        PipelineEvent::ParallelCompleted { duration_ms, success_count, failure_count } => "[PARALLEL_COMPLETED] duration="@ + decimal(duration_ms as nat) + "ms succeeded="@ + decimal(success_count as nat) + " failed="@ + decimal(failure_count as nat),
        PipelineEvent::InterviewStarted { question, stage } => "[INTERVIEW_STARTED] stage="@ + stage@ + " question=\""@ + question@ + "\""@,
        PipelineEvent::InterviewCompleted { question, answer, duration_ms } => "[INTERVIEW_COMPLETED] question=\""@ + question@ + "\" answer=\""@ + answer@ + "\" duration="@ + decimal(duration_ms as nat) + "ms"@,
        PipelineEvent::InterviewTimeout { question, stage, duration_ms } => "[INTERVIEW_TIMEOUT] stage="@ + stage@ + " duration="@ + decimal(duration_ms as nat) + "ms"@,
        PipelineEvent::CheckpointSaved { node_id } => "[CHECKPOINT_SAVED] node="@ + node_id@,
    }
}

/// The multi-line text of an event; `d` dims the frame and field names, `r` resets.
pub open spec fn detail_text(e: PipelineEvent, d: Seq<char>, r: Seq<char>) -> Seq<char> {
    match e {
        PipelineEvent::PipelineStarted { name, id } => d + "── PIPELINE_STARTED ─────────────────────────"@ + r + "\n  "@ + d + "name:"@ + r + " "@ + name@ + "\n  "@ + d + "id:"@ + r + "   "@ + id@ + "\n"@,
        PipelineEvent::PipelineCompleted { duration_ms, artifact_count } => d + "── PIPELINE_COMPLETED ───────────────────────"@ + r + "\n  "@ + d + "duration_ms:"@ + r + "    "@ + decimal(duration_ms as nat) + "\n  "@ + d + "artifact_count:"@ + r + " "@ + decimal(artifact_count as nat) + "\n"@,
        PipelineEvent::PipelineFailed { error, duration_ms } => d + "── PIPELINE_FAILED ──────────────────────────"@ + r + "\n  "@ + d + "error:"@ + r + "       "@ + error@ + "\n  "@ + d + "duration_ms:"@ + r + " "@ + decimal(duration_ms as nat) + "\n"@,
        PipelineEvent::StageStarted { name, index } => d + "── STAGE_STARTED ────────────────────────────"@ + r + "\n  "@ + d + "name:"@ + r + "  "@ + name@ + "\n  "@ + d + "index:"@ + r + " "@ + decimal(index as nat) + "\n"@,
        PipelineEvent::StageCompleted { name, index, duration_ms, status, preferred_label, suggested_next_ids } => (d + "── STAGE_COMPLETED ──────────────────────────"@ + r + "\n  "@ + d + "name:"@ + r + "        "@ + name@ + "\n  "@ + d + "index:"@ + r + "       "@ + decimal(index as nat) + "\n  "@ + d + "duration_ms:"@ + r + " "@ + decimal(duration_ms as nat) + "\n  "@ + d + "status:"@ + r + "      "@ + status@ + "\n"@) + match preferred_label {
            Some(l) => "  "@ + d + "preferred_label:"@ + r + " "@ + l@ + "\n"@,
            None => Seq::<char>::empty(),
        } + if suggested_next_ids.len() > 0 {
            "  "@ + d + "suggested_next_ids:"@ + r + " "@ + join(views(suggested_next_ids@), ", "@) + "\n"@
        } else {
            Seq::<char>::empty()
        },
        PipelineEvent::StageFailed { name, index, error, will_retry } => d + "── STAGE_FAILED ─────────────────────────────"@ + r + "\n  "@ + d + "name:"@ + r + "       "@ + name@ + "\n  "@ + d + "index:"@ + r + "      "@ + decimal(index as nat) + "\n  "@ + d + "error:"@ + r + "      "@ + error@ + "\n  "@ + d + "will_retry:"@ + r + " "@ + bool_text(will_retry) + "\n"@,
        PipelineEvent::StageRetrying { name, index, attempt, delay_ms } => d + "── STAGE_RETRYING ───────────────────────────"@ + r + "\n  "@ + d + "name:"@ + r + "     "@ + name@ + "\n  "@ + d + "index:"@ + r + "    "@ + decimal(index as nat) + "\n  "@ + d + "attempt:"@ + r + "  "@ + decimal(attempt as nat) + "\n  "@ + d + "delay_ms:"@ + r + " "@ + decimal(delay_ms as nat) + "\n"@,
        PipelineEvent::ParallelStarted { branch_count } => d + "── PARALLEL_STARTED ─────────────────────────"@ + r + "\n  "@ + d + "branch_count:"@ + r + " "@ + decimal(branch_count as nat) + "\n"@,
        PipelineEvent::ParallelBranchStarted { branch, index } => d + "── PARALLEL_BRANCH_STARTED ──────────────────"@ + r + "\n  "@ + d + "branch:"@ + r + " "@ + branch@ + "\n  "@ + d + "index:"@ + r + "  "@ + decimal(index as nat) + "\n"@,
        PipelineEvent::ParallelBranchCompleted { branch, index, duration_ms, success } => d + "── PARALLEL_BRANCH_COMPLETED ────────────────"@ + r + "\n  "@ + d + "branch:"@ + r + "      "@ + branch@ + "\n  "@ + d + "index:"@ + r + "       "@ + decimal(index as nat) + "\n  "@ + d + "duration_ms:"@ + r + " "@ + decimal(duration_ms as nat) + "\n  "@ + d + "success:"@ + r + "     "@ + bool_text(success) + "\n"@,
        PipelineEvent::ParallelCompleted { duration_ms, success_count, failure_count } => d + "── PARALLEL_COMPLETED ───────────────────────"@ + r + "\n  "@ + d + "duration_ms:"@ + r + "   "@ + decimal(duration_ms as nat) + "\n  "@ + d + "success_count:"@ + r + " "@ + decimal(success_count as nat) + "\n  "@ + d + "failure_count:"@ + r + " "@ + decimal(failure_count as nat) + "\n"@,
        PipelineEvent::InterviewStarted { question, stage } => d + "── INTERVIEW_STARTED ────────────────────────"@ + r + "\n  "@ + d + "stage:"@ + r + "    "@ + stage@ + "\n  "@ + d + "question:"@ + r + " "@ + question@ + "\n"@,
        PipelineEvent::InterviewCompleted { question, answer, duration_ms } => d + "── INTERVIEW_COMPLETED ──────────────────────"@ + r + "\n  "@ + d + "question:"@ + r + "    "@ + question@ + "\n  "@ + d + "answer:"@ + r + "      "@ + answer@ + "\n  "@ + d + "duration_ms:"@ + r + " "@ + decimal(duration_ms as nat) + "\n"@,
        PipelineEvent::InterviewTimeout { question, stage, duration_ms } => d + "── INTERVIEW_TIMEOUT ────────────────────────"@ + r + "\n  "@ + d + "question:"@ + r + "    "@ + question@ + "\n  "@ + d + "stage:"@ + r + "       "@ + stage@ + "\n  "@ + d + "duration_ms:"@ + r + " "@ + decimal(duration_ms as nat) + "\n"@,
        PipelineEvent::CheckpointSaved { node_id } => d + "── CHECKPOINT_SAVED ─────────────────────────"@ + r + "\n  "@ + d + "node_id:"@ + r + " "@ + node_id@ + "\n"@,
    }
}

/// One-line summary of an event for `-v` output, dimmed.
pub fn format_event_summary(event: &PipelineEvent, styles: &Styles) -> (out: String)
    ensures
        out@ == styles.dim@ + summary_body(*event) + styles.reset@,
{
    let mut s = owned(styles.dim.as_str());
    match event {
        PipelineEvent::PipelineStarted { name, id } => {
            append_str(&mut s, "[PIPELINE_STARTED] name=");
            append_str(&mut s, name.as_str());
            append_str(&mut s, " id=");
            append_str(&mut s, id.as_str());
        },
        PipelineEvent::PipelineCompleted { duration_ms, artifact_count } => {
            append_str(&mut s, "[PIPELINE_COMPLETED] duration=");
            { let n = u64_text(*duration_ms); append_str(&mut s, n.as_str()); }
            append_str(&mut s, "ms artifacts=");
            { let n = usize_text(*artifact_count); append_str(&mut s, n.as_str()); }
        },
        PipelineEvent::PipelineFailed { error, duration_ms } => {
            append_str(&mut s, "[PIPELINE_FAILED] error=\"");
            append_str(&mut s, error.as_str());
            append_str(&mut s, "\" duration=");
            { let n = u64_text(*duration_ms); append_str(&mut s, n.as_str()); }
            append_str(&mut s, "ms");
        },
        PipelineEvent::StageStarted { name, index } => {
            append_str(&mut s, "[STAGE_STARTED] name=");
            append_str(&mut s, name.as_str());
            append_str(&mut s, " index=");
            { let n = usize_text(*index); append_str(&mut s, n.as_str()); }
        },
        PipelineEvent::StageCompleted { name, index, duration_ms, status, preferred_label, suggested_next_ids } => {
            append_str(&mut s, "[STAGE_COMPLETED] name=");
            append_str(&mut s, name.as_str());
            append_str(&mut s, " index=");
            { let n = usize_text(*index); append_str(&mut s, n.as_str()); }
            append_str(&mut s, " duration=");
            { let n = u64_text(*duration_ms); append_str(&mut s, n.as_str()); }
            append_str(&mut s, "ms status=");
            append_str(&mut s, status.as_str());
            match preferred_label {
                Some(l) => {
                    append_str(&mut s, " preferred_label=\"");
                    append_str(&mut s, l.as_str());
                    append_str(&mut s, "\"");
                },
                None => {},
            }
            if suggested_next_ids.len() > 0 {
                append_str(&mut s, " suggested_next_ids=");
                let j = join_strings(suggested_next_ids, ",");
                append_str(&mut s, j.as_str());
            }
        },
        PipelineEvent::StageFailed { name, index, error, will_retry } => {
            append_str(&mut s, "[STAGE_FAILED] name=");
            append_str(&mut s, name.as_str());
            append_str(&mut s, " index=");
            { let n = usize_text(*index); append_str(&mut s, n.as_str()); }
            append_str(&mut s, " error=\"");
            append_str(&mut s, error.as_str());
            append_str(&mut s, "\" will_retry=");
            { let b = bool_string(*will_retry); append_str(&mut s, b.as_str()); }
        },
        PipelineEvent::StageRetrying { name, index, attempt, delay_ms } => {
            append_str(&mut s, "[STAGE_RETRYING] name=");
            append_str(&mut s, name.as_str());
            append_str(&mut s, " index=");
            { let n = usize_text(*index); append_str(&mut s, n.as_str()); }
            append_str(&mut s, " attempt=");
            { let n = usize_text(*attempt); append_str(&mut s, n.as_str()); }
            append_str(&mut s, " delay=");
            { let n = u64_text(*delay_ms); append_str(&mut s, n.as_str()); }
            append_str(&mut s, "ms");
        },
        PipelineEvent::ParallelStarted { branch_count } => {
            append_str(&mut s, "[PARALLEL_STARTED] branches=");
            { let n = usize_text(*branch_count); append_str(&mut s, n.as_str()); }
        },
        PipelineEvent::ParallelBranchStarted { branch, index } => {
            append_str(&mut s, "[PARALLEL_BRANCH_STARTED] branch=");
            append_str(&mut s, branch.as_str());
            append_str(&mut s, " index=");
            { let n = usize_text(*index); append_str(&mut s, n.as_str()); }
        },
        PipelineEvent::ParallelBranchCompleted { branch, index, duration_ms, success } => {
            append_str(&mut s, "[PARALLEL_BRANCH_COMPLETED] branch=");
            append_str(&mut s, branch.as_str());
            append_str(&mut s, " index=");
            { let n = usize_text(*index); append_str(&mut s, n.as_str()); }
            append_str(&mut s, " duration=");
            { let n = u64_text(*duration_ms); append_str(&mut s, n.as_str()); }
            append_str(&mut s, "ms success=");
            { let b = bool_string(*success); append_str(&mut s, b.as_str()); }
        },
        PipelineEvent::ParallelCompleted { duration_ms, success_count, failure_count } => {
            append_str(&mut s, "[PARALLEL_COMPLETED] duration=");
            { let n = u64_text(*duration_ms); append_str(&mut s, n.as_str()); }
            append_str(&mut s, "ms succeeded=");
            { let n = usize_text(*success_count); append_str(&mut s, n.as_str()); }
            append_str(&mut s, " failed=");
            { let n = usize_text(*failure_count); append_str(&mut s, n.as_str()); }
        },
        PipelineEvent::InterviewStarted { question, stage } => {
            append_str(&mut s, "[INTERVIEW_STARTED] stage=");
            append_str(&mut s, stage.as_str());
            append_str(&mut s, " question=\"");
            append_str(&mut s, question.as_str());
            append_str(&mut s, "\"");
        },
        PipelineEvent::InterviewCompleted { question, answer, duration_ms } => {
            append_str(&mut s, "[INTERVIEW_COMPLETED] question=\"");
            append_str(&mut s, question.as_str());
            append_str(&mut s, "\" answer=\"");
            append_str(&mut s, answer.as_str());
            append_str(&mut s, "\" duration=");
            { let n = u64_text(*duration_ms); append_str(&mut s, n.as_str()); }
            append_str(&mut s, "ms");
        },
        PipelineEvent::InterviewTimeout { question, stage, duration_ms } => {
            append_str(&mut s, "[INTERVIEW_TIMEOUT] stage=");
            append_str(&mut s, stage.as_str());
            append_str(&mut s, " duration=");
            { let n = u64_text(*duration_ms); append_str(&mut s, n.as_str()); }
            append_str(&mut s, "ms");
        },
        PipelineEvent::CheckpointSaved { node_id } => {
            append_str(&mut s, "[CHECKPOINT_SAVED] node=");
            append_str(&mut s, node_id.as_str());
        },
    }
    append_str(&mut s, styles.reset.as_str());
    s
}

/// Multi-line view of an event for `-vv` output: the frame and field
/// names dimmed, the values plain.
pub fn format_event_detail(event: &PipelineEvent, styles: &Styles) -> (out: String)
    ensures
        out@ == detail_text(*event, styles.dim@, styles.reset@),
{
    let mut s = String::new();
    match event {
        PipelineEvent::PipelineStarted { name, id } => {
            append_str(&mut s, styles.dim.as_str());
            append_str(&mut s, "── PIPELINE_STARTED ─────────────────────────");
            append_str(&mut s, styles.reset.as_str());
            append_str(&mut s, "\n  ");
            append_str(&mut s, styles.dim.as_str());
            append_str(&mut s, "name:");
            append_str(&mut s, styles.reset.as_str());
            append_str(&mut s, " ");
            append_str(&mut s, name.as_str());
            append_str(&mut s, "\n  ");
            append_str(&mut s, styles.dim.as_str());
            append_str(&mut s, "id:");
            append_str(&mut s, styles.reset.as_str());
            append_str(&mut s, "   ");
            append_str(&mut s, id.as_str());
            append_str(&mut s, "\n");
        },
        PipelineEvent::PipelineCompleted { duration_ms, artifact_count } => {
            append_str(&mut s, styles.dim.as_str());
            append_str(&mut s, "── PIPELINE_COMPLETED ───────────────────────");
            append_str(&mut s, styles.reset.as_str());
            append_str(&mut s, "\n  ");
            append_str(&mut s, styles.dim.as_str());
            append_str(&mut s, "duration_ms:");
            append_str(&mut s, styles.reset.as_str());
            append_str(&mut s, "    ");
            { let n = u64_text(*duration_ms); append_str(&mut s, n.as_str()); }
            append_str(&mut s, "\n  ");
            append_str(&mut s, styles.dim.as_str());
            append_str(&mut s, "artifact_count:");
            append_str(&mut s, styles.reset.as_str());
            append_str(&mut s, " ");
            { let n = usize_text(*artifact_count); append_str(&mut s, n.as_str()); }
            append_str(&mut s, "\n");
        },
        PipelineEvent::PipelineFailed { error, duration_ms } => {
            append_str(&mut s, styles.dim.as_str());
            append_str(&mut s, "── PIPELINE_FAILED ──────────────────────────");
            append_str(&mut s, styles.reset.as_str());
            append_str(&mut s, "\n  ");
            append_str(&mut s, styles.dim.as_str());
            append_str(&mut s, "error:");
            append_str(&mut s, styles.reset.as_str());
            append_str(&mut s, "       ");
            append_str(&mut s, error.as_str());
            append_str(&mut s, "\n  ");
            append_str(&mut s, styles.dim.as_str());
            append_str(&mut s, "duration_ms:");
            append_str(&mut s, styles.reset.as_str());
            append_str(&mut s, " ");
            { let n = u64_text(*duration_ms); append_str(&mut s, n.as_str()); }
            append_str(&mut s, "\n");
        },
        PipelineEvent::StageStarted { name, index } => {
            append_str(&mut s, styles.dim.as_str());
            append_str(&mut s, "── STAGE_STARTED ────────────────────────────");
            append_str(&mut s, styles.reset.as_str());
            append_str(&mut s, "\n  ");
            append_str(&mut s, styles.dim.as_str());
            append_str(&mut s, "name:");
            append_str(&mut s, styles.reset.as_str());
            append_str(&mut s, "  ");
            append_str(&mut s, name.as_str());
            append_str(&mut s, "\n  ");
            append_str(&mut s, styles.dim.as_str());
            append_str(&mut s, "index:");
            append_str(&mut s, styles.reset.as_str());
            append_str(&mut s, " ");
            { let n = usize_text(*index); append_str(&mut s, n.as_str()); }
            append_str(&mut s, "\n");
        },
        PipelineEvent::StageCompleted { name, index, duration_ms, status, preferred_label, suggested_next_ids } => {
            append_str(&mut s, styles.dim.as_str());
            append_str(&mut s, "── STAGE_COMPLETED ──────────────────────────");
            append_str(&mut s, styles.reset.as_str());
            append_str(&mut s, "\n  ");
            append_str(&mut s, styles.dim.as_str());
            append_str(&mut s, "name:");
            append_str(&mut s, styles.reset.as_str());
            append_str(&mut s, "        ");
            append_str(&mut s, name.as_str());
            append_str(&mut s, "\n  ");
            append_str(&mut s, styles.dim.as_str());
            append_str(&mut s, "index:");
            append_str(&mut s, styles.reset.as_str());
            append_str(&mut s, "       ");
            { let n = usize_text(*index); append_str(&mut s, n.as_str()); }
            append_str(&mut s, "\n  ");
            append_str(&mut s, styles.dim.as_str());
            append_str(&mut s, "duration_ms:");
            append_str(&mut s, styles.reset.as_str());
            append_str(&mut s, " ");
            { let n = u64_text(*duration_ms); append_str(&mut s, n.as_str()); }
            append_str(&mut s, "\n  ");
            append_str(&mut s, styles.dim.as_str());
            append_str(&mut s, "status:");
            append_str(&mut s, styles.reset.as_str());
            append_str(&mut s, "      ");
            append_str(&mut s, status.as_str());
            append_str(&mut s, "\n");
            match preferred_label {
                Some(l) => {
                    append_str(&mut s, "  ");
                    append_str(&mut s, styles.dim.as_str());
                    append_str(&mut s, "preferred_label:");
                    append_str(&mut s, styles.reset.as_str());
                    append_str(&mut s, " ");
                    append_str(&mut s, l.as_str());
                    append_str(&mut s, "\n");
                },
                None => {},
            }
            if suggested_next_ids.len() > 0 {
                append_str(&mut s, "  ");
                append_str(&mut s, styles.dim.as_str());
                append_str(&mut s, "suggested_next_ids:");
                append_str(&mut s, styles.reset.as_str());
                append_str(&mut s, " ");
                let j = join_strings(suggested_next_ids, ", ");
                append_str(&mut s, j.as_str());
                append_str(&mut s, "\n");
            }
        },
        PipelineEvent::StageFailed { name, index, error, will_retry } => {
            append_str(&mut s, styles.dim.as_str());
            append_str(&mut s, "── STAGE_FAILED ─────────────────────────────");
            append_str(&mut s, styles.reset.as_str());
            append_str(&mut s, "\n  ");
            append_str(&mut s, styles.dim.as_str());
            append_str(&mut s, "name:");
            append_str(&mut s, styles.reset.as_str());
            append_str(&mut s, "       ");
            append_str(&mut s, name.as_str());
            append_str(&mut s, "\n  ");
            append_str(&mut s, styles.dim.as_str());
            append_str(&mut s, "index:");
            append_str(&mut s, styles.reset.as_str());
            append_str(&mut s, "      ");
            { let n = usize_text(*index); append_str(&mut s, n.as_str()); }
            append_str(&mut s, "\n  ");
            append_str(&mut s, styles.dim.as_str());
            append_str(&mut s, "error:");
            append_str(&mut s, styles.reset.as_str());
            append_str(&mut s, "      ");
            append_str(&mut s, error.as_str());
            append_str(&mut s, "\n  ");
            append_str(&mut s, styles.dim.as_str());
            append_str(&mut s, "will_retry:");
            append_str(&mut s, styles.reset.as_str());
            append_str(&mut s, " ");
            { let b = bool_string(*will_retry); append_str(&mut s, b.as_str()); }
            append_str(&mut s, "\n");
        },
        PipelineEvent::StageRetrying { name, index, attempt, delay_ms } => {
            append_str(&mut s, styles.dim.as_str());
            append_str(&mut s, "── STAGE_RETRYING ───────────────────────────");
            append_str(&mut s, styles.reset.as_str());
            append_str(&mut s, "\n  ");
            append_str(&mut s, styles.dim.as_str());
            append_str(&mut s, "name:");
            append_str(&mut s, styles.reset.as_str());
            append_str(&mut s, "     ");
            append_str(&mut s, name.as_str());
            append_str(&mut s, "\n  ");
            append_str(&mut s, styles.dim.as_str());
            append_str(&mut s, "index:");
            append_str(&mut s, styles.reset.as_str());
            append_str(&mut s, "    ");
            { let n = usize_text(*index); append_str(&mut s, n.as_str()); }
            append_str(&mut s, "\n  ");
            append_str(&mut s, styles.dim.as_str());
            append_str(&mut s, "attempt:");
            append_str(&mut s, styles.reset.as_str());
            append_str(&mut s, "  ");
            { let n = usize_text(*attempt); append_str(&mut s, n.as_str()); }
            append_str(&mut s, "\n  ");
            append_str(&mut s, styles.dim.as_str());
            append_str(&mut s, "delay_ms:");
            append_str(&mut s, styles.reset.as_str());
            append_str(&mut s, " ");
            { let n = u64_text(*delay_ms); append_str(&mut s, n.as_str()); }
            append_str(&mut s, "\n");
        },
        PipelineEvent::ParallelStarted { branch_count } => {
            append_str(&mut s, styles.dim.as_str());
            append_str(&mut s, "── PARALLEL_STARTED ─────────────────────────");
            append_str(&mut s, styles.reset.as_str());
            append_str(&mut s, "\n  ");
            append_str(&mut s, styles.dim.as_str());
            append_str(&mut s, "branch_count:");
            append_str(&mut s, styles.reset.as_str());
            append_str(&mut s, " ");
            { let n = usize_text(*branch_count); append_str(&mut s, n.as_str()); }
            append_str(&mut s, "\n");
        },
        PipelineEvent::ParallelBranchStarted { branch, index } => {
            append_str(&mut s, styles.dim.as_str());
            append_str(&mut s, "── PARALLEL_BRANCH_STARTED ──────────────────");
            append_str(&mut s, styles.reset.as_str());
            append_str(&mut s, "\n  ");
            append_str(&mut s, styles.dim.as_str());
            append_str(&mut s, "branch:");
            append_str(&mut s, styles.reset.as_str());
            append_str(&mut s, " ");
            append_str(&mut s, branch.as_str());
            append_str(&mut s, "\n  ");
            append_str(&mut s, styles.dim.as_str());
            append_str(&mut s, "index:");
            append_str(&mut s, styles.reset.as_str());
            append_str(&mut s, "  ");
            { let n = usize_text(*index); append_str(&mut s, n.as_str()); }
            append_str(&mut s, "\n");
        },
        PipelineEvent::ParallelBranchCompleted { branch, index, duration_ms, success } => {
            append_str(&mut s, styles.dim.as_str());
            append_str(&mut s, "── PARALLEL_BRANCH_COMPLETED ────────────────");
            append_str(&mut s, styles.reset.as_str());
            append_str(&mut s, "\n  ");
            append_str(&mut s, styles.dim.as_str());
            append_str(&mut s, "branch:");
            append_str(&mut s, styles.reset.as_str());
            append_str(&mut s, "      ");
            append_str(&mut s, branch.as_str());
            append_str(&mut s, "\n  ");
            append_str(&mut s, styles.dim.as_str());
            append_str(&mut s, "index:");
            append_str(&mut s, styles.reset.as_str());
            append_str(&mut s, "       ");
            { let n = usize_text(*index); append_str(&mut s, n.as_str()); }
            append_str(&mut s, "\n  ");
            append_str(&mut s, styles.dim.as_str());
            append_str(&mut s, "duration_ms:");
            append_str(&mut s, styles.reset.as_str());
            append_str(&mut s, " ");
            { let n = u64_text(*duration_ms); append_str(&mut s, n.as_str()); }
            append_str(&mut s, "\n  ");
            append_str(&mut s, styles.dim.as_str());
            append_str(&mut s, "success:");
            append_str(&mut s, styles.reset.as_str());
            append_str(&mut s, "     ");
            { let b = bool_string(*success); append_str(&mut s, b.as_str()); }
            append_str(&mut s, "\n");
        },
        PipelineEvent::ParallelCompleted { duration_ms, success_count, failure_count } => {
            append_str(&mut s, styles.dim.as_str());
            append_str(&mut s, "── PARALLEL_COMPLETED ───────────────────────");
            append_str(&mut s, styles.reset.as_str());
            append_str(&mut s, "\n  ");
            append_str(&mut s, styles.dim.as_str());
            append_str(&mut s, "duration_ms:");
            append_str(&mut s, styles.reset.as_str());
            append_str(&mut s, "   ");
            { let n = u64_text(*duration_ms); append_str(&mut s, n.as_str()); }
            append_str(&mut s, "\n  ");
            append_str(&mut s, styles.dim.as_str());
            append_str(&mut s, "success_count:");
            append_str(&mut s, styles.reset.as_str());
            append_str(&mut s, " ");
            { let n = usize_text(*success_count); append_str(&mut s, n.as_str()); }
            append_str(&mut s, "\n  ");
            append_str(&mut s, styles.dim.as_str());
            append_str(&mut s, "failure_count:");
            append_str(&mut s, styles.reset.as_str());
            append_str(&mut s, " ");
            { let n = usize_text(*failure_count); append_str(&mut s, n.as_str()); }
            append_str(&mut s, "\n");
        },
        PipelineEvent::InterviewStarted { question, stage } => {
            append_str(&mut s, styles.dim.as_str());
            append_str(&mut s, "── INTERVIEW_STARTED ────────────────────────");
            append_str(&mut s, styles.reset.as_str());
            append_str(&mut s, "\n  ");
            append_str(&mut s, styles.dim.as_str());
            append_str(&mut s, "stage:");
            append_str(&mut s, styles.reset.as_str());
            append_str(&mut s, "    ");
            append_str(&mut s, stage.as_str());
            append_str(&mut s, "\n  ");
            append_str(&mut s, styles.dim.as_str());
            append_str(&mut s, "question:");
            append_str(&mut s, styles.reset.as_str());
            append_str(&mut s, " ");
            append_str(&mut s, question.as_str());
            append_str(&mut s, "\n");
        },
        PipelineEvent::InterviewCompleted { question, answer, duration_ms } => {
            append_str(&mut s, styles.dim.as_str());
            append_str(&mut s, "── INTERVIEW_COMPLETED ──────────────────────");
            append_str(&mut s, styles.reset.as_str());
            append_str(&mut s, "\n  ");
            append_str(&mut s, styles.dim.as_str());
            append_str(&mut s, "question:");
            append_str(&mut s, styles.reset.as_str());
            append_str(&mut s, "    ");
            append_str(&mut s, question.as_str());
            append_str(&mut s, "\n  ");
            append_str(&mut s, styles.dim.as_str());
            append_str(&mut s, "answer:");
            append_str(&mut s, styles.reset.as_str());
            append_str(&mut s, "      ");
            append_str(&mut s, answer.as_str());
            append_str(&mut s, "\n  ");
            append_str(&mut s, styles.dim.as_str());
            append_str(&mut s, "duration_ms:");
            append_str(&mut s, styles.reset.as_str());
            append_str(&mut s, " ");
            { let n = u64_text(*duration_ms); append_str(&mut s, n.as_str()); }
            append_str(&mut s, "\n");
        },
        PipelineEvent::InterviewTimeout { question, stage, duration_ms } => {
            append_str(&mut s, styles.dim.as_str());
            append_str(&mut s, "── INTERVIEW_TIMEOUT ────────────────────────");
            append_str(&mut s, styles.reset.as_str());
            append_str(&mut s, "\n  ");
            append_str(&mut s, styles.dim.as_str());
            append_str(&mut s, "question:");
            append_str(&mut s, styles.reset.as_str());
            append_str(&mut s, "    ");
            append_str(&mut s, question.as_str());
            append_str(&mut s, "\n  ");
            append_str(&mut s, styles.dim.as_str());
            append_str(&mut s, "stage:");
            append_str(&mut s, styles.reset.as_str());
            append_str(&mut s, "       ");
            append_str(&mut s, stage.as_str());
            append_str(&mut s, "\n  ");
            append_str(&mut s, styles.dim.as_str());
            append_str(&mut s, "duration_ms:");
            append_str(&mut s, styles.reset.as_str());
            append_str(&mut s, " ");
            { let n = u64_text(*duration_ms); append_str(&mut s, n.as_str()); }
            append_str(&mut s, "\n");
        },
        PipelineEvent::CheckpointSaved { node_id } => {
            append_str(&mut s, styles.dim.as_str());
            append_str(&mut s, "── CHECKPOINT_SAVED ─────────────────────────");
            append_str(&mut s, styles.reset.as_str());
            append_str(&mut s, "\n  ");
            append_str(&mut s, styles.dim.as_str());
            append_str(&mut s, "node_id:");
            append_str(&mut s, styles.reset.as_str());
            append_str(&mut s, " ");
            append_str(&mut s, node_id.as_str());
            append_str(&mut s, "\n");
        },
    }
    s
}

} // verus!
