//! Status taxonomies for jobs, pipeline steps and pipelines, and the small
//! predicates and mappings between them.

use vstd::prelude::*;

verus! {

/// Lifecycle status of a job owned by the job queue.
#[derive(Clone, Copy, Debug, PartialEq, Eq, Structural)]
pub enum JobStatus {
    Queued,
    Running,
    Succeeded,
    Failed,
    NeedsRetry,
    Canceled,
}

/// Status of one pipeline step, mirrored from its bound job while it runs.
/// `Pending` means no job has been enqueued for the step yet.
#[derive(Clone, Copy, Debug, PartialEq, Eq, Structural)]
pub enum PipelineStepStatus {
    Pending,
    Running,
    Succeeded,
    Failed,
    NeedsRetry,
    Canceled,
}

/// Overall status of a pipeline.
#[derive(Clone, Copy, Debug, PartialEq, Eq, Structural)]
pub enum PipelineStatus {
    Running,
    Succeeded,
    Failed,
    NeedsRetry,
    Canceled,
}

/// A job status from which no further automatic transition occurs without
/// caller action.
pub open spec fn spec_job_terminal(status: JobStatus) -> bool {
    status is Succeeded || status is Failed || status is NeedsRetry || status is Canceled
}

/// A job in a terminal state that a "clear finished" sweep may remove:
/// terminal and not awaiting a retry.
pub open spec fn spec_job_finished(status: JobStatus) -> bool {
    status is Succeeded || status is Failed || status is Canceled
}

/// The step status that mirrors a given job status: a queued or running job
/// keeps the step `Running`; terminal job statuses carry over one to one.
pub open spec fn spec_step_status_of_job(status: JobStatus) -> PipelineStepStatus {
    match status {
        JobStatus::Queued => PipelineStepStatus::Running,
        JobStatus::Running => PipelineStepStatus::Running,
        JobStatus::Succeeded => PipelineStepStatus::Succeeded,
        JobStatus::Failed => PipelineStepStatus::Failed,
        JobStatus::NeedsRetry => PipelineStepStatus::NeedsRetry,
        JobStatus::Canceled => PipelineStepStatus::Canceled,
    }
}

/// A step status from which the step will not move without a new job or a
/// caller action.
pub open spec fn spec_step_terminal(status: PipelineStepStatus) -> bool {
    status is Succeeded || status is Failed || status is NeedsRetry || status is Canceled
}

/// The pipeline status a halting step status maps to.
pub open spec fn spec_pipeline_status_of_step(status: PipelineStepStatus) -> PipelineStatus {
    match status {
        PipelineStepStatus::NeedsRetry => PipelineStatus::NeedsRetry,
        PipelineStepStatus::Canceled => PipelineStatus::Canceled,
        _ => PipelineStatus::Failed,
    }
}

/// Maps a job status onto the step that is bound to the job.
pub fn pipeline_step_status_from_job(status: JobStatus) -> (r: PipelineStepStatus)
    ensures
        r == spec_step_status_of_job(status),
{
    match status {
        JobStatus::Queued | JobStatus::Running => PipelineStepStatus::Running,
        JobStatus::Succeeded => PipelineStepStatus::Succeeded,
        JobStatus::Failed => PipelineStepStatus::Failed,
        JobStatus::NeedsRetry => PipelineStepStatus::NeedsRetry,
        JobStatus::Canceled => PipelineStepStatus::Canceled,
    }
}

/// A job that needs caller attention: it failed, or waits for a retry.
pub fn is_needs_attention_job_status(status: &JobStatus) -> (r: bool)
    ensures
        r == (*status is Failed || *status is NeedsRetry),
{
    matches!(status, JobStatus::Failed | JobStatus::NeedsRetry)
}

/// A pipeline that needs caller attention: it failed, or waits for a retry.
pub fn is_needs_attention_pipeline_status(status: &PipelineStatus) -> (r: bool)
    ensures
        r == (*status is Failed || *status is NeedsRetry),
{
    matches!(status, PipelineStatus::Failed | PipelineStatus::NeedsRetry)
}

/// True when the step has reached a terminal status.
pub fn is_pipeline_step_terminal(status: &PipelineStepStatus) -> (r: bool)
    ensures
        r == spec_step_terminal(*status),
{
    matches!(
        status,
        PipelineStepStatus::Succeeded
            | PipelineStepStatus::Failed
            | PipelineStepStatus::NeedsRetry
            | PipelineStepStatus::Canceled
    )
}

/// True when the job has reached a terminal status.
pub fn is_job_terminal(status: &JobStatus) -> (r: bool)
    ensures
        r == spec_job_terminal(*status),
{
    matches!(
        status,
        JobStatus::Succeeded | JobStatus::Failed | JobStatus::NeedsRetry | JobStatus::Canceled
    )
}

/// The lower-case display text of a pipeline status.
pub fn pipeline_status_text(status: &PipelineStatus) -> (r: &'static str)
    ensures
        *status is Running ==> r@ == "running"@,
        *status is Succeeded ==> r@ == "succeeded"@,
        *status is Failed ==> r@ == "failed"@,
        *status is NeedsRetry ==> r@ == "needs_retry"@,
        *status is Canceled ==> r@ == "canceled"@,
{
    match status {
        PipelineStatus::Running => "running",
        PipelineStatus::Succeeded => "succeeded",
        PipelineStatus::Failed => "failed",
        PipelineStatus::NeedsRetry => "needs_retry",
        PipelineStatus::Canceled => "canceled",
    }
}

} // verus!
