//! Reconciliation: the algorithm that keeps every pipeline consistent with
//! the jobs that run its steps.
//!
//! Reconciliation is idempotent and resumable: it drives each `Running`
//! pipeline to a settled state, and running it again on a settled state
//! changes nothing and enqueues nothing — a process restart can never
//! duplicate an enqueue or skip a step.

use vstd::prelude::*;
use crate::jobs::{append_job, find_job_index, ids_fresh, is_first_with_id, JobRecord, JobsState};
use crate::pipeline::{pipe_wf, PipelineRecord, PipelineStep, StepImage};
use crate::status::{
    pipeline_step_status_from_job, spec_pipeline_status_of_step, spec_step_status_of_job,
    spec_step_terminal, PipelineStatus, PipelineStepStatus,
};

verus! {

/// Whatever job the id resolves to first is still waiting or running; a
/// dangling id counts as settled (there is nothing to copy from it).
pub open spec fn job_ref_settled(jobs: Seq<JobRecord>, jid: Seq<char>) -> bool {
    forall|x: int|
        #[trigger] is_first_with_id(jobs, jid, x) ==> jobs[x].status is Queued || jobs[x].status
            is Running
}

/// Reconciliation has nothing left to do for this pipeline: an empty
/// pipeline has succeeded, and a running one waits on its current step's
/// bound job.
pub open spec fn pipeline_settled(p: PipelineRecord, jobs: Seq<JobRecord>) -> bool {
    &&& p.steps@.len() == 0 ==> p.status is Succeeded
    &&& p.status is Running ==> {
        let cur = p.current_step_index as int;
        &&& cur < p.steps@.len()
        &&& p.steps@[cur].status is Running
        &&& p.steps@[cur]@.job_id is Some
        &&& job_ref_settled(jobs, p.steps@[cur]@.job_id->0)
    }
}

/// Every pipeline is settled.
pub open spec fn all_settled(ps: Seq<PipelineRecord>, jobs: Seq<JobRecord>) -> bool {
    forall|k: int| 0 <= k < ps.len() ==> pipeline_settled(#[trigger] ps[k], jobs)
}

/// Appending `Queued` jobs never unsettles a pipeline: a bound id either
/// still resolves to the same first match, or newly resolves to one of the
/// appended `Queued` records.
pub proof fn lemma_settled_monotone(p: PipelineRecord, jobs: Seq<JobRecord>, jobs2: Seq<JobRecord>)
    requires
        pipeline_settled(p, jobs),
        jobs2.len() >= jobs.len(),
        jobs2.subrange(0, jobs.len() as int) == jobs,
        forall|x: int| jobs.len() <= x < jobs2.len() ==> (#[trigger] jobs2[x]).status is Queued,
    ensures
        pipeline_settled(p, jobs2),
{
    if p.status is Running {
        let cur = p.current_step_index as int;
        let jid = p.steps@[cur]@.job_id->0;
        assert forall|x: int| #[trigger] is_first_with_id(jobs2, jid, x) implies jobs2[x].status
            is Queued || jobs2[x].status is Running by {
            if x < jobs.len() {
                assert forall|j: int| 0 <= j < x implies (#[trigger] jobs[j]).job_id@ != jid by {
                    assert(jobs[j] == jobs2[j]);
                }
                assert(jobs[x] == jobs2[x]);
                assert(is_first_with_id(jobs, jid, x));
            }
        }
    }
}

/// How one reconciliation pass may change one step: it leaves it alone,
/// copies the terminal status of the step's bound job onto it, or starts a
/// step that had no live job by binding a freshly enqueued `Queued` job of
/// the step's own template.
pub open spec fn step_trace(
    old_st: PipelineStep,
    new_st: PipelineStep,
    jobs: Seq<JobRecord>,
    canonical_id: Seq<char>,
    now_ms: u64,
) -> bool {
    ||| new_st == old_st
    ||| {
        // the bound job finished: its terminal status is mirrored onto the step
        &&& old_st.status is Running
        &&& old_st@.job_id is Some
        &&& exists|x: int|
            {
                &&& #[trigger] is_first_with_id(jobs, old_st@.job_id->0, x)
                &&& spec_step_terminal(spec_step_status_of_job(jobs[x].status))
                &&& new_st@ == (StepImage {
                    status: spec_step_status_of_job(jobs[x].status),
                    run_id: if old_st@.run_id is Some {
                        old_st@.run_id
                    } else {
                        jobs[x]@.run_id
                    },
                    started_at: if old_st.started_at is Some {
                        old_st.started_at
                    } else {
                        Some(now_ms)
                    },
                    finished_at: Some(now_ms),
                    ..old_st@
                })
            }
    }
    ||| {
        // a step without a live job was started on a fresh queued job
        &&& (old_st.status is Pending || (old_st.status is Running && old_st@.job_id is None))
        &&& new_st@.job_id is Some
        &&& exists|x: int|
            {
                &&& 0 <= x < jobs.len()
                &&& (#[trigger] jobs[x]).job_id@ == new_st@.job_id->0
                &&& jobs[x].status is Queued
                &&& jobs[x].template_id@ == old_st.template_id@
                &&& jobs[x].canonical_id@ == canonical_id
            }
        &&& new_st@ == (StepImage {
            status: PipelineStepStatus::Running,
            job_id: new_st@.job_id,
            run_id: old_st@.run_id,
            started_at: if old_st.started_at is Some {
                old_st.started_at
            } else {
                Some(now_ms)
            },
            finished_at: None,
            ..old_st@
        })
    }
}

/// The transient shape the reconciliation loop leaves a running step with
/// no live job in, just before restarting it: reset to `Pending`.
pub open spec fn reset_shape(old_st: PipelineStep, new_st: PipelineStep) -> bool {
    &&& old_st.status is Running
    &&& old_st@.job_id is None
    &&& new_st@ == (StepImage { status: PipelineStepStatus::Pending, ..old_st@ })
}


/// A loose per-step trace (which additionally allows the transient
/// pending reset at the current step) is already strict whenever the
/// current step is not `Pending`.
proof fn lemma_trace_strict(
    old_steps: Seq<PipelineStep>,
    new_steps: Seq<PipelineStep>,
    jobs: Seq<JobRecord>,
    canonical_id: Seq<char>,
    now_ms: u64,
    cur: int,
)
    requires
        old_steps.len() == new_steps.len(),
        forall|i: int|
            0 <= i < new_steps.len() ==> step_trace(
                old_steps[i],
                #[trigger] new_steps[i],
                jobs,
                canonical_id,
                now_ms,
            ) || (i == cur && reset_shape(old_steps[i], new_steps[i])),
        0 <= cur < new_steps.len() ==> !(new_steps[cur].status is Pending),
    ensures
        forall|i: int|
            0 <= i < new_steps.len() ==> step_trace(
                old_steps[i],
                #[trigger] new_steps[i],
                jobs,
                canonical_id,
                now_ms,
            ),
{
    assert forall|i: int| 0 <= i < new_steps.len() implies step_trace(
        old_steps[i],
        #[trigger] new_steps[i],
        jobs,
        canonical_id,
        now_ms,
    ) by {
        if i == cur && !step_trace(old_steps[i], new_steps[i], jobs, canonical_id, now_ms) {
            assert(new_steps[i].status is Pending);
            assert(false);
        }
    }
}

/// The weight of the current step's status in the termination measure of
/// the reconciliation loop.
pub open spec fn step_weight(st: PipelineStepStatus) -> int {
    if st is Running {
        2int
    } else if st is Pending {
        1int
    } else {
        0int
    }
}

/// Reconciles one pipeline against the job queue: advances the current step
/// past successes, halts on a failed, retry-pending or canceled step,
/// starts the pending current step on a fresh job, or waits on the bound
/// job. Returns whether anything changed; nothing changes on a pipeline
/// that is already settled.
pub fn reconcile_one(p: &mut PipelineRecord, jobs: &mut JobsState, now_ms: u64) -> (changed:
    bool)
    requires
        pipe_wf(*old(p)),
        old(jobs).wf(),
        ids_fresh(*old(jobs)),
        old(jobs).next_job_seq < u64::MAX,
    ensures
        pipe_wf(*final(p)),
        final(jobs).wf(),
        ids_fresh(*final(jobs)),
        final(jobs).next_job_seq <= old(jobs).next_job_seq + 1,
        old(jobs).jobs@.len() <= final(jobs).jobs@.len() <= old(jobs).jobs@.len() + 1,
        final(jobs).jobs@.subrange(0, old(jobs).jobs@.len() as int) == old(jobs).jobs@,
        forall|x: int|
            old(jobs).jobs@.len() <= x < final(jobs).jobs@.len() ==> (
            #[trigger] final(jobs).jobs@[x]).status is Queued,
        final(jobs).running_job_id == old(jobs).running_job_id,
        final(jobs).cancel_requested == old(jobs).cancel_requested,
        final(p).pipeline_id == old(p).pipeline_id,
        final(p).canonical_id == old(p).canonical_id,
        final(p).name == old(p).name,
        final(p).created_at == old(p).created_at,
        final(p).auto_retry_attempt_count == old(p).auto_retry_attempt_count,
        final(p).last_primary_viz == old(p).last_primary_viz,
        final(p).steps@.len() == old(p).steps@.len(),
        old(p).current_step_index <= final(p).current_step_index,
        pipeline_settled(*final(p), final(jobs).jobs@),
        pipeline_settled(*old(p), old(jobs).jobs@) ==> !changed,
        !changed ==> *final(p) == *old(p) && *final(jobs) == *old(jobs),
        changed ==> final(p).updated_at == now_ms,
        forall|i: int|
            0 <= i < final(p).steps@.len() ==> step_trace(
                old(p).steps@[i],
                (#[trigger] final(p).steps@[i]),
                final(jobs).jobs@,
                old(p).canonical_id@,
                now_ms,
            ),
        old(p).status is Running && old(p).steps@.len() > 0 ==> {
            &&& (final(p).status is Succeeded ==> (forall|i: int|
                0 <= i < final(p).steps@.len() ==> (#[trigger] final(p).steps@[i]).status
                    is Succeeded))
            &&& ((final(p).status is Failed || final(p).status is NeedsRetry || final(p).status
                is Canceled) ==> {
                let cur = final(p).current_step_index as int;
                &&& spec_step_terminal(final(p).steps@[cur].status)
                &&& !(final(p).steps@[cur].status is Succeeded)
                &&& final(p).status == spec_pipeline_status_of_step(final(p).steps@[cur].status)
            })
        },
{
    let ghost p0 = *old(p);
    let ghost jobs_in = jobs.jobs@;
    if p.steps.len() == 0 {
        if !matches!(p.status, PipelineStatus::Succeeded) {
            p.status = PipelineStatus::Succeeded;
            p.updated_at = now_ms;
            return true;
        }
        return false;
    }
    if !matches!(p.status, PipelineStatus::Running) {
        return false;
    }
    let mut changed = false;
    loop
        invariant
            pipe_wf(p0),
            p0 == *old(p),
            p0.steps@.len() > 0,
            p0.status is Running,
            jobs_in == old(jobs).jobs@,
            old(jobs).wf(),
            ids_fresh(*old(jobs)),
            old(jobs).next_job_seq < u64::MAX,
            pipe_wf(*p),
            *jobs == *old(jobs),
            p.steps@.len() <= usize::MAX,
            p.pipeline_id == p0.pipeline_id,
            p.canonical_id == p0.canonical_id,
            p.name == p0.name,
            p.created_at == p0.created_at,
            p.auto_retry_attempt_count == p0.auto_retry_attempt_count,
            p.last_primary_viz == p0.last_primary_viz,
            p.steps@.len() == p0.steps@.len(),
            p0.current_step_index <= p.current_step_index,
            p.status is Running,
            pipeline_settled(p0, jobs_in) ==> !changed,
            !changed ==> *p == p0,
            changed ==> p.updated_at == now_ms,
            (p.steps@[p.current_step_index as int].status is Running
                && p.steps@[p.current_step_index as int]@.job_id is Some) ==> p.steps@[
                p.current_step_index as int
            ] == p0.steps@[p.current_step_index as int],
            p.steps@[p.current_step_index as int].status is Pending ==> (p.steps@[
                p.current_step_index as int
            ] == p0.steps@[p.current_step_index as int] || (p.steps@[
                p.current_step_index as int
            ]@ == (StepImage {
                status: PipelineStepStatus::Pending,
                ..p0.steps@[p.current_step_index as int]@
            }) && p0.steps@[p.current_step_index as int].status is Running && p0.steps@[
                p.current_step_index as int
            ]@.job_id is None)),
            forall|i: int|
                0 <= i < p.steps@.len() ==> step_trace(
                    p0.steps@[i],
                    (#[trigger] p.steps@[i]),
                    jobs.jobs@,
                    p0.canonical_id@,
                    now_ms,
                ) || (i == p.current_step_index as int && reset_shape(
                    p0.steps@[i],
                    p.steps@[i],
                )),
        decreases 3 * (p.steps@.len() - p.current_step_index) + step_weight(
            p.steps@[p.current_step_index as int].status,
        ),
    {
        let idx = p.current_step_index;
        let st = p.steps[idx].status;
        match st {
            PipelineStepStatus::Succeeded => {
                proof {
                    if pipeline_settled(p0, jobs_in) {
                        assert(!changed);
                        assert(p0.steps@[p0.current_step_index as int].status is Running);
                        assert(false);
                    }
                }
                if idx + 1 >= p.steps.len() {
                    p.status = PipelineStatus::Succeeded;
                    p.updated_at = now_ms;
                    proof {
                        assert forall|i: int| 0 <= i < p.steps@.len() implies (
                        #[trigger] p.steps@[i]).status is Succeeded by {
                            if i > idx as int {
                                assert(p.steps@[i].status is Pending);
                            }
                        }
                    }
                proof {
                    lemma_trace_strict(
                        p0.steps@,
                        p.steps@,
                        jobs.jobs@,
                        p0.canonical_id@,
                        now_ms,
                        p.current_step_index as int,
                    );
                }
                    return true;
                }
                p.current_step_index = idx + 1;
                p.updated_at = now_ms;
                changed = true;
                proof {
                    let ni = idx as int + 1;
                    assert(step_trace(
                        p0.steps@[ni],
                        p.steps@[ni],
                        jobs.jobs@,
                        p0.canonical_id@,
                        now_ms,
                    ));
                    if p.steps@[ni] != p0.steps@[ni] {
                        assert(p.steps@[ni].status is Pending);
                        assert(false);
                    }
                }
            },
            PipelineStepStatus::Failed | PipelineStepStatus::NeedsRetry
                | PipelineStepStatus::Canceled => {
                proof {
                    if pipeline_settled(p0, jobs_in) {
                        assert(!changed);
                        assert(p0.steps@[p0.current_step_index as int].status is Running);
                        assert(false);
                    }
                }
                p.status = match st {
                    PipelineStepStatus::NeedsRetry => PipelineStatus::NeedsRetry,
                    PipelineStepStatus::Canceled => PipelineStatus::Canceled,
                    _ => PipelineStatus::Failed,
                };
                p.updated_at = now_ms;
                proof {
                    lemma_trace_strict(
                        p0.steps@,
                        p.steps@,
                        jobs.jobs@,
                        p0.canonical_id@,
                        now_ms,
                        p.current_step_index as int,
                    );
                }
                return true;
            },
            PipelineStepStatus::Pending => {
                proof {
                    if pipeline_settled(p0, jobs_in) {
                        assert(!changed);
                        assert(p0.steps@[p0.current_step_index as int].status is Running);
                        assert(false);
                    }
                }
                let ghost jobs_before = jobs.jobs@;
                let ghost seq_before = jobs.next_job_seq;
                let mut step = p.steps[idx].duplicate();
                let job_id = append_job(
                    jobs,
                    step.template_id.clone(),
                    p.canonical_id.clone(),
                    step.params.duplicate(),
                    now_ms,
                );
                step.job_id = Some(job_id);
                step.status = PipelineStepStatus::Running;
                if step.started_at.is_none() {
                    step.started_at = Some(now_ms);
                }
                step.finished_at = None;
                p.steps[idx] = step;
                p.updated_at = now_ms;
                proof {
                    assert(jobs.jobs@.subrange(0, jobs_in.len() as int) =~= jobs_in);
                    let bound = p.steps@[idx as int]@.job_id->0;
                    let fresh = jobs.jobs@.len() - 1;
                    assert(jobs.jobs@[fresh].job_id@ == bound);
                    assert(jobs.jobs@[fresh].status is Queued);
                    assert(jobs.jobs@[fresh].template_id@ == p0.steps@[idx as int].template_id@);
                    assert(jobs.jobs@[fresh].canonical_id@ == p0.canonical_id@);
                    assert(step_trace(
                        p0.steps@[idx as int],
                        p.steps@[idx as int],
                        jobs.jobs@,
                        p0.canonical_id@,
                        now_ms,
                    ));
                    assert forall|i: int| 0 <= i < p.steps@.len() implies step_trace(
                        p0.steps@[i],
                        (#[trigger] p.steps@[i]),
                        jobs.jobs@,
                        p0.canonical_id@,
                        now_ms,
                    ) by {
                        if i != idx as int {
                            lemma_step_trace_monotone(
                                p0.steps@[i],
                                p.steps@[i],
                                jobs_before,
                                jobs.jobs@,
                                p0.canonical_id@,
                                now_ms,
                            );
                        }
                    }
                    assert(job_ref_settled(jobs.jobs@, bound)) by {
                        assert forall|x: int| #[trigger] is_first_with_id(jobs.jobs@, bound, x)
                            implies jobs.jobs@[x].status is Queued || jobs.jobs@[x].status
                            is Running by {
                            if x < fresh {
                                if x < jobs_before.len() {
                                    assert(jobs.jobs@[x] == jobs_before[x]);
                                    if x < jobs_in.len() {
                                        assert(crate::jobs::no_job_with_id(
                                            jobs_before,
                                            crate::jobs::spec_job_id(seq_before),
                                        ));
                                    }
                                }
                            }
                        }
                    }
                }
                return true;
            },
            PipelineStepStatus::Running => {
                let has_job = p.steps[idx].job_id.is_some();
                if !has_job {
                    proof {
                        if pipeline_settled(p0, jobs_in) {
                            assert(!changed);
                            assert(p0.steps@[p0.current_step_index as int]@.job_id is Some);
                            assert(false);
                        }
                    }
                    proof {
                        assert(step_trace(
                            p0.steps@[idx as int],
                            p.steps@[idx as int],
                            jobs.jobs@,
                            p0.canonical_id@,
                            now_ms,
                        ));
                        if p.steps@[idx as int] != p0.steps@[idx as int] {
                            assert(p.steps@[idx as int].status is Running);
                            assert(p.steps@[idx as int]@.job_id is None);
                            assert(false);
                        }
                    }
                    let mut step = p.steps[idx].duplicate();
                    step.status = PipelineStepStatus::Pending;
                    p.steps[idx] = step;
                    p.updated_at = now_ms;
                    changed = true;
                } else {
                    let jid = match &p.steps[idx].job_id {
                        Some(j) => j.clone(),
                        None => {
                            proof {
                                assert(false);
                            }
                            String::new()
                        },
                    };
                    match find_job_index(&jobs.jobs, jid.as_str()) {
                        None => {
                proof {
                    lemma_trace_strict(
                        p0.steps@,
                        p.steps@,
                        jobs.jobs@,
                        p0.canonical_id@,
                        now_ms,
                        p.current_step_index as int,
                    );
                }
                            return changed;
                        },
                        Some(x) => {
                            let jst = jobs.jobs[x].status;
                            let mapped = pipeline_step_status_from_job(jst);
                            if matches!(mapped, PipelineStepStatus::Running) {
                                proof {
                                    assert(is_first_with_id(jobs.jobs@, jid@, x as int));
                                    assert(job_ref_settled(jobs.jobs@, jid@)) by {
                                        assert forall|y: int|
                                            #[trigger] is_first_with_id(jobs.jobs@, jid@, y)
                                            implies jobs.jobs@[y].status is Queued
                                            || jobs.jobs@[y].status is Running by {
                                            if y < x as int {
                                                assert(jobs.jobs@[y].job_id@ != jid@);
                                            }
                                            if y > x as int {
                                                assert(jobs.jobs@[x as int].job_id@ != jid@);
                                            }
                                        }
                                    }
                                }
                proof {
                    lemma_trace_strict(
                        p0.steps@,
                        p.steps@,
                        jobs.jobs@,
                        p0.canonical_id@,
                        now_ms,
                        p.current_step_index as int,
                    );
                }
                                return changed;
                            }
                            proof {
                                if pipeline_settled(p0, jobs_in) {
                                    assert(!changed);
                                    assert(is_first_with_id(jobs_in, jid@, x as int));
                                    assert(false);
                                }
                            }
                            let mut step = p.steps[idx].duplicate();
                            step.status = mapped;
                            if step.started_at.is_none() {
                                step.started_at = Some(now_ms);
                            }
                            step.finished_at = Some(now_ms);
                            if step.run_id.is_none() {
                                step.run_id = crate::jobs::clone_opt_string(&jobs.jobs[x].run_id);
                            }
                            p.steps[idx] = step;
                            p.updated_at = now_ms;
                            proof {
                                assert(is_first_with_id(jobs.jobs@, jid@, x as int));
                                assert(spec_step_terminal(
                                    spec_step_status_of_job(jobs.jobs@[x as int].status),
                                ));
                                assert(step_trace(
                                    p0.steps@[idx as int],
                                    p.steps@[idx as int],
                                    jobs.jobs@,
                                    p0.canonical_id@,
                                    now_ms,
                                ));
                            }
                            changed = true;
                        },
                    }
                }
            },
        }
    }
}

/// Reconciles every pipeline against the job queue, in order. This is the
/// full scan; reconciliation scoped to one triggering job must behave
/// identically, so the full scan is the one implementation. Running it
/// twice in a row changes nothing the second time and creates no duplicate
/// jobs.
pub fn reconcile_pipelines(
    ps: &mut Vec<PipelineRecord>,
    jobs: &mut JobsState,
    now_ms: u64,
) -> (changed: bool)
    requires
        forall|k: int| 0 <= k < old(ps)@.len() ==> pipe_wf(#[trigger] old(ps)@[k]),
        old(jobs).wf(),
        ids_fresh(*old(jobs)),
        old(jobs).next_job_seq as int + old(ps)@.len() <= u64::MAX as int,
    ensures
        forall|k: int| 0 <= k < final(ps)@.len() ==> pipe_wf(#[trigger] final(ps)@[k]),
        final(jobs).wf(),
        ids_fresh(*final(jobs)),
        old(jobs).jobs@.len() <= final(jobs).jobs@.len() <= old(jobs).jobs@.len() + old(
            ps,
        )@.len(),
        final(jobs).next_job_seq as int <= old(jobs).next_job_seq as int + old(ps)@.len(),
        final(jobs).jobs@.subrange(0, old(jobs).jobs@.len() as int) == old(jobs).jobs@,
        forall|x: int|
            old(jobs).jobs@.len() <= x < final(jobs).jobs@.len() ==> (
            #[trigger] final(jobs).jobs@[x]).status is Queued,
        final(jobs).running_job_id == old(jobs).running_job_id,
        final(jobs).cancel_requested == old(jobs).cancel_requested,
        final(ps)@.len() == old(ps)@.len(),
        forall|k: int|
            0 <= k < final(ps)@.len() ==> {
                let np = #[trigger] final(ps)@[k];
                let op = old(ps)@[k];
                &&& np.pipeline_id == op.pipeline_id
                &&& np.canonical_id == op.canonical_id
                &&& np.name == op.name
                &&& np.created_at == op.created_at
                &&& np.auto_retry_attempt_count == op.auto_retry_attempt_count
                &&& np.last_primary_viz == op.last_primary_viz
                &&& np.steps@.len() == op.steps@.len()
                &&& op.current_step_index <= np.current_step_index
                &&& (forall|i: int|
                    0 <= i < np.steps@.len() ==> step_trace(
                        op.steps@[i],
                        (#[trigger] np.steps@[i]),
                        final(jobs).jobs@,
                        op.canonical_id@,
                        now_ms,
                    ))
                &&& (op.status is Running && op.steps@.len() > 0 ==> {
                    &&& (np.status is Succeeded ==> (forall|i: int|
                        0 <= i < np.steps@.len() ==> (#[trigger] np.steps@[i]).status
                            is Succeeded))
                    &&& ((np.status is Failed || np.status is NeedsRetry || np.status
                        is Canceled) ==> {
                        let cur = np.current_step_index as int;
                        &&& spec_step_terminal(np.steps@[cur].status)
                        &&& !(np.steps@[cur].status is Succeeded)
                        &&& np.status == spec_pipeline_status_of_step(np.steps@[cur].status)
                    })
                })
                &&& (!(op.status is Running) && op.steps@.len() > 0 ==> np == op)
            },
        all_settled(final(ps)@, final(jobs).jobs@),
        all_settled(old(ps)@, old(jobs).jobs@) ==> !changed,
        !changed ==> final(ps)@ == old(ps)@ && *final(jobs) == *old(jobs),
{
    let mut changed = false;
    let mut k: usize = 0;
    let n = ps.len();
    while k < n
        invariant
            n == ps@.len(),
            0 <= k <= n,
            ps@.len() == old(ps)@.len(),
            forall|m: int| 0 <= m < old(ps)@.len() ==> pipe_wf(#[trigger] old(ps)@[m]),
            old(jobs).wf(),
            ids_fresh(*old(jobs)),
            old(jobs).next_job_seq as int + old(ps)@.len() <= u64::MAX as int,
            forall|m: int| k <= m < n ==> #[trigger] ps@[m] == old(ps)@[m],
            forall|m: int| 0 <= m < n ==> pipe_wf(#[trigger] ps@[m]),
            jobs.wf(),
            ids_fresh(*jobs),
            jobs.next_job_seq as int <= old(jobs).next_job_seq as int + k,
            old(jobs).jobs@.len() <= jobs.jobs@.len() <= old(jobs).jobs@.len() + k,
            jobs.jobs@.subrange(0, old(jobs).jobs@.len() as int) == old(jobs).jobs@,
            forall|x: int|
                old(jobs).jobs@.len() <= x < jobs.jobs@.len() ==> (
                #[trigger] jobs.jobs@[x]).status is Queued,
            jobs.running_job_id == old(jobs).running_job_id,
            jobs.cancel_requested == old(jobs).cancel_requested,
            forall|m: int|
                0 <= m < k ==> {
                    let np = #[trigger] ps@[m];
                    let op = old(ps)@[m];
                    &&& np.pipeline_id == op.pipeline_id
                    &&& np.canonical_id == op.canonical_id
                    &&& np.name == op.name
                    &&& np.created_at == op.created_at
                    &&& np.auto_retry_attempt_count == op.auto_retry_attempt_count
                    &&& np.last_primary_viz == op.last_primary_viz
                    &&& np.steps@.len() == op.steps@.len()
                    &&& op.current_step_index <= np.current_step_index
                    &&& pipeline_settled(np, jobs.jobs@)
                    &&& (forall|i: int|
                        0 <= i < np.steps@.len() ==> step_trace(
                            op.steps@[i],
                            (#[trigger] np.steps@[i]),
                            jobs.jobs@,
                            op.canonical_id@,
                            now_ms,
                        ))
                    &&& (op.status is Running && op.steps@.len() > 0 ==> {
                        &&& (np.status is Succeeded ==> (forall|i: int|
                            0 <= i < np.steps@.len() ==> (#[trigger] np.steps@[i]).status
                                is Succeeded))
                        &&& ((np.status is Failed || np.status is NeedsRetry || np.status
                            is Canceled) ==> {
                            let cur = np.current_step_index as int;
                            &&& spec_step_terminal(np.steps@[cur].status)
                            &&& !(np.steps@[cur].status is Succeeded)
                            &&& np.status == spec_pipeline_status_of_step(np.steps@[cur].status)
                        })
                    })
                    &&& (!(op.status is Running) && op.steps@.len() > 0 ==> np == op)
                },
            all_settled(old(ps)@, old(jobs).jobs@) ==> !changed,
            !changed ==> ps@ == old(ps)@ && *jobs == *old(jobs),
        decreases n - k,
    {
        let ghost ps_pre = ps@;
        let ghost jobs_pre = jobs.jobs@;
        let ghost jobs_pre_state = *jobs;
        let ch = reconcile_one(&mut ps[k], jobs, now_ms);
        proof {
            assert(jobs.jobs@.subrange(0, old(jobs).jobs@.len() as int) =~= jobs_pre.subrange(
                0,
                old(jobs).jobs@.len() as int,
            ));
            assert forall|x: int|
                old(jobs).jobs@.len() <= x < jobs.jobs@.len() implies (
            #[trigger] jobs.jobs@[x]).status is Queued by {
                if x < jobs_pre.len() {
                    assert(jobs.jobs@[x] == jobs.jobs@.subrange(0, jobs_pre.len() as int)[x]);
                    assert(jobs.jobs@[x] == jobs_pre[x]);
                }
            }
            assert forall|m: int| 0 <= m < k + 1 implies {
                let np = #[trigger] ps@[m];
                let op = old(ps)@[m];
                &&& pipeline_settled(np, jobs.jobs@)
                &&& (forall|i: int|
                    0 <= i < np.steps@.len() ==> step_trace(
                        op.steps@[i],
                        (#[trigger] np.steps@[i]),
                        jobs.jobs@,
                        op.canonical_id@,
                        now_ms,
                    ))
            } by {
                let np = ps@[m];
                let op = old(ps)@[m];
                if m < k {
                    assert(ps@[m] == ps_pre[m]);
                    lemma_settled_monotone(np, jobs_pre, jobs.jobs@);
                    assert forall|i: int| 0 <= i < np.steps@.len() implies step_trace(
                        op.steps@[i],
                        (#[trigger] np.steps@[i]),
                        jobs.jobs@,
                        op.canonical_id@,
                        now_ms,
                    ) by {
                        lemma_step_trace_monotone(
                            op.steps@[i],
                            np.steps@[i],
                            jobs_pre,
                            jobs.jobs@,
                            op.canonical_id@,
                            now_ms,
                        );
                    }
                }
            }
            if all_settled(old(ps)@, old(jobs).jobs@) {
                assert(pipeline_settled(old(ps)@[k as int], old(jobs).jobs@));
            }
        }
        if ch {
            changed = true;
        }
        k = k + 1;
    }
    changed
}

/// A step trace stays valid when more `Queued` jobs are appended.
proof fn lemma_step_trace_monotone(
    old_st: PipelineStep,
    new_st: PipelineStep,
    jobs: Seq<JobRecord>,
    jobs2: Seq<JobRecord>,
    canonical_id: Seq<char>,
    now_ms: u64,
)
    requires
        step_trace(old_st, new_st, jobs, canonical_id, now_ms),
        jobs2.len() >= jobs.len(),
        jobs2.subrange(0, jobs.len() as int) == jobs,
    ensures
        step_trace(old_st, new_st, jobs2, canonical_id, now_ms),
{
    if new_st == old_st {
    } else if old_st.status is Running && old_st@.job_id is Some && (exists|x: int|
        {
            &&& #[trigger] is_first_with_id(jobs, old_st@.job_id->0, x)
            &&& spec_step_terminal(spec_step_status_of_job(jobs[x].status))
            &&& new_st@ == (StepImage {
                status: spec_step_status_of_job(jobs[x].status),
                run_id: if old_st@.run_id is Some {
                    old_st@.run_id
                } else {
                    jobs[x]@.run_id
                },
                started_at: if old_st.started_at is Some {
                    old_st.started_at
                } else {
                    Some(now_ms)
                },
                finished_at: Some(now_ms),
                ..old_st@
            })
        }) {
        let x = choose|x: int|
            {
                &&& #[trigger] is_first_with_id(jobs, old_st@.job_id->0, x)
                &&& spec_step_terminal(spec_step_status_of_job(jobs[x].status))
                &&& new_st@ == (StepImage {
                    status: spec_step_status_of_job(jobs[x].status),
                    run_id: if old_st@.run_id is Some {
                        old_st@.run_id
                    } else {
                        jobs[x]@.run_id
                    },
                    started_at: if old_st.started_at is Some {
                        old_st.started_at
                    } else {
                        Some(now_ms)
                    },
                    finished_at: Some(now_ms),
                    ..old_st@
                })
            };
        assert(jobs2[x] == jobs[x]);
        assert forall|j: int| 0 <= j < x implies (#[trigger] jobs2[j]).job_id@ != old_st@.job_id
            ->0 by {
            assert(jobs2[j] == jobs[j]);
        }
        assert(is_first_with_id(jobs2, old_st@.job_id->0, x));
    } else {
        let x = choose|x: int|
            {
                &&& 0 <= x < jobs.len()
                &&& (#[trigger] jobs[x]).job_id@ == new_st@.job_id->0
                &&& jobs[x].status is Queued
                &&& jobs[x].template_id@ == old_st.template_id@
                &&& jobs[x].canonical_id@ == canonical_id
            };
        assert(jobs2[x] == jobs[x]);
    }
}

} // verus!
