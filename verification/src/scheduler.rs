//! The auto-retry scheduler: one periodic tick that re-queues eligible
//! failed work within its budget, at most one retry per tick.

use vstd::prelude::*;
use vstd::string::StringExecFns;
use crate::errors::CoreError;
use crate::jobs::{ids_fresh, JobImage, JobRecord, JobsState};
use crate::pipeline::PipelineRecord;
use crate::retry::compute_next_retry_at_ms;
use crate::settings::DesktopSettings;
use crate::status::JobStatus;
use crate::text::{chars_lt, chars_of, lex_lt};

verus! {

/// What one scheduler tick reports to the host.
#[derive(Debug)]
pub struct AutoRetryTickResult {
    pub acted: bool,
    pub job_id: Option<String>,
    pub pipeline_id: Option<String>,
    pub reason: String,
}

/// One line for the append-only audit log, recorded when a tick dispatches
/// a retry. The host serialises and appends it.
#[derive(Debug)]
pub struct AuditAutoRetryEntry {
    pub ts: u64,
    pub kind: String,
    pub job_id: String,
    pub pipeline_id: Option<String>,
    pub reason: String,
    pub next_retry_at: Option<u64>,
    pub attempt: u32,
}

/// The retry instant the scheduler works with: the stored one, or the one
/// the fill pass would compute for a job that has none yet.
pub open spec fn effective_retry_at(j: JobImage, now_ms: u64, settings: DesktopSettings) -> u64 {
    match j.retry_at {
        Some(t) => t,
        None => crate::jobs::spec_next_retry_u64(
            now_ms,
            j.retry_after_ms,
            crate::jobs::sat_inc_u32(j.auto_retry_attempt_count),
            settings,
        ),
    }
}

/// The fill pass writes the missing retry instant of a `NeedsRetry` job and
/// leaves every other job alone.
pub open spec fn spec_filled(j: JobImage, now_ms: u64, settings: DesktopSettings) -> JobImage {
    if j.status is NeedsRetry && j.retry_at is None {
        JobImage { retry_at: Some(effective_retry_at(j, now_ms, settings)), ..j }
    } else {
        j
    }
}

/// Writes a retry instant into every `NeedsRetry` job that lacks one, using
/// the backoff formula with the upcoming attempt number. Returns whether
/// any schedule was written (the host then persists the queue).
pub fn fill_retry_schedules(
    jobs: &mut JobsState,
    settings: &DesktopSettings,
    now_ms: u64,
) -> (changed: bool)
    requires
        old(jobs).wf(),
    ensures
        final(jobs).wf(),
        final(jobs).running_job_id == old(jobs).running_job_id,
        final(jobs).cancel_requested == old(jobs).cancel_requested,
        final(jobs).next_job_seq == old(jobs).next_job_seq,
        final(jobs).jobs@.len() == old(jobs).jobs@.len(),
        forall|i: int|
            0 <= i < final(jobs).jobs@.len() ==> (#[trigger] final(jobs).jobs@[i])@
                == spec_filled(old(jobs).jobs@[i]@, now_ms, *settings),
        ids_fresh(*old(jobs)) ==> ids_fresh(*final(jobs)),
        changed <==> (exists|i: int|
            0 <= i < old(jobs).jobs@.len() && (#[trigger] old(jobs).jobs@[i]).status
                is NeedsRetry && old(jobs).jobs@[i].retry_at is None),
{
    let mut changed = false;
    let mut i: usize = 0;
    let n = jobs.jobs.len();
    while i < n
        invariant
            old(jobs).wf(),
            0 <= i <= n,
            n == jobs.jobs@.len(),
            n == old(jobs).jobs@.len(),
            jobs.running_job_id == old(jobs).running_job_id,
            jobs.cancel_requested == old(jobs).cancel_requested,
            jobs.next_job_seq == old(jobs).next_job_seq,
            forall|m: int|
                0 <= m < i ==> (#[trigger] jobs.jobs@[m])@ == spec_filled(
                    old(jobs).jobs@[m]@,
                    now_ms,
                    *settings,
                ),
            forall|m: int| i <= m < n ==> #[trigger] jobs.jobs@[m] == old(jobs).jobs@[m],
            changed <==> (exists|m: int|
                0 <= m < i && (#[trigger] old(jobs).jobs@[m]).status is NeedsRetry && old(
                    jobs,
                ).jobs@[m].retry_at is None),
        decreases n - i,
    {
        let needs = matches!(jobs.jobs[i].status, JobStatus::NeedsRetry) && jobs.jobs[
            i
        ].retry_at.is_none();
        if needs {
            let mut rec = jobs.jobs[i].duplicate();
            let next_attempt = rec.auto_retry_attempt_count.saturating_add(1);
            let at = compute_next_retry_at_ms(now_ms, rec.retry_after_ms, next_attempt, settings);
            rec.retry_at = Some(at);
            jobs.jobs[i] = rec;
            changed = true;
            proof {
                assert((jobs.jobs@[i as int])@ == spec_filled(
                    old(jobs).jobs@[i as int]@,
                    now_ms,
                    *settings,
                ));
            }
        }
        i = i + 1;
    }
    proof {
        if old(jobs).wf() {
            assert forall|a: int, b: int| 0 <= a < b < jobs.jobs@.len() implies !((
            #[trigger] jobs.jobs@[a]).status is Running && (#[trigger] jobs.jobs@[b]).status
                is Running) by {
                assert(jobs.jobs@[a]@.status == old(jobs).jobs@[a]@.status);
                assert(jobs.jobs@[b]@.status == old(jobs).jobs@[b]@.status);
            }
        }
        if ids_fresh(*old(jobs)) {
            assert forall|a: int, k: u64|
                #![trigger jobs.jobs@[a], crate::jobs::spec_job_id(k)]
                0 <= a < jobs.jobs@.len() && jobs.next_job_seq <= k implies jobs.jobs@[a].job_id@
                != crate::jobs::spec_job_id(k) by {
                assert(jobs.jobs@[a]@.job_id == old(jobs).jobs@[a]@.job_id);
            }
        }
    }
    changed
}

/// Pipeline `p` has a step bound to the job id.
pub open spec fn pipeline_binds(p: PipelineRecord, jid: Seq<char>) -> bool {
    exists|s: int| 0 <= s < p.steps@.len() && (#[trigger] p.steps@[s])@.job_id == Some(jid)
}

/// `k` is the first pipeline with a step bound to the job id.
pub open spec fn is_first_binding(ps: Seq<PipelineRecord>, jid: Seq<char>, k: int) -> bool {
    0 <= k < ps.len() && pipeline_binds(ps[k], jid) && (forall|m: int|
        0 <= m < k ==> !pipeline_binds(#[trigger] ps[m], jid))
}

/// Finds the first pipeline with a step bound to the job id, and the first
/// such step in it.
pub fn find_binding(ps: &Vec<PipelineRecord>, jid: &str) -> (r: Option<(usize, usize)>)
    ensures
        match r {
            Some((k, s)) => is_first_binding(ps@, jid@, k as int) && 0 <= s < ps@[
                k as int
            ].steps@.len() && ps@[k as int].steps@[s as int]@.job_id == Some(jid@),
            None => forall|m: int| 0 <= m < ps@.len() ==> !pipeline_binds(#[trigger] ps@[m], jid@),
        },
{
    let mut k: usize = 0;
    while k < ps.len()
        invariant
            0 <= k <= ps@.len(),
            forall|m: int| 0 <= m < k ==> !pipeline_binds(#[trigger] ps@[m], jid@),
        decreases ps@.len() - k,
    {
        let nsteps = ps[k].steps.len();
        let mut s: usize = 0;
        while s < nsteps
            invariant
                k < ps@.len(),
                0 <= s <= nsteps,
                nsteps == ps@[k as int].steps@.len(),
                forall|m: int| 0 <= m < k ==> !pipeline_binds(#[trigger] ps@[m], jid@),
                forall|t: int|
                    0 <= t < s ==> (#[trigger] ps@[k as int].steps@[t])@.job_id != Some(jid@),
            decreases nsteps - s,
        {
            let bound = match &ps[k].steps[s].job_id {
                Some(j) => crate::identifier::str_eq(j.as_str(), jid),
                None => false,
            };
            if bound {
                proof {
                    assert(ps@[k as int].steps@[s as int]@.job_id == Some(jid@));
                    assert(pipeline_binds(ps@[k as int], jid@));
                }
                return Some((k, s));
            }
            s = s + 1;
        }
        proof {
            assert(!pipeline_binds(ps@[k as int], jid@));
        }
        k = k + 1;
    }
    None
}

/// A job the scheduler may retry this tick: it awaits a retry whose instant
/// has elapsed, it has budget left, and so does the pipeline it belongs to,
/// if any.
pub open spec fn eligible(
    jobs: Seq<JobRecord>,
    ps: Seq<PipelineRecord>,
    settings: DesktopSettings,
    now_ms: u64,
    i: int,
) -> bool {
    &&& 0 <= i < jobs.len()
    &&& jobs[i].status is NeedsRetry
    &&& effective_retry_at(jobs[i]@, now_ms, settings) <= now_ms
    &&& jobs[i].auto_retry_attempt_count < settings.auto_retry_max_per_job
    &&& forall|k: int|
        #[trigger] is_first_binding(ps, jobs[i].job_id@, k)
            ==> ps[k].auto_retry_attempt_count < settings.auto_retry_max_per_pipeline
}

/// The scheduler prefers the earliest retry instant, then the smaller job
/// id.
pub open spec fn earlier_candidate(
    jobs: Seq<JobRecord>,
    settings: DesktopSettings,
    now_ms: u64,
    i: int,
    j: int,
) -> bool {
    let ai = effective_retry_at(jobs[i]@, now_ms, settings);
    let aj = effective_retry_at(jobs[j]@, now_ms, settings);
    ai < aj || (ai == aj && lex_lt(jobs[i].job_id@, jobs[j].job_id@))
}

/// Picks the job to retry this tick: the eligible job with the earliest
/// retry instant, ties broken by job id. Returns its index and, when it is
/// bound to a pipeline step, the first such pipeline and step.
pub fn select_retry_candidate(
    jobs: &JobsState,
    ps: &Vec<PipelineRecord>,
    settings: &DesktopSettings,
    now_ms: u64,
) -> (r: Option<(usize, Option<(usize, usize)>)>)
    ensures
        match r {
            None => forall|i: int| !eligible(jobs.jobs@, ps@, *settings, now_ms, i),
            Some((i, link)) => {
                &&& eligible(jobs.jobs@, ps@, *settings, now_ms, i as int)
                &&& forall|j: int|
                    eligible(jobs.jobs@, ps@, *settings, now_ms, j) && j != i as int
                        ==> !earlier_candidate(jobs.jobs@, *settings, now_ms, j, i as int)
                &&& match link {
                    Some((k, s)) => is_first_binding(
                        ps@,
                        jobs.jobs@[i as int].job_id@,
                        k as int,
                    ) && 0 <= s < ps@[k as int].steps@.len() && ps@[k as int].steps@[s as int]@
                        .job_id == Some(jobs.jobs@[i as int].job_id@),
                    None => forall|m: int|
                        0 <= m < ps@.len() ==> !pipeline_binds(
                            #[trigger] ps@[m],
                            jobs.jobs@[i as int].job_id@,
                        ),
                }
            },
        },
{
    let mut best: Option<(usize, Option<(usize, usize)>)> = None;
    let mut best_at: u64 = 0;
    let mut i: usize = 0;
    let n = jobs.jobs.len();
    while i < n
        invariant
            0 <= i <= n,
            n == jobs.jobs@.len(),
            match best {
                None => forall|m: int| 0 <= m < i ==> !eligible(jobs.jobs@, ps@, *settings, now_ms, m),
                Some((b, link)) => {
                    &&& (b as int) < i
                    &&& eligible(jobs.jobs@, ps@, *settings, now_ms, b as int)
                    &&& best_at == effective_retry_at(jobs.jobs@[b as int]@, now_ms, *settings)
                    &&& (forall|m: int|
                        0 <= m < i && eligible(jobs.jobs@, ps@, *settings, now_ms, m) && m != b as int
                            ==> !earlier_candidate(jobs.jobs@, *settings, now_ms, m, b as int))
                    &&& match link {
                        Some((k, s)) => is_first_binding(
                            ps@,
                            jobs.jobs@[b as int].job_id@,
                            k as int,
                        ) && 0 <= s < ps@[k as int].steps@.len() && ps@[k as int].steps@[
                            s as int
                        ]@.job_id == Some(jobs.jobs@[b as int].job_id@),
                        None => forall|m: int|
                            0 <= m < ps@.len() ==> !pipeline_binds(
                                #[trigger] ps@[m],
                                jobs.jobs@[b as int].job_id@,
                            ),
                    }
                },
            },
        decreases n - i,
    {
        if matches!(jobs.jobs[i].status, JobStatus::NeedsRetry) {
            let at: u64 = match jobs.jobs[i].retry_at {
                Some(t) => t,
                None => {
                    let next_attempt = jobs.jobs[i].auto_retry_attempt_count.saturating_add(1);
                    compute_next_retry_at_ms(
                        now_ms,
                        jobs.jobs[i].retry_after_ms,
                        next_attempt,
                        settings,
                    )
                },
            };
            if at <= now_ms && jobs.jobs[i].auto_retry_attempt_count
                < settings.auto_retry_max_per_job {
                let link = find_binding(ps, jobs.jobs[i].job_id.as_str());
                let budget_ok = match link {
                    Some((k, _)) => ps[k].auto_retry_attempt_count
                        < settings.auto_retry_max_per_pipeline,
                    None => true,
                };
                if budget_ok {
                    proof {
                        assert(eligible(jobs.jobs@, ps@, *settings, now_ms, i as int));
                    }
                    let take = match best {
                        None => true,
                        Some((b, _)) => {
                            if at < best_at {
                                true
                            } else if at == best_at {
                                let ci = chars_of(jobs.jobs[i].job_id.as_str());
                                let cb = chars_of(jobs.jobs[b].job_id.as_str());
                                chars_lt(&ci, &cb)
                            } else {
                                false
                            }
                        },
                    };
                    proof {
                        assert(at == effective_retry_at(
                            jobs.jobs@[i as int]@,
                            now_ms,
                            *settings,
                        ));
                        if take {
                            match best {
                                None => {},
                                Some((b, _)) => {
                                    let jv = jobs.jobs@;
                                    let ab = effective_retry_at(jv[b as int]@, now_ms, *settings);
                                    assert forall|m: int|
                                        0 <= m < i + 1 && eligible(jv, ps@, *settings, now_ms, m)
                                            && m != i as int implies !earlier_candidate(
                                        jv,
                                        *settings,
                                        now_ms,
                                        m,
                                        i as int,
                                    ) by {
                                        let am = effective_retry_at(jv[m]@, now_ms, *settings);
                                        if earlier_candidate(jv, *settings, now_ms, m, i as int) {
                                            if m == b as int {
                                                if at == ab && lex_lt(
                                                    jv[i as int].job_id@,
                                                    jv[b as int].job_id@,
                                                ) {
                                                    crate::text::lemma_lex_asym(
                                                        jv[i as int].job_id@,
                                                        jv[b as int].job_id@,
                                                    );
                                                }
                                                assert(false);
                                            } else {
                                                assert(!earlier_candidate(
                                                    jv,
                                                    *settings,
                                                    now_ms,
                                                    m,
                                                    b as int,
                                                ));
                                                if am == at && at == ab {
                                                    if lex_lt(jv[m].job_id@, jv[i as int].job_id@)
                                                        && lex_lt(
                                                        jv[i as int].job_id@,
                                                        jv[b as int].job_id@,
                                                    ) {
                                                        crate::text::lemma_lex_trans(
                                                            jv[m].job_id@,
                                                            jv[i as int].job_id@,
                                                            jv[b as int].job_id@,
                                                        );
                                                    }
                                                }
                                                assert(false);
                                            }
                                        }
                                    }
                                },
                            }
                        }
                    }
                    if take {
                        best = Some((i, link));
                        best_at = at;
                    }
                } else {
                    proof {
                        assert(!eligible(jobs.jobs@, ps@, *settings, now_ms, i as int));
                    }
                }
            } else {
                proof {
                    assert(!eligible(jobs.jobs@, ps@, *settings, now_ms, i as int));
                }
            }
        } else {
            proof {
                assert(!eligible(jobs.jobs@, ps@, *settings, now_ms, i as int));
            }
        }
        i = i + 1;
    }
    best
}


/// The fill pass changes nothing the scheduler's eligibility test reads:
/// the effective retry instant, the status, the budget and the id all
/// carry over.
proof fn lemma_eligible_image(
    jobs1: Seq<JobRecord>,
    jobs2: Seq<JobRecord>,
    ps: Seq<PipelineRecord>,
    settings: DesktopSettings,
    now_ms: u64,
    i: int,
)
    requires
        jobs1.len() == jobs2.len(),
        0 <= i < jobs1.len() ==> jobs2[i]@ == spec_filled(jobs1[i]@, now_ms, settings),
    ensures
        eligible(jobs1, ps, settings, now_ms, i) == eligible(jobs2, ps, settings, now_ms, i),
        0 <= i < jobs1.len() ==> effective_retry_at(jobs1[i]@, now_ms, settings)
            == effective_retry_at(jobs2[i]@, now_ms, settings),
        0 <= i < jobs1.len() ==> jobs1[i].job_id@ == jobs2[i].job_id@,
{
    if 0 <= i < jobs1.len() {
        assert(jobs1[i]@.status == jobs2[i]@.status);
        assert(jobs1[i]@.job_id == jobs2[i]@.job_id);
    }
}


/// A filled queue has the same ids in the same places, so first matches
/// agree between the original and the filled state.
proof fn lemma_first_match_filled(
    jobs1: Seq<JobRecord>,
    jobs2: Seq<JobRecord>,
    settings: DesktopSettings,
    now_ms: u64,
    id: Seq<char>,
    u: int,
)
    requires
        jobs1.len() == jobs2.len(),
        forall|m: int|
            0 <= m < jobs1.len() ==> (#[trigger] jobs2[m])@ == spec_filled(
                jobs1[m]@,
                now_ms,
                settings,
            ),
    ensures
        crate::jobs::is_first_with_id(jobs1, id, u) == crate::jobs::is_first_with_id(
            jobs2,
            id,
            u,
        ),
{
    if 0 <= u < jobs1.len() {
        assert(jobs2[u]@.job_id == jobs1[u]@.job_id);
        assert forall|j: int| 0 <= j < u implies ((#[trigger] jobs1[j]).job_id@ == id) == (
        jobs2[j].job_id@ == id) by {
            assert(jobs2[j]@.job_id == jobs1[j]@.job_id);
        }
    }
}

/// Counts one spent unit of the auto-retry budget on the first job with
/// the given id, leaving every other record alone. Returns the new budget
/// count and the job's retry instant, for the audit line.
fn bump_job_budget(jobs: &mut JobsState, jid: &str) -> (r: (u32, Option<u64>))
    requires
        old(jobs).wf(),
        ids_fresh(*old(jobs)),
    ensures
        final(jobs).wf(),
        ids_fresh(*final(jobs)),
        final(jobs).next_job_seq == old(jobs).next_job_seq,
        final(jobs).running_job_id == old(jobs).running_job_id,
        final(jobs).cancel_requested == old(jobs).cancel_requested,
        final(jobs).jobs@.len() == old(jobs).jobs@.len(),
        if crate::jobs::no_job_with_id(old(jobs).jobs@, jid@) {
            *final(jobs) == *old(jobs) && r == (0u32, None::<u64>)
        } else {
            exists|u: int|
                {
                    &&& #[trigger] crate::jobs::is_first_with_id(old(jobs).jobs@, jid@, u)
                    &&& final(jobs).jobs@ == old(jobs).jobs@.update(u, final(jobs).jobs@[u])
                    &&& final(jobs).jobs@[u]@ == (JobImage {
                        auto_retry_attempt_count: crate::jobs::sat_inc_u32(
                            old(jobs).jobs@[u].auto_retry_attempt_count,
                        ),
                        ..old(jobs).jobs@[u]@
                    })
                    &&& r.0 == final(jobs).jobs@[u]@.auto_retry_attempt_count
                    &&& r.1 == final(jobs).jobs@[u]@.retry_at
                }
        },
{
    match crate::jobs::find_job_index(&jobs.jobs, jid) {
        None => (0, None),
        Some(u) => {
            let ghost jobs_mid = jobs.jobs@;
            let mut rec = jobs.jobs[u].duplicate();
            rec.auto_retry_attempt_count = rec.auto_retry_attempt_count.saturating_add(1);
            let attempt = rec.auto_retry_attempt_count;
            let next_retry_at = rec.retry_at;
            jobs.jobs[u] = rec;
            proof {
                assert(jobs.jobs@ =~= jobs_mid.update(u as int, jobs.jobs@[u as int]));
                assert forall|a: int, b: int| 0 <= a < b < jobs.jobs@.len() implies !((
                #[trigger] jobs.jobs@[a]).status is Running && (#[trigger] jobs.jobs@[b]).status
                    is Running) by {
                    if a != u as int {
                        assert(jobs.jobs@[a] == jobs_mid[a]);
                    }
                    if b != u as int {
                        assert(jobs.jobs@[b] == jobs_mid[b]);
                    }
                    if a == u as int || b == u as int {
                        assert(jobs.jobs@[u as int]@.status == jobs_mid[u as int]@.status);
                    }
                }
                assert forall|a: int, k2: u64|
                    #![trigger jobs.jobs@[a], crate::jobs::spec_job_id(k2)]
                    0 <= a < jobs.jobs@.len() && jobs.next_job_seq <= k2 implies jobs.jobs@[
                a].job_id@ != crate::jobs::spec_job_id(k2) by {
                    if a != u as int {
                        assert(jobs.jobs@[a] == jobs_mid[a]);
                    } else {
                        assert(jobs.jobs@[a]@.job_id == jobs_mid[a]@.job_id);
                    }
                }
            }
            (attempt, next_retry_at)
        },
    }
}


/// Everything a dispatching tick guarantees: the acted result names the
/// minimal eligible candidate; the budget of the first job with that id is
/// counted and, on the direct path, the job is back in `Queued` with its
/// error and backoff fields cleared; every other job keeps exactly its
/// filled image; for a pipeline-bound job, the first pipeline with the
/// dispatched id is replayed from the bound step with its own budget
/// counted; and the audit entry mirrors the dispatch.
#[verifier::opaque]
pub open spec fn spec_tick_dispatched(
    orig_jobs: Seq<JobRecord>,
    orig_ps: Seq<PipelineRecord>,
    new_jobs: Seq<JobRecord>,
    new_ps: Seq<PipelineRecord>,
    settings: DesktopSettings,
    now_ms: u64,
    res: AutoRetryTickResult,
    audit: Option<AuditAutoRetryEntry>,
) -> bool {
    &&& res.reason@ == "auto_retry_enqueued"@
    &&& res.job_id is Some
    &&& exists|sel: int|
        {
            &&& #[trigger] eligible(orig_jobs, orig_ps, settings, now_ms, sel)
            &&& res.job_id->0@ == orig_jobs[sel].job_id@
            &&& (forall|j: int|
                eligible(orig_jobs, orig_ps, settings, now_ms, j) && j != sel
                    ==> !earlier_candidate(orig_jobs, settings, now_ms, j, sel))
        }
    &&& exists|u: int|
        {
            &&& #[trigger] crate::jobs::is_first_with_id(orig_jobs, res.job_id->0@, u)
            &&& (forall|i: int|
                0 <= i < new_jobs.len() && i != u ==> (#[trigger] new_jobs[i])@ == spec_filled(
                    orig_jobs[i]@,
                    now_ms,
                    settings,
                ))
            &&& {
                let f = spec_filled(orig_jobs[u]@, now_ms, settings);
                if res.pipeline_id is Some {
                    new_jobs[u]@ == (JobImage {
                        auto_retry_attempt_count: crate::jobs::sat_inc_u32(
                            f.auto_retry_attempt_count,
                        ),
                        ..f
                    })
                } else {
                    new_jobs[u]@ == (JobImage {
                        status: JobStatus::Queued,
                        updated_at: now_ms,
                        last_error: None,
                        retry_after_ms: None,
                        retry_at: None,
                        auto_retry_attempt_count: crate::jobs::sat_inc_u32(
                            f.auto_retry_attempt_count,
                        ),
                        ..f
                    })
                }
            }
            &&& (audit matches Some(entry) ==> entry.attempt
                == new_jobs[u]@.auto_retry_attempt_count && entry.next_retry_at
                == new_jobs[u]@.retry_at)
        }
    &&& (res.pipeline_id is None ==> new_ps == orig_ps)
    &&& (res.pipeline_id matches Some(pid) ==> exists|k2: int, s2: int|
        #![trigger orig_ps[k2].steps@[s2]]
        {
            &&& crate::pipeline::is_first_pipeline_with_id(orig_ps, pid@, k2)
            &&& new_ps == orig_ps.update(k2, new_ps[k2])
            &&& {
                let np = new_ps[k2];
                let op = orig_ps[k2];
                &&& 0 <= s2 < op.steps@.len()
                &&& crate::pipeline::spec_step_retryable(op.steps@[s2].status, false)
                &&& np.status is Running
                &&& np.updated_at == now_ms
                &&& np.current_step_index == s2
                &&& np.auto_retry_attempt_count == crate::jobs::sat_inc_u32(
                    op.auto_retry_attempt_count,
                )
                &&& np.pipeline_id == op.pipeline_id
                &&& np.canonical_id == op.canonical_id
                &&& np.steps@.len() == op.steps@.len()
                &&& (forall|j: int| 0 <= j < s2 ==> (#[trigger] np.steps@[j])@ == op.steps@[j]@)
                &&& (forall|j: int|
                    s2 <= j < np.steps@.len() ==> (#[trigger] np.steps@[j])@
                        == crate::pipeline::reset_step_image(op.steps@[j]@))
            }
        })
    &&& audit matches Some(entry) && entry.ts == now_ms && entry.kind@ == "auto_retry"@
        && entry.reason@ == "eligible_tick"@ && entry.job_id@ == res.job_id->0@ && (
    entry.pipeline_id is Some <==> res.pipeline_id is Some)
}

/// The only reasons a tick fails: the minimal eligible candidate's dispatch
/// was refused, either by the step-retry path (the candidate is bound to a
/// pipeline step and that path's refusal holds) or, on the direct path, by
/// the retry gate of the first job carrying the candidate's id. The state
/// keeps exactly the filled schedules; the pipelines are untouched.
#[verifier::opaque]
pub open spec fn spec_tick_refused(
    orig_jobs: Seq<JobRecord>,
    orig_ps: Seq<PipelineRecord>,
    new_jobs: Seq<JobRecord>,
    new_ps: Seq<PipelineRecord>,
    settings: DesktopSettings,
    now_ms: u64,
    kind: crate::errors::ErrorKind,
) -> bool {
    &&& new_ps == orig_ps
    &&& new_jobs.len() == orig_jobs.len()
    &&& (forall|i: int|
        0 <= i < new_jobs.len() ==> (#[trigger] new_jobs[i])@ == spec_filled(
            orig_jobs[i]@,
            now_ms,
            settings,
        ))
    &&& exists|sel: int|
        {
            &&& #[trigger] eligible(orig_jobs, orig_ps, settings, now_ms, sel)
            &&& (forall|j: int|
                eligible(orig_jobs, orig_ps, settings, now_ms, j) && j != sel
                    ==> !earlier_candidate(orig_jobs, settings, now_ms, j, sel))
            &&& {
                let jid = orig_jobs[sel].job_id@;
                ||| (exists|k: int, s: int|
                    #![trigger orig_ps[k].steps@[s]]
                    {
                        &&& is_first_binding(orig_ps, jid, k)
                        &&& 0 <= s < orig_ps[k].steps@.len()
                        &&& orig_ps[k].steps@[s]@.job_id == Some(jid)
                        &&& crate::pipeline::step_retry_refusal(
                            orig_ps,
                            orig_ps[k].pipeline_id@,
                            orig_ps[k].steps@[s].step_id@,
                            false,
                            kind,
                        )
                    })
                ||| ((forall|m: int|
                    0 <= m < orig_ps.len() ==> !pipeline_binds(#[trigger] orig_ps[m], jid))
                    && kind == crate::errors::ErrorKind::PreconditionFailed && exists|u: int|
                    {
                        &&& #[trigger] crate::jobs::is_first_with_id(orig_jobs, jid, u)
                        &&& {
                            let f = spec_filled(orig_jobs[u]@, now_ms, settings);
                            !crate::jobs::spec_retryable(f.status, false)
                                || crate::jobs::spec_retry_blocked(f, false, now_ms)
                        }
                    })
            }
        }
}

/// One scheduler tick. Does nothing when auto-retry is disabled or the
/// worker is busy; otherwise writes missing retry schedules, then picks the
/// eligible job with the earliest retry instant (ties broken by job id) and
/// dispatches exactly one retry for it: through the pipeline step-retry
/// path when the job runs a pipeline step, else through the plain job
/// retry. The spent budget is counted on the job and, for a pipeline-bound
/// job, on the pipeline; a dispatched retry also yields one audit entry.
#[verifier::rlimit(100)]
#[verifier::spinoff_prover]
pub fn tick_auto_retry(
    jobs: &mut JobsState,
    ps: &mut Vec<PipelineRecord>,
    settings: &DesktopSettings,
    now_ms: u64,
) -> (r: Result<(AutoRetryTickResult, Option<AuditAutoRetryEntry>), CoreError>)
    requires
        old(jobs).wf(),
        ids_fresh(*old(jobs)),
    ensures
        final(jobs).wf(),
        ids_fresh(*final(jobs)),
        final(jobs).next_job_seq == old(jobs).next_job_seq,
        final(jobs).jobs@.len() == old(jobs).jobs@.len(),
        final(jobs).running_job_id == old(jobs).running_job_id,
        final(ps)@.len() == old(ps)@.len(),
        !settings.auto_retry_enabled ==> (r matches Ok(v) && !v.0.acted && v.0.reason@
            == "auto_retry_disabled"@ && v.1 is None && *final(jobs) == *old(jobs) && final(ps)@ == old(ps)@),
        settings.auto_retry_enabled && old(jobs).running_job_id is Some ==> (r matches Ok(v)
            && !v.0.acted && v.0.reason@ == "worker_busy"@ && v.1 is None && *final(jobs)
            == *old(jobs) && final(ps)@ == old(ps)@),
        settings.auto_retry_enabled && old(jobs).running_job_id is None ==> {
            &&& (r matches Ok(v) ==> !v.0.acted ==> {
                &&& v.0.reason@ == "no_eligible_item"@
                &&& v.1 is None
                &&& final(ps)@ == old(ps)@
                &&& (forall|i: int|
                    0 <= i < final(jobs).jobs@.len() ==> (#[trigger] final(jobs).jobs@[i])@
                        == spec_filled(old(jobs).jobs@[i]@, now_ms, *settings))
                &&& (forall|i: int|
                    !eligible(old(jobs).jobs@, old(ps)@, *settings, now_ms, i))
            })
            &&& (r matches Ok(v) ==> v.0.acted ==> spec_tick_dispatched(
                old(jobs).jobs@,
                old(ps)@,
                final(jobs).jobs@,
                final(ps)@,
                *settings,
                now_ms,
                v.0,
                v.1,
            ))
            &&& (r matches Err(e) ==> spec_tick_refused(
                old(jobs).jobs@,
                old(ps)@,
                final(jobs).jobs@,
                final(ps)@,
                *settings,
                now_ms,
                e.kind,
            ))
        },
{
    if !settings.auto_retry_enabled {
        return Ok(
            (
                AutoRetryTickResult {
                    acted: false,
                    job_id: None,
                    pipeline_id: None,
                    reason: String::from_str("auto_retry_disabled"),
                },
                None,
            ),
        );
    }
    if jobs.running_job_id.is_some() {
        return Ok(
            (
                AutoRetryTickResult {
                    acted: false,
                    job_id: None,
                    pipeline_id: None,
                    reason: String::from_str("worker_busy"),
                },
                None,
            ),
        );
    }
    let _schedule_changed = fill_retry_schedules(jobs, settings, now_ms);
    let ghost filled = jobs.jobs@;
    let picked = select_retry_candidate(jobs, ps, settings, now_ms);
    let (sel, link) = match picked {
        None => {
            proof {
                assert forall|i: int| !eligible(
                    old(jobs).jobs@,
                    old(ps)@,
                    *settings,
                    now_ms,
                    i,
                ) by {
                    lemma_eligible_image(old(jobs).jobs@, filled, old(ps)@, *settings, now_ms, i);
                }
            }
            return Ok(
                (
                    AutoRetryTickResult {
                        acted: false,
                        job_id: None,
                        pipeline_id: None,
                        reason: String::from_str("no_eligible_item"),
                    },
                    None,
                ),
            );
        },
        Some(p) => p,
    };
    proof {
        lemma_eligible_image(old(jobs).jobs@, filled, old(ps)@, *settings, now_ms, sel as int);
        assert forall|j: int|
            eligible(old(jobs).jobs@, old(ps)@, *settings, now_ms, j) && j != sel as int
            implies !earlier_candidate(old(jobs).jobs@, *settings, now_ms, j, sel as int) by {
            lemma_eligible_image(old(jobs).jobs@, filled, old(ps)@, *settings, now_ms, j);
            assert(!earlier_candidate(filled, *settings, now_ms, j, sel as int));
        }
    }
    let jid = jobs.jobs[sel].job_id.clone();
    proof {
        assert(jid@ == old(jobs).jobs@[sel as int].job_id@);
        assert(0 <= sel < old(jobs).jobs@.len() && old(jobs).jobs@[sel as int].job_id@ == jid@);
    }
    match link {
        Some((k, s)) => dispatch_bound(
            jobs,
            ps,
            jid,
            k,
            s,
            settings,
            now_ms,
            Ghost(old(jobs).jobs@),
        ),
        None => dispatch_direct(jobs, ps, jid, settings, now_ms, Ghost(old(jobs).jobs@)),
    }
}

/// Dispatches the selected retry through the pipeline step-retry path and
/// counts the spent budget on the pipeline and the job.
fn dispatch_bound(
    jobs: &mut JobsState,
    ps: &mut Vec<PipelineRecord>,
    jid: String,
    k: usize,
    s: usize,
    settings: &DesktopSettings,
    now_ms: u64,
    Ghost(orig_jobs): Ghost<Seq<JobRecord>>,
) -> (r: Result<(AutoRetryTickResult, Option<AuditAutoRetryEntry>), CoreError>)
    requires
        old(jobs).wf(),
        ids_fresh(*old(jobs)),
        old(jobs).jobs@.len() == orig_jobs.len(),
        forall|m: int|
            0 <= m < orig_jobs.len() ==> (#[trigger] old(jobs).jobs@[m])@ == spec_filled(
                orig_jobs[m]@,
                now_ms,
                *settings,
            ),
        exists|x: int| 0 <= x < orig_jobs.len() && (#[trigger] orig_jobs[x]).job_id@ == jid@,
        is_first_binding(old(ps)@, jid@, k as int),
        0 <= s < old(ps)@[k as int].steps@.len(),
        old(ps)@[k as int].steps@[s as int]@.job_id == Some(jid@),
        exists|sel: int|
            #[trigger] eligible(orig_jobs, old(ps)@, *settings, now_ms, sel) && orig_jobs[
                sel
            ].job_id@ == jid@ && (forall|j: int|
                eligible(orig_jobs, old(ps)@, *settings, now_ms, j) && j != sel
                    ==> !earlier_candidate(orig_jobs, *settings, now_ms, j, sel)),
    ensures
        final(jobs).wf(),
        ids_fresh(*final(jobs)),
        final(jobs).next_job_seq == old(jobs).next_job_seq,
        final(jobs).jobs@.len() == old(jobs).jobs@.len(),
        final(jobs).running_job_id == old(jobs).running_job_id,
        final(jobs).cancel_requested == old(jobs).cancel_requested,
        final(ps)@.len() == old(ps)@.len(),
        r matches Ok(v) ==> v.0.acted && v.0.pipeline_id is Some && v.0.reason@
            == "auto_retry_enqueued"@ && v.0.job_id is Some && v.1 is Some
            && spec_tick_dispatched(
            orig_jobs,
            old(ps)@,
            final(jobs).jobs@,
            final(ps)@,
            *settings,
            now_ms,
            v.0,
            v.1,
        ),
        r matches Err(e) ==> *final(jobs) == *old(jobs) && final(ps)@ == old(ps)@
            && spec_tick_refused(
            orig_jobs,
            old(ps)@,
            final(jobs).jobs@,
            final(ps)@,
            *settings,
            now_ms,
            e.kind,
        ),
{
    let ghost filled = jobs.jobs@;
    let pid = ps[k].pipeline_id.clone();
    let sid = ps[k].steps[s].step_id.clone();
    let ghost ps0 = ps@;
    match crate::pipeline::retry_pipeline_step(ps, pid.as_str(), sid.as_str(), false, now_ms) {
        Err(e) => {
            proof {
                assert(crate::pipeline::step_retry_refusal(
                    old(ps)@,
                    old(ps)@[k as int].pipeline_id@,
                    old(ps)@[k as int].steps@[s as int].step_id@,
                    false,
                    e.kind,
                ));
                reveal(spec_tick_refused);
                assert(spec_tick_refused(
                    orig_jobs,
                    old(ps)@,
                    jobs.jobs@,
                    ps@,
                    *settings,
                    now_ms,
                    e.kind,
                ));
            }
            return Err(e);
        },
        Ok((ri, rs)) => {
            let ghost ps_mid = ps@;
            let bumped = ps[ri].auto_retry_attempt_count.saturating_add(1);
            ps[ri].auto_retry_attempt_count = bumped;
            ps[ri].updated_at = now_ms;
            proof {
                assert(ps@ =~= ps0.update(ri as int, ps@[ri as int]));
                assert(ps@[ri as int].steps@ =~= ps_mid[ri as int].steps@);
            }
            let (attempt, next_retry_at) = bump_job_budget(jobs, jid.as_str());
            proof {
                assert(!crate::jobs::no_job_with_id(filled, jid@)) by {
                    let x = choose|x: int|
                        0 <= x < orig_jobs.len() && (#[trigger] orig_jobs[x]).job_id@ == jid@;
                    assert(filled[x]@.job_id == orig_jobs[x]@.job_id);
                }
                let u = choose|u: int|
                    #[trigger] crate::jobs::is_first_with_id(filled, jid@, u) && jobs.jobs@
                        == filled.update(u, jobs.jobs@[u]) && jobs.jobs@[u]@ == (JobImage {
                        auto_retry_attempt_count: crate::jobs::sat_inc_u32(
                            filled[u].auto_retry_attempt_count,
                        ),
                        ..filled[u]@
                    });
                lemma_first_match_filled(orig_jobs, filled, *settings, now_ms, jid@, u);
                assert(crate::jobs::is_first_with_id(orig_jobs, jid@, u));
                assert(filled[u]@ == spec_filled(orig_jobs[u]@, now_ms, *settings));
                assert forall|i: int|
                    0 <= i < jobs.jobs@.len() && i != u implies (#[trigger] jobs.jobs@[i])@
                    == spec_filled(orig_jobs[i]@, now_ms, *settings) by {
                    assert(jobs.jobs@[i] == filled[i]);
                }
                assert(jobs.jobs@[u]@ == (JobImage {
                    auto_retry_attempt_count: crate::jobs::sat_inc_u32(
                        spec_filled(orig_jobs[u]@, now_ms, *settings).auto_retry_attempt_count,
                    ),
                    ..spec_filled(orig_jobs[u]@, now_ms, *settings)
                }));
                let np = ps@[ri as int];
                let op = old(ps)@[ri as int];
                assert(np.status is Running);
                assert(np.current_step_index == rs);
                assert(np.updated_at == now_ms);
                assert(np.auto_retry_attempt_count == crate::jobs::sat_inc_u32(
                    op.auto_retry_attempt_count,
                ));
                assert forall|j: int| 0 <= j < rs as int implies (#[trigger] np.steps@[j])@
                    == op.steps@[j]@ by {
                    assert(np.steps@[j] == ps_mid[ri as int].steps@[j]);
                }
                assert forall|j: int|
                    rs as int <= j < np.steps@.len() implies (#[trigger] np.steps@[j])@
                    == crate::pipeline::reset_step_image(op.steps@[j]@) by {
                    assert(np.steps@[j] == ps_mid[ri as int].steps@[j]);
                }
                assert(crate::pipeline::is_first_pipeline_with_id(old(ps)@, pid@, ri as int));
            }
            let entry = AuditAutoRetryEntry {
                ts: now_ms,
                kind: String::from_str("auto_retry"),
                job_id: jid.clone(),
                pipeline_id: Some(pid.clone()),
                reason: String::from_str("eligible_tick"),
                next_retry_at,
                attempt,
            };
            let res = AutoRetryTickResult {
                acted: true,
                job_id: Some(jid),
                pipeline_id: Some(pid),
                reason: String::from_str("auto_retry_enqueued"),
            };
            proof {
                reveal(spec_tick_dispatched);
                assert(res.reason@ == "auto_retry_enqueued"@);
                assert(res.job_id is Some);
                assert(exists|sel: int|
                    {
                        &&& #[trigger] eligible(orig_jobs, old(ps)@, *settings, now_ms, sel)
                        &&& res.job_id->0@ == orig_jobs[sel].job_id@
                        &&& (forall|j: int|
                            eligible(orig_jobs, old(ps)@, *settings, now_ms, j) && j != sel
                                ==> !earlier_candidate(orig_jobs, *settings, now_ms, j, sel))
                    });
                assert(exists|u: int|
                    {
                        &&& #[trigger] crate::jobs::is_first_with_id(
                            orig_jobs,
                            res.job_id->0@,
                            u,
                        )
                        &&& (forall|i: int|
                            0 <= i < jobs.jobs@.len() && i != u ==> (#[trigger] jobs.jobs@[i])@
                                == spec_filled(orig_jobs[i]@, now_ms, *settings))
                        &&& {
                            let f = spec_filled(orig_jobs[u]@, now_ms, *settings);
                            jobs.jobs@[u]@ == (JobImage {
                                auto_retry_attempt_count: crate::jobs::sat_inc_u32(
                                    f.auto_retry_attempt_count,
                                ),
                                ..f
                            })
                        }
                        &&& entry.attempt == jobs.jobs@[u]@.auto_retry_attempt_count
                        &&& entry.next_retry_at == jobs.jobs@[u]@.retry_at
                    });
                assert(res.pipeline_id is Some);
                assert(exists|k2: int, s2: int|
                    #![trigger old(ps)@[k2].steps@[s2]]
                    {
                        &&& crate::pipeline::is_first_pipeline_with_id(
                            old(ps)@,
                            res.pipeline_id->0@,
                            k2,
                        )
                        &&& ps@ == old(ps)@.update(k2, ps@[k2])
                        &&& {
                            let np = ps@[k2];
                            let op = old(ps)@[k2];
                            &&& 0 <= s2 < op.steps@.len()
                            &&& crate::pipeline::spec_step_retryable(
                                op.steps@[s2].status,
                                false,
                            )
                            &&& np.status is Running
                            &&& np.updated_at == now_ms
                            &&& np.current_step_index == s2
                            &&& np.auto_retry_attempt_count == crate::jobs::sat_inc_u32(
                                op.auto_retry_attempt_count,
                            )
                            &&& np.pipeline_id == op.pipeline_id
                            &&& np.canonical_id == op.canonical_id
                            &&& np.steps@.len() == op.steps@.len()
                            &&& (forall|j: int|
                                0 <= j < s2 ==> (#[trigger] np.steps@[j])@ == op.steps@[j]@)
                            &&& (forall|j: int|
                                s2 <= j < np.steps@.len() ==> (#[trigger] np.steps@[j])@
                                    == crate::pipeline::reset_step_image(op.steps@[j]@))
                        }
                    });
                assert(entry.ts == now_ms && entry.kind@ == "auto_retry"@ && entry.reason@
                    == "eligible_tick"@ && entry.job_id@ == res.job_id->0@);
                assert(spec_tick_dispatched(
                    orig_jobs,
                    old(ps)@,
                    jobs.jobs@,
                    ps@,
                    *settings,
                    now_ms,
                    res,
                    Some(entry),
                ));
            }
            Ok((res, Some(entry)))
        },
    }
}

/// Dispatches the selected retry through the plain job-retry path and
/// counts the spent budget on the job.
fn dispatch_direct(
    jobs: &mut JobsState,
    ps: &Vec<PipelineRecord>,
    jid: String,
    settings: &DesktopSettings,
    now_ms: u64,
    Ghost(orig_jobs): Ghost<Seq<JobRecord>>,
) -> (r: Result<(AutoRetryTickResult, Option<AuditAutoRetryEntry>), CoreError>)
    requires
        old(jobs).wf(),
        ids_fresh(*old(jobs)),
        old(jobs).jobs@.len() == orig_jobs.len(),
        forall|m: int|
            0 <= m < orig_jobs.len() ==> (#[trigger] old(jobs).jobs@[m])@ == spec_filled(
                orig_jobs[m]@,
                now_ms,
                *settings,
            ),
        exists|x: int| 0 <= x < orig_jobs.len() && (#[trigger] orig_jobs[x]).job_id@ == jid@,
        forall|m: int| 0 <= m < ps@.len() ==> !pipeline_binds(#[trigger] ps@[m], jid@),
        exists|sel: int|
            #[trigger] eligible(orig_jobs, ps@, *settings, now_ms, sel) && orig_jobs[
                sel
            ].job_id@ == jid@ && (forall|j: int|
                eligible(orig_jobs, ps@, *settings, now_ms, j) && j != sel
                    ==> !earlier_candidate(orig_jobs, *settings, now_ms, j, sel)),
    ensures
        final(jobs).wf(),
        ids_fresh(*final(jobs)),
        final(jobs).next_job_seq == old(jobs).next_job_seq,
        final(jobs).jobs@.len() == old(jobs).jobs@.len(),
        final(jobs).running_job_id == old(jobs).running_job_id,
        final(jobs).cancel_requested == old(jobs).cancel_requested,
        r matches Ok(v) ==> v.0.acted && v.0.pipeline_id is None && v.0.reason@
            == "auto_retry_enqueued"@ && v.0.job_id is Some && v.1 is Some
            && spec_tick_dispatched(
            orig_jobs,
            ps@,
            final(jobs).jobs@,
            ps@,
            *settings,
            now_ms,
            v.0,
            v.1,
        ),
        r matches Err(e) ==> *final(jobs) == *old(jobs) && spec_tick_refused(
            orig_jobs,
            ps@,
            final(jobs).jobs@,
            ps@,
            *settings,
            now_ms,
            e.kind,
        ),
{
    let ghost filled = jobs.jobs@;
    match crate::jobs::retry_job(jobs, jid.as_str(), false, now_ms) {
        Ok(_) => {},
        Err(e) => {
            proof {
                if crate::jobs::no_job_with_id(filled, jid@) {
                    let x = choose|x: int|
                        0 <= x < orig_jobs.len() && (#[trigger] orig_jobs[x]).job_id@ == jid@;
                    assert(filled[x]@.job_id == orig_jobs[x]@.job_id);
                    assert(false);
                }
                let u = choose|u: int|
                    #[trigger] crate::jobs::is_first_with_id(filled, jid@, u) && {
                        ||| !crate::jobs::spec_retryable(filled[u].status, false)
                        ||| crate::jobs::spec_retry_blocked(filled[u]@, false, now_ms)
                    };
                lemma_first_match_filled(orig_jobs, filled, *settings, now_ms, jid@, u);
                assert(filled[u]@ == spec_filled(orig_jobs[u]@, now_ms, *settings));
                assert(filled[u]@.status == filled[u].status);
                reveal(spec_tick_refused);
                assert(spec_tick_refused(
                    orig_jobs,
                    ps@,
                    jobs.jobs@,
                    ps@,
                    *settings,
                    now_ms,
                    e.kind,
                ));
            }
            return Err(e);
        },
    }
    let ghost retried = jobs.jobs@;
    let (attempt, next_retry_at) = bump_job_budget(jobs, jid.as_str());
    proof {
        let u1 = choose|u1: int|
            #[trigger] crate::jobs::is_first_with_id(filled, jid@, u1) && retried
                == filled.update(u1, retried[u1]) && retried[u1]@ == (JobImage {
                status: JobStatus::Queued,
                updated_at: now_ms,
                last_error: None,
                retry_after_ms: None,
                retry_at: None,
                ..filled[u1]@
            });
        assert(retried[u1].job_id@ == jid@);
        assert(!crate::jobs::no_job_with_id(retried, jid@));
        let u2 = choose|u2: int|
            #[trigger] crate::jobs::is_first_with_id(retried, jid@, u2) && jobs.jobs@
                == retried.update(u2, jobs.jobs@[u2]) && jobs.jobs@[u2]@ == (JobImage {
                auto_retry_attempt_count: crate::jobs::sat_inc_u32(
                    retried[u2].auto_retry_attempt_count,
                ),
                ..retried[u2]@
            });
        assert forall|j: int| 0 <= j < u1 implies (#[trigger] retried[j]).job_id@ != jid@ by {
            assert(retried[j] == filled[j]);
        }
        assert(crate::jobs::is_first_with_id(retried, jid@, u1));
        assert(u1 == u2) by {
            if u2 < u1 {
                assert(retried[u2].job_id@ != jid@);
            }
            if u1 < u2 {
                assert(retried[u1].job_id@ != jid@);
            }
        }
        lemma_first_match_filled(orig_jobs, filled, *settings, now_ms, jid@, u1);
        assert(crate::jobs::is_first_with_id(orig_jobs, jid@, u1));
        assert(filled[u1]@ == spec_filled(orig_jobs[u1]@, now_ms, *settings));
        assert forall|i: int|
            0 <= i < jobs.jobs@.len() && i != u1 implies (#[trigger] jobs.jobs@[i])@
            == spec_filled(orig_jobs[i]@, now_ms, *settings) by {
            assert(jobs.jobs@[i] == retried[i]);
            assert(retried[i] == filled[i]);
        }
        assert(jobs.jobs@[u1]@ == (JobImage {
            status: JobStatus::Queued,
            updated_at: now_ms,
            last_error: None,
            retry_after_ms: None,
            retry_at: None,
            auto_retry_attempt_count: crate::jobs::sat_inc_u32(
                spec_filled(orig_jobs[u1]@, now_ms, *settings).auto_retry_attempt_count,
            ),
            ..spec_filled(orig_jobs[u1]@, now_ms, *settings)
        }));
    }
    let entry = AuditAutoRetryEntry {
        ts: now_ms,
        kind: String::from_str("auto_retry"),
        job_id: jid.clone(),
        pipeline_id: None,
        reason: String::from_str("eligible_tick"),
        next_retry_at,
        attempt,
    };
    let res = AutoRetryTickResult {
        acted: true,
        job_id: Some(jid),
        pipeline_id: None,
        reason: String::from_str("auto_retry_enqueued"),
    };
    proof {
        reveal(spec_tick_dispatched);
        assert(res.reason@ == "auto_retry_enqueued"@);
        assert(res.job_id is Some);
        assert(exists|sel: int|
            {
                &&& #[trigger] eligible(orig_jobs, ps@, *settings, now_ms, sel)
                &&& res.job_id->0@ == orig_jobs[sel].job_id@
                &&& (forall|j: int|
                    eligible(orig_jobs, ps@, *settings, now_ms, j) && j != sel
                        ==> !earlier_candidate(orig_jobs, *settings, now_ms, j, sel))
            });
        assert(exists|u: int|
            {
                &&& #[trigger] crate::jobs::is_first_with_id(orig_jobs, res.job_id->0@, u)
                &&& (forall|i: int|
                    0 <= i < jobs.jobs@.len() && i != u ==> (#[trigger] jobs.jobs@[i])@
                        == spec_filled(orig_jobs[i]@, now_ms, *settings))
                &&& {
                    let f = spec_filled(orig_jobs[u]@, now_ms, *settings);
                    jobs.jobs@[u]@ == (JobImage {
                        status: JobStatus::Queued,
                        updated_at: now_ms,
                        last_error: None,
                        retry_after_ms: None,
                        retry_at: None,
                        auto_retry_attempt_count: crate::jobs::sat_inc_u32(
                            f.auto_retry_attempt_count,
                        ),
                        ..f
                    })
                }
                &&& entry.attempt == jobs.jobs@[u]@.auto_retry_attempt_count
                &&& entry.next_retry_at == jobs.jobs@[u]@.retry_at
            });
        assert(entry.ts == now_ms && entry.kind@ == "auto_retry"@ && entry.reason@
            == "eligible_tick"@ && entry.job_id@ == res.job_id->0@);
        assert(spec_tick_dispatched(
            orig_jobs,
            ps@,
            jobs.jobs@,
            ps@,
            *settings,
            now_ms,
            res,
            Some(entry),
        ));
    }
    Ok((res, Some(entry)))
}

} // verus!
