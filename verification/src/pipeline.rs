//! The pipeline orchestrator: records, the step-order invariant, creation
//! and the per-pipeline state machine that reconciliation drives.
//!
//! The well-formedness invariant of a pipeline is the step-order discipline
//! of the design: every step before the current one has `Succeeded`, every
//! step after it is still `Pending`, and every step names a wired template
//! of a cleanly recognised business key.

use vstd::prelude::*;
use vstd::string::StringExecFns;
use crate::artifacts::PrimaryVizRef;
use crate::errors::{CoreError, ErrorKind};
use crate::identifier::{normalize_identifier_internal, spec_identifier_ok};
use crate::jobs::{clone_opt_string, opt_view, JobsState, ParamValueImage};
use crate::status::{PipelineStatus, PipelineStepStatus};
use crate::templates::{is_known_template, is_wired_template, known_template, wired_template, Params, ParamEntry};
use crate::text::{chars_of, dec_digits, lower_seq, push_all, string_of, u64_to_chars};

verus! {

/// One step of a pipeline. `job_id` binds the step to the job that runs it;
/// a `Pending` step has no job yet.
#[derive(Debug)]
pub struct PipelineStep {
    pub step_id: String,
    pub template_id: String,
    pub params: Params,
    pub job_id: Option<String>,
    pub status: PipelineStepStatus,
    pub run_id: Option<String>,
    pub started_at: Option<u64>,
    pub finished_at: Option<u64>,
}

/// A pipeline: an ordered sequence of steps over one business key, advanced
/// automatically on success.
#[derive(Debug)]
pub struct PipelineRecord {
    pub pipeline_id: String,
    pub canonical_id: String,
    pub name: String,
    pub created_at: u64,
    pub updated_at: u64,
    pub steps: Vec<PipelineStep>,
    pub current_step_index: usize,
    pub status: PipelineStatus,
    pub last_primary_viz: Option<PrimaryVizRef>,
    pub auto_retry_attempt_count: u32,
}

/// The spec-level image of a step.
pub struct StepImage {
    pub step_id: Seq<char>,
    pub template_id: Seq<char>,
    pub params: Seq<(Seq<char>, ParamValueImage)>,
    pub job_id: Option<Seq<char>>,
    pub status: PipelineStepStatus,
    pub run_id: Option<Seq<char>>,
    pub started_at: Option<u64>,
    pub finished_at: Option<u64>,
}

impl View for PipelineStep {
    type V = StepImage;

    open spec fn view(&self) -> StepImage {
        StepImage {
            step_id: self.step_id@,
            template_id: self.template_id@,
            params: self.params@,
            job_id: opt_view(self.job_id),
            status: self.status,
            run_id: opt_view(self.run_id),
            started_at: self.started_at,
            finished_at: self.finished_at,
        }
    }
}

impl PipelineStep {
    /// A copy with the same view.
    pub fn duplicate(&self) -> (r: PipelineStep)
        ensures
            r@ == (*self)@,
            r.job_id == self.job_id,
            r.status == self.status,
    {
        PipelineStep {
            step_id: self.step_id.clone(),
            template_id: self.template_id.clone(),
            params: self.params.duplicate(),
            job_id: clone_opt_string(&self.job_id),
            status: self.status,
            run_id: clone_opt_string(&self.run_id),
            started_at: self.started_at,
            finished_at: self.finished_at,
        }
    }
}

/// A step is runnable: its template is wired.
pub open spec fn step_valid(st: PipelineStep) -> bool {
    wired_template(st.template_id@)
}

/// The step-order invariant plus validity of every step: steps before the
/// current index have succeeded, steps after it are pending, the current
/// index is in range (a pipeline without steps keeps index zero), and both
/// the business key and every template would be accepted by the job queue.
pub open spec fn pipe_wf(p: PipelineRecord) -> bool {
    let cur = p.current_step_index as int;
    let len = p.steps@.len() as int;
    &&& if len == 0 {
        cur == 0
    } else {
        0 <= cur < len
    }
    &&& forall|i: int| 0 <= i < cur ==> (#[trigger] p.steps@[i]).status is Succeeded
    &&& forall|i: int| cur < i < len ==> (#[trigger] p.steps@[i]).status is Pending
    &&& forall|i: int| 0 <= i < len ==> step_valid(#[trigger] p.steps@[i])
    &&& spec_identifier_ok(p.canonical_id@)
}

/// The current step index never points past a non-`Succeeded` predecessor:
/// in a well-formed pipeline, every step before the current one has
/// succeeded.
pub proof fn lemma_predecessors_succeeded(p: PipelineRecord, i: int)
    requires
        pipe_wf(p),
        0 <= i < p.current_step_index as int,
    ensures
        p.steps@[i].status is Succeeded,
{
}

/// `i` is the first index of `ps` whose pipeline carries `id`.
pub open spec fn is_first_pipeline_with_id(ps: Seq<PipelineRecord>, id: Seq<char>, i: int) -> bool {
    0 <= i < ps.len() && ps[i].pipeline_id@ == id && (forall|j: int|
        0 <= j < i ==> (#[trigger] ps[j]).pipeline_id@ != id)
}

/// No pipeline of `ps` carries `id`.
pub open spec fn no_pipeline_with_id(ps: Seq<PipelineRecord>, id: Seq<char>) -> bool {
    forall|j: int| 0 <= j < ps.len() ==> (#[trigger] ps[j]).pipeline_id@ != id
}

/// Finds the first pipeline with the given id.
pub fn find_pipeline_index(ps: &Vec<PipelineRecord>, pipeline_id: &str) -> (r: Option<usize>)
    ensures
        match r {
            Some(i) => is_first_pipeline_with_id(ps@, pipeline_id@, i as int),
            None => no_pipeline_with_id(ps@, pipeline_id@),
        },
{
    let mut i: usize = 0;
    while i < ps.len()
        invariant
            0 <= i <= ps@.len(),
            forall|j: int| 0 <= j < i ==> (#[trigger] ps@[j]).pipeline_id@ != pipeline_id@,
        decreases ps@.len() - i,
    {
        if crate::identifier::str_eq(ps[i].pipeline_id.as_str(), pipeline_id) {
            return Some(i);
        }
        i = i + 1;
    }
    None
}

/// A character kept as itself in a step id: an ASCII lower-case letter, a
/// digit or an underscore; anything else becomes an underscore.
pub open spec fn step_id_char(c: char) -> char {
    if ('a' <= c && c <= 'z') || ('0' <= c && c <= '9') || c == '_' {
        c
    } else {
        '_'
    }
}

/// The index rendered with two digits, zero-padded below ten.
pub open spec fn pad2(n: nat) -> Seq<char> {
    if n < 10 {
        seq!['0'] + dec_digits(n)
    } else {
        dec_digits(n)
    }
}

/// The id given to the step at `index` (zero-based): `step_NN_` plus the
/// template id lower-cased with every other character as underscore.
pub open spec fn spec_step_id(template_id: Seq<char>, index: nat) -> Seq<char> {
    "step_"@ + pad2(index + 1) + "_"@ + lower_seq(template_id).map_values(
        |c: char| step_id_char(c),
    )
}

/// Builds the id of the step at `index`.
pub fn sanitize_step_id(template_id: &str, index: usize) -> (r: String)
    requires
        index < usize::MAX,
    ensures
        r@ == spec_step_id(template_id@, index as nat),
{
    let mut cs = chars_of("step_");
    let n: u64 = (index as u64) + 1;
    if n < 10 {
        cs.push('0');
    }
    let digits = u64_to_chars(n);
    push_all(&mut cs, &digits);
    cs.push('_');
    proof {
        reveal_strlit("_");
        assert(cs@ =~= "step_"@ + pad2((index + 1) as nat) + "_"@);
    }
    let tid = chars_of(template_id);
    let low = crate::text::to_lower(&tid);
    let mut i: usize = 0;
    let ghost base = cs@;
    while i < low.len()
        invariant
            0 <= i <= low@.len(),
            cs@ == base + low@.subrange(0, i as int).map_values(|c: char| step_id_char(c)),
        decreases low@.len() - i,
    {
        let c = low[i];
        if ('a' <= c && c <= 'z') || ('0' <= c && c <= '9') || c == '_' {
            cs.push(c);
        } else {
            cs.push('_');
        }
        i = i + 1;
        proof {
            assert(cs@ =~= base + low@.subrange(0, i as int).map_values(
                |c: char| step_id_char(c),
            ));
        }
    }
    proof {
        assert(low@.subrange(0, low@.len() as int) =~= low@);
        assert(cs@ =~= "step_"@ + pad2((index + 1) as nat) + "_"@ + lower_seq(
            template_id@,
        ).map_values(|c: char| step_id_char(c)));
    }
    string_of(&cs)
}

/// The id minted for the `seq`-th pipeline of this process.
pub open spec fn spec_pipeline_id(seq: u64) -> Seq<char> {
    "pipe_"@ + dec_digits(seq as nat)
}

/// Builds the id of the `seq`-th pipeline.
pub fn make_pipeline_id(seq: u64) -> (r: String)
    ensures
        r@ == spec_pipeline_id(seq),
{
    let mut cs = chars_of("pipe_");
    let digits = u64_to_chars(seq);
    push_all(&mut cs, &digits);
    string_of(&cs)
}


/// The spec-level image of a pipeline.
pub struct PipelineImage {
    pub pipeline_id: Seq<char>,
    pub canonical_id: Seq<char>,
    pub name: Seq<char>,
    pub created_at: u64,
    pub updated_at: u64,
    pub steps: Seq<StepImage>,
    pub current_step_index: usize,
    pub status: PipelineStatus,
    pub auto_retry_attempt_count: u32,
}

impl View for PipelineRecord {
    type V = PipelineImage;

    open spec fn view(&self) -> PipelineImage {
        PipelineImage {
            pipeline_id: self.pipeline_id@,
            canonical_id: self.canonical_id@,
            name: self.name@,
            created_at: self.created_at,
            updated_at: self.updated_at,
            steps: self.steps@.map_values(|st: PipelineStep| st@),
            current_step_index: self.current_step_index,
            status: self.status,
            auto_retry_attempt_count: self.auto_retry_attempt_count,
        }
    }
}

/// One step of a pipeline creation request.
pub struct StepInput {
    pub template_id: String,
    pub params: Params,
}

/// What a creation request must satisfy to be accepted: at least one step,
/// a business key that normalises cleanly (and stays clean once stored in
/// canonical form), and only wired templates.
pub open spec fn spec_create_ok(canonical_id: Seq<char>, steps: Seq<StepInput>) -> bool {
    &&& steps.len() > 0
    &&& spec_identifier_ok(canonical_id)
    &&& spec_identifier_ok(crate::identifier::spec_normalize(canonical_id).canonical)
    &&& forall|i: int| 0 <= i < steps.len() ==> wired_template((#[trigger] steps[i]).template_id@)
}

/// The display name stored for a pipeline: the trimmed caller name, or the
/// default when that is empty.
pub open spec fn spec_pipeline_name(name: Seq<char>) -> Seq<char> {
    if crate::text::trim_spec(name).len() == 0 {
        "Analyze Paper"@
    } else {
        crate::text::trim_spec(name)
    }
}

/// Creates a pipeline over the given steps: validates every step's template
/// and the business key up front, rejects an empty step list, and appends a
/// `Running` pipeline whose steps are all `Pending`. The caller reconciles
/// afterwards to start the first step.
///
/// The stored key is the canonical spelling, and it must itself normalise
/// cleanly: a degenerate key whose canonical form would be rejected at
/// enqueue time is refused here, up front, rather than producing a
/// pipeline that could never start its first step.
pub fn create_pipeline(
    ps: &mut Vec<PipelineRecord>,
    seq: u64,
    name: String,
    canonical_id: String,
    steps: Vec<StepInput>,
    now_ms: u64,
) -> (r: Result<String, CoreError>)
    ensures
        match r {
            Err(e) => final(ps)@ == old(ps)@ && (spec_create_ok(canonical_id@, steps@)
                ==> false) && {
                if steps@.len() == 0 {
                    e.kind == ErrorKind::InvalidInput
                } else if !spec_identifier_ok(canonical_id@) {
                    e.kind == ErrorKind::InvalidInput
                } else if !spec_identifier_ok(
                    crate::identifier::spec_normalize(canonical_id@).canonical,
                ) {
                    e.kind == ErrorKind::InvalidInput
                } else {
                    exists|b: int|
                        {
                            &&& 0 <= b < steps@.len()
                            &&& !wired_template((#[trigger] steps@[b]).template_id@)
                            &&& (forall|j: int|
                                0 <= j < b ==> wired_template(
                                    (#[trigger] steps@[j]).template_id@,
                                ))
                            &&& e.kind == (if known_template(steps@[b].template_id@) {
                                ErrorKind::InvalidInput
                            } else {
                                ErrorKind::NotFound
                            })
                        }
                }
            },
            Ok(id) => {
                &&& spec_create_ok(canonical_id@, steps@)
                &&& id@ == spec_pipeline_id(seq)
                &&& final(ps)@.len() == old(ps)@.len() + 1
                &&& final(ps)@.subrange(0, old(ps)@.len() as int) == old(ps)@
                &&& {
                    let np = final(ps)@.last();
                    &&& np.pipeline_id@ == spec_pipeline_id(seq)
                    &&& np.canonical_id@ == crate::identifier::spec_normalize(
                        canonical_id@,
                    ).canonical
                    &&& np.name@ == spec_pipeline_name(name@)
                    &&& np.created_at == now_ms
                    &&& np.updated_at == now_ms
                    &&& np.current_step_index == 0
                    &&& np.status is Running
                    &&& np.auto_retry_attempt_count == 0
                    &&& np.last_primary_viz is None
                    &&& np.steps@.len() == steps@.len()
                    &&& (forall|i: int|
                        0 <= i < steps@.len() ==> (#[trigger] np.steps@[i])@ == (StepImage {
                            step_id: spec_step_id(steps@[i].template_id@, i as nat),
                            template_id: steps@[i].template_id@,
                            params: steps@[i].params@,
                            job_id: None,
                            status: PipelineStepStatus::Pending,
                            run_id: None,
                            started_at: None,
                            finished_at: None,
                        }))
                    &&& pipe_wf(np)
                }
            },
        },
{
    if steps.len() == 0 {
        return Err(
            CoreError::new(
                ErrorKind::InvalidInput,
                String::from_str("pipeline must have at least one step"),
            ),
        );
    }
    let normalized = normalize_identifier_internal(canonical_id.as_str());
    if normalized.errors.len() > 0 {
        proof {
            assert(normalized.errors.deep_view().len() == normalized.errors@.len());
        }
        return Err(
            CoreError::new(ErrorKind::InvalidInput, String::from_str("invalid canonical_id")),
        );
    }
    proof {
        assert(normalized.errors.deep_view().len() == normalized.errors@.len());
    }
    let canonical = normalized.canonical;
    let recheck = normalize_identifier_internal(canonical.as_str());
    if recheck.errors.len() > 0 {
        proof {
            assert(recheck.errors.deep_view().len() == recheck.errors@.len());
        }
        return Err(
            CoreError::new(ErrorKind::InvalidInput, String::from_str("invalid canonical_id")),
        );
    }
    proof {
        assert(recheck.errors.deep_view().len() == recheck.errors@.len());
    }
    let mut i: usize = 0;
    while i < steps.len()
        invariant
            0 <= i <= steps@.len(),
            steps@.len() > 0,
            spec_identifier_ok(canonical_id@),
            spec_identifier_ok(crate::identifier::spec_normalize(canonical_id@).canonical),
            forall|j: int| 0 <= j < i ==> wired_template((#[trigger] steps@[j]).template_id@),
        decreases steps@.len() - i,
    {
        if !is_known_template(steps[i].template_id.as_str()) {
            proof {
                assert(!wired_template(steps@[i as int].template_id@));
            }
            return Err(
                CoreError::new(ErrorKind::NotFound, String::from_str("unknown template id")),
            );
        }
        if !is_wired_template(steps[i].template_id.as_str()) {
            return Err(
                CoreError::new(ErrorKind::InvalidInput, String::from_str("template not wired")),
            );
        }
        i = i + 1;
    }
    let mut out_steps: Vec<PipelineStep> = Vec::new();
    let mut k: usize = 0;
    while k < steps.len()
        invariant
            0 <= k <= steps@.len(),
            steps@.len() <= usize::MAX,
            out_steps@.len() == k,
            forall|j: int|
                0 <= j < k ==> (#[trigger] out_steps@[j])@ == (StepImage {
                    step_id: spec_step_id(steps@[j].template_id@, j as nat),
                    template_id: steps@[j].template_id@,
                    params: steps@[j].params@,
                    job_id: None,
                    status: PipelineStepStatus::Pending,
                    run_id: None,
                    started_at: None,
                    finished_at: None,
                }),
            forall|j: int| 0 <= j < k ==> (#[trigger] out_steps@[j]).status is Pending,
            forall|j: int| 0 <= j < k ==> step_valid(#[trigger] out_steps@[j]),
            forall|j: int|
                0 <= j < steps@.len() ==> wired_template((#[trigger] steps@[j]).template_id@),
        decreases steps@.len() - k,
    {
        let st = &steps[k];
        out_steps.push(
            PipelineStep {
                step_id: sanitize_step_id(st.template_id.as_str(), k),
                template_id: st.template_id.clone(),
                params: st.params.duplicate(),
                job_id: None,
                status: PipelineStepStatus::Pending,
                run_id: None,
                started_at: None,
                finished_at: None,
            },
        );
        k = k + 1;
    }
    let trimmed = crate::text::trim(&chars_of(name.as_str()));
    let final_name = if trimmed.len() == 0 {
        String::from_str("Analyze Paper")
    } else {
        string_of(&trimmed)
    };
    let pipeline_id = make_pipeline_id(seq);
    let rec = PipelineRecord {
        pipeline_id: pipeline_id.clone(),
        canonical_id: canonical,
        name: final_name,
        created_at: now_ms,
        updated_at: now_ms,
        steps: out_steps,
        current_step_index: 0,
        status: PipelineStatus::Running,
        last_primary_viz: None,
        auto_retry_attempt_count: 0,
    };
    proof {
        assert(pipe_wf(rec));
    }
    ps.push(rec);
    proof {
        assert(final(ps)@.subrange(0, old(ps)@.len() as int) =~= old(ps)@);
    }
    Ok(pipeline_id)
}

/// Marks a pipeline `Running` again so the next reconciliation resumes it.
pub fn start_pipeline(ps: &mut Vec<PipelineRecord>, pipeline_id: &str, now_ms: u64) -> (r:
    Result<(), CoreError>)
    ensures
        match r {
            Err(e) => final(ps)@ == old(ps)@ && e.kind == ErrorKind::NotFound
                && no_pipeline_with_id(old(ps)@, pipeline_id@),
            Ok(_) => exists|i: int|
                {
                    &&& #[trigger] is_first_pipeline_with_id(old(ps)@, pipeline_id@, i)
                    &&& final(ps)@ == old(ps)@.update(i, final(ps)@[i])
                    &&& final(ps)@[i]@ == (PipelineImage {
                        status: PipelineStatus::Running,
                        updated_at: now_ms,
                        ..old(ps)@[i]@
                    })
                    &&& final(ps)@[i].last_primary_viz == old(ps)@[i].last_primary_viz
                    &&& final(ps)@[i].steps@ == old(ps)@[i].steps@
                },
        },
{
    let idx = match find_pipeline_index(ps, pipeline_id) {
        Some(i) => i,
        None => {
            return Err(
                CoreError::new(ErrorKind::NotFound, String::from_str("pipeline not found")),
            );
        },
    };
    let ghost ps0 = ps@;
    ps[idx].status = PipelineStatus::Running;
    ps[idx].updated_at = now_ms;
    proof {
        assert(ps@ =~= ps0.update(idx as int, ps@[idx as int]));
        assert(ps@[idx as int]@.steps =~= ps0[idx as int]@.steps);
    }
    Ok(())
}


/// Cancels a pipeline: its current step's bound job is canceled through the
/// job queue (the host kills the process best-effort), the current step is
/// force-marked `Canceled` unless already terminal, later steps stay
/// `Pending`, and the pipeline itself becomes `Canceled`.
pub fn cancel_pipeline(
    ps: &mut Vec<PipelineRecord>,
    jobs: &mut JobsState,
    pipeline_id: &str,
    now_ms: u64,
) -> (r: Result<(), CoreError>)
    requires
        old(jobs).wf(),
    ensures
        final(jobs).wf(),
        final(jobs).next_job_seq == old(jobs).next_job_seq,
        final(jobs).running_job_id == old(jobs).running_job_id,
        final(jobs).jobs@.len() == old(jobs).jobs@.len(),
        forall|a: int|
            0 <= a < final(jobs).jobs@.len() ==> (#[trigger] final(jobs).jobs@[a]).job_id@
                == old(jobs).jobs@[a].job_id@,
        match r {
            Err(e) => final(ps)@ == old(ps)@ && *final(jobs) == *old(jobs) && e.kind
                == ErrorKind::NotFound && no_pipeline_with_id(old(ps)@, pipeline_id@),
            Ok(_) => exists|i: int|
                {
                    &&& #[trigger] is_first_pipeline_with_id(old(ps)@, pipeline_id@, i)
                    &&& final(ps)@ == old(ps)@.update(i, final(ps)@[i])
                    &&& {
                        let np = final(ps)@[i];
                        let op = old(ps)@[i];
                        &&& np.status is Canceled
                        &&& np.updated_at == now_ms
                        &&& np.pipeline_id == op.pipeline_id
                        &&& np.canonical_id == op.canonical_id
                        &&& np.name == op.name
                        &&& np.created_at == op.created_at
                        &&& np.current_step_index == op.current_step_index
                        &&& np.auto_retry_attempt_count == op.auto_retry_attempt_count
                        &&& np.steps@.len() == op.steps@.len()
                        &&& (forall|j: int|
                            0 <= j < np.steps@.len() && j != op.current_step_index as int
                                ==> #[trigger] np.steps@[j] == op.steps@[j])
                        &&& ((op.current_step_index as int) < op.steps@.len() ==> {
                            let oc = op.steps@[op.current_step_index as int];
                            let nc = np.steps@[op.current_step_index as int];
                            if crate::status::spec_step_terminal(oc.status) {
                                nc == oc
                            } else {
                                nc@ == (StepImage {
                                    status: PipelineStepStatus::Canceled,
                                    finished_at: Some(now_ms),
                                    ..oc@
                                })
                            }
                        })
                    }
                },
        },
{
    let idx = match find_pipeline_index(ps, pipeline_id) {
        Some(i) => i,
        None => {
            return Err(
                CoreError::new(ErrorKind::NotFound, String::from_str("pipeline not found")),
            );
        },
    };
    let ghost ps0 = ps@;
    let cur = ps[idx].current_step_index;
    if cur < ps[idx].steps.len() {
        let bound = clone_opt_string(&ps[idx].steps[cur].job_id);
        match bound {
            Some(job_id) => {
                let _ = crate::jobs::cancel_job(jobs, job_id.as_str(), now_ms);
            },
            None => {},
        }
        let terminal = crate::status::is_pipeline_step_terminal(&ps[idx].steps[cur].status);
        if !terminal {
            let mut step = ps[idx].steps[cur].duplicate();
            step.status = PipelineStepStatus::Canceled;
            step.finished_at = Some(now_ms);
            ps[idx].steps[cur] = step;
        }
    }
    ps[idx].status = PipelineStatus::Canceled;
    ps[idx].updated_at = now_ms;
    proof {
        assert(ps@ =~= ps0.update(idx as int, ps@[idx as int]));
    }
    Ok(())
}


/// No step of `steps` carries `id`.
pub open spec fn no_step_with_id(steps: Seq<PipelineStep>, id: Seq<char>) -> bool {
    forall|j: int| 0 <= j < steps.len() ==> (#[trigger] steps[j]).step_id@ != id
}

/// `s` is the first index of `steps` whose step carries `id`.
pub open spec fn is_first_step_with_id(steps: Seq<PipelineStep>, id: Seq<char>, s: int) -> bool {
    0 <= s < steps.len() && steps[s].step_id@ == id && (forall|j: int|
        0 <= j < s ==> (#[trigger] steps[j]).step_id@ != id)
}

/// Exactly why a step retry is refused: the pipeline id is unknown
/// (`NotFound`), the step id is unknown in that pipeline (`NotFound`), or
/// the step is not in a retryable state and the retry is not forced
/// (`PreconditionFailed`). No other refusal exists.
pub open spec fn step_retry_refusal(
    ps: Seq<PipelineRecord>,
    pipeline_id: Seq<char>,
    step_id: Seq<char>,
    force: bool,
    kind: ErrorKind,
) -> bool {
    if no_pipeline_with_id(ps, pipeline_id) {
        kind == ErrorKind::NotFound
    } else {
        exists|i: int|
            #[trigger] is_first_pipeline_with_id(ps, pipeline_id, i) && {
                if no_step_with_id(ps[i].steps@, step_id) {
                    kind == ErrorKind::NotFound
                } else {
                    exists|s: int|
                        #[trigger] is_first_step_with_id(ps[i].steps@, step_id, s)
                            && !spec_step_retryable(ps[i].steps@[s].status, force) && kind
                            == ErrorKind::PreconditionFailed
                }
            }
    }
}

/// A step may be retried from `Failed`, `NeedsRetry` or `Canceled`, or from
/// any state when forced.
pub open spec fn spec_step_retryable(st: PipelineStepStatus, force: bool) -> bool {
    st is Failed || st is NeedsRetry || st is Canceled || force
}

/// The reset image a step retry leaves on the retried step and every later
/// one: back to `Pending` with its job binding and run bookkeeping
/// discarded.
pub open spec fn reset_step_image(old_st: StepImage) -> StepImage {
    StepImage {
        job_id: None,
        status: PipelineStepStatus::Pending,
        run_id: None,
        started_at: None,
        finished_at: None,
        ..old_st
    }
}

/// Retries one step of a pipeline: the step and every later step are reset
/// to `Pending` (their job bindings discarded), the current index rewinds
/// to the step, and the pipeline runs again — replay from here forward.
/// Without `force` the step must sit in `Failed`, `NeedsRetry` or
/// `Canceled`; a well-formed pipeline then keeps its step-order invariant,
/// since such a step is never behind a non-succeeded predecessor.
#[verifier::rlimit(100)]
#[verifier::spinoff_prover]
pub fn retry_pipeline_step(
    ps: &mut Vec<PipelineRecord>,
    pipeline_id: &str,
    step_id: &str,
    force: bool,
    now_ms: u64,
) -> (r: Result<(usize, usize), CoreError>)
    ensures
        match r {
            Err(e) => final(ps)@ == old(ps)@ && step_retry_refusal(
                old(ps)@,
                pipeline_id@,
                step_id@,
                force,
                e.kind,
            ),
            Ok((i, s)) => {
                let np = final(ps)@[i as int];
                let op = old(ps)@[i as int];
                &&& is_first_pipeline_with_id(old(ps)@, pipeline_id@, i as int)
                &&& final(ps)@ == old(ps)@.update(i as int, final(ps)@[i as int])
                &&& 0 <= s < op.steps@.len()
                &&& op.steps@[s as int].step_id@ == step_id@
                &&& spec_step_retryable(op.steps@[s as int].status, force)
                &&& np.status is Running
                &&& np.updated_at == now_ms
                &&& np.current_step_index == s
                &&& np.pipeline_id == op.pipeline_id
                &&& np.canonical_id == op.canonical_id
                &&& np.name == op.name
                &&& np.created_at == op.created_at
                &&& np.auto_retry_attempt_count == op.auto_retry_attempt_count
                &&& np.steps@.len() == op.steps@.len()
                &&& (forall|j: int|
                    0 <= j < s ==> (#[trigger] np.steps@[j])@ == op.steps@[j]@)
                &&& (forall|j: int|
                    s <= j < np.steps@.len() ==> (#[trigger] np.steps@[j])@
                        == reset_step_image(op.steps@[j]@))
                &&& (pipe_wf(op) && (force ==> s <= op.current_step_index) ==> pipe_wf(np))
            },
        },
{
    let pidx = match find_pipeline_index(ps, pipeline_id) {
        Some(i) => i,
        None => {
            return Err(
                CoreError::new(ErrorKind::NotFound, String::from_str("pipeline not found")),
            );
        },
    };
    let mut sidx: usize = 0;
    let nsteps = ps[pidx].steps.len();
    let mut found = false;
    while sidx < nsteps && !found
        invariant
            0 <= sidx <= nsteps,
            pidx < ps@.len(),
            nsteps == ps@[pidx as int].steps@.len(),
            found ==> sidx < nsteps && ps@[pidx as int].steps@[sidx as int].step_id@ == step_id@,
            forall|j: int|
                0 <= j < sidx ==> (#[trigger] ps@[pidx as int].steps@[j]).step_id@ != step_id@,
        decreases nsteps - sidx + (if found { 0int } else { 1int }),
    {
        if crate::identifier::str_eq(ps[pidx].steps[sidx].step_id.as_str(), step_id) {
            found = true;
        } else {
            sidx = sidx + 1;
        }
    }
    if !found {
        proof {
            assert(no_step_with_id(ps@[pidx as int].steps@, step_id@));
            assert(is_first_pipeline_with_id(ps@, pipeline_id@, pidx as int));
        }
        return Err(CoreError::new(ErrorKind::NotFound, String::from_str("step not found")));
    }
    let st = ps[pidx].steps[sidx].status;
    if !(matches!(st, PipelineStepStatus::Failed) || matches!(st, PipelineStepStatus::NeedsRetry)
        || matches!(st, PipelineStepStatus::Canceled) || force) {
        proof {
            assert(is_first_step_with_id(ps@[pidx as int].steps@, step_id@, sidx as int));
            assert(is_first_pipeline_with_id(ps@, pipeline_id@, pidx as int));
        }
        return Err(
            CoreError::new(
                ErrorKind::PreconditionFailed,
                String::from_str("step is not retryable"),
            ),
        );
    }
    let ghost ps0 = ps@;
    let ghost op = ps@[pidx as int];
    let mut new_steps: Vec<PipelineStep> = Vec::new();
    let mut j: usize = 0;
    while j < nsteps
        invariant
            0 <= j <= nsteps,
            pidx < ps@.len(),
            ps@ == ps0,
            op == ps0[pidx as int],
            sidx < nsteps,
            nsteps == op.steps@.len(),
            new_steps@.len() == j,
            forall|m: int|
                0 <= m < j && m < sidx ==> (#[trigger] new_steps@[m])@ == op.steps@[m]@,
            forall|m: int|
                sidx <= m < j ==> (#[trigger] new_steps@[m])@ == reset_step_image(op.steps@[m]@),
        decreases nsteps - j,
    {
        if j < sidx {
            new_steps.push(ps[pidx].steps[j].duplicate());
        } else {
            let mut step = ps[pidx].steps[j].duplicate();
            step.job_id = None;
            step.status = PipelineStepStatus::Pending;
            step.run_id = None;
            step.started_at = None;
            step.finished_at = None;
            new_steps.push(step);
        }
        j = j + 1;
    }
    let row = &mut ps[pidx];
    row.steps = new_steps;
    row.current_step_index = sidx;
    row.status = PipelineStatus::Running;
    row.updated_at = now_ms;
    proof {
        assert(ps@ =~= ps0.update(pidx as int, ps@[pidx as int]));
        let np = ps@[pidx as int];
        if pipe_wf(op) && (force ==> sidx as int <= op.current_step_index as int) {
            assert forall|m: int| 0 <= m < sidx as int implies (
            #[trigger] np.steps@[m]).status is Succeeded by {
                assert(np.steps@[m]@ == op.steps@[m]@);
                if !force {
                    if (sidx as int) > op.current_step_index as int {
                        assert(op.steps@[sidx as int].status is Pending);
                    }
                }
            }
            assert forall|m: int| 0 <= m < np.steps@.len() implies step_valid(
                #[trigger] np.steps@[m],
            ) by {
                if m < sidx as int {
                    assert(np.steps@[m]@.template_id == op.steps@[m]@.template_id);
                } else {
                    assert(np.steps@[m]@.template_id == op.steps@[m]@.template_id);
                }
            }
            assert(pipe_wf(np));
        }
        assert(is_first_pipeline_with_id(ps0, pipeline_id@, pidx as int));
    }
    Ok((pidx, sidx))
}


impl PipelineRecord {
    /// A copy with the same view.
    pub fn duplicate(&self) -> (r: PipelineRecord)
        ensures
            r@ == (*self)@,
    {
        let mut steps: Vec<PipelineStep> = Vec::new();
        let mut i: usize = 0;
        while i < self.steps.len()
            invariant
                0 <= i <= self.steps@.len(),
                steps@.len() == i,
                forall|j: int| 0 <= j < i ==> (#[trigger] steps@[j])@ == self.steps@[j]@,
            decreases self.steps@.len() - i,
        {
            steps.push(self.steps[i].duplicate());
            i = i + 1;
        }
        let r = PipelineRecord {
            pipeline_id: self.pipeline_id.clone(),
            canonical_id: self.canonical_id.clone(),
            name: self.name.clone(),
            created_at: self.created_at,
            updated_at: self.updated_at,
            steps,
            current_step_index: self.current_step_index,
            status: self.status,
            last_primary_viz: match &self.last_primary_viz {
                None => None,
                Some(v) => Some(v.duplicate()),
            },
            auto_retry_attempt_count: self.auto_retry_attempt_count,
        };
        proof {
            assert(r@.steps =~= (*self)@.steps);
        }
        r
    }
}

/// Looks a pipeline up by id, returning a copy of the record; `NotFound`
/// when no pipeline carries the id.
pub fn get_pipeline(ps: &Vec<PipelineRecord>, pipeline_id: &str) -> (r: Result<
    PipelineRecord,
    CoreError,
>)
    ensures
        match r {
            Ok(p) => exists|i: int|
                #[trigger] is_first_pipeline_with_id(ps@, pipeline_id@, i) && p@ == ps@[i]@,
            Err(e) => e.kind == ErrorKind::NotFound && no_pipeline_with_id(ps@, pipeline_id@),
        },
{
    match find_pipeline_index(ps, pipeline_id) {
        Some(i) => Ok(ps[i].duplicate()),
        None => Err(
            CoreError::new(ErrorKind::NotFound, String::from_str("pipeline not found")),
        ),
    }
}

} // verus!