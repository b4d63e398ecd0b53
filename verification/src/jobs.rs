//! The job queue: records, the single-worker discipline, and every job
//! lifecycle transition.
//!
//! The well-formedness invariant of the queue is the single-concurrency
//! guarantee: at most one job is `Running` at any observation point. Every
//! operation of this module preserves it.

use vstd::prelude::*;
use vstd::string::StringExecFns;
use crate::errors::{CoreError, ErrorKind};
use crate::identifier::{normalize_identifier_internal, spec_identifier_ok, str_eq};
use crate::retry::{compute_next_retry_at_ms, spec_next_retry_at_ms};
use crate::settings::DesktopSettings;
use crate::status::JobStatus;
use crate::status::spec_job_finished;
use crate::templates::{known_template, is_known_template, is_wired_template, Params, ParamValue, ParamEntry, wired_template};
use crate::text::{chars_of, dec_digits, push_all, string_of, u64_to_chars};

verus! {

/// One job owned by the queue. Timestamps are epoch milliseconds; `retry_at`
/// is only meaningful while the status is `NeedsRetry`.
#[derive(Debug)]
pub struct JobRecord {
    pub job_id: String,
    pub template_id: String,
    pub canonical_id: String,
    pub params: Params,
    pub status: JobStatus,
    pub attempt: u32,
    pub created_at: u64,
    pub updated_at: u64,
    pub run_id: Option<String>,
    pub last_error: Option<String>,
    pub retry_after_ms: Option<u64>,
    pub retry_at: Option<u64>,
    pub auto_retry_attempt_count: u32,
}

/// What the process execution adapter reports for one finished task run.
#[derive(Clone, Copy, Debug, PartialEq, Eq, Structural)]
pub enum OutcomeStatus {
    Success,
    NeedsRetry,
    Error,
    MissingDependency,
}

/// The normalised outcome of one task execution, as handed in by the process
/// execution adapter. An empty `run_id` means the adapter knows none.
pub struct TaskOutcome {
    pub ok: bool,
    pub status: OutcomeStatus,
    pub message: String,
    pub retry_after_ms: Option<u64>,
    pub run_id: String,
}

/// The in-memory mirror of the job store plus the worker bookkeeping.
pub struct JobsState {
    /// All known jobs, in insertion order.
    pub jobs: Vec<JobRecord>,
    /// The id of the job the worker is executing right now, if any.
    pub running_job_id: Option<String>,
    /// Jobs whose cancellation was requested while they ran.
    pub cancel_requested: Vec<String>,
    /// Feeds fresh job ids.
    pub next_job_seq: u64,
}

/// At most one job of `jobs` is `Running`.
pub open spec fn jobs_wf(jobs: Seq<JobRecord>) -> bool {
    forall|i: int, j: int|
        0 <= i < j < jobs.len() ==> !((#[trigger] jobs[i]).status is Running
            && (#[trigger] jobs[j]).status is Running)
}

impl JobsState {
    /// The queue invariant: the single-concurrency guarantee.
    pub open spec fn wf(self) -> bool {
        jobs_wf(self.jobs@)
    }

    /// A fresh, empty queue.
    pub fn new() -> (r: JobsState)
        ensures
            r.jobs@.len() == 0,
            r.running_job_id is None,
            r.cancel_requested@.len() == 0,
            r.next_job_seq == 0,
            r.wf(),
    {
        JobsState {
            jobs: Vec::new(),
            running_job_id: None,
            cancel_requested: Vec::new(),
            next_job_seq: 0,
        }
    }
}

/// At most one job has status `Running`: any two indices of running jobs
/// coincide. This is the single-worker guarantee, stated of every
/// well-formed queue.
pub proof fn lemma_at_most_one_running(jobs: Seq<JobRecord>, i: int, j: int)
    requires
        jobs_wf(jobs),
        0 <= i < jobs.len(),
        0 <= j < jobs.len(),
        jobs[i].status is Running,
        jobs[j].status is Running,
    ensures
        i == j,
{
}

/// `i` is the first index of `jobs` whose record carries `id`.
pub open spec fn is_first_with_id(jobs: Seq<JobRecord>, id: Seq<char>, i: int) -> bool {
    0 <= i < jobs.len() && jobs[i].job_id@ == id && (forall|j: int|
        0 <= j < i ==> (#[trigger] jobs[j]).job_id@ != id)
}

/// No record of `jobs` carries `id`.
pub open spec fn no_job_with_id(jobs: Seq<JobRecord>, id: Seq<char>) -> bool {
    forall|j: int| 0 <= j < jobs.len() ==> (#[trigger] jobs[j]).job_id@ != id
}

/// Finds the first job with the given id.
pub fn find_job_index(jobs: &Vec<JobRecord>, job_id: &str) -> (r: Option<usize>)
    ensures
        match r {
            Some(i) => is_first_with_id(jobs@, job_id@, i as int),
            None => no_job_with_id(jobs@, job_id@),
        },
{
    let mut i: usize = 0;
    while i < jobs.len()
        invariant
            0 <= i <= jobs@.len(),
            forall|j: int| 0 <= j < i ==> (#[trigger] jobs@[j]).job_id@ != job_id@,
        decreases jobs@.len() - i,
    {
        if str_eq(jobs[i].job_id.as_str(), job_id) {
            return Some(i);
        }
        i = i + 1;
    }
    None
}

/// `id` occurs in the cancellation set.
pub open spec fn id_in(set: Seq<String>, id: Seq<char>) -> bool {
    exists|i: int| 0 <= i < set.len() && (#[trigger] set[i])@ == id
}

/// True when the cancellation set holds `id`.
pub fn set_contains_id(set: &Vec<String>, id: &str) -> (r: bool)
    ensures
        r == id_in(set@, id@),
{
    let mut i: usize = 0;
    while i < set.len()
        invariant
            0 <= i <= set@.len(),
            forall|j: int| 0 <= j < i ==> (#[trigger] set@[j])@ != id@,
        decreases set@.len() - i,
    {
        if str_eq(set[i].as_str(), id) {
            return true;
        }
        i = i + 1;
    }
    false
}

/// Keeps an entry of the cancellation set unless it names `id`.
pub open spec fn keep_unless(id: Seq<char>) -> spec_fn(String) -> bool {
    |x: String| x@ != id
}

/// Removes every occurrence of `id` from the cancellation set.
pub fn set_remove_id(set: &mut Vec<String>, id: &str)
    ensures
        final(set)@ == old(set)@.filter(keep_unless(id@)),
{
    let ghost orig = set@;
    let mut acc: Vec<String> = Vec::new();
    let mut i: usize = 0;
    while i < set.len()
        invariant
            0 <= i <= set@.len(),
            set@ == orig,
            acc@ == orig.subrange(0, i as int).filter(keep_unless(id@)),
        decreases set@.len() - i,
    {
        proof {
            assert(orig.subrange(0, i + 1).drop_last() =~= orig.subrange(0, i as int));
            reveal_with_fuel(Seq::filter, 2);
        }
        if !str_eq(set[i].as_str(), id) {
            acc.push(set[i].clone());
            proof {
                assert(keep_unless(id@)(orig[i as int]));
            }
        } else {
            proof {
                assert(!keep_unless(id@)(orig[i as int]));
            }
        }
        i = i + 1;
    }
    proof {
        assert(orig.subrange(0, orig.len() as int) =~= orig);
    }
    *set = acc;
}

/// Copies an optional string.
pub fn clone_opt_string(o: &Option<String>) -> (r: Option<String>)
    ensures
        r == *o,
{
    match o {
        None => None,
        Some(x) => Some(x.clone()),
    }
}

impl ParamValue {
    /// An equal copy.
    pub fn duplicate(&self) -> (r: ParamValue)
        ensures
            r == *self,
    {
        match self {
            ParamValue::Null => ParamValue::Null,
            ParamValue::Int(n) => ParamValue::Int(*n),
            ParamValue::Text(s) => ParamValue::Text(s.clone()),
            ParamValue::Other => ParamValue::Other,
        }
    }
}

impl Params {
    /// A copy with the same view.
    pub fn duplicate(&self) -> (r: Params)
        ensures
            r@ == (*self)@,
    {
        let mut entries: Vec<ParamEntry> = Vec::new();
        let mut i: usize = 0;
        while i < self.entries.len()
            invariant
                0 <= i <= self.entries@.len(),
                entries@ == self.entries@.subrange(0, i as int),
            decreases self.entries@.len() - i,
        {
            let e = &self.entries[i];
            entries.push(ParamEntry { key: e.key.clone(), value: e.value.duplicate() });
            i = i + 1;
            proof {
                assert(entries@ =~= self.entries@.subrange(0, i as int));
            }
        }
        proof {
            assert(entries@ =~= self.entries@);
        }
        Params { entries }
    }
}

impl JobRecord {
    /// A copy with the same view.
    pub fn duplicate(&self) -> (r: JobRecord)
        ensures
            r@ == (*self)@,
    {
        JobRecord {
            job_id: self.job_id.clone(),
            template_id: self.template_id.clone(),
            canonical_id: self.canonical_id.clone(),
            params: self.params.duplicate(),
            status: self.status,
            attempt: self.attempt,
            created_at: self.created_at,
            updated_at: self.updated_at,
            run_id: clone_opt_string(&self.run_id),
            last_error: clone_opt_string(&self.last_error),
            retry_after_ms: self.retry_after_ms,
            retry_at: self.retry_at,
            auto_retry_attempt_count: self.auto_retry_attempt_count,
        }
    }
}

/// The spec-level image of a parameter value.
pub enum ParamValueImage {
    Null,
    Int(i64),
    Text(Seq<char>),
    Other,
}

impl View for ParamValue {
    type V = ParamValueImage;

    open spec fn view(&self) -> ParamValueImage {
        match self {
            ParamValue::Null => ParamValueImage::Null,
            ParamValue::Int(n) => ParamValueImage::Int(*n),
            ParamValue::Text(s) => ParamValueImage::Text(s@),
            ParamValue::Other => ParamValueImage::Other,
        }
    }
}

impl View for Params {
    type V = Seq<(Seq<char>, ParamValueImage)>;

    open spec fn view(&self) -> Seq<(Seq<char>, ParamValueImage)> {
        self.entries@.map_values(|e: ParamEntry| (e.key@, e.value@))
    }
}

/// The spec-level image of a job record: every text field by its character
/// view.
pub struct JobImage {
    pub job_id: Seq<char>,
    pub template_id: Seq<char>,
    pub canonical_id: Seq<char>,
    pub params: Seq<(Seq<char>, ParamValueImage)>,
    pub status: JobStatus,
    pub attempt: u32,
    pub created_at: u64,
    pub updated_at: u64,
    pub run_id: Option<Seq<char>>,
    pub last_error: Option<Seq<char>>,
    pub retry_after_ms: Option<u64>,
    pub retry_at: Option<u64>,
    pub auto_retry_attempt_count: u32,
}

/// The view of an optional string.
pub open spec fn opt_view(o: Option<String>) -> Option<Seq<char>> {
    match o {
        None => None,
        Some(s) => Some(s@),
    }
}

impl View for JobRecord {
    type V = JobImage;

    open spec fn view(&self) -> JobImage {
        JobImage {
            job_id: self.job_id@,
            template_id: self.template_id@,
            canonical_id: self.canonical_id@,
            params: self.params@,
            status: self.status,
            attempt: self.attempt,
            created_at: self.created_at,
            updated_at: self.updated_at,
            run_id: opt_view(self.run_id),
            last_error: opt_view(self.last_error),
            retry_after_ms: self.retry_after_ms,
            retry_at: self.retry_at,
            auto_retry_attempt_count: self.auto_retry_attempt_count,
        }
    }
}

/// Decimal digit strings of distinct numbers differ.
proof fn lemma_dec_digits_injective(a: nat, b: nat)
    requires
        a != b,
    ensures
        dec_digits(a) != dec_digits(b),
    decreases a + b,
{
    if a < 10 && b < 10 {
        assert(dec_digits(a)[0] != dec_digits(b)[0]);
    } else if a < 10 {
        assert(dec_digits(b).len() >= 2) by {
            lemma_dec_digits_len(b / 10);
        }
    } else if b < 10 {
        assert(dec_digits(a).len() >= 2) by {
            lemma_dec_digits_len(a / 10);
        }
    } else {
        if a % 10 != b % 10 {
            assert(dec_digits(a).last() != dec_digits(b).last());
        } else {
            lemma_dec_digits_injective(a / 10, b / 10);
            if dec_digits(a) == dec_digits(b) {
                assert(dec_digits(a).drop_last() == dec_digits(b).drop_last());
                assert(dec_digits(a).drop_last() =~= dec_digits(a / 10));
                assert(dec_digits(b).drop_last() =~= dec_digits(b / 10));
            }
        }
    }
}

/// A decimal digit string is never empty.
proof fn lemma_dec_digits_len(n: nat)
    ensures
        dec_digits(n).len() >= 1,
    decreases n,
{
    if n >= 10 {
        lemma_dec_digits_len(n / 10);
    }
}

/// Minted job ids of distinct sequence numbers differ.
pub proof fn lemma_job_id_injective(a: u64, b: u64)
    requires
        a != b,
    ensures
        spec_job_id(a) != spec_job_id(b),
{
    lemma_dec_digits_injective(a as nat, b as nat);
    if spec_job_id(a) == spec_job_id(b) {
        assert(spec_job_id(a).skip("job_"@.len() as int) =~= dec_digits(a as nat));
        assert(spec_job_id(b).skip("job_"@.len() as int) =~= dec_digits(b as nat));
    }
}

/// No stored job uses an id this queue has yet to mint: every id the
/// counter will produce is still free.
pub open spec fn ids_fresh(s: JobsState) -> bool {
    forall|a: int, k: u64|
        #![trigger s.jobs@[a], spec_job_id(k)]
        0 <= a < s.jobs@.len() && s.next_job_seq <= k ==> s.jobs@[a].job_id@ != spec_job_id(k)
}

/// The id minted for the `seq`-th job of this process.
pub open spec fn spec_job_id(seq: u64) -> Seq<char> {
    "job_"@ + dec_digits(seq as nat)
}

/// The image of the record a fresh enqueue appends.
pub open spec fn spec_new_job(
    seq: u64,
    template_id: Seq<char>,
    canonical_id: Seq<char>,
    params: Seq<(Seq<char>, ParamValueImage)>,
    now_ms: u64,
) -> JobImage {
    JobImage {
        job_id: spec_job_id(seq),
        template_id,
        canonical_id,
        params,
        status: JobStatus::Queued,
        attempt: 0,
        created_at: now_ms,
        updated_at: now_ms,
        run_id: None,
        last_error: None,
        retry_after_ms: None,
        retry_at: None,
        auto_retry_attempt_count: 0,
    }
}

/// Builds the id of the `seq`-th job.
pub fn make_job_id(seq: u64) -> (r: String)
    ensures
        r@ == spec_job_id(seq),
{
    let mut cs = chars_of("job_");
    let digits = u64_to_chars(seq);
    push_all(&mut cs, &digits);
    string_of(&cs)
}

/// Appends a fresh `Queued` job, without validation; `enqueue_job` is the
/// validating entry point. Returns the minted job id.
pub fn append_job(
    s: &mut JobsState,
    template_id: String,
    canonical_id: String,
    params: Params,
    now_ms: u64,
) -> (r: String)
    requires
        old(s).next_job_seq < u64::MAX,
    ensures
        r@ == spec_job_id(old(s).next_job_seq),
        final(s).jobs@.len() == old(s).jobs@.len() + 1,
        final(s).jobs@.subrange(0, old(s).jobs@.len() as int) == old(s).jobs@,
        final(s).jobs@.last()@ == spec_new_job(
            old(s).next_job_seq,
            template_id@,
            canonical_id@,
            params@,
            now_ms,
        ),
        final(s).jobs@.last().status is Queued,
        final(s).running_job_id == old(s).running_job_id,
        final(s).cancel_requested == old(s).cancel_requested,
        final(s).next_job_seq == old(s).next_job_seq + 1,
        old(s).wf() ==> final(s).wf(),
        ids_fresh(*old(s)) ==> ids_fresh(*final(s)) && no_job_with_id(
            old(s).jobs@,
            spec_job_id(old(s).next_job_seq),
        ),
{
    let job_id = make_job_id(s.next_job_seq);
    s.next_job_seq = s.next_job_seq + 1;
    let rec = JobRecord {
        job_id: job_id.clone(),
        template_id,
        canonical_id,
        params,
        status: JobStatus::Queued,
        attempt: 0,
        created_at: now_ms,
        updated_at: now_ms,
        run_id: None,
        last_error: None,
        retry_after_ms: None,
        retry_at: None,
        auto_retry_attempt_count: 0,
    };
    s.jobs.push(rec);
    proof {
        assert(s.jobs@.subrange(0, old(s).jobs@.len() as int) =~= old(s).jobs@);
        if ids_fresh(*old(s)) {
            assert forall|a: int, k: u64|
                #![trigger s.jobs@[a], spec_job_id(k)]
                0 <= a < s.jobs@.len() && s.next_job_seq <= k implies s.jobs@[a].job_id@
                != spec_job_id(k) by {
                if a < old(s).jobs@.len() {
                    assert(s.jobs@[a] == old(s).jobs@[a]);
                    assert(old(s).next_job_seq <= k);
                } else {
                    lemma_job_id_injective(old(s).next_job_seq, k);
                }
            }
            assert forall|j: int| 0 <= j < old(s).jobs@.len() implies (
            #[trigger] old(s).jobs@[j]).job_id@ != spec_job_id(old(s).next_job_seq) by {
                assert(old(s).next_job_seq <= old(s).next_job_seq);
            }
        }
        if old(s).wf() {
            assert forall|i: int, j: int| 0 <= i < j < s.jobs@.len() implies !((
            #[trigger] s.jobs@[i]).status is Running && (#[trigger] s.jobs@[j]).status
                is Running) by {
                if j < old(s).jobs@.len() {
                    assert(s.jobs@[i] == old(s).jobs@[i]);
                    assert(s.jobs@[j] == old(s).jobs@[j]);
                } else {
                    assert(s.jobs@[j].status is Queued);
                }
            }
        }
    }
    job_id
}

/// Enqueues a job for a template and business key. Validates that the
/// template exists and is wired and that the key normalises cleanly, exactly
/// as the error cases state; on success appends a `Queued` record and
/// returns the minted id.
pub fn enqueue_job(
    s: &mut JobsState,
    template_id: String,
    canonical_id: String,
    params: Params,
    now_ms: u64,
) -> (r: Result<String, CoreError>)
    requires
        old(s).next_job_seq < u64::MAX,
    ensures
        ids_fresh(*old(s)) ==> ids_fresh(*final(s)),
        !known_template(template_id@) ==> r is Err && r->Err_0.kind == ErrorKind::NotFound
            && *final(s) == *old(s),
        known_template(template_id@) && !wired_template(template_id@) ==> r is Err
            && r->Err_0.kind == ErrorKind::InvalidInput && *final(s) == *old(s),
        known_template(template_id@) && wired_template(template_id@) && !spec_identifier_ok(
            canonical_id@,
        ) ==> r is Err && r->Err_0.kind == ErrorKind::InvalidInput && *final(s) == *old(s),
        known_template(template_id@) && wired_template(template_id@) && spec_identifier_ok(
            canonical_id@,
        ) ==> r is Ok && r->Ok_0@ == spec_job_id(old(s).next_job_seq) && final(s).jobs@.len()
            == old(s).jobs@.len() + 1 && final(s).jobs@.subrange(
            0,
            old(s).jobs@.len() as int,
        ) == old(s).jobs@ && final(s).jobs@.last()@ == spec_new_job(
            old(s).next_job_seq,
            template_id@,
            canonical_id@,
            params@,
            now_ms,
        ) && final(s).running_job_id == old(s).running_job_id && final(s).cancel_requested
            == old(s).cancel_requested,
        old(s).wf() ==> final(s).wf(),
{
    if !is_known_template(template_id.as_str()) {
        let mut msg = chars_of("unknown template id: ");
        let idc = chars_of(template_id.as_str());
        push_all(&mut msg, &idc);
        return Err(CoreError::new(ErrorKind::NotFound, string_of(&msg)));
    }
    if !is_wired_template(template_id.as_str()) {
        let mut msg = chars_of("template not wired: ");
        let idc = chars_of(template_id.as_str());
        push_all(&mut msg, &idc);
        return Err(CoreError::new(ErrorKind::InvalidInput, string_of(&msg)));
    }
    let normalized = normalize_identifier_internal(canonical_id.as_str());
    if normalized.errors.len() > 0 {
        proof {
            assert(normalized.errors.deep_view().len() == normalized.errors@.len());
        }
        let mut msg = chars_of("invalid canonical_id: ");
        let joined = crate::identifier::join_semicolon(&normalized.errors);
        let jc = chars_of(joined.as_str());
        push_all(&mut msg, &jc);
        return Err(CoreError::new(ErrorKind::InvalidInput, string_of(&msg)));
    }
    proof {
        assert(normalized.errors.deep_view().len() == normalized.errors@.len());
    }
    Ok(append_job(s, template_id, canonical_id, params, now_ms))
}

/// Some job of `jobs` is `Running`.
pub open spec fn some_running(jobs: Seq<JobRecord>) -> bool {
    exists|i: int| 0 <= i < jobs.len() && (#[trigger] jobs[i]).status is Running
}

/// No job of `jobs` is `Queued`.
pub open spec fn no_queued(jobs: Seq<JobRecord>) -> bool {
    forall|i: int| 0 <= i < jobs.len() ==> !((#[trigger] jobs[i]).status is Queued)
}

/// `i` is the first index of a `Queued` job: the next one the worker takes,
/// FIFO in record order.
pub open spec fn is_first_queued(jobs: Seq<JobRecord>, i: int) -> bool {
    0 <= i < jobs.len() && jobs[i].status is Queued && (forall|j: int|
        0 <= j < i ==> !((#[trigger] jobs[j]).status is Queued))
}

/// Saturating increment of a 32-bit counter.
pub open spec fn sat_inc_u32(x: u32) -> u32 {
    if x == u32::MAX {
        x
    } else {
        (x + 1) as u32
    }
}

/// The worker's claim step: when the worker is idle and no job is `Running`,
/// takes the first `Queued` job, marks it `Running`, counts the attempt and
/// remembers it as the running job. Returns a copy of the claimed record.
pub fn claim_next_queued(s: &mut JobsState, now_ms: u64) -> (r: Option<JobRecord>)
    requires
        old(s).wf(),
    ensures
        final(s).wf(),
        final(s).cancel_requested == old(s).cancel_requested,
        final(s).next_job_seq == old(s).next_job_seq,
        match r {
            None => *final(s) == *old(s) && (old(s).running_job_id is Some || some_running(
                old(s).jobs@,
            ) || no_queued(old(s).jobs@)),
            Some(rec) => old(s).running_job_id is None && !some_running(old(s).jobs@) && exists|
                i: int,
            |
                {
                    &&& #[trigger] is_first_queued(old(s).jobs@, i)
                    &&& final(s).jobs@ == old(s).jobs@.update(i, final(s).jobs@[i])
                    &&& final(s).jobs@[i]@ == (JobImage {
                        status: JobStatus::Running,
                        attempt: sat_inc_u32(old(s).jobs@[i].attempt),
                        updated_at: now_ms,
                        ..old(s).jobs@[i]@
                    })
                    &&& rec@ == final(s).jobs@[i]@
                    &&& final(s).running_job_id matches Some(rid) && rid@ == old(
                        s,
                    ).jobs@[i].job_id@
                },
        },
{
    if s.running_job_id.is_some() {
        return None;
    }
    let n = s.jobs.len();
    let mut k: usize = 0;
    while k < n
        invariant
            old(s).wf(),
            old(s).running_job_id is None,
            *s == *old(s),
            0 <= k <= n,
            n == s.jobs@.len(),
            forall|j: int| 0 <= j < k ==> !((#[trigger] s.jobs@[j]).status is Running),
        decreases n - k,
    {
        if matches!(s.jobs[k].status, JobStatus::Running) {
            proof {
                assert(s.jobs@[k as int].status is Running);
            }
            return None;
        }
        k = k + 1;
    }
    proof {
        assert(!some_running(s.jobs@));
    }
    let mut i: usize = 0;
    while i < n
        invariant
            old(s).wf(),
            old(s).running_job_id is None,
            *s == *old(s),
            0 <= i <= n,
            n == s.jobs@.len(),
            !some_running(s.jobs@),
            forall|j: int| 0 <= j < i ==> !((#[trigger] s.jobs@[j]).status is Queued),
        decreases n - i,
    {
        let st = s.jobs[i].status;
        if matches!(st, JobStatus::Queued) {
            let ghost jobs0 = s.jobs@;
            let mut rec = s.jobs[i].duplicate();
            rec.status = JobStatus::Running;
            rec.attempt = rec.attempt.saturating_add(1);
            rec.updated_at = now_ms;
            let out = rec.duplicate();
            let rid = rec.job_id.clone();
            s.jobs[i] = rec;
            s.running_job_id = Some(rid);
            proof {
                assert(is_first_queued(jobs0, i as int));
                assert(s.jobs@ =~= jobs0.update(i as int, s.jobs@[i as int]));
                assert(s.jobs@[i as int]@ == (JobImage {
                    status: JobStatus::Running,
                    attempt: sat_inc_u32(jobs0[i as int].attempt),
                    updated_at: now_ms,
                    ..jobs0[i as int]@
                }));
                assert forall|a: int, b: int| 0 <= a < b < s.jobs@.len() implies !((
                #[trigger] s.jobs@[a]).status is Running && (#[trigger] s.jobs@[b]).status
                    is Running) by {
                    if a != i as int && b != i as int {
                        assert(s.jobs@[a] == jobs0[a]);
                        assert(s.jobs@[b] == jobs0[b]);
                    } else if a == i as int {
                        assert(s.jobs@[b] == jobs0[b]);
                        assert(!(jobs0[b].status is Running));
                    } else {
                        assert(s.jobs@[a] == jobs0[a]);
                    }
                }
            }
            return Some(out);
        }
        proof {
            assert(!(s.jobs@[i as int].status is Queued));
        }
        i = i + 1;
    }
    proof {
        assert(no_queued(s.jobs@));
    }
    None
}

/// The status a finished run leaves behind: a recorded cancellation wins;
/// otherwise an explicit retry signal, then the adapter's own verdict.
pub open spec fn spec_final_status(canceled: bool, ok: bool, st: OutcomeStatus) -> JobStatus {
    if canceled {
        JobStatus::Canceled
    } else if st is NeedsRetry {
        JobStatus::NeedsRetry
    } else if ok {
        JobStatus::Succeeded
    } else {
        JobStatus::Failed
    }
}

/// The run id kept on the record: an already-bound id wins; else the
/// adapter's, when it is not blank.
pub open spec fn spec_result_run_id(
    old_run: Option<Seq<char>>,
    outcome_run: Seq<char>,
) -> Option<Seq<char>> {
    if old_run is Some {
        old_run
    } else if crate::text::trim_spec(outcome_run).len() > 0 {
        Some(outcome_run)
    } else {
        None
    }
}

/// The error text kept on the record for a given final status.
pub open spec fn spec_result_error(st: JobStatus, msg: Seq<char>) -> Option<Seq<char>> {
    if st is NeedsRetry || st is Failed {
        Some(msg)
    } else {
        None
    }
}

/// The retry instant as a 64-bit value; the formula already saturates there.
pub open spec fn spec_next_retry_u64(
    now_ms: u64,
    retry_after_ms: Option<u64>,
    attempt_index: u32,
    settings: DesktopSettings,
) -> u64 {
    spec_next_retry_at_ms(now_ms, retry_after_ms, attempt_index, settings) as u64
}

/// Applies the adapter's outcome to the job that just ran: derives the final
/// status (a cancellation request wins, then an explicit retry signal, then
/// the `ok` flag), computes `retry_at` eagerly on a transition into
/// `NeedsRetry` using the upcoming attempt number, records the run id and
/// error text, releases the worker and drops any cancellation intent.
pub fn apply_job_result(
    s: &mut JobsState,
    job_id: &str,
    outcome: &TaskOutcome,
    settings: &DesktopSettings,
    now_ms: u64,
) -> (r: Result<JobRecord, CoreError>)
    requires
        old(s).wf(),
    ensures
        final(s).wf(),
        final(s).next_job_seq == old(s).next_job_seq,
        match r {
            Err(e) => *final(s) == *old(s) && e.kind == ErrorKind::NotFound && no_job_with_id(
                old(s).jobs@,
                job_id@,
            ),
            Ok(rec) => exists|i: int|
                {
                    &&& #[trigger] is_first_with_id(old(s).jobs@, job_id@, i)
                    &&& final(s).jobs@ == old(s).jobs@.update(i, final(s).jobs@[i])
                    &&& {
                        let canceled = id_in(old(s).cancel_requested@, job_id@);
                        let st = spec_final_status(canceled, outcome.ok, outcome.status);
                        final(s).jobs@[i]@ == (JobImage {
                            status: st,
                            updated_at: now_ms,
                            run_id: spec_result_run_id(
                                old(s).jobs@[i]@.run_id,
                                outcome.run_id@,
                            ),
                            last_error: spec_result_error(st, outcome.message@),
                            retry_after_ms: if st is NeedsRetry {
                                outcome.retry_after_ms
                            } else {
                                None
                            },
                            retry_at: if st is NeedsRetry {
                                Some(
                                    spec_next_retry_u64(
                                        now_ms,
                                        outcome.retry_after_ms,
                                        sat_inc_u32(
                                            old(s).jobs@[i].auto_retry_attempt_count,
                                        ),
                                        *settings,
                                    ),
                                )
                            } else {
                                None
                            },
                            ..old(s).jobs@[i]@
                        })
                    }
                    &&& final(s).running_job_id is None
                    &&& final(s).cancel_requested@ == old(s).cancel_requested@.filter(
                        keep_unless(job_id@),
                    )
                    &&& rec@ == final(s).jobs@[i]@
                },
        },
{
    let idx = match find_job_index(&s.jobs, job_id) {
        Some(i) => i,
        None => {
            let mut msg = chars_of("job not found: ");
            let idc = chars_of(job_id);
            push_all(&mut msg, &idc);
            return Err(CoreError::new(ErrorKind::NotFound, string_of(&msg)));
        },
    };
    let canceled = set_contains_id(&s.cancel_requested, job_id);
    let ghost jobs0 = s.jobs@;
    let mut rec = s.jobs[idx].duplicate();
    let status = if canceled {
        JobStatus::Canceled
    } else if matches!(outcome.status, OutcomeStatus::NeedsRetry) {
        JobStatus::NeedsRetry
    } else if outcome.ok {
        JobStatus::Succeeded
    } else {
        JobStatus::Failed
    };
    rec.status = status;
    rec.updated_at = now_ms;
    if rec.run_id.is_none() {
        let rc = chars_of(outcome.run_id.as_str());
        let tr = crate::text::trim(&rc);
        if tr.len() > 0 {
            rec.run_id = Some(outcome.run_id.clone());
        }
    }
    if matches!(status, JobStatus::NeedsRetry) {
        rec.retry_after_ms = outcome.retry_after_ms;
        let next_attempt = rec.auto_retry_attempt_count.saturating_add(1);
        let at = compute_next_retry_at_ms(now_ms, outcome.retry_after_ms, next_attempt, settings);
        rec.retry_at = Some(at);
        rec.last_error = Some(outcome.message.clone());
    } else {
        rec.retry_after_ms = None;
        rec.retry_at = None;
        if matches!(status, JobStatus::Failed) {
            rec.last_error = Some(outcome.message.clone());
        } else {
            rec.last_error = None;
        }
    }
    let out = rec.duplicate();
    s.jobs[idx] = rec;
    s.running_job_id = None;
    set_remove_id(&mut s.cancel_requested, job_id);
    proof {
        assert(s.jobs@ =~= jobs0.update(idx as int, s.jobs@[idx as int]));
        assert(!(status is Running));
        assert forall|a: int, b: int| 0 <= a < b < s.jobs@.len() implies !((
        #[trigger] s.jobs@[a]).status is Running && (#[trigger] s.jobs@[b]).status
            is Running) by {
            if a != idx as int && b != idx as int {
                assert(s.jobs@[a] == jobs0[a]);
                assert(s.jobs@[b] == jobs0[b]);
            } else if a == idx as int {
                assert(s.jobs@[b] == jobs0[b]);
            } else {
                assert(s.jobs@[a] == jobs0[a]);
            }
        }
    }
    Ok(out)
}

/// The status a cancellation leaves: a queued or running job becomes
/// `Canceled`; a terminal job keeps its status (cancel is then a no-op, not
/// an error).
pub open spec fn spec_cancel_status(st: JobStatus) -> JobStatus {
    if st is Queued || st is Running {
        JobStatus::Canceled
    } else {
        st
    }
}

/// Cancels a job. A `Queued` job is canceled outright; a `Running` job is
/// marked canceled and a cancellation intent is recorded so the outcome of
/// the in-flight run is discarded (the host kills the underlying process,
/// best effort). A terminal job is left as it is.
pub fn cancel_job(s: &mut JobsState, job_id: &str, now_ms: u64) -> (r: Result<
    JobRecord,
    CoreError,
>)
    requires
        old(s).wf(),
    ensures
        final(s).wf(),
        final(s).next_job_seq == old(s).next_job_seq,
        final(s).running_job_id == old(s).running_job_id,
        match r {
            Err(e) => *final(s) == *old(s) && e.kind == ErrorKind::NotFound && no_job_with_id(
                old(s).jobs@,
                job_id@,
            ),
            Ok(rec) => exists|i: int|
                {
                    &&& #[trigger] is_first_with_id(old(s).jobs@, job_id@, i)
                    &&& final(s).jobs@ == old(s).jobs@.update(i, final(s).jobs@[i])
                    &&& final(s).jobs@[i]@ == (JobImage {
                        status: spec_cancel_status(old(s).jobs@[i].status),
                        updated_at: now_ms,
                        ..old(s).jobs@[i]@
                    })
                    &&& if old(s).jobs@[i].status is Running {
                        final(s).cancel_requested@.len() == old(s).cancel_requested@.len() + 1
                            && final(s).cancel_requested@.subrange(
                            0,
                            old(s).cancel_requested@.len() as int,
                        ) == old(s).cancel_requested@ && final(s).cancel_requested@.last()@
                            == job_id@
                    } else {
                        final(s).cancel_requested == old(s).cancel_requested
                    }
                    &&& rec@ == final(s).jobs@[i]@
                },
        },
{
    let idx = match find_job_index(&s.jobs, job_id) {
        Some(i) => i,
        None => {
            let mut msg = chars_of("job not found: ");
            let idc = chars_of(job_id);
            push_all(&mut msg, &idc);
            return Err(CoreError::new(ErrorKind::NotFound, string_of(&msg)));
        },
    };
    let ghost jobs0 = s.jobs@;
    let ghost cancel0 = s.cancel_requested@;
    let mut rec = s.jobs[idx].duplicate();
    match rec.status {
        JobStatus::Queued => {
            rec.status = JobStatus::Canceled;
        },
        JobStatus::Running => {
            let mut idc: Vec<char> = chars_of(job_id);
            s.cancel_requested.push(string_of(&idc));
            rec.status = JobStatus::Canceled;
        },
        _ => {},
    }
    rec.updated_at = now_ms;
    let out = rec.duplicate();
    s.jobs[idx] = rec;
    proof {
        assert(s.jobs@ =~= jobs0.update(idx as int, s.jobs@[idx as int]));
        if cancel0 != s.cancel_requested@ {
            assert(s.cancel_requested@.subrange(0, cancel0.len() as int) =~= cancel0);
        }
        assert forall|a: int, b: int| 0 <= a < b < s.jobs@.len() implies !((
        #[trigger] s.jobs@[a]).status is Running && (#[trigger] s.jobs@[b]).status
            is Running) by {
            if a != idx as int {
                assert(s.jobs@[a] == jobs0[a]);
            }
            if b != idx as int {
                assert(s.jobs@[b] == jobs0[b]);
            }
            if a == idx as int || b == idx as int {
                assert(!(s.jobs@[idx as int].status is Running) || jobs0[idx as int].status
                    is Running);
            }
        }
    }
    Ok(out)
}

/// A retry is allowed from `Failed` or `NeedsRetry`, or from any state when
/// forced.
pub open spec fn spec_retryable(st: JobStatus, force: bool) -> bool {
    st is Failed || st is NeedsRetry || force
}

/// An unforced retry must wait for the retry window to open.
pub open spec fn spec_retry_blocked(j: JobImage, force: bool, now_ms: u64) -> bool {
    !force && (j.retry_at matches Some(t) && now_ms < t)
}

/// Requeues a job for another attempt. Allowed from `Failed` or
/// `NeedsRetry`, or from any state when `force` is set; an unforced retry
/// before `retry_at` has elapsed fails with `PreconditionFailed`. On
/// success the job returns to `Queued` with its error and backoff fields
/// cleared; the auto-retry budget spent so far is kept.
pub fn retry_job(s: &mut JobsState, job_id: &str, force: bool, now_ms: u64) -> (r: Result<
    JobRecord,
    CoreError,
>)
    requires
        old(s).wf(),
    ensures
        final(s).wf(),
        final(s).next_job_seq == old(s).next_job_seq,
        final(s).running_job_id == old(s).running_job_id,
        final(s).cancel_requested == old(s).cancel_requested,
        match r {
            Err(e) => *final(s) == *old(s) && (if no_job_with_id(old(s).jobs@, job_id@) {
                e.kind == ErrorKind::NotFound
            } else {
                e.kind == ErrorKind::PreconditionFailed && exists|i: int|
                    {
                        &&& #[trigger] is_first_with_id(old(s).jobs@, job_id@, i)
                        &&& {
                            ||| !spec_retryable(old(s).jobs@[i].status, force)
                            ||| spec_retry_blocked(old(s).jobs@[i]@, force, now_ms)
                        }
                        &&& spec_retryable(old(s).jobs@[i].status, force) ==> e.message@
                            == "retry window has not started yet; pass force=true to override"@
                    }
            }),
            Ok(rec) => exists|i: int|
                {
                    &&& #[trigger] is_first_with_id(old(s).jobs@, job_id@, i)
                    &&& spec_retryable(old(s).jobs@[i].status, force)
                    &&& !spec_retry_blocked(old(s).jobs@[i]@, force, now_ms)
                    &&& final(s).jobs@ == old(s).jobs@.update(i, final(s).jobs@[i])
                    &&& final(s).jobs@[i]@ == (JobImage {
                        status: JobStatus::Queued,
                        updated_at: now_ms,
                        last_error: None,
                        retry_after_ms: None,
                        retry_at: None,
                        ..old(s).jobs@[i]@
                    })
                    &&& rec@ == final(s).jobs@[i]@
                },
        },
{
    let idx = match find_job_index(&s.jobs, job_id) {
        Some(i) => i,
        None => {
            let mut msg = chars_of("job not found: ");
            let idc = chars_of(job_id);
            push_all(&mut msg, &idc);
            return Err(CoreError::new(ErrorKind::NotFound, string_of(&msg)));
        },
    };
    let st = s.jobs[idx].status;
    if !(matches!(st, JobStatus::Failed) || matches!(st, JobStatus::NeedsRetry) || force) {
        return Err(
            CoreError::new(
                ErrorKind::PreconditionFailed,
                String::from_str("job is not retryable"),
            ),
        );
    }
    if !force {
        match s.jobs[idx].retry_at {
            Some(t) => {
                if now_ms < t {
                    return Err(
                        CoreError::new(
                            ErrorKind::PreconditionFailed,
                            String::from_str(
                                "retry window has not started yet; pass force=true to override",
                            ),
                        ),
                    );
                }
            },
            None => {},
        }
    }
    let ghost jobs0 = s.jobs@;
    let mut rec = s.jobs[idx].duplicate();
    rec.status = JobStatus::Queued;
    rec.updated_at = now_ms;
    rec.last_error = None;
    rec.retry_after_ms = None;
    rec.retry_at = None;
    let out = rec.duplicate();
    s.jobs[idx] = rec;
    proof {
        assert(s.jobs@ =~= jobs0.update(idx as int, s.jobs@[idx as int]));
        assert forall|a: int, b: int| 0 <= a < b < s.jobs@.len() implies !((
        #[trigger] s.jobs@[a]).status is Running && (#[trigger] s.jobs@[b]).status
            is Running) by {
            if a != idx as int {
                assert(s.jobs@[a] == jobs0[a]);
            }
            if b != idx as int {
                assert(s.jobs@[b] == jobs0[b]);
            }
        }
    }
    Ok(out)
}

/// Keeps a job unless it sits in a terminal, non-retryable state.
pub open spec fn keep_unfinished() -> spec_fn(JobRecord) -> bool {
    |j: JobRecord| !spec_job_finished(j.status)
}

/// Every element of a filtered sequence is an element of the original.
proof fn lemma_filter_elem(s: Seq<JobRecord>, pred: spec_fn(JobRecord) -> bool, a: int)
    requires
        0 <= a < s.filter(pred).len(),
    ensures
        exists|k: int| 0 <= k < s.len() && s[k] == s.filter(pred)[a],
    decreases s.len(),
{
    reveal(Seq::filter);
    if s.len() > 0 {
        if pred(s.last()) {
            if a < s.filter(pred).len() - 1 {
                lemma_filter_elem(s.drop_last(), pred, a);
                let k = choose|k: int|
                    0 <= k < s.drop_last().len() && s.drop_last()[k] == s.drop_last().filter(
                        pred,
                    )[a];
                assert(s[k] == s.filter(pred)[a]);
            } else {
                assert(s[s.len() - 1] == s.filter(pred)[a]);
            }
        } else {
            lemma_filter_elem(s.drop_last(), pred, a);
            let k = choose|k: int|
                0 <= k < s.drop_last().len() && s.drop_last()[k] == s.drop_last().filter(
                    pred,
                )[a];
            assert(s[k] == s.filter(pred)[a]);
        }
    }
}

/// Filtering preserves the single-running invariant.
proof fn lemma_wf_filter(s: Seq<JobRecord>, pred: spec_fn(JobRecord) -> bool)
    requires
        jobs_wf(s),
    ensures
        jobs_wf(s.filter(pred)),
    decreases s.len(),
{
    reveal(Seq::filter);
    if s.len() > 0 {
        assert(jobs_wf(s.drop_last())) by {
            assert forall|i: int, j: int| 0 <= i < j < s.drop_last().len() implies !((
            #[trigger] s.drop_last()[i]).status is Running && (
            #[trigger] s.drop_last()[j]).status is Running) by {
                assert(s.drop_last()[i] == s[i]);
                assert(s.drop_last()[j] == s[j]);
            }
        }
        lemma_wf_filter(s.drop_last(), pred);
        let fd = s.drop_last().filter(pred);
        if pred(s.last()) {
            assert(s.filter(pred) == fd.push(s.last()));
            assert forall|a: int, b: int| 0 <= a < b < s.filter(pred).len() implies !((
            #[trigger] s.filter(pred)[a]).status is Running && (
            #[trigger] s.filter(pred)[b]).status is Running) by {
                if b < fd.len() {
                    assert(s.filter(pred)[a] == fd[a]);
                    assert(s.filter(pred)[b] == fd[b]);
                } else {
                    assert(s.filter(pred)[a] == fd[a]);
                    assert(s.filter(pred)[b] == s.last());
                    lemma_filter_elem(s.drop_last(), pred, a);
                    let k = choose|k: int|
                        0 <= k < s.drop_last().len() && s.drop_last()[k] == fd[a];
                    if fd[a].status is Running && s.last().status is Running {
                        assert(s[k].status is Running);
                        assert(s[s.len() - 1].status is Running);
                    }
                }
            }
        }
    }
}

/// Removes every job in a terminal, non-retryable state (`Succeeded`,
/// `Failed` or `Canceled`); jobs awaiting a retry stay. Returns how many
/// records the sweep removed.
pub fn clear_finished_jobs(s: &mut JobsState) -> (r: usize)
    requires
        old(s).wf(),
    ensures
        final(s).wf(),
        final(s).jobs@ == old(s).jobs@.filter(keep_unfinished()),
        final(s).running_job_id == old(s).running_job_id,
        final(s).cancel_requested == old(s).cancel_requested,
        final(s).next_job_seq == old(s).next_job_seq,
        r == old(s).jobs@.len() - final(s).jobs@.len(),
{
    let ghost jobs0 = s.jobs@;
    let before = s.jobs.len();
    let ghost mut p: int = 0;
    let mut i: usize = 0;
    proof {
        assert(jobs0.subrange(0, 0).filter(keep_unfinished()) + jobs0.skip(0) =~= jobs0);
    }
    while i < s.jobs.len()
        invariant
            old(s).wf(),
            jobs0 == old(s).jobs@,
            s.running_job_id == old(s).running_job_id,
            s.cancel_requested == old(s).cancel_requested,
            s.next_job_seq == old(s).next_job_seq,
            0 <= p <= jobs0.len(),
            i as int == jobs0.subrange(0, p).filter(keep_unfinished()).len(),
            s.jobs@ == jobs0.subrange(0, p).filter(keep_unfinished()) + jobs0.skip(p),
        decreases jobs0.len() - p,
    {
        proof {
            assert(s.jobs@.len() == i + (jobs0.len() - p));
            assert(s.jobs@[i as int] == jobs0[p]);
            assert(jobs0.subrange(0, p + 1).drop_last() =~= jobs0.subrange(0, p));
            reveal_with_fuel(Seq::filter, 2);
        }
        let keep = !is_finished_status(s.jobs[i].status);
        if keep {
            proof {
                assert(keep_unfinished()(jobs0[p]));
                assert(jobs0.subrange(0, p + 1).filter(keep_unfinished())
                    == jobs0.subrange(0, p).filter(keep_unfinished()).push(jobs0[p]));
                assert(jobs0.subrange(0, p).filter(keep_unfinished()).push(jobs0[p])
                    + jobs0.skip(p + 1) =~= jobs0.subrange(0, p).filter(keep_unfinished())
                    + jobs0.skip(p));
                p = p + 1;
            }
            i = i + 1;
        } else {
            let _ = s.jobs.remove(i);
            proof {
                assert(!(keep_unfinished()(jobs0[p])));
                assert(jobs0.subrange(0, p + 1).filter(keep_unfinished())
                    == jobs0.subrange(0, p).filter(keep_unfinished()));
                let prefix = jobs0.subrange(0, p).filter(keep_unfinished());
                assert((prefix + jobs0.skip(p)).remove(i as int) =~= prefix + jobs0.skip(
                    p + 1,
                ));
                p = p + 1;
            }
        }
    }
    proof {
        assert(p == jobs0.len());
        assert(jobs0.subrange(0, jobs0.len() as int) =~= jobs0);
        assert(s.jobs@ =~= jobs0.filter(keep_unfinished()));
        jobs0.lemma_filter_len(keep_unfinished());
        lemma_wf_filter(jobs0, keep_unfinished());
    }
    let after = s.jobs.len();
    before - after
}

/// True for `Succeeded`, `Failed` and `Canceled`.
fn is_finished_status(st: JobStatus) -> (r: bool)
    ensures
        r == spec_job_finished(st),
{
    matches!(st, JobStatus::Succeeded | JobStatus::Failed | JobStatus::Canceled)
}


/// Display order of the job list: most recently updated first, job id as
/// the deterministic tiebreaker for identical timestamps.
pub open spec fn display_le(a: JobRecord, b: JobRecord) -> bool {
    a.updated_at > b.updated_at || (a.updated_at == b.updated_at && !crate::text::lex_lt(
        b.job_id@,
        a.job_id@,
    ))
}

/// The display order is total.
pub proof fn lemma_display_total(a: JobRecord, b: JobRecord)
    ensures
        display_le(a, b) || display_le(b, a),
{
    if a.updated_at == b.updated_at {
        if crate::text::lex_lt(b.job_id@, a.job_id@) {
            crate::text::lemma_lex_asym(b.job_id@, a.job_id@);
        }
    }
}

/// The display order is transitive.
pub proof fn lemma_display_trans(a: JobRecord, b: JobRecord, c: JobRecord)
    requires
        display_le(a, b),
        display_le(b, c),
    ensures
        display_le(a, c),
{
    if a.updated_at == b.updated_at && b.updated_at == c.updated_at {
        if crate::text::lex_lt(c.job_id@, a.job_id@) {
            if crate::text::lex_lt(a.job_id@, b.job_id@) {
                crate::text::lemma_lex_trans(c.job_id@, a.job_id@, b.job_id@);
            } else if crate::text::lex_lt(b.job_id@, a.job_id@) {
            } else {
                crate::text::lemma_lex_connected(a.job_id@, b.job_id@);
            }
        }
    }
}

/// True when `a` is shown at or before `b`.
fn display_le_exec(a: &JobRecord, b: &JobRecord) -> (r: bool)
    ensures
        r == display_le(*a, *b),
{
    if a.updated_at > b.updated_at {
        return true;
    }
    if a.updated_at < b.updated_at {
        return false;
    }
    let ca = chars_of(a.job_id.as_str());
    let cb = chars_of(b.job_id.as_str());
    !crate::text::chars_lt(&cb, &ca)
}

/// Sorts the job list for display: most recently updated first, id as the
/// tiebreaker, so identical timestamps still list deterministically. The
/// records themselves are kept as they are.
pub fn sort_jobs_for_display(rows: &mut Vec<JobRecord>)
    ensures
        final(rows)@.len() == old(rows)@.len(),
        forall|i: int, j: int|
            0 <= i < j < final(rows)@.len() ==> display_le(
                #[trigger] final(rows)@[i],
                #[trigger] final(rows)@[j],
            ),
        final(rows)@.to_multiset() == old(rows)@.to_multiset(),
{
    broadcast use vstd::seq_lib::group_to_multiset_ensures;

    let mut out: Vec<JobRecord> = Vec::new();
    proof {
        assert(out@.to_multiset().add(rows@.to_multiset()) =~= old(rows)@.to_multiset());
    }
    while rows.len() > 0
        invariant
            out@.to_multiset().add(rows@.to_multiset()) == old(rows)@.to_multiset(),
            forall|i: int, j: int|
                0 <= i < j < out@.len() ==> display_le(
                    #[trigger] out@[i],
                    #[trigger] out@[j],
                ),
            forall|i: int, j: int|
                0 <= i < out@.len() && 0 <= j < rows@.len() ==> display_le(
                    #[trigger] out@[i],
                    #[trigger] rows@[j],
                ),
        decreases rows@.len(),
    {
        let mut mi: usize = 0;
        let mut k: usize = 1;
        let n = rows.len();
        proof {
            crate::text::lemma_lex_irrefl(rows@[0].job_id@);
        }
        while k < n
            invariant
                0 <= mi < k <= n,
                n == rows@.len(),
                forall|j: int| 0 <= j < k ==> display_le(rows@[mi as int], #[trigger] rows@[j]),
            decreases n - k,
        {
            if !display_le_exec(&rows[mi], &rows[k]) {
                proof {
                    lemma_display_total(rows@[mi as int], rows@[k as int]);
                    assert forall|j: int| 0 <= j < k + 1 implies display_le(
                        rows@[k as int],
                        #[trigger] rows@[j],
                    ) by {
                        if j != k as int {
                            lemma_display_trans(rows@[k as int], rows@[mi as int], rows@[j]);
                        } else {
                            lemma_display_total(rows@[k as int], rows@[k as int]);
                        }
                    }
                }
                mi = k;
            }
            k = k + 1;
        }
        let ghost rows_pre = rows@;
        let ghost out_pre = out@;
        let picked = rows.remove(mi);
        out.push(picked);
        proof {
            rows_pre.to_multiset_ensures();
            out_pre.to_multiset_ensures();
            assert(rows_pre.remove(mi as int).to_multiset() =~= rows_pre.to_multiset().remove(
                rows_pre[mi as int],
            ));
            assert(out_pre.push(picked).to_multiset() =~= out_pre.to_multiset().insert(picked));
            assert(out@.to_multiset().add(rows@.to_multiset()) =~= old(rows)@.to_multiset());
            assert forall|i: int, j: int|
                0 <= i < out@.len() && 0 <= j < rows@.len() implies display_le(
                #[trigger] out@[i],
                #[trigger] rows@[j],
            ) by {
                let src = if j < mi as int {
                    j
                } else {
                    j + 1
                };
                assert(rows@[j] == rows_pre[src]);
                if i < out_pre.len() {
                    assert(out@[i] == out_pre[i]);
                } else {
                    assert(out@[i] == picked);
                }
            }
        }
    }
    proof {
        rows@.to_multiset_ensures();
        out@.to_multiset_ensures();
        old(rows)@.to_multiset_ensures();
        assert(rows@.to_multiset().len() == 0);
        assert(out@.to_multiset() =~= old(rows)@.to_multiset());
        assert(out@.len() == old(rows)@.len());
    }
    *rows = out;
}

} // verus!
