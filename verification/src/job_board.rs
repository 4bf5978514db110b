//! The in-memory board of manual backfill jobs: starting a job (with the
//! duplicate and concurrency guards), recording how it ended, pruning old
//! finished jobs, and listing them.
//!
//! The board decides; the program around it runs the job and reports back
//! through [`JobBoard::finish`].
use vstd::prelude::*;
use crate::calendar::{local_now_compact, local_now_rfc3339};
use crate::order::{lex_less, lemma_lex_order, str_equal, str_less};
use crate::text::{decimal, lemma_decimal_len, push_char, push_decimal, push_str, string_of};

verus! {

broadcast use vstd::string::group_string_axioms;

/// How many jobs may run at the same time.
pub const MAX_CONCURRENT_JOBS: usize = 4;

/// How many finished jobs the board keeps.
pub const MAX_FINISHED_JOBS_RETAINED: usize = 100;

/// A job's state.
#[derive(Clone, Copy, PartialEq, Eq, Structural, Debug)]
pub enum BackfillJobStatus {
    /// Started and not finished yet.
    Running,
    /// Finished and reported success.
    Succeeded,
    /// Finished with an error or a timeout.
    Failed,
}

/// One manual backfill job.
#[derive(Debug)]
pub struct BackfillJob {
    /// Unique id, `yyyyMMddHHmmss-seq`.
    pub id: String,
    /// What the job does, such as `closing_aggregate`.
    pub kind: String,
    /// The job's input as readable text.
    pub input: String,
    /// Current state.
    pub status: BackfillJobStatus,
    /// `queued` while running, then the summary or the error.
    pub message: String,
    /// When it started, RFC 3339.
    pub started_at: String,
    /// When it finished, RFC 3339; `None` while running.
    pub finished_at: Option<String>,
}

/// The snake_case label of a status.
pub open spec fn status_text(s: BackfillJobStatus) -> Seq<char> {
    match s {
        BackfillJobStatus::Running => "running"@,
        BackfillJobStatus::Succeeded => "succeeded"@,
        BackfillJobStatus::Failed => "failed"@,
    }
}

impl BackfillJob {
    /// The snake_case label of the job's status.
    pub fn status_label(&self) -> (r: &'static str)
        ensures
            r@ == status_text(self.status),
    {
        match self.status {
            BackfillJobStatus::Running => "running",
            BackfillJobStatus::Succeeded => "succeeded",
            BackfillJobStatus::Failed => "failed",
        }
    }

    /// A copy of the job.
    pub fn duplicate(&self) -> (r: BackfillJob)
        ensures
            r == *self,
    {
        BackfillJob {
            id: self.id.clone(),
            kind: self.kind.clone(),
            input: self.input.clone(),
            status: self.status,
            message: self.message.clone(),
            started_at: self.started_at.clone(),
            finished_at: match &self.finished_at {
                Some(t) => Some(t.clone()),
                None => None,
            },
        }
    }
}

/// Whether a job is still running.
pub open spec fn is_running(j: BackfillJob) -> bool {
    j.status == BackfillJobStatus::Running
}

/// Whether `j` is a running job of this kind and input.
pub open spec fn is_active(j: BackfillJob, kind: Seq<char>, input: Seq<char>) -> bool {
    is_running(j) && j.kind@ == kind && j.input@ == input
}

/// How many jobs of `s` are running.
pub open spec fn running_count(s: Seq<BackfillJob>) -> nat
    decreases s.len(),
{
    if s.len() == 0 {
        0
    } else {
        running_count(s.drop_last()) + if is_running(s.last()) {
            1nat
        } else {
            0nat
        }
    }
}

/// How many jobs of `s` have finished.
pub open spec fn finished_count(s: Seq<BackfillJob>) -> nat {
    (s.len() - running_count(s)) as nat
}

/// No two running jobs share a kind and an input.
pub open spec fn no_duplicate_running(s: Seq<BackfillJob>) -> bool {
    forall|i: int, k: int|
        #![trigger s[i], s[k]]
        0 <= i < k < s.len() && is_running(s[i]) && is_running(s[k]) ==> !(s[i].kind@ == s[k].kind@
            && s[i].input@ == s[k].input@)
}

/// `a` started before `b`, or at the same time with a smaller id: the order
/// in which finished jobs are pruned.
pub open spec fn older(a: BackfillJob, b: BackfillJob) -> bool {
    lex_less(a.started_at@, b.started_at@) || (a.started_at@ == b.started_at@ && lex_less(
        a.id@,
        b.id@,
    ))
}

/// The smaller of two numbers.
pub open spec fn min_nat(a: nat, b: nat) -> nat {
    if a <= b {
        a
    } else {
        b
    }
}

/// `new` is `old` with some entries left out, the rest in their order:
/// `new[k]` is `old[pos[k]]`, the positions rising.
pub open spec fn subsequence_at(old: Seq<BackfillJob>, new: Seq<BackfillJob>, pos: Seq<int>) -> bool {
    &&& pos.len() == new.len()
    &&& forall|k: int| 0 <= k < pos.len() ==> 0 <= #[trigger] pos[k] < old.len() && new[k] == old[pos[k]]
    &&& forall|a: int, b: int| 0 <= a < b < pos.len() ==> #[trigger] pos[a] < #[trigger] pos[b]
}

/// `new` is `old` with its oldest finished jobs removed, so that at most
/// [`MAX_FINISHED_JOBS_RETAINED`] finished jobs are left: the jobs that stay
/// keep their order, running jobs all stay, and with no more finished jobs
/// than that nothing changes.
pub open spec fn pruned(old: Seq<BackfillJob>, new: Seq<BackfillJob>) -> bool {
    &&& exists|pos: Seq<int>| #[trigger] subsequence_at(old, new, pos)
    &&& finished_count(old) <= MAX_FINISHED_JOBS_RETAINED as nat ==> new == old
    &&& forall|j: BackfillJob| new.contains(j) ==> old.contains(j)
    &&& forall|i: int| 0 <= i < old.len() && is_running(old[i]) ==> new.contains(old[i])
    &&& running_count(new) == running_count(old)
    &&& finished_count(new) == min_nat(finished_count(old), MAX_FINISHED_JOBS_RETAINED as nat)
    &&& forall|i: int, k: int|
        #![trigger old[i], new[k]]
        0 <= i < old.len() && !is_running(old[i]) && !new.contains(old[i]) && 0 <= k < new.len()
            && !is_running(new[k]) ==> !older(new[k], old[i])
}

/// The sequence number after `n` (wrapping at `u64::MAX`).
pub open spec fn next_counter(n: u64) -> u64 {
    if n == u64::MAX {
        0
    } else {
        (n + 1) as u64
    }
}

/// The id of the job started with clock text `stamp` and sequence number
/// `seq`.
pub open spec fn job_id_text(stamp: Seq<char>, seq: nat) -> Seq<char> {
    stamp + seq!['-'] + decimal(seq)
}

/// `j` is the job the board registers for a start.
pub open spec fn is_new_job(
    j: BackfillJob,
    id: Seq<char>,
    kind: Seq<char>,
    input: Seq<char>,
    started_at: Seq<char>,
) -> bool {
    &&& j.id@ == id
    &&& j.kind@ == kind
    &&& j.input@ == input
    &&& j.status == BackfillJobStatus::Running
    &&& j.message@ == "queued"@
    &&& j.started_at@ == started_at
    &&& j.finished_at is None
}

/// Why a job was not started.
#[derive(Debug)]
pub enum StartJobError {
    /// A running job has the same kind and input.
    DuplicateActiveJob {
        /// That job's id.
        existing_id: String,
    },
    /// As many jobs as allowed are running.
    TooManyActiveJobs {
        /// The limit.
        max: usize,
    },
}

/// The text of a refusal.
pub open spec fn start_error_text(e: StartJobError) -> Seq<char> {
    match e {
        StartJobError::DuplicateActiveJob { existing_id } => "the same backfill job is already running: id="@
            + existing_id@,
        StartJobError::TooManyActiveJobs { max } => "too many backfill jobs are running (limit: "@
            + decimal(max as nat) + "), try again later"@,
    }
}

impl StartJobError {
    /// The refusal as text.
    pub fn message(&self) -> (r: String)
        ensures
            r@ == start_error_text(*self),
    {
        let mut r = String::new();
        match self {
            StartJobError::DuplicateActiveJob { existing_id } => {
                push_str(&mut r, "the same backfill job is already running: id=");
                push_str(&mut r, existing_id.as_str());
            },
            StartJobError::TooManyActiveJobs { max } => {
                push_str(&mut r, "too many backfill jobs are running (limit: ");
                push_decimal(&mut r, *max as u64);
                push_str(&mut r, "), try again later");
            },
        }
        r
    }

    /// The HTTP status of a refusal: 409 for a duplicate, 429 for the limit.
    pub fn http_status(&self) -> (r: u16)
        ensures
            r == (if self is DuplicateActiveJob {
                409u16
            } else {
                429u16
            }),
    {
        match self {
            StartJobError::DuplicateActiveJob { .. } => 409,
            StartJobError::TooManyActiveJobs { .. } => 429,
        }
    }
}

/// How a job ended, as the program that ran it reports.
pub enum JobOutcome {
    /// It returned this summary.
    Succeeded { message: String },
    /// It returned an error; the text is the whole error chain.
    Failed { message: String },
    /// It ran longer than this many seconds and was stopped.
    TimedOut { seconds: u64 },
}

/// The status a job gets for an outcome.
pub open spec fn outcome_status(o: JobOutcome) -> BackfillJobStatus {
    match o {
        JobOutcome::Succeeded { .. } => BackfillJobStatus::Succeeded,
        _ => BackfillJobStatus::Failed,
    }
}

/// The message a job gets for an outcome.
pub open spec fn outcome_message(o: JobOutcome) -> Seq<char> {
    match o {
        JobOutcome::Succeeded { message } => message@,
        JobOutcome::Failed { message } => message@,
        JobOutcome::TimedOut { seconds } => "job timed out after "@ + decimal(seconds as nat)
            + " seconds"@,
    }
}

/// `new` is `old` after it finished with `o` at `finished_at`.
pub open spec fn is_finished_job(
    old: BackfillJob,
    new: BackfillJob,
    o: JobOutcome,
    finished_at: Seq<char>,
) -> bool {
    &&& new.id == old.id
    &&& new.kind == old.kind
    &&& new.input == old.input
    &&& new.started_at == old.started_at
    &&& new.status == outcome_status(o)
    &&& new.message@ == outcome_message(o)
    &&& new.finished_at matches Some(t) && t@ == finished_at
}

/// The index of the first job of `s` with this id, if any.
pub open spec fn first_with_id(s: Seq<BackfillJob>, id: Seq<char>, i: int) -> bool {
    &&& 0 <= i < s.len()
    &&& s[i].id@ == id
    &&& forall|k: int| 0 <= k < i ==> s[k].id@ != id
}

/// `new` is the board `old` after the job `id` ended with `o` at
/// `finished_at`: unchanged when no job has that id; otherwise the first
/// job with it is finished as `o` says, every other job is unchanged, and
/// when it was running no job of its kind and input is running any more.
pub open spec fn finish_result(
    old: Seq<BackfillJob>,
    new: Seq<BackfillJob>,
    id: Seq<char>,
    o: JobOutcome,
    finished_at: Seq<char>,
) -> bool {
    &&& (forall|i: int| 0 <= i < old.len() ==> old[i].id@ != id) ==> new == old
    &&& forall|i: int|
        first_with_id(old, id, i) ==> {
            &&& new.len() == old.len()
            &&& is_finished_job(old[i], new[i], o, finished_at)
            &&& forall|k: int| 0 <= k < old.len() && k != i ==> new[k] == old[k]
            &&& is_running(old[i]) ==> forall|k: int|
                0 <= k < new.len() ==> !is_active(#[trigger] new[k], old[i].kind@, old[i].input@)
        }
}

/// No two jobs share an id.
pub open spec fn unique_ids(s: Seq<BackfillJob>) -> bool {
    forall|i: int, k: int| #![trigger s[i], s[k]] 0 <= i < k < s.len() ==> s[i].id@ != s[k].id@
}

/// `s` without the job whose id is `id`, if it holds one: a board keyed by
/// id lets a new job with a taken id replace the old one.
pub open spec fn without_id(s: Seq<BackfillJob>, id: Seq<char>) -> Seq<BackfillJob> {
    if exists|i: int| first_with_id(s, id, i) {
        s.remove(choose|i: int| first_with_id(s, id, i))
    } else {
        s
    }
}

/// Whether a job of `kind` with `input` may start on a board holding
/// `jobs`: none of that kind and input is running, and fewer than
/// [`MAX_CONCURRENT_JOBS`] jobs are running.
pub open spec fn admits(jobs: Seq<BackfillJob>, kind: Seq<char>, input: Seq<char>) -> bool {
    &&& forall|i: int| 0 <= i < jobs.len() ==> !is_active(#[trigger] jobs[i], kind, input)
    &&& running_count(jobs) < MAX_CONCURRENT_JOBS as nat
}

/// `r` holds exactly the jobs of `s`, newest start first.
pub open spec fn listed(s: Seq<BackfillJob>, r: Seq<BackfillJob>) -> bool {
    &&& r.to_multiset() == s.to_multiset()
    &&& forall|i: int, k: int|
        #![trigger r[i], r[k]]
        0 <= i < k < r.len() ==> !lex_less(r[i].started_at@, r[k].started_at@)
}

proof fn lemma_running_count_append(a: Seq<BackfillJob>, b: Seq<BackfillJob>)
    ensures
        running_count(a + b) == running_count(a) + running_count(b),
    decreases b.len(),
{
    if b.len() == 0 {
        assert(a + b == a);
    } else {
        lemma_running_count_append(a, b.drop_last());
        assert((a + b).drop_last() == a + b.drop_last());
    }
}

proof fn lemma_running_count_bound(s: Seq<BackfillJob>)
    ensures
        running_count(s) <= s.len(),
    decreases s.len(),
{
    if s.len() > 0 {
        lemma_running_count_bound(s.drop_last());
    }
}

proof fn lemma_running_count_split(s: Seq<BackfillJob>, i: int)
    requires
        0 <= i < s.len(),
    ensures
        running_count(s) == running_count(s.take(i)) + (if is_running(s[i]) {
            1nat
        } else {
            0nat
        }) + running_count(s.skip(i + 1)),
{
    let one = seq![s[i]];
    assert(s == s.take(i) + one + s.skip(i + 1));
    lemma_running_count_append(s.take(i) + one, s.skip(i + 1));
    lemma_running_count_append(s.take(i), one);
    assert(one.drop_last() == Seq::<BackfillJob>::empty());
    assert(one.last() == s[i]);
    assert(running_count(Seq::<BackfillJob>::empty()) == 0);
    assert(running_count(one) == running_count(one.drop_last()) + if is_running(one.last()) {
        1nat
    } else {
        0nat
    });
}

proof fn lemma_running_count_remove(s: Seq<BackfillJob>, i: int)
    requires
        0 <= i < s.len(),
    ensures
        running_count(s.remove(i)) + (if is_running(s[i]) {
            1nat
        } else {
            0nat
        }) == running_count(s),
{
    lemma_running_count_split(s, i);
    assert(s.remove(i) == s.take(i) + s.skip(i + 1));
    lemma_running_count_append(s.take(i), s.skip(i + 1));
}

proof fn lemma_running_count_update(s: Seq<BackfillJob>, i: int, x: BackfillJob)
    requires
        0 <= i < s.len(),
        is_running(s[i]),
        !is_running(x),
    ensures
        running_count(s.update(i, x)) + 1 == running_count(s),
{
    lemma_running_count_split(s, i);
    lemma_running_count_split(s.update(i, x), i);
    assert(s.update(i, x).take(i) == s.take(i));
    assert(s.update(i, x).skip(i + 1) == s.skip(i + 1));
}

proof fn lemma_running_count_push(s: Seq<BackfillJob>, x: BackfillJob)
    ensures
        running_count(s.push(x)) == running_count(s) + if is_running(x) {
            1nat
        } else {
            0nat
        },
{
    assert(s.push(x).drop_last() == s);
}

/// Whether `a` is older than `b` (see [`older`]).
fn job_older(a: &BackfillJob, b: &BackfillJob) -> (r: bool)
    ensures
        r == older(*a, *b),
{
    if str_less(a.started_at.as_str(), b.started_at.as_str()) {
        true
    } else if str_equal(a.started_at.as_str(), b.started_at.as_str()) {
        str_less(a.id.as_str(), b.id.as_str())
    } else {
        false
    }
}

proof fn lemma_older_order(a: BackfillJob, b: BackfillJob, c: BackfillJob)
    ensures
        !older(a, a),
        older(a, b) ==> !older(b, a),
        older(a, b) && older(b, c) ==> older(a, c),
        !older(a, b) && !older(b, a) ==> a.started_at@ == b.started_at@ && a.id@ == b.id@,
{
    lemma_lex_order(a.started_at@, b.started_at@, c.started_at@);
    lemma_lex_order(a.id@, b.id@, c.id@);
    lemma_lex_order(b.started_at@, a.started_at@, c.started_at@);
    lemma_lex_order(b.id@, a.id@, c.id@);
    lemma_lex_order(a.started_at@, a.started_at@, a.started_at@);
    lemma_lex_order(a.id@, a.id@, a.id@);
}

/// The index of the oldest finished job of `jobs`; there must be one.
fn oldest_finished(jobs: &Vec<BackfillJob>) -> (r: usize)
    requires
        finished_count(jobs@) > 0,
    ensures
        r < jobs@.len(),
        !is_running(jobs@[r as int]),
        forall|k: int| 0 <= k < jobs@.len() && !is_running(jobs@[k]) ==> !older(jobs@[k], jobs@[r as int]),
{
    let n = jobs.len();
    let mut best: usize = n;
    let mut i: usize = 0;
    while i < n
        invariant
            n == jobs@.len(),
            i <= n,
            best == n || (best < i && !is_running(jobs@[best as int])),
            best == n ==> forall|k: int| 0 <= k < i ==> is_running(jobs@[k]),
            best < n ==> forall|k: int|
                0 <= k < i && !is_running(jobs@[k]) ==> !older(jobs@[k], jobs@[best as int]),
        decreases n - i,
    {
        if jobs[i].status != BackfillJobStatus::Running {
            if best == n || job_older(&jobs[i], &jobs[best]) {
                proof {
                    lemma_older_order(jobs@[i as int], jobs@[i as int], jobs@[i as int]);
                    if best < n {
                        assert forall|k: int|
                            0 <= k < i && !is_running(jobs@[k]) implies !older(
                            jobs@[k],
                            jobs@[i as int],
                        ) by {
                            lemma_older_order(jobs@[k], jobs@[i as int], jobs@[best as int]);
                        }
                    }
                }
                best = i;
            } else {
                proof {
                    lemma_older_order(jobs@[i as int], jobs@[best as int], jobs@[best as int]);
                }
            }
        }
        i = i + 1;
    }
    proof {
        if best == n {
            assert(forall|k: int| 0 <= k < n ==> is_running(jobs@[k]));
            lemma_all_running(jobs@);
        }
    }
    best
}

proof fn lemma_all_running(s: Seq<BackfillJob>)
    requires
        forall|k: int| 0 <= k < s.len() ==> is_running(s[k]),
    ensures
        running_count(s) == s.len(),
    decreases s.len(),
{
    if s.len() > 0 {
        lemma_all_running(s.drop_last());
    }
}

proof fn lemma_no_dup_remove(s: Seq<BackfillJob>, i: int)
    requires
        0 <= i < s.len(),
        no_duplicate_running(s),
    ensures
        no_duplicate_running(s.remove(i)),
{
    let t = s.remove(i);
    assert forall|a: int, b: int|
        0 <= a < b < t.len() && is_running(#[trigger] t[a]) && is_running(#[trigger] t[b]) implies !(
    t[a].kind@ == t[b].kind@ && t[a].input@ == t[b].input@) by {
        let a2 = if a < i {
            a
        } else {
            a + 1
        };
        let b2 = if b < i {
            b
        } else {
            b + 1
        };
        assert(t[a] == s[a2]);
        assert(t[b] == s[b2]);
        assert(s[a2] == s[a2] && s[b2] == s[b2]);
    }
}

/// Removes the oldest finished jobs until at most
/// [`MAX_FINISHED_JOBS_RETAINED`] are left. Running jobs are never removed.
pub fn prune_finished_jobs(jobs: &mut Vec<BackfillJob>)
    ensures
        pruned(old(jobs)@, final(jobs)@),
        no_duplicate_running(old(jobs)@) ==> no_duplicate_running(final(jobs)@),
        unique_ids(old(jobs)@) ==> unique_ids(final(jobs)@),
{
    let ghost start = jobs@;
    let ghost mut pos: Seq<int> = Seq::new(jobs@.len(), |k: int| k);
    proof {
        lemma_running_count_bound(jobs@);
        assert(subsequence_at(start, jobs@, pos));
    }
    while count_finished(jobs) > MAX_FINISHED_JOBS_RETAINED
        invariant
            subsequence_at(start, jobs@, pos),
            finished_count(start) <= MAX_FINISHED_JOBS_RETAINED as nat ==> jobs@ == start,
            forall|j: BackfillJob| jobs@.contains(j) ==> start.contains(j),
            forall|i: int| 0 <= i < start.len() && is_running(start[i]) ==> jobs@.contains(start[i]),
            running_count(jobs@) == running_count(start),
            running_count(jobs@) <= jobs@.len(),
            finished_count(jobs@) <= finished_count(start),
            finished_count(jobs@) < finished_count(start) ==> finished_count(jobs@)
                >= MAX_FINISHED_JOBS_RETAINED as nat,
            forall|i: int, k: int|
                #![trigger start[i], jobs@[k]]
                0 <= i < start.len() && !is_running(start[i]) && !jobs@.contains(start[i]) && 0 <= k
                    < jobs@.len() && !is_running(jobs@[k]) ==> !older(jobs@[k], start[i]),
            no_duplicate_running(start) ==> no_duplicate_running(jobs@),
        decreases jobs@.len(),
    {
        let r = oldest_finished(jobs);
        let ghost before = jobs@;
        let ghost gone = jobs@[r as int];
        proof {
            lemma_running_count_remove(before, r as int);
            if no_duplicate_running(start) {
                lemma_no_dup_remove(before, r as int);
            }
        }
        jobs.remove(r);
        proof {
            assert(jobs@ == before.remove(r as int));
            let old_pos = pos;
            pos = pos.remove(r as int);
            assert forall|k: int| 0 <= k < pos.len() implies 0 <= #[trigger] pos[k] < start.len()
                && jobs@[k] == start[pos[k]] by {
                if k < r {
                    assert(pos[k] == old_pos[k]);
                } else {
                    assert(pos[k] == old_pos[k + 1]);
                }
            }
            assert forall|a: int, b: int| 0 <= a < b < pos.len() implies #[trigger] pos[a]
                < #[trigger] pos[b] by {
                let a2 = if a < r { a } else { a + 1 };
                let b2 = if b < r { b } else { b + 1 };
                assert(pos[a] == old_pos[a2] && pos[b] == old_pos[b2]);
                assert(old_pos[a2] < old_pos[b2]);
            }
            assert(subsequence_at(start, jobs@, pos));
            assert forall|j: BackfillJob| jobs@.contains(j) implies start.contains(j) by {
                let k = choose|k: int| 0 <= k < jobs@.len() && jobs@[k] == j;
                if k < r {
                    assert(before[k] == j);
                } else {
                    assert(before[k + 1] == j);
                }
                assert(before.contains(j));
            }
            assert forall|i: int|
                0 <= i < start.len() && is_running(start[i]) implies jobs@.contains(start[i]) by {
                let k = choose|k: int| 0 <= k < before.len() && before[k] == start[i];
                assert(k != r);
                if k < r {
                    assert(jobs@[k] == start[i]);
                } else {
                    assert(jobs@[k - 1] == start[i]);
                }
            }
            assert forall|i: int, k: int|
                0 <= i < start.len() && !is_running(start[i]) && !jobs@.contains(start[i]) && 0 <= k
                    < jobs@.len() && !is_running(#[trigger] jobs@[k]) implies !older(
                jobs@[k],
                #[trigger] start[i],
            ) by {
                let k2 = if k < r {
                    k
                } else {
                    k + 1
                };
                assert(jobs@[k] == before[k2]);
                if before.contains(start[i]) {
                    let w = choose|w: int| 0 <= w < before.len() && before[w] == start[i];
                    if w != r {
                        if w < r {
                            assert(jobs@[w] == start[i]);
                        } else {
                            assert(jobs@[w - 1] == start[i]);
                        }
                    }
                    assert(start[i] == gone);
                }
            }
        }
    }
    proof {
        lemma_running_count_bound(start);
        assert(subsequence_at(start, jobs@, pos));
        if unique_ids(start) {
            assert forall|a: int, b: int| 0 <= a < b < jobs@.len() implies #[trigger] jobs@[a].id@
                != #[trigger] jobs@[b].id@ by {
                assert(pos[a] < pos[b]);
                assert(start[pos[a]] == start[pos[a]] && start[pos[b]] == start[pos[b]]);
            }
        }
    }
}

/// How many jobs of `jobs` have finished.
fn count_finished(jobs: &Vec<BackfillJob>) -> (r: usize)
    ensures
        r == finished_count(jobs@),
{
    let mut running: usize = 0;
    let mut i: usize = 0;
    while i < jobs.len()
        invariant
            i <= jobs@.len(),
            running == running_count(jobs@.take(i as int)),
            running <= i,
        decreases jobs@.len() - i,
    {
        proof {
            assert(jobs@.take(i + 1).drop_last() == jobs@.take(i as int));
        }
        if jobs[i].status == BackfillJobStatus::Running {
            running = running + 1;
        }
        i = i + 1;
    }
    proof {
        assert(jobs@.take(jobs@.len() as int) == jobs@);
    }
    jobs.len() - running
}

/// How many jobs of `jobs` are running.
fn count_running(jobs: &Vec<BackfillJob>) -> (r: usize)
    ensures
        r == running_count(jobs@),
{
    let f = count_finished(jobs);
    proof {
        lemma_running_count_bound(jobs@);
    }
    jobs.len() - f
}

/// The id of a running job of this kind and input, if there is one.
pub fn find_active_job(jobs: &Vec<BackfillJob>, kind: &str, input: &str) -> (r: Option<String>)
    ensures
        r is None <==> forall|i: int| 0 <= i < jobs@.len() ==> !is_active(jobs@[i], kind@, input@),
        r matches Some(id) ==> exists|i: int|
            0 <= i < jobs@.len() && is_active(jobs@[i], kind@, input@) && jobs@[i].id@ == id@,
{
    let mut i: usize = 0;
    while i < jobs.len()
        invariant
            i <= jobs@.len(),
            forall|k: int| 0 <= k < i ==> !is_active(jobs@[k], kind@, input@),
        decreases jobs@.len() - i,
    {
        let j = &jobs[i];
        if j.status == BackfillJobStatus::Running && str_equal(j.kind.as_str(), kind) && str_equal(
            j.input.as_str(),
            input,
        ) {
            return Some(j.id.clone());
        }
        i = i + 1;
    }
    None
}

/// The board of jobs.
pub struct JobBoard {
    jobs: Vec<BackfillJob>,
    next_seq: u64,
}

impl View for JobBoard {
    type V = Seq<BackfillJob>;

    closed spec fn view(&self) -> Seq<BackfillJob> {
        self.jobs@
    }
}

impl JobBoard {
    /// The sequence number the next job's id gets.
    pub closed spec fn counter(self) -> u64 {
        self.next_seq
    }

    /// The board's invariant: at most [`MAX_CONCURRENT_JOBS`] running jobs,
    /// no two of them with the same kind and input, and no two jobs with the
    /// same id.
    pub open spec fn wf(self) -> bool {
        &&& running_count(self@) <= MAX_CONCURRENT_JOBS as nat
        &&& no_duplicate_running(self@)
        &&& unique_ids(self@)
    }

    /// An empty board whose first job gets sequence number 1.
    pub fn new() -> (b: JobBoard)
        ensures
            b.wf(),
            b@ == Seq::<BackfillJob>::empty(),
            b.counter() == 1,
    {
        JobBoard { jobs: Vec::new(), next_seq: 1 }
    }

    /// Starts a job of `kind` with `input`, its id made from the clock text
    /// `stamp` and the board's sequence number, started at `started_at`.
    ///
    /// Refused with `DuplicateActiveJob` when a job of the same kind and
    /// input is running, else with `TooManyActiveJobs` when
    /// [`MAX_CONCURRENT_JOBS`] are running. Otherwise the new running job is
    /// added (in place of a job with the same id, as a board keyed by id
    /// does; ids repeat only once the counter has wrapped), old finished jobs
    /// are pruned, and the job is returned.
    pub fn start_at(&mut self, kind: &str, input: String, stamp: &str, started_at: String) -> (r:
        Result<BackfillJob, StartJobError>)
        requires
            old(self).wf(),
        ensures
            final(self).wf(),
            r is Ok <==> admits(old(self)@, kind@, input@),
            match r {
                Err(StartJobError::DuplicateActiveJob { existing_id }) => {
                    &&& final(self)@ == old(self)@
                    &&& final(self).counter() == old(self).counter()
                    &&& exists|i: int|
                        0 <= i < old(self)@.len() && is_active(old(self)@[i], kind@, input@)
                            && old(self)@[i].id@ == existing_id@
                },
                Err(StartJobError::TooManyActiveJobs { max }) => {
                    &&& final(self)@ == old(self)@
                    &&& final(self).counter() == old(self).counter()
                    &&& max == MAX_CONCURRENT_JOBS
                    &&& forall|i: int| 0 <= i < old(self)@.len() ==> !is_active(old(self)@[i], kind@, input@)
                    &&& running_count(old(self)@) == MAX_CONCURRENT_JOBS as nat
                },
                Ok(job) => {
                    &&& forall|i: int| 0 <= i < old(self)@.len() ==> !is_active(old(self)@[i], kind@, input@)
                    &&& running_count(old(self)@) < MAX_CONCURRENT_JOBS as nat
                    &&& is_new_job(job, job_id_text(stamp@, old(self).counter() as nat), kind@, input@, started_at@)
                    &&& pruned(without_id(old(self)@, job.id@).push(job), final(self)@)
                    &&& final(self).counter() == next_counter(old(self).counter())
                },
            },
    {
        if let Some(existing_id) = find_active_job(&self.jobs, kind, input.as_str()) {
            return Err(StartJobError::DuplicateActiveJob { existing_id });
        }
        if count_running(&self.jobs) >= MAX_CONCURRENT_JOBS {
            return Err(StartJobError::TooManyActiveJobs { max: MAX_CONCURRENT_JOBS });
        }
        let mut id = string_of(stamp);
        push_char(&mut id, '-');
        push_decimal(&mut id, self.next_seq);
        assert(stamp@.push('-') =~= stamp@ + seq!['-']);
        assert(id@ == job_id_text(stamp@, self.next_seq as nat));
        self.next_seq = if self.next_seq == u64::MAX {
            0
        } else {
            self.next_seq + 1
        };
        let job = BackfillJob {
            id,
            kind: string_of(kind),
            input,
            status: BackfillJobStatus::Running,
            message: string_of("queued"),
            started_at,
            finished_at: None,
        };
        let ghost original = self.jobs@;
        let mut k: usize = 0;
        while k < self.jobs.len() && !str_equal(self.jobs[k].id.as_str(), job.id.as_str())
            invariant
                self.jobs@ == original,
                k <= self.jobs@.len(),
                forall|q: int| 0 <= q < k ==> self.jobs@[q].id@ != job.id@,
            decreases self.jobs@.len() - k,
        {
            k = k + 1;
        }
        if k < self.jobs.len() {
            proof {
                assert(first_with_id(original, job.id@, k as int));
                let c = choose|i: int| first_with_id(original, job.id@, i);
                assert(c == k) by {
                    if c < k {
                    } else if c > k {
                        assert(original[k as int].id@ == job.id@);
                    }
                }
                lemma_running_count_remove(original, k as int);
                lemma_no_dup_remove(original, k as int);
            }
            self.jobs.remove(k);
            proof {
                assert(self.jobs@ == original.remove(k as int));
            }
        } else {
            proof {
                assert(!exists|i: int| first_with_id(original, job.id@, i));
            }
        }
        let ghost before = self.jobs@;
        proof {
            assert(before == without_id(original, job.id@));
            assert forall|q: int| 0 <= q < before.len() implies #[trigger] before[q] == original[if k
                < original.len() && q >= k {
                q + 1
            } else {
                q
            }] by {}
            assert forall|q: int| 0 <= q < before.len() implies #[trigger] before[q].id@ != job.id@ by {
                let q2 = if k < original.len() && q >= k {
                    q + 1
                } else {
                    q
                };
                assert(before[q] == original[q2]);
                if k < original.len() {
                    if q2 < k {
                    } else {
                        assert(original[k as int] == original[k as int] && original[q2] == original[q2]);
                    }
                }
            }
            assert forall|a: int, b: int| 0 <= a < b < before.len() implies #[trigger] before[a].id@
                != #[trigger] before[b].id@ by {
                let a2 = if k < original.len() && a >= k {
                    a + 1
                } else {
                    a
                };
                let b2 = if k < original.len() && b >= k {
                    b + 1
                } else {
                    b
                };
                assert(before[a] == original[a2] && before[b] == original[b2]);
                assert(original[a2] == original[a2] && original[b2] == original[b2]);
            }
            assert forall|q: int| 0 <= q < before.len() implies !is_active(
                #[trigger] before[q],
                kind@,
                input@,
            ) by {
                let q2 = if k < original.len() && q >= k {
                    q + 1
                } else {
                    q
                };
                assert(before[q] == original[q2]);
            }
            if k >= original.len() {
                assert(before == original);
            }
            assert(running_count(before) <= running_count(original));
        }
        self.jobs.push(job.duplicate());
        proof {
            lemma_running_count_push(before, job);
            assert forall|a: int, b: int|
                0 <= a < b < self.jobs@.len() && is_running(#[trigger] self.jobs@[a]) && is_running(
                    #[trigger] self.jobs@[b],
                ) implies !(self.jobs@[a].kind@ == self.jobs@[b].kind@ && self.jobs@[a].input@
                == self.jobs@[b].input@) by {
                if b == before.len() {
                    assert(self.jobs@[a] == before[a]);
                    assert(!is_active(before[a], kind@, input@));
                } else {
                    assert(self.jobs@[a] == before[a] && self.jobs@[b] == before[b]);
                }
            }
            assert forall|a: int, b: int| 0 <= a < b < self.jobs@.len() implies #[trigger] self.jobs@[a].id@
                != #[trigger] self.jobs@[b].id@ by {
                if b == before.len() {
                    assert(self.jobs@[a] == before[a]);
                    assert(before[a].id@ != job.id@);
                } else {
                    assert(self.jobs@[a] == before[a] && self.jobs@[b] == before[b]);
                }
            }
            assert(unique_ids(self.jobs@));
        }
        prune_finished_jobs(&mut self.jobs);
        Ok(job)
    }

    /// Starts a job as [`JobBoard::start_at`] does, with the id's stamp and
    /// the start time read from the local clock.
    pub fn start(&mut self, kind: &str, input: String) -> (r: Result<BackfillJob, StartJobError>)
        requires
            old(self).wf(),
        ensures
            final(self).wf(),
            r is Ok <==> admits(old(self)@, kind@, input@),
            match r {
                Err(StartJobError::DuplicateActiveJob { existing_id }) => {
                    &&& final(self)@ == old(self)@
                    &&& final(self).counter() == old(self).counter()
                    &&& exists|i: int|
                        0 <= i < old(self)@.len() && is_active(old(self)@[i], kind@, input@)
                            && old(self)@[i].id@ == existing_id@
                },
                Err(StartJobError::TooManyActiveJobs { max }) => {
                    &&& final(self)@ == old(self)@
                    &&& final(self).counter() == old(self).counter()
                    &&& max == MAX_CONCURRENT_JOBS
                    &&& forall|i: int| 0 <= i < old(self)@.len() ==> !is_active(old(self)@[i], kind@, input@)
                    &&& running_count(old(self)@) == MAX_CONCURRENT_JOBS as nat
                },
                Ok(job) => {
                    &&& forall|i: int| 0 <= i < old(self)@.len() ==> !is_active(old(self)@[i], kind@, input@)
                    &&& running_count(old(self)@) < MAX_CONCURRENT_JOBS as nat
                    &&& exists|stamp: Seq<char>|
                        #[trigger] job_id_text(stamp, old(self).counter() as nat) == job.id@
                    &&& is_new_job(job, job.id@, kind@, input@, job.started_at@)
                    &&& pruned(without_id(old(self)@, job.id@).push(job), final(self)@)
                    &&& final(self).counter() == next_counter(old(self).counter())
                },
            },
    {
        let stamp = local_now_compact();
        let started_at = local_now_rfc3339();
        let r = self.start_at(kind, input, stamp.as_str(), started_at);
        match &r {
            Ok(job) => {
                assert(job_id_text(stamp@, old(self).counter() as nat) == job.id@);
            },
            Err(_) => {},
        }
        r
    }

    /// Records that the job `id` ended with `outcome` at `finished_at`. An id
    /// that is not on the board (or no longer) changes nothing.
    pub fn finish(&mut self, id: &str, outcome: JobOutcome, finished_at: String)
        requires
            old(self).wf(),
        ensures
            final(self).wf(),
            final(self).counter() == old(self).counter(),
            finish_result(old(self)@, final(self)@, id@, outcome, finished_at@),
    {
        let mut i: usize = 0;
        while i < self.jobs.len()
            invariant
                old(self).wf(),
                self.jobs@ == old(self).jobs@,
                self.next_seq == old(self).next_seq,
                i <= self.jobs@.len(),
                forall|k: int| 0 <= k < i ==> self.jobs@[k].id@ != id@,
            decreases self.jobs@.len() - i,
        {
            if str_equal(self.jobs[i].id.as_str(), id) {
                let old_job = self.jobs[i].duplicate();
                let status = match &outcome {
                    JobOutcome::Succeeded { .. } => BackfillJobStatus::Succeeded,
                    _ => BackfillJobStatus::Failed,
                };
                let message = match outcome {
                    JobOutcome::Succeeded { message } => message,
                    JobOutcome::Failed { message } => message,
                    JobOutcome::TimedOut { seconds } => {
                        let mut m = string_of("job timed out after ");
                        push_decimal(&mut m, seconds);
                        push_str(&mut m, " seconds");
                        m
                    },
                };
                let new_job = BackfillJob {
                    id: old_job.id,
                    kind: old_job.kind,
                    input: old_job.input,
                    status,
                    message,
                    started_at: old_job.started_at,
                    finished_at: Some(finished_at),
                };
                let ghost before = self.jobs@;
                self.jobs.set(i, new_job);
                proof {
                    assert(self.jobs@ == before.update(i as int, new_job));
                    if is_running(before[i as int]) {
                        lemma_running_count_update(before, i as int, new_job);
                    } else {
                        lemma_running_count_split(before, i as int);
                        lemma_running_count_split(self.jobs@, i as int);
                        assert(self.jobs@.take(i as int) == before.take(i as int));
                        assert(self.jobs@.skip(i + 1) == before.skip(i + 1));
                    }
                    assert forall|a: int, b: int|
                        0 <= a < b < self.jobs@.len() && is_running(#[trigger] self.jobs@[a])
                            && is_running(#[trigger] self.jobs@[b]) implies !(self.jobs@[a].kind@
                        == self.jobs@[b].kind@ && self.jobs@[a].input@ == self.jobs@[b].input@) by {
                        assert(a != i && b != i);
                        assert(self.jobs@[a] == before[a] && self.jobs@[b] == before[b]);
                    }
                    assert forall|k: int| 0 <= k < self.jobs@.len() && is_running(before[i as int]) implies !is_active(
                        #[trigger] self.jobs@[k],
                        before[i as int].kind@,
                        before[i as int].input@,
                    ) by {
                        if k != i && is_active(self.jobs@[k], before[i as int].kind@, before[i as int].input@) {
                            assert(self.jobs@[k] == before[k]);
                            if k < i {
                                assert(before[k] == before[k] && before[i as int] == before[i as int]);
                            } else {
                                assert(before[i as int] == before[i as int] && before[k] == before[k]);
                            }
                        }
                    }
                }
                return;
            }
            i = i + 1;
        }
    }

    /// A copy of the job with this id, if the board has one.
    pub fn get(&self, id: &str) -> (r: Option<BackfillJob>)
        ensures
            r is None <==> forall|i: int| 0 <= i < self@.len() ==> self@[i].id@ != id@,
            r matches Some(j) ==> exists|i: int| first_with_id(self@, id@, i) && self@[i] == j,
    {
        let mut i: usize = 0;
        while i < self.jobs.len()
            invariant
                i <= self.jobs@.len(),
                forall|k: int| 0 <= k < i ==> self.jobs@[k].id@ != id@,
            decreases self.jobs@.len() - i,
        {
            if str_equal(self.jobs[i].id.as_str(), id) {
                let j = self.jobs[i].duplicate();
                assert(first_with_id(self@, id@, i as int));
                return Some(j);
            }
            i = i + 1;
        }
        None
    }

    /// Every job on the board, newest start first.
    pub fn list(&self) -> (r: Vec<BackfillJob>)
        ensures
            listed(self@, r@),
    {
        let mut r: Vec<BackfillJob> = Vec::new();
        let mut i: usize = 0;
        proof {
            assert(self.jobs@.take(0) =~= Seq::<BackfillJob>::empty());
            assert(r@ =~= Seq::<BackfillJob>::empty());
        }
        while i < self.jobs.len()
            invariant
                i <= self.jobs@.len(),
                listed(self.jobs@.take(i as int), r@),
            decreases self.jobs@.len() - i,
        {
            let j = self.jobs[i].duplicate();
            let mut p: usize = 0;
            while p < r.len() && !str_less(r[p].started_at.as_str(), j.started_at.as_str())
                invariant
                    p <= r@.len(),
                    forall|k: int| 0 <= k < p ==> !lex_less(r@[k].started_at@, j.started_at@),
                decreases r@.len() - p,
            {
                p = p + 1;
            }
            let ghost before = r@;
            r.insert(p, j);
            proof {
                vstd::seq_lib::to_multiset_insert(before, p as int, self.jobs@[i as int]);
                assert(self.jobs@.take(i + 1) == self.jobs@.take(i as int).push(self.jobs@[i as int]));
                vstd::seq_lib::to_multiset_build(self.jobs@.take(i as int), self.jobs@[i as int]);
                assert(r@ == before.insert(p as int, self.jobs@[i as int]));
                assert forall|a: int, b: int|
                    0 <= a < b < r@.len() implies !lex_less(
                    #[trigger] r@[a].started_at@,
                    #[trigger] r@[b].started_at@,
                ) by {
                    let js = j.started_at@;
                    if b == p {
                        assert(r@[a] == before[a]);
                    } else if a == p {
                        let x = before[b - 1].started_at@;
                        assert(r@[b] == before[b - 1]);
                        assert(lex_less(before[p as int].started_at@, js));
                        if b - 1 > p {
                            assert(!lex_less(before[p as int].started_at@, x));
                        }
                        lemma_lex_order(before[p as int].started_at@, js, x);
                    } else {
                        let a2 = if a < p {
                            a
                        } else {
                            a - 1
                        };
                        let b2 = if b < p {
                            b
                        } else {
                            b - 1
                        };
                        assert(r@[a] == before[a2] && r@[b] == before[b2]);
                        assert(before[a2] == before[a2] && before[b2] == before[b2]);
                    }
                }
            }
            i = i + 1;
        }
        proof {
            assert(self.jobs@.take(self.jobs@.len() as int) == self.jobs@);
        }
        r
    }
}

/// Law: every board the operations produce runs at most
/// [`MAX_CONCURRENT_JOBS`] jobs, never two running jobs with the same kind
/// and input, and never two jobs with the same id.
pub proof fn lemma_board_limits(b: JobBoard)
    requires
        b.wf(),
    ensures
        running_count(b@) <= MAX_CONCURRENT_JOBS as nat,
        forall|i: int, k: int|
            0 <= i < k < b@.len() && is_running(b@[i]) && is_running(b@[k]) ==> !(b@[i].kind@
                == b@[k].kind@ && b@[i].input@ == b@[k].input@),
        forall|i: int, k: int| 0 <= i < k < b@.len() ==> b@[i].id@ != b@[k].id@,
{
    assert forall|i: int, k: int|
        0 <= i < k < b@.len() && is_running(b@[i]) && is_running(b@[k]) implies !(b@[i].kind@
        == b@[k].kind@ && b@[i].input@ == b@[k].input@) by {
        assert(b@[i] == b@[i] && b@[k] == b@[k]);
    }
}

proof fn lemma_decimal_digits(n: nat)
    ensures
        forall|k: int| 0 <= k < decimal(n).len() ==> decimal(n)[k] != '-',
    decreases n,
{
    if n >= 10 {
        lemma_decimal_digits(n / 10);
        assert forall|k: int| 0 <= k < decimal(n).len() implies decimal(n)[k] != '-' by {
            if k < decimal(n / 10).len() {
                assert(decimal(n)[k] == decimal(n / 10)[k]);
            }
        }
    }
}

proof fn lemma_decimal_injective(a: nat, b: nat)
    requires
        decimal(a) == decimal(b),
    ensures
        a == b,
    decreases a,
{
    lemma_decimal_len(a);
    lemma_decimal_len(b);
    assert forall|d: nat| d < 10 implies (crate::text::digit_char(d) as int) == 0x30 + d by {}
    if a >= 10 && b >= 10 {
        assert(decimal(a).last() == decimal(b).last());
        assert(decimal(a).drop_last() == decimal(a / 10));
        assert(decimal(b).drop_last() == decimal(b / 10));
        lemma_decimal_injective(a / 10, b / 10);
        assert(decimal(a) == decimal(a / 10).push(crate::text::digit_char(a % 10)));
        assert(decimal(b) == decimal(b / 10).push(crate::text::digit_char(b % 10)));
        assert(decimal(a).last() == crate::text::digit_char(a % 10));
        assert(decimal(b).last() == crate::text::digit_char(b % 10));
        assert(crate::text::digit_char(a % 10) == crate::text::digit_char(b % 10));
        assert(a % 10 == b % 10);
        assert(a == 10 * (a / 10) + a % 10);
        assert(b == 10 * (b / 10) + b % 10);
    } else if a < 10 && b < 10 {
        assert(decimal(a) == seq![crate::text::digit_char(a)]);
        assert(decimal(b) == seq![crate::text::digit_char(b)]);
        assert(decimal(a)[0] == crate::text::digit_char(a));
        assert(decimal(b)[0] == crate::text::digit_char(b));
        assert(decimal(a)[0] == decimal(b)[0]);
    }
}

/// Law: two jobs started with different sequence numbers get different
/// ids, whatever the clock texts (the part after an id's last `-` is its
/// sequence number), so ids are unique within the process as long as the
/// board's counter has not wrapped.
pub proof fn lemma_job_ids_distinct(stamp1: Seq<char>, seq1: nat, stamp2: Seq<char>, seq2: nat)
    requires
        seq1 != seq2,
    ensures
        job_id_text(stamp1, seq1) != job_id_text(stamp2, seq2),
{
    let x = job_id_text(stamp1, seq1);
    let y = job_id_text(stamp2, seq2);
    if x == y {
        lemma_decimal_digits(seq1);
        lemma_decimal_digits(seq2);
        let n1 = stamp1.len() as int;
        let n2 = stamp2.len() as int;
        assert(x.skip(n1 + 1) == decimal(seq1));
        assert(y.skip(n2 + 1) == decimal(seq2));
        if n1 < n2 {
            assert(y[n2] == '-');
            assert(x[n2] == x.skip(n1 + 1)[n2 - n1 - 1]);
        } else if n2 < n1 {
            assert(x[n1] == '-');
            assert(y[n1] == y.skip(n2 + 1)[n1 - n2 - 1]);
        } else {
            assert(x.skip(n1 + 1) == decimal(seq1));
            assert(y.skip(n2 + 1) == decimal(seq2));
            lemma_decimal_injective(seq1, seq2);
        }
    }
}

/// Law: while a job runs, a job of the same kind and input is refused.
pub proof fn lemma_running_job_blocks_its_key(b: JobBoard, i: int)
    requires
        b.wf(),
        0 <= i < b@.len(),
        is_running(b@[i]),
    ensures
        !admits(b@, b@[i].kind@, b@[i].input@),
{
    assert(is_active(b@[i], b@[i].kind@, b@[i].input@));
}

/// Law: once a running job has finished, a job of its kind and input is
/// admitted again, since its key is free and a slot is free.
pub proof fn lemma_finished_job_frees_its_key_and_slot(
    old: Seq<BackfillJob>,
    new: Seq<BackfillJob>,
    id: Seq<char>,
    o: JobOutcome,
    finished_at: Seq<char>,
    i: int,
)
    requires
        running_count(old) <= MAX_CONCURRENT_JOBS as nat,
        finish_result(old, new, id, o, finished_at),
        first_with_id(old, id, i),
        is_running(old[i]),
    ensures
        admits(new, old[i].kind@, old[i].input@),
        running_count(new) + 1 == running_count(old),
{
    assert(!is_running(new[i]));
    assert(new == old.update(i, new[i]));
    lemma_running_count_update(old, i, new[i]);
}

} // verus!
