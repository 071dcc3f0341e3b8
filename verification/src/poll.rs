//! Polling of a remote long-running job: bounded exponential backoff, a hard
//! attempt ceiling, and exact accounting of the fetches and delays issued.
//!
//! The poller itself performs no transport work. `poll_begin` and
//! `poll_on_status` form the decision core that a driver feeds with fetched
//! statuses; `poll_script` runs the whole loop over a scripted sequence of
//! statuses, which is how the loop is tested.

use vstd::prelude::*;

verus! {

/// The status a remote job reports. `Completed` and `Failed` are terminal;
/// the others call for continued polling.
#[derive(Debug, Clone, Copy, PartialEq, Eq, Structural)]
pub enum JobStatus {
    Pending,
    InProgress,
    Completed,
    Failed,
}

impl JobStatus {
    /// A terminal status admits no further transition.
    pub open spec fn is_terminal_spec(self) -> bool {
        self == JobStatus::Completed || self == JobStatus::Failed
    }

    /// Decides `is_terminal_spec`.
    pub fn is_terminal(&self) -> (r: bool)
        ensures
            r == self.is_terminal_spec(),
    {
        match self {
            JobStatus::Completed => true,
            JobStatus::Failed => true,
            _ => false,
        }
    }
}

/// One fetched status report: the status, and the text that came with it
/// (the result body on completion, the failure reason on failure).
#[derive(Debug, Clone)]
pub struct JobStatusPayload {
    pub status: JobStatus,
    pub payload: String,
}

/// How a poll loop ends when no completed result is obtained.
#[derive(Debug, Clone, PartialEq, Eq)]
pub enum PollError {
    /// The attempt ceiling was reached before a terminal status appeared.
    TimedOut,
    /// The remote service reported the job failed, with its reason.
    RemoteFailed(String),
}

/// Backoff policy: delays start at `initial_delay_ms`, grow by the rational
/// factor `backoff_numer / backoff_denom`, and are capped at `max_delay_ms`;
/// at most `max_attempts` status fetches are issued.
#[derive(Debug, Clone, Copy, PartialEq, Eq, Structural)]
pub struct PollPolicy {
    pub initial_delay_ms: u64,
    pub max_delay_ms: u64,
    pub backoff_numer: u64,
    pub backoff_denom: u64,
    pub max_attempts: u32,
}

impl PollPolicy {
    /// A policy is well formed when the multiplier is at least one, the
    /// initial delay does not exceed the cap, the grown cap still fits in a
    /// machine word, and at least one attempt is allowed.
    pub open spec fn wf(self) -> bool {
        &&& 1 <= self.backoff_denom <= self.backoff_numer
        &&& self.initial_delay_ms <= self.max_delay_ms
        &&& self.max_delay_ms * self.backoff_numer <= u64::MAX
        &&& self.max_attempts >= 1
    }

    /// Decides `wf`.
    pub fn check_wf(&self) -> (r: bool)
        ensures
            r == self.wf(),
    {
        let m = self.max_delay_ms;
        let n = self.backoff_numer;
        proof {
            assert((m as int) * (n as int) <= (u64::MAX as int) * (u64::MAX as int))
                by (nonlinear_arith)
                requires
                    m <= u64::MAX,
                    n <= u64::MAX,
            ;
        }
        1 <= self.backoff_denom && self.backoff_denom <= self.backoff_numer
            && self.initial_delay_ms <= self.max_delay_ms && (m as u128) * (n as u128) <= (
        u64::MAX as u128) && self.max_attempts >= 1
    }

    /// The policy the research client polls with: one second growing
    /// twofold up to ten seconds, sixty attempts.
    pub fn research_default() -> (r: PollPolicy)
        ensures
            r.wf(),
            r.initial_delay_ms == 1000,
            r.max_delay_ms == 10000,
            r.backoff_numer == 2,
            r.backoff_denom == 1,
            r.max_attempts == 60,
    {
        PollPolicy {
            initial_delay_ms: 1000,
            max_delay_ms: 10000,
            backoff_numer: 2,
            backoff_denom: 1,
            max_attempts: 60,
        }
    }
}

/// The delay that follows `d`: grown by the backoff factor, capped.
pub open spec fn next_delay_spec(p: PollPolicy, d: int) -> int {
    let grown = d * p.backoff_numer / p.backoff_denom as int;
    if grown <= p.max_delay_ms {
        grown
    } else {
        p.max_delay_ms as int
    }
}

/// The delay scheduled after the `k`-th fetch (counting from zero).
pub open spec fn delay_at(p: PollPolicy, k: nat) -> int
    decreases k,
{
    if k == 0 {
        p.initial_delay_ms as int
    } else {
        next_delay_spec(p, delay_at(p, (k - 1) as nat))
    }
}

/// A single backoff step never shrinks the delay and never passes the cap.
pub proof fn lemma_next_delay_bounds(p: PollPolicy, d: int)
    requires
        p.wf(),
        0 <= d <= p.max_delay_ms,
    ensures
        d <= next_delay_spec(p, d) <= p.max_delay_ms,
{
    assert(d * p.backoff_numer / p.backoff_denom as int >= d) by (nonlinear_arith)
        requires
            0 <= d,
            1 <= p.backoff_denom <= p.backoff_numer,
    ;
}

/// Law: the delay sequence of a well-formed policy is non-decreasing and
/// stays between the initial delay and the cap.
pub proof fn lemma_delay_monotonic(p: PollPolicy, k: nat)
    requires
        p.wf(),
    ensures
        p.initial_delay_ms <= delay_at(p, k) <= p.max_delay_ms,
        delay_at(p, k) <= delay_at(p, k + 1),
    decreases k,
{
    if k == 0 {
        lemma_next_delay_bounds(p, delay_at(p, 0));
    } else {
        lemma_delay_monotonic(p, (k - 1) as nat);
        lemma_next_delay_bounds(p, delay_at(p, k));
    }
}

/// Computes the delay that follows `d`.
pub fn next_delay(p: &PollPolicy, d: u64) -> (r: u64)
    requires
        p.wf(),
        d <= p.max_delay_ms,
    ensures
        r as int == next_delay_spec(*p, d as int),
        d <= r <= p.max_delay_ms,
{
    proof {
        assert(d * p.backoff_numer <= p.max_delay_ms * p.backoff_numer) by (nonlinear_arith)
            requires
                d <= p.max_delay_ms,
                p.backoff_numer >= 0,
        ;
        lemma_next_delay_bounds(*p, d as int);
    }
    let grown = d * p.backoff_numer / p.backoff_denom;
    if grown <= p.max_delay_ms {
        grown
    } else {
        p.max_delay_ms
    }
}

// ---------------------------------------------------------------------------
// The decision core, one fetched status at a time
// ---------------------------------------------------------------------------

/// Progress of one poll loop between fetches: how many fetches have been
/// issued, and the delay scheduled before the next one.
#[derive(Debug, Clone, Copy, PartialEq, Eq, Structural)]
pub struct PollProgress {
    pub attempts_made: u32,
    pub delay_ms: u64,
}

impl PollProgress {
    /// The progress values the loop can actually reach under policy `p`.
    pub open spec fn wf(self, p: PollPolicy) -> bool {
        &&& self.attempts_made < p.max_attempts
        &&& self.delay_ms as int == delay_at(p, self.attempts_made as nat)
    }
}

/// What the loop does after one fetch: sleep and fetch again, or stop with
/// an outcome.
#[derive(Debug, PartialEq, Eq)]
pub enum PollStep {
    Continue { sleep_ms: u64, next: PollProgress },
    Done(Result<String, PollError>),
}

/// The outcome a terminal status report settles.
pub open spec fn terminal_outcome(x: JobStatusPayload) -> Result<String, PollError> {
    if x.status == JobStatus::Completed {
        Ok(x.payload)
    } else {
        Err(PollError::RemoteFailed(x.payload))
    }
}

/// The state of a loop that has issued no fetch yet.
pub fn poll_begin(p: &PollPolicy) -> (r: PollProgress)
    requires
        p.wf(),
    ensures
        r.wf(*p),
        r.attempts_made == 0,
        r.delay_ms == p.initial_delay_ms,
{
    PollProgress { attempts_made: 0, delay_ms: p.initial_delay_ms }
}

/// Decides what follows the fetch just issued in state `st`: a completed job
/// yields its payload, a failed one its reason; otherwise the loop sleeps
/// the scheduled delay and fetches again, unless the attempt ceiling is
/// reached, which times the poll out.
pub fn poll_on_status(p: &PollPolicy, st: PollProgress, fetched: JobStatusPayload) -> (r: PollStep)
    requires
        p.wf(),
        st.wf(*p),
    ensures
        fetched.status.is_terminal_spec() ==> r == PollStep::Done(terminal_outcome(fetched)),
        !fetched.status.is_terminal_spec() && st.attempts_made + 1 == p.max_attempts ==> r
            == PollStep::Done(Err::<String, PollError>(PollError::TimedOut)),
        !fetched.status.is_terminal_spec() && st.attempts_made + 1 < p.max_attempts ==> {
            &&& r matches PollStep::Continue { sleep_ms, next }
            &&& sleep_ms == st.delay_ms
            &&& next.attempts_made == st.attempts_made + 1
            &&& next.wf(*p)
        },
{
    proof {
        lemma_delay_monotonic(*p, st.attempts_made as nat);
    }
    if fetched.status.is_terminal() {
        if matches!(fetched.status, JobStatus::Completed) {
            PollStep::Done(Ok(fetched.payload))
        } else {
            PollStep::Done(Err(PollError::RemoteFailed(fetched.payload)))
        }
    } else if st.attempts_made + 1 == p.max_attempts {
        PollStep::Done(Err(PollError::TimedOut))
    } else {
        let sleep_ms = st.delay_ms;
        let next = PollProgress {
            attempts_made: st.attempts_made + 1,
            delay_ms: next_delay(p, st.delay_ms),
        };
        PollStep::Continue { sleep_ms, next }
    }
}

// ---------------------------------------------------------------------------
// The whole loop over a scripted status sequence
// ---------------------------------------------------------------------------

/// The first index at or after `i` whose status is terminal.
pub open spec fn first_terminal_from(sc: Seq<JobStatusPayload>, i: int) -> Option<int>
    decreases sc.len() - i + 1,
{
    if i < 0 || i >= sc.len() {
        None
    } else if sc[i].status.is_terminal_spec() {
        Some(i)
    } else {
        first_terminal_from(sc, i + 1)
    }
}

/// What a `Some` answer of `first_terminal_from` means.
pub proof fn lemma_first_terminal_some(sc: Seq<JobStatusPayload>, from: int, k: int)
    requires
        from >= 0,
        first_terminal_from(sc, from) == Some(k),
    ensures
        from <= k < sc.len(),
        sc[k].status.is_terminal_spec(),
        forall|j: int| from <= j < k ==> !sc[j].status.is_terminal_spec(),
    decreases sc.len() - from + 1,
{
    if !(from < 0 || from >= sc.len()) && !sc[from].status.is_terminal_spec() {
        lemma_first_terminal_some(sc, from + 1, k);
    }
}

/// The converse direction for `first_terminal_from`.
pub proof fn lemma_first_terminal_found(sc: Seq<JobStatusPayload>, from: int, k: int)
    requires
        0 <= from <= k < sc.len(),
        sc[k].status.is_terminal_spec(),
        forall|j: int| from <= j < k ==> !sc[j].status.is_terminal_spec(),
    ensures
        first_terminal_from(sc, from) == Some(k),
    decreases k - from,
{
    if from < k {
        lemma_first_terminal_found(sc, from + 1, k);
    }
}

/// A `None` answer of `first_terminal_from` means no terminal status.
pub proof fn lemma_first_terminal_none(sc: Seq<JobStatusPayload>, from: int)
    requires
        from >= 0,
        first_terminal_from(sc, from) is None,
    ensures
        forall|j: int| from <= j < sc.len() ==> !sc[j].status.is_terminal_spec(),
    decreases sc.len() - from + 1,
{
    if from < sc.len() {
        lemma_first_terminal_none(sc, from + 1);
    }
}

/// One finished poll loop: its outcome, how many status fetches it issued,
/// and the delays slept between consecutive fetches.
#[derive(Debug)]
pub struct PollRun {
    pub outcome: Result<String, PollError>,
    pub fetches: u32,
    pub delays: Vec<u64>,
}

/// Everything `poll_script` promises: the first terminal status within the
/// attempt ceiling settles the outcome and the fetch count, a script that
/// reaches the ceiling first times out, and the recorded delays follow the
/// backoff sequence of the policy.
pub open spec fn poll_script_post(p: PollPolicy, sc: Seq<JobStatusPayload>, r: PollRun) -> bool {
    &&& (forall|k: int| 0 <= k < r.delays@.len() ==> r.delays@[k] as int == delay_at(p, k as nat))
    &&& match first_terminal_from(sc, 0) {
        Some(t) => if t < p.max_attempts {
            &&& r.fetches as int == t + 1
            &&& r.delays@.len() == t
            &&& r.outcome == terminal_outcome(sc[t])
        } else {
            &&& r.fetches == p.max_attempts
            &&& r.delays@.len() == p.max_attempts - 1
            &&& r.outcome == Err::<String, PollError>(PollError::TimedOut)
        },
        None => {
            &&& r.fetches == p.max_attempts
            &&& r.delays@.len() == p.max_attempts - 1
            &&& r.outcome == Err::<String, PollError>(PollError::TimedOut)
        },
    }
}

/// Runs the poll loop against a scripted sequence of status reports, the
/// `i`-th fetch reading `script[i]`. The script must be long enough to feed
/// every fetch the policy allows, unless a terminal status cuts it short.
pub fn poll_script(p: &PollPolicy, script: &Vec<JobStatusPayload>) -> (r: PollRun)
    requires
        p.wf(),
        first_terminal_from(script@, 0) is None ==> script@.len() >= p.max_attempts,
    ensures
        poll_script_post(*p, script@, r),
        1 <= r.fetches <= p.max_attempts,
{
    let mut delays: Vec<u64> = Vec::new();
    let mut delay: u64 = p.initial_delay_ms;
    let mut i: u32 = 0;
    proof {
        if first_terminal_from(script@, 0) is Some {
            let t0 = first_terminal_from(script@, 0)->Some_0;
            lemma_first_terminal_some(script@, 0, t0);
        }
    }
    loop
        invariant
            p.wf(),
            i < p.max_attempts,
            i as int <= script@.len(),
            first_terminal_from(script@, 0) is None ==> script@.len() >= p.max_attempts,
            first_terminal_from(script@, 0) matches Some(t) ==> i <= t,
            forall|j: int| 0 <= j < i ==> !script@[j].status.is_terminal_spec(),
            delay as int == delay_at(*p, i as nat),
            delays@.len() == i as int,
            forall|k: int| 0 <= k < i ==> delays@[k] as int == delay_at(*p, k as nat),
        decreases p.max_attempts - i,
    {
        proof {
            if first_terminal_from(script@, 0) is Some {
                let t0 = first_terminal_from(script@, 0)->Some_0;
                lemma_first_terminal_some(script@, 0, t0);
            } else {
                lemma_first_terminal_none(script@, 0);
            }
        }
        let entry_status = script[i as usize].status;
        if entry_status.is_terminal() {
            proof {
                lemma_first_terminal_found(script@, 0, i as int);
            }
            let payload = script[i as usize].payload.clone();
            let outcome = if matches!(entry_status, JobStatus::Completed) {
                Ok(payload)
            } else {
                Err(PollError::RemoteFailed(payload))
            };
            return PollRun { outcome, fetches: i + 1, delays };
        }
        if i + 1 == p.max_attempts {
            return PollRun { outcome: Err(PollError::TimedOut), fetches: i + 1, delays };
        }
        delays.push(delay);
        delay = next_delay(p, delay);
        proof {
            lemma_delay_monotonic(*p, i as nat);
        }
        i = i + 1;
    }
}

} // verus!
