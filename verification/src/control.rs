//! The control surface of the dashboard: pausing, background jobs, and the token
//! that guards both.
use crate::binance_auth::{hex_string, hex_text};
use crate::text::{is_blank, nat_text, same_text, trim_text, u64_string};
use sha2::Digest;
use vstd::prelude::*;

verus! {

/// The SHA-256 digest that the `sha2` crate gives for a message.
pub uninterp spec fn sha256(message: Seq<u8>) -> Seq<u8>;

/// `Sha256::digest`: the digest of a message, named by [`sha256`]. It has 32 bytes.
#[verifier::external_body]
fn sha256_digest(message: &[u8]) -> (d: Vec<u8>)
    ensures
        d@ == sha256(message@),
        d@.len() == 32,
{
    sha2::Sha256::digest(message).to_vec()
}

/// The `k` low bytes of a number, the lowest first.
pub open spec fn low_bytes(n: nat, k: nat) -> Seq<u8>
    decreases k,
{
    if k == 0 {
        Seq::empty()
    } else {
        seq![(n % 256) as u8] + low_bytes(n / 256, (k - 1) as nat)
    }
}

fn push_low_bytes(out: &mut Vec<u8>, n: u64, k: usize)
    ensures
        final(out)@ == old(out)@ + low_bytes(n as nat, k as nat),
    decreases k,
{
    if k > 0 {
        out.push((n % 256) as u8);
        push_low_bytes(out, n / 256, k - 1);
    }
    assert(out@ =~= old(out)@ + low_bytes(n as nat, k as nat));
}

/// What a token is made from: the time in eight bytes, the process in four and an
/// address in eight.
pub open spec fn token_seed(now_ms: u64, pid: u32, marker: u64) -> Seq<u8> {
    low_bytes(now_ms as nat, 8) + low_bytes(pid as nat, 4) + low_bytes(marker as nat, 8)
}

/// The token of a process.
pub open spec fn token_text(fixed: Option<String>, now_ms: u64, pid: u32, marker: u64) -> Seq<char> {
    if fixed is Some && !is_blank(fixed->0@) {
        fixed->0@
    } else {
        hex_text(sha256(token_seed(now_ms, pid, marker)))
    }
}

/// The token of a process: the one that the operator set, or a digest of the time,
/// the process and an address.
pub fn generate_token(fixed: Option<String>, now_ms: u64, pid: u32, marker: u64) -> (s: String)
    ensures
        s@ == token_text(fixed, now_ms, pid, marker),
{
    if let Some(t) = fixed {
        if !trim_text(t.as_str()).as_str().is_empty() {
            return t;
        }
    }
    let mut seed: Vec<u8> = Vec::new();
    push_low_bytes(&mut seed, now_ms, 8);
    push_low_bytes(&mut seed, pid as u64, 4);
    push_low_bytes(&mut seed, marker, 8);
    assert(seed@ =~= token_seed(now_ms, pid, marker));
    let digest: Vec<u8> = sha256_digest(seed.as_slice());
    hex_string(digest.as_slice())
}

/// How a job stands.
#[derive(Clone, Copy, Debug, PartialEq, Eq, Structural)]
pub enum JobState {
    Running,
    Done,
    Error,
}

/// The name of a job's state.
pub open spec fn job_state_text(s: JobState) -> Seq<char> {
    match s {
        JobState::Running => "running"@,
        JobState::Done => "done"@,
        JobState::Error => "error"@,
    }
}

impl JobState {
    /// The name of the state.
    pub fn name(self) -> (s: &'static str)
        ensures
            s@ == job_state_text(self),
    {
        match self {
            JobState::Running => "running",
            JobState::Done => "done",
            JobState::Error => "error",
        }
    }
}

/// A background job.
#[derive(Debug)]
pub struct JobStatus {
    pub id: String,
    pub kind: String,
    pub status: JobState,
    pub message: String,
    pub result_paths: Vec<String>,
    pub started_at_ms: u64,
    pub finished_at_ms: Option<u64>,
}

/// The content of a [`JobStatus`].
pub struct JobView {
    pub id: Seq<char>,
    pub kind: Seq<char>,
    pub status: JobState,
    pub message: Seq<char>,
    pub result_paths: Seq<Seq<char>>,
    pub started_at_ms: u64,
    pub finished_at_ms: Option<u64>,
}

impl View for JobStatus {
    type V = JobView;

    open spec fn view(&self) -> JobView {
        JobView {
            id: self.id@,
            kind: self.kind@,
            status: self.status,
            message: self.message@,
            result_paths: crate::text::texts(self.result_paths@),
            started_at_ms: self.started_at_ms,
            finished_at_ms: self.finished_at_ms,
        }
    }
}

impl JobStatus {
    /// A copy of the job.
    pub fn copy(&self) -> (j: JobStatus)
        ensures
            j@ == self@,
    {
        let mut paths: Vec<String> = Vec::new();
        let mut i: usize = 0;
        while i < self.result_paths.len()
            invariant
                i <= self.result_paths@.len(),
                paths@.len() == i,
                forall|k: int| 0 <= k < i ==> (#[trigger] paths@[k])@ == self.result_paths@[k]@,
            decreases self.result_paths@.len() - i,
        {
            paths.push(self.result_paths[i].clone());
            i += 1;
        }
        let j: JobStatus = JobStatus {
            id: self.id.clone(),
            kind: self.kind.clone(),
            status: self.status,
            message: self.message.clone(),
            result_paths: paths,
            started_at_ms: self.started_at_ms,
            finished_at_ms: self.finished_at_ms,
        };
        assert(j@.result_paths =~= self@.result_paths);
        j
    }
}

/// A job that has just started.
pub open spec fn running_job(id: Seq<char>, kind: Seq<char>, now_ms: u64) -> JobView {
    JobView {
        id,
        kind,
        status: JobState::Running,
        message: "Running…"@,
        result_paths: Seq::empty(),
        started_at_ms: now_ms,
        finished_at_ms: None,
    }
}

/// A job that has just started. See [`running_job`].
pub fn new_running_job(id: &str, kind: &str, now_ms: u64) -> (j: JobStatus)
    ensures
        j@ == running_job(id@, kind@, now_ms),
{
    let j: JobStatus = JobStatus {
        id: String::from_str(id),
        kind: String::from_str(kind),
        status: JobState::Running,
        message: String::from_str("Running…"),
        result_paths: Vec::new(),
        started_at_ms: now_ms,
        finished_at_ms: None,
    };
    assert(j@.result_paths =~= Seq::empty());
    j
}

/// How a job ended.
#[derive(Debug)]
pub struct JobEnd {
    pub status: JobState,
    pub message: String,
    pub result_paths: Vec<String>,
    pub finished_at_ms: u64,
}

/// A job that has ended. One that failed keeps the paths that it had.
pub open spec fn ended_job(j: JobView, e: JobEnd) -> JobView {
    JobView {
        status: e.status,
        message: e.message@,
        result_paths: if e.status == JobState::Done {
            crate::text::texts(e.result_paths@)
        } else {
            j.result_paths
        },
        finished_at_ms: Some(e.finished_at_ms),
        ..j
    }
}

/// The most jobs that are remembered.
pub const MAX_JOBS: usize = 50;

/// The control surface.
pub struct ControlState {
    pub paused: bool,
    pub loop_mode: bool,
    pub token: String,
    pub jobs: Vec<JobStatus>,
    pub job_seq: u64,
    pub job_in_flight: bool,
}

/// Whether no two jobs of a list share an identifier.
pub open spec fn distinct_ids(jobs: Seq<JobStatus>) -> bool {
    forall|i: int, j: int|
        0 <= i < j < jobs.len() ==> (#[trigger] jobs[i])@.id != (#[trigger] jobs[j])@.id
}

impl ControlState {
    /// The remembered jobs, in the order in which they came.
    pub open spec fn job_list(&self) -> Seq<JobStatus> {
        self.jobs@
    }

    /// How many identifiers were given out.
    pub open spec fn next_seq(&self) -> u64 {
        self.job_seq
    }

    /// Whether the one job slot is taken.
    pub open spec fn slot_taken(&self) -> bool {
        self.job_in_flight
    }

    /// No two jobs share an identifier, and there are no more than may be.
    pub open spec fn wf(&self) -> bool {
        distinct_ids(self.job_list()) && self.job_list().len() <= MAX_JOBS
    }

    /// The job with an identifier.
    pub open spec fn job(&self, id: Seq<char>) -> Option<JobView> {
        if exists|i: int| 0 <= i < self.job_list().len() && (#[trigger] self.job_list()[i])@.id == id {
            let i = choose|i: int|
                0 <= i < self.job_list().len() && (#[trigger] self.job_list()[i])@.id == id;
            Some(self.job_list()[i]@)
        } else {
            None
        }
    }

    /// A control surface without jobs, not paused, whose slot is free.
    pub fn new(loop_mode: bool, token: String) -> (c: ControlState)
        ensures
            c.wf(),
            !c.paused,
            c.loop_mode == loop_mode,
            c.token@ == token@,
            c.job_list().len() == 0,
            c.next_seq() == 0,
            !c.slot_taken(),
    {
        ControlState {
            paused: false,
            loop_mode,
            token,
            jobs: Vec::new(),
            job_seq: 0,
            job_in_flight: false,
        }
    }

    /// A fresh identifier for a job.
    pub fn new_job_id(&mut self, kind: &str, now_ms: u64) -> (s: String)
        ensures
            s@ == job_id_text(kind@, now_ms, old(self).next_seq()),
            final(self).next_seq() == seq_after(old(self).next_seq()),
            final(self).job_list() == old(self).job_list(),
            final(self).slot_taken() == old(self).slot_taken(),
            final(self).paused == old(self).paused,
            final(self).loop_mode == old(self).loop_mode,
            final(self).token == old(self).token,
    {
        let mut s: String = String::from_str("job-");
        s.append(kind);
        s.append("-");
        s.append(u64_string(now_ms).as_str());
        s.append("-");
        s.append(u64_string(self.job_seq).as_str());
        self.job_seq = if self.job_seq == u64::MAX {
            0
        } else {
            self.job_seq + 1
        };
        s
    }

    fn find(&self, id: &str) -> (r: Option<usize>)
        requires
            self.wf(),
        ensures
            match r {
                Some(i) => i < self.job_list().len() && self.job_list()[i as int]@.id == id@
                    && self.job(id@) == Some(self.job_list()[i as int]@),
                None => self.job(id@) is None && forall|k: int|
                    0 <= k < self.job_list().len() ==> (#[trigger] self.job_list()[k])@.id != id@,
            },
    {
        let mut i: usize = 0;
        while i < self.jobs.len()
            invariant
                i <= self.jobs@.len(),
                self.wf(),
                forall|k: int| 0 <= k < i ==> (#[trigger] self.jobs@[k])@.id != id@,
            decreases self.jobs@.len() - i,
        {
            if same_text(self.jobs[i].id.as_str(), id) {
                proof {
                    assert(self.job_list()[i as int]@.id == id@);
                    let k = choose|k: int|
                        0 <= k < self.job_list().len() && (#[trigger] self.job_list()[k])@.id
                            == id@;
                    if k < i {
                        assert(self.job_list()[k]@.id != self.job_list()[i as int]@.id);
                    } else if i < k {
                        assert(self.job_list()[i as int]@.id != self.job_list()[k]@.id);
                    }
                }
                return Some(i);
            }
            i += 1;
        }
        None
    }

    /// The position of the job that started first; of equals, the one that came
    /// first.
    fn oldest(&self) -> (at: usize)
        requires
            self.job_list().len() > 0,
        ensures
            is_oldest(self.job_list(), at as int),
    {
        let mut at: usize = 0;
        let mut i: usize = 1;
        while i < self.jobs.len()
            invariant
                at < i <= self.jobs@.len(),
                forall|k: int|
                    0 <= k < i ==> self.jobs@[at as int].started_at_ms <= (
                    #[trigger] self.jobs@[k]).started_at_ms,
                forall|k: int|
                    0 <= k < at ==> self.jobs@[at as int].started_at_ms < (
                    #[trigger] self.jobs@[k]).started_at_ms,
            decreases self.jobs@.len() - i,
        {
            if self.jobs[i].started_at_ms < self.jobs[at].started_at_ms {
                at = i;
            }
            i += 1;
        }
        at
    }

    /// Remembers a job. Where there are as many as may be, the one that started
    /// first is forgotten; a job with the same identifier is replaced.
    pub fn insert_job(&mut self, job: JobStatus)
        requires
            old(self).wf(),
        ensures
            final(self).wf(),
            final(self).job_list() == inserted(old(self).job_list(), job),
            final(self).job(job@.id) == Some(job@),
            final(self).next_seq() == old(self).next_seq(),
            final(self).slot_taken() == old(self).slot_taken(),
            final(self).paused == old(self).paused,
            final(self).loop_mode == old(self).loop_mode,
            final(self).token == old(self).token,
    {
        self.evict();
        let ghost kept = self.jobs@;
        self.drop_id(job.id.as_str());
        let ghost others = self.jobs@;
        proof {
            assert forall|k: int| 0 <= k < others.len() implies (#[trigger] others[k])@.id
                != job@.id by {
                lemma_without_has_none(kept, job@.id, k);
            }
            lemma_push_distinct(others, job);
        }
        self.jobs.push(job);
        proof {
            lemma_job_at(*self, others.len() as int);
        }
    }

    /// Forgets the job that started first where there are as many as may be.
    fn evict(&mut self)
        requires
            old(self).wf(),
        ensures
            final(self).jobs@ == evicted(old(self).jobs@),
            distinct_ids(final(self).jobs@),
            final(self).jobs@.len() < MAX_JOBS,
            *final(self) == (ControlState { jobs: final(self).jobs, ..*old(self) }),
    {
        if self.jobs.len() >= MAX_JOBS {
            let at: usize = self.oldest();
            proof {
                lemma_oldest_unique(self.jobs@, at as int);
                lemma_remove_distinct(self.jobs@, at as int);
            }
            let _forgotten: JobStatus = self.jobs.remove(at);
        }
    }

    /// Forgets the job with an identifier.
    fn drop_id(&mut self, id: &str)
        requires
            old(self).wf(),
        ensures
            final(self).jobs@ == without_id(old(self).jobs@, id@),
            distinct_ids(final(self).jobs@),
            final(self).jobs@.len() <= old(self).jobs@.len(),
            *final(self) == (ControlState { jobs: final(self).jobs, ..*old(self) }),
    {
        let same: Option<usize> = self.find(id);
        if let Some(i) = same {
            proof {
                lemma_remove_distinct(self.jobs@, i as int);
                lemma_without(self.jobs@, i as int, id@);
            }
            let _replaced: JobStatus = self.jobs.remove(i);
        } else {
            proof {
                lemma_without_none(self.jobs@, id@);
            }
        }
    }

    /// Notes how a job ended. A job that is not known stays unknown.
    pub fn update_job(&mut self, id: &str, end: JobEnd)
        requires
            old(self).wf(),
        ensures
            final(self).wf(),
            final(self).job_list().len() == old(self).job_list().len(),
            forall|i: int|
                0 <= i < old(self).job_list().len() ==> (#[trigger] final(self).job_list()[i])@ == (
                if old(self).job_list()[i]@.id == id@ {
                    ended_job(old(self).job_list()[i]@, end)
                } else {
                    old(self).job_list()[i]@
                }),
            final(self).next_seq() == old(self).next_seq(),
            final(self).slot_taken() == old(self).slot_taken(),
            final(self).paused == old(self).paused,
            final(self).loop_mode == old(self).loop_mode,
            final(self).token == old(self).token,
    {
        let found: Option<usize> = self.find(id);
        if let Some(i) = found {
            let ghost before = self.jobs@;
            let mut job: JobStatus = self.jobs[i].copy();
            job.status = end.status;
            job.message = end.message;
            if end.status == JobState::Done {
                job.result_paths = end.result_paths;
            }
            job.finished_at_ms = Some(end.finished_at_ms);
            assert(job@ == ended_job(before[i as int]@, end));
            self.jobs.set(i, job);
            proof {
                assert(self.jobs@ == before.update(i as int, job));
                assert forall|a: int, b: int| 0 <= a < b < self.jobs@.len() implies (
                #[trigger] self.jobs@[a])@.id != (#[trigger] self.jobs@[b])@.id by {
                    assert(before[a]@.id != before[b]@.id);
                }
                assert forall|k: int| 0 <= k < before.len() implies (#[trigger] self.jobs@[k])@ == (
                if before[k]@.id == id@ {
                    ended_job(before[k]@, end)
                } else {
                    before[k]@
                }) by {
                    if k < i {
                        assert(before[k]@.id != before[i as int]@.id);
                    } else if k > i {
                        assert(before[i as int]@.id != before[k]@.id);
                    }
                }
            }
        }
    }

    /// The job with an identifier.
    pub fn get_job(&self, id: &str) -> (r: Option<JobStatus>)
        requires
            self.wf(),
        ensures
            match r {
                Some(j) => self.job(id@) == Some(j@),
                None => self.job(id@) is None,
            },
    {
        match self.find(id) {
            Some(i) => Some(self.jobs[i].copy()),
            None => None,
        }
    }

    /// Takes the one job slot, if it is free.
    pub fn try_start_job(&mut self) -> (r: bool)
        ensures
            r == !old(self).slot_taken(),
            final(self).slot_taken(),
            final(self).job_list() == old(self).job_list(),
            final(self).next_seq() == old(self).next_seq(),
            final(self).paused == old(self).paused,
            final(self).loop_mode == old(self).loop_mode,
            final(self).token == old(self).token,
    {
        if self.job_in_flight {
            false
        } else {
            self.job_in_flight = true;
            true
        }
    }

    /// Frees the job slot.
    pub fn release_job_slot(&mut self)
        ensures
            !final(self).slot_taken(),
            final(self).job_list() == old(self).job_list(),
            final(self).next_seq() == old(self).next_seq(),
            final(self).paused == old(self).paused,
            final(self).loop_mode == old(self).loop_mode,
            final(self).token == old(self).token,
    {
        self.job_in_flight = false;
    }

    /// Starts a job where no other one runs: it takes the slot, gets an identifier
    /// and is remembered as running.
    pub fn start_job(&mut self, kind: &str, now_ms: u64) -> (r: Option<String>)
        requires
            old(self).wf(),
        ensures
            final(self).wf(),
            final(self).slot_taken(),
            final(self).paused == old(self).paused,
            final(self).loop_mode == old(self).loop_mode,
            final(self).token == old(self).token,
            match r {
                Some(id) => {
                    let job = final(self).job_list().last();
                    &&& !old(self).slot_taken()
                    &&& id@ == job_id_text(kind@, now_ms, old(self).next_seq())
                    &&& job@ == running_job(id@, kind@, now_ms)
                    &&& final(self).job_list() == inserted(old(self).job_list(), job)
                    &&& final(self).job(id@) == Some(job@)
                    &&& final(self).next_seq() == seq_after(old(self).next_seq())
                },
                None => {
                    &&& old(self).slot_taken()
                    &&& final(self).job_list() == old(self).job_list()
                    &&& final(self).next_seq() == old(self).next_seq()
                },
            },
    {
        if !self.try_start_job() {
            return None;
        }
        let id: String = self.new_job_id(kind, now_ms);
        self.insert_job(new_running_job(id.as_str(), kind, now_ms));
        Some(id)
    }

    /// Whether a request carries the token.
    pub fn token_matches(&self, header: Option<&str>) -> (r: bool)
        ensures
            r == (header is Some && header->0@ == self.token@),
    {
        match header {
            Some(h) => same_text(h, self.token.as_str()),
            None => false,
        }
    }
}

/// The counter after one more identifier; it starts again at zero.
pub open spec fn seq_after(seq: u64) -> u64 {
    if seq == u64::MAX {
        0
    } else {
        (seq + 1) as u64
    }
}

/// The identifier of a job.
pub open spec fn job_id_text(kind: Seq<char>, now_ms: u64, seq: u64) -> Seq<char> {
    "job-"@ + kind + "-"@ + nat_text(now_ms as nat) + "-"@ + nat_text(seq as nat)
}

/// Whether the job at `i` started first, and came first among equals.
pub open spec fn is_oldest(jobs: Seq<JobStatus>, i: int) -> bool {
    &&& 0 <= i < jobs.len()
    &&& forall|k: int|
        0 <= k < jobs.len() ==> jobs[i].started_at_ms <= (#[trigger] jobs[k]).started_at_ms
    &&& forall|k: int| 0 <= k < i ==> jobs[i].started_at_ms < (#[trigger] jobs[k]).started_at_ms
}

proof fn lemma_oldest_unique(jobs: Seq<JobStatus>, i: int)
    requires
        is_oldest(jobs, i),
    ensures
        i == choose|k: int| is_oldest(jobs, k),
{
    let k = choose|k: int| is_oldest(jobs, k);
    if k < i {
        assert(jobs[i].started_at_ms < jobs[k].started_at_ms);
    } else if i < k {
        assert(jobs[k].started_at_ms < jobs[i].started_at_ms);
    }
}

/// The jobs that stay when one more comes.
pub open spec fn evicted(jobs: Seq<JobStatus>) -> Seq<JobStatus> {
    if jobs.len() >= MAX_JOBS {
        jobs.remove(choose|k: int| is_oldest(jobs, k))
    } else {
        jobs
    }
}

/// The jobs that do not have an identifier.
pub open spec fn without_id(jobs: Seq<JobStatus>, id: Seq<char>) -> Seq<JobStatus> {
    jobs.filter(|j: JobStatus| j@.id != id)
}

/// The jobs after one more came.
pub open spec fn inserted(jobs: Seq<JobStatus>, job: JobStatus) -> Seq<JobStatus> {
    without_id(evicted(jobs), job@.id).push(job)
}

proof fn lemma_remove_distinct(jobs: Seq<JobStatus>, i: int)
    requires
        distinct_ids(jobs),
        0 <= i < jobs.len(),
    ensures
        distinct_ids(jobs.remove(i)),
{
    let r = jobs.remove(i);
    assert forall|a: int, b: int| 0 <= a < b < r.len() implies (#[trigger] r[a])@.id != (
    #[trigger] r[b])@.id by {
        let x = if a < i {
            a
        } else {
            a + 1
        };
        let y = if b < i {
            b
        } else {
            b + 1
        };
        assert(r[a] == jobs[x] && r[b] == jobs[y]);
    }
}

/// A job with a new identifier keeps the identifiers distinct.
proof fn lemma_push_distinct(jobs: Seq<JobStatus>, job: JobStatus)
    requires
        distinct_ids(jobs),
        forall|k: int| 0 <= k < jobs.len() ==> (#[trigger] jobs[k])@.id != job@.id,
    ensures
        distinct_ids(jobs.push(job)),
{
    let r = jobs.push(job);
    assert forall|a: int, b: int| 0 <= a < b < r.len() implies (#[trigger] r[a])@.id != (
    #[trigger] r[b])@.id by {
        assert(r[a] == jobs[a]);
        if b < jobs.len() {
            assert(r[b] == jobs[b]);
        }
    }
}

/// The job at a position is the one with its identifier.
proof fn lemma_job_at(c: ControlState, i: int)
    requires
        c.wf(),
        0 <= i < c.job_list().len(),
    ensures
        c.job(c.job_list()[i]@.id) == Some(c.job_list()[i]@),
{
    let id = c.job_list()[i]@.id;
    assert(c.job_list()[i]@.id == id);
    let k = choose|k: int| 0 <= k < c.job_list().len() && (#[trigger] c.job_list()[k])@.id == id;
    if k < i {
        assert(c.job_list()[k]@.id != c.job_list()[i]@.id);
    } else if i < k {
        assert(c.job_list()[i]@.id != c.job_list()[k]@.id);
    }
}

/// A list without a job of that identifier is unchanged.
proof fn lemma_without_none(jobs: Seq<JobStatus>, id: Seq<char>)
    requires
        forall|k: int| 0 <= k < jobs.len() ==> (#[trigger] jobs[k])@.id != id,
    ensures
        without_id(jobs, id) == jobs,
    decreases jobs.len(),
{
    let f = |j: JobStatus| j@.id != id;
    reveal(Seq::filter);
    if jobs.len() > 0 {
        let front = jobs.drop_last();
        assert forall|k: int| 0 <= k < front.len() implies (#[trigger] front[k])@.id != id by {
            assert(front[k] == jobs[k]);
        }
        lemma_without_none(front, id);
        assert(jobs.last() == jobs[jobs.len() - 1]);
        assert(jobs =~= front.push(jobs.last()));
    } else {
        assert(without_id(jobs, id) =~= jobs);
    }
}

/// Leaving out an identifier removes the one job that has it.
proof fn lemma_without(jobs: Seq<JobStatus>, i: int, id: Seq<char>)
    requires
        distinct_ids(jobs),
        0 <= i < jobs.len(),
        jobs[i]@.id == id,
    ensures
        without_id(jobs, id) == jobs.remove(i),
    decreases jobs.len(),
{
    reveal(Seq::filter);
    let front = jobs.drop_last();
    assert(distinct_ids(front)) by {
        assert forall|a: int, b: int| 0 <= a < b < front.len() implies (#[trigger] front[a])@.id != (
        #[trigger] front[b])@.id by {
            assert(front[a] == jobs[a] && front[b] == jobs[b]);
        }
    }
    if i == jobs.len() - 1 {
        assert forall|k: int| 0 <= k < front.len() implies (#[trigger] front[k])@.id != id by {
            assert(front[k] == jobs[k]);
            assert(jobs[k]@.id != jobs[i]@.id);
        }
        lemma_without_none(front, id);
        assert(jobs.remove(i) =~= front);
    } else {
        lemma_without(front, i, id);
        assert(jobs[i]@.id != jobs[jobs.len() - 1]@.id);
        assert(jobs.remove(i) =~= front.remove(i).push(jobs.last()));
    }
}

/// What is left has another identifier.
proof fn lemma_without_has_none(jobs: Seq<JobStatus>, id: Seq<char>, i: int)
    requires
        0 <= i < without_id(jobs, id).len(),
    ensures
        without_id(jobs, id)[i]@.id != id,
    decreases jobs.len(),
{
    reveal(Seq::filter);
    if jobs.len() > 0 {
        let front = jobs.drop_last();
        if i < without_id(front, id).len() {
            lemma_without_has_none(front, id, i);
        }
    }
}

/// A job starts running without results, and its end says how it went and when; what it is and
/// when it started stay, and only one that is done names its results.
pub proof fn law_job_from_start_to_end(
    id: Seq<char>,
    kind: Seq<char>,
    now_ms: u64,
    e: JobEnd,
)
    ensures
        ({
            let j = running_job(id, kind, now_ms);
            let k = ended_job(j, e);
            &&& j.status == JobState::Running && j.finished_at_ms is None && j.result_paths.len()
                == 0
            &&& j.id == id && j.kind == kind && j.started_at_ms == now_ms
            &&& k.id == id && k.kind == kind && k.started_at_ms == now_ms
            &&& k.status == e.status && k.message == e.message@
            &&& k.finished_at_ms == Some(e.finished_at_ms)
            &&& e.status == JobState::Done ==> k.result_paths == crate::text::texts(e.result_paths@)
            &&& e.status != JobState::Done ==> k.result_paths.len() == 0
        }),
{
}

/// Each number for a job is followed by the next one, and the last by the first.
pub proof fn law_numbers_go_round(seq: u64)
    ensures
        seq < u64::MAX ==> seq_after(seq) == seq + 1,
        seq_after(u64::MAX) == 0,
        seq_after(seq) != seq,
{
}

/// Keeping a job keeps the others that have another name, but for the oldest one where there is
/// no more room.
pub proof fn law_only_the_oldest_gives_way(jobs: Seq<JobStatus>, job: JobStatus, k: int)
    requires
        0 <= k < jobs.len(),
        jobs[k]@.id != job@.id,
        jobs.len() < MAX_JOBS || exists|o: int|
            0 <= o < jobs.len() && (#[trigger] jobs[o]).started_at_ms < jobs[k].started_at_ms,
        jobs.len() >= MAX_JOBS ==> exists|o: int| is_oldest(jobs, o),
    ensures
        inserted(jobs, job).contains(jobs[k]),
        inserted(jobs, job).last() == job,
        jobs.len() < MAX_JOBS ==> evicted(jobs) == jobs,
        jobs.len() >= MAX_JOBS ==> evicted(jobs).len() == jobs.len() - 1,
{
    let rest = evicted(jobs);
    if jobs.len() >= MAX_JOBS {
        let o = choose|o: int| is_oldest(jobs, o);
        assert(o != k);
        if k < o {
            assert(rest[k] == jobs[k]);
        } else {
            assert(rest[k - 1] == jobs[k]);
        }
    }
    assert(rest.contains(jobs[k]));
    let keep = |j: JobStatus| j@.id != job@.id;
    let kept = without_id(rest, job@.id);
    let i = choose|i: int| 0 <= i < rest.len() && rest[i] == jobs[k];
    rest.filter_lemma(keep);
    assert(kept.contains(jobs[k])) by {
        assert(keep(rest[i]));
    }
    let m = choose|m: int| 0 <= m < kept.len() && kept[m] == jobs[k];
    assert(inserted(jobs, job)[m] == jobs[k]);
}

/// The bytes of a number stand for it, the lowest one first: each is the next digit of the
/// number to the base 256.
pub proof fn law_bytes_stand_for_their_number(n: nat, k: nat)
    requires
        k > 0,
    ensures
        low_bytes(n, k).len() == k,
        low_bytes(n, k)[0] == n % 256,
        low_bytes(n, k).drop_first() =~= low_bytes(n / 256, (k - 1) as nat),
    decreases k,
{
    if k > 1 {
        law_bytes_stand_for_their_number(n / 256, (k - 1) as nat);
    } else {
        assert(low_bytes(n / 256, 0) =~= Seq::<u8>::empty());
    }
}

} // verus!
