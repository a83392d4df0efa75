//! Run configuration and the shared state of one run.
//!
//! A run is configured once, validated before any worker starts, and
//! coordinated through a small shared context: a found-flag that moves
//! from false to true exactly once, a single result slot that only the
//! worker that flips the flag may fill, and one attempt counter per
//! worker.

use vstd::prelude::*;
use vstd::arithmetic::div_mod::lemma_fundamental_div_mod;
use vstd::arithmetic::mul::lemma_mul_inequality;
use crate::partition::IndexRange;

verus! {

/// Why a run configuration is rejected before the run starts.
#[derive(Clone, Copy, PartialEq, Eq, Structural, Debug)]
pub enum ConfigError {
    WorkerCountZero,
    PrefixOutsideAlphabet,
    BatchSizeZero,
}

/// Whether a character belongs to the sixteen-letter alphabet.
pub open spec fn is_alphabet_char(c: char) -> bool {
    'a' <= c && c <= 'p'
}

/// Whether every character of a prefix belongs to the alphabet.
pub open spec fn prefix_in_alphabet(p: Seq<char>) -> bool {
    forall|i: int| 0 <= i < p.len() ==> is_alphabet_char(#[trigger] p[i])
}

/// The immutable configuration of one run.
#[derive(Debug)]
pub struct SearchTask {
    pub prefix: String,
    pub cpu_workers: u64,
    pub batch_size: u64,
    pub use_accelerator: bool,
}

impl SearchTask {
    /// Validates a configuration: the worker count and the batch size
    /// must be positive, and every character of the prefix must belong
    /// to the alphabet.  A prefix longer than 32 characters is accepted
    /// here — it is valid, it just can never match.
    pub fn new(prefix: String, cpu_workers: u64, batch_size: u64, use_accelerator: bool) -> (r:
        Result<SearchTask, ConfigError>)
        ensures
            cpu_workers == 0 ==> r == Err::<SearchTask, _>(ConfigError::WorkerCountZero),
            cpu_workers >= 1 && !prefix_in_alphabet(prefix@) ==> r == Err::<SearchTask, _>(
                ConfigError::PrefixOutsideAlphabet,
            ),
            cpu_workers >= 1 && prefix_in_alphabet(prefix@) && batch_size == 0 ==> r == Err::<
                SearchTask,
                _,
            >(ConfigError::BatchSizeZero),
            cpu_workers >= 1 && prefix_in_alphabet(prefix@) && batch_size >= 1 ==> r is Ok && {
                let t = r->Ok_0;
                &&& t.prefix@ == prefix@
                &&& t.cpu_workers == cpu_workers
                &&& t.batch_size == batch_size
                &&& t.use_accelerator == use_accelerator
            },
    {
        if cpu_workers == 0 {
            return Err(ConfigError::WorkerCountZero);
        }
        let n = prefix.as_str().unicode_len();
        let mut i: usize = 0;
        while i < n
            invariant
                i <= n,
                n == prefix@.len(),
                cpu_workers >= 1,
                forall|j: int| 0 <= j < i ==> is_alphabet_char(#[trigger] prefix@[j]),
            decreases n - i,
        {
            let c = prefix.as_str().get_char(i);
            if c < 'a' || c > 'p' {
                proof {
                    assert(!is_alphabet_char(prefix@[i as int]));
                }
                return Err(ConfigError::PrefixOutsideAlphabet);
            }
            i += 1;
        }
        if batch_size == 0 {
            return Err(ConfigError::BatchSizeZero);
        }
        Ok(SearchTask { prefix, cpu_workers, batch_size, use_accelerator })
    }
}

/// Which worker found the match.
#[derive(Clone, Copy, PartialEq, Eq, Structural, Debug)]
pub enum WorkerId {
    Accelerator,
    Cpu(u64),
}

/// What the winning worker publishes: the identifier, the candidate
/// bytes, its own attempt count at the moment of the match, and who it
/// was.
pub struct FoundReport {
    pub extension_id: String,
    pub key_data: Vec<u8>,
    pub attempts: u64,
    pub worker: WorkerId,
}

/// The state shared by all workers of one run: the found-flag, the
/// single result slot, and one attempt counter per worker.
pub struct RunState {
    pub found: bool,
    pub result: Option<FoundReport>,
    pub attempts: Vec<u64>,
}

/// The state after a worker reports a match: the flag is set, and the
/// result slot is filled only if the flag was still clear.
pub open spec fn record_post(pre: RunState, report: FoundReport) -> RunState {
    RunState {
        found: true,
        result: if pre.found {
            pre.result
        } else {
            Some(report)
        },
        attempts: pre.attempts,
    }
}

/// Whether a worker reporting a match on `pre` wins the result slot.
pub open spec fn record_wins(pre: RunState, report: FoundReport) -> bool {
    !pre.found
}

impl RunState {
    /// A run state is well formed when the result slot is filled
    /// exactly while the found-flag is set.
    pub open spec fn wf(&self) -> bool {
        self.found <==> self.result is Some
    }

    /// A fresh run state: flag clear, slot empty, one zeroed counter
    /// per worker.
    pub fn new(num_workers: usize) -> (s: RunState)
        ensures
            s.wf(),
            !s.found,
            s.result is None,
            s.attempts@ == Seq::new(num_workers as nat, |i: int| 0u64),
    {
        let mut attempts: Vec<u64> = Vec::new();
        let mut i: usize = 0;
        while i < num_workers
            invariant
                i <= num_workers,
                attempts@.len() == i,
                forall|j: int| 0 <= j < i ==> attempts@[j] == 0u64,
            decreases num_workers - i,
        {
            attempts.push(0);
            i += 1;
        }
        proof {
            assert(attempts@ =~= Seq::new(num_workers as nat, |i: int| 0u64));
        }
        RunState { found: false, result: None, attempts }
    }

    /// A worker reports a match.  The flag becomes set; the report
    /// enters the slot if and only if this call flipped the flag, and
    /// the returned ticket says whether it did.  At most one caller
    /// ever receives the ticket, whatever the order of calls.
    pub fn record_match(&mut self, report: FoundReport) -> (won: bool)
        ensures
            *final(self) == record_post(*old(self), report),
            won == record_wins(*old(self), report),
            old(self).wf() ==> final(self).wf(),
    {
        if self.found {
            false
        } else {
            self.found = true;
            self.result = Some(report);
            true
        }
    }

    /// A worker publishes its attempt count.
    pub fn set_attempts(&mut self, worker_index: usize, count: u64)
        requires
            worker_index < old(self).attempts@.len(),
        ensures
            final(self).attempts@ == old(self).attempts@.update(worker_index as int, count),
            final(self).found == old(self).found,
            final(self).result == old(self).result,
    {
        self.attempts.set(worker_index, count);
    }

    /// The sum of all attempt counters, clamped at `u64::MAX`.
    pub fn total_attempts(&self) -> (total: u64)
        ensures
            sum_of(self.attempts@) <= u64::MAX ==> total == sum_of(self.attempts@),
            sum_of(self.attempts@) > u64::MAX ==> total == u64::MAX,
    {
        let mut total: u64 = 0;
        let mut i: usize = 0;
        while i < self.attempts.len()
            invariant
                i <= self.attempts@.len(),
                sum_of(self.attempts@.take(i as int)) <= u64::MAX ==> total == sum_of(
                    self.attempts@.take(i as int),
                ),
                sum_of(self.attempts@.take(i as int)) > u64::MAX ==> total == u64::MAX,
            decreases self.attempts@.len() - i,
        {
            proof {
                lemma_sum_nonneg(self.attempts@.take(i as int));
                assert(self.attempts@.take(i as int + 1).drop_last() =~= self.attempts@.take(
                    i as int,
                ));
                assert(sum_of(self.attempts@.take(i as int + 1)) == sum_of(
                    self.attempts@.take(i as int),
                ) + self.attempts@[i as int]);
            }
            let x = self.attempts[i];
            if u64::MAX - total < x {
                total = u64::MAX;
            } else {
                total = total + x;
            }
            i += 1;
        }
        proof {
            assert(self.attempts@.take(self.attempts@.len() as int) =~= self.attempts@);
        }
        total
    }
}

/// The sum of a sequence of counters.
pub open spec fn sum_of(s: Seq<u64>) -> int
    decreases s.len(),
{
    if s.len() == 0 {
        0
    } else {
        sum_of(s.drop_last()) + s.last()
    }
}

proof fn lemma_sum_nonneg(s: Seq<u64>)
    ensures
        sum_of(s) >= 0,
    decreases s.len(),
{
    if s.len() > 0 {
        lemma_sum_nonneg(s.drop_last());
    }
}

/// The state after a sequence of workers report matches, in order.
pub open spec fn apply_reports(s: RunState, reports: Seq<FoundReport>) -> RunState
    decreases reports.len(),
{
    if reports.len() == 0 {
        s
    } else {
        apply_reports(record_post(s, reports[0]), reports.skip(1))
    }
}

/// How many of a sequence of reports win the result slot.
pub open spec fn wins_among(s: RunState, reports: Seq<FoundReport>) -> int
    decreases reports.len(),
{
    if reports.len() == 0 {
        0int
    } else {
        (if record_wins(s, reports[0]) {
            1int
        } else {
            0int
        }) + wins_among(record_post(s, reports[0]), reports.skip(1))
    }
}

proof fn lemma_no_wins_after_found(s: RunState, reports: Seq<FoundReport>)
    requires
        s.found,
    ensures
        apply_reports(s, reports).result == s.result,
        wins_among(s, reports) == 0,
    decreases reports.len(),
{
    if reports.len() > 0 {
        assert(record_post(s, reports[0]).result == s.result);
        lemma_no_wins_after_found(record_post(s, reports[0]), reports.skip(1));
    }
}

/// The single-writer guarantee: starting from a fresh state, however
/// many workers report matches and in whatever order, exactly one of
/// them wins, and the slot holds the first report forever after.
pub proof fn lemma_single_writer(s: RunState, reports: Seq<FoundReport>)
    requires
        !s.found,
        reports.len() >= 1,
    ensures
        apply_reports(s, reports).result == Some(reports[0]),
        wins_among(s, reports) == 1,
{
    let s1 = record_post(s, reports[0]);
    assert(s1.found && s1.result == Some(reports[0]));
    lemma_no_wins_after_found(s1, reports.skip(1));
}

/// Where a batch participant's next batch begins, if its range still
/// has indices left: batch `batch_id` begins `batch_id * batch_size`
/// indices after the start of the range, and the participant stops
/// once that position falls beyond its range.
pub fn next_batch_start(range: IndexRange, batch_id: u64, batch_size: u64) -> (r: Option<u64>)
    requires
        batch_size >= 1,
        range.start <= range.last,
    ensures
        r is Some <==> range.start + batch_id * batch_size <= range.last,
        r matches Some(start) ==> start == range.start + batch_id * batch_size,
{
    let capacity = (range.last - range.start) / batch_size;
    proof {
        let span = range.last as int - range.start as int;
        let q = span / (batch_size as int);
        let rem = span % (batch_size as int);
        lemma_fundamental_div_mod(span, batch_size as int);
        if batch_id <= capacity {
            lemma_mul_inequality(batch_id as int, q, batch_size as int);
            assert(q * (batch_size as int) <= span);
        } else {
            lemma_mul_inequality(q + 1, batch_id as int, batch_size as int);
            assert((q + 1) * (batch_size as int) == q * (batch_size as int) + batch_size as int)
                by (nonlinear_arith);
            assert(batch_id * batch_size > span);
        }
    }
    if batch_id > capacity {
        None
    } else {
        Some(range.start + batch_id * batch_size)
    }
}

/// How many attempts a batch spent up to and including a match: the
/// matching index, counted from the start of the batch, inclusively.
pub fn match_attempts(found_counter: u64, batch_start: u64) -> (n: u64)
    requires
        batch_start <= found_counter,
        found_counter - batch_start + 1 <= u64::MAX,
    ensures
        n == found_counter - batch_start + 1,
{
    found_counter - batch_start + 1
}

} // verus!
