//! Rate-limited enrichment of stop addresses against a geocoding provider.
//!
//! The network work happens outside the library. What is decided here is: the
//! retry policy of one request, what a provider answer makes of a record, and
//! the order of batches with the cooldown waits between them.
use crate::models::Stop;
use vstd::prelude::*;

verus! {

/// Retries allowed after a throttled request before the record is given up.
pub const MAX_RETRIES: u32 = 3;

/// Requests per time window the provider allows, and so the batch width.
pub const BATCH_SIZE: usize = 10;

/// Length of the wait after a full batch, in seconds.
pub const COOLDOWN_SECS: u64 = 1;

/// The first fields of one address candidate, as far as the answer held them.
/// `longitude` and `latitude` are the decimal text of the coordinates.
pub struct GeocodeCandidate {
    pub full_address: Option<String>,
    pub has_coordinates: bool,
    pub longitude: Option<String>,
    pub latitude: Option<String>,
}

/// What one geocoding request came back with.
pub enum GeocodeReply {
    /// The provider refused for rate; it may say after how many seconds to retry.
    Throttled { retry_after: Option<u64> },
    /// A success answer; `features` is absent when the body had no candidate list.
    Answer { features: Option<Vec<GeocodeCandidate>> },
    /// Any other status code.
    Status(u16),
    /// The request failed to reach the provider or its body could not be read.
    Transport,
}

/// Why a record could not be enriched.
#[derive(Debug, Clone, Copy, PartialEq, Eq, Structural)]
pub enum EnrichFailure {
    RateLimited,
    NoFeatures,
    NoResults,
    MissingAddress,
    MissingCoordinates,
    InvalidLongitude,
    InvalidLatitude,
    UnexpectedStatus(u16),
    Transport,
}

/// The definitive result for one record.
pub enum EnrichOutcome {
    Enriched { position: String, latitude: String, longitude: String },
    Failed(EnrichFailure),
}

/// What to do after a reply: wait that many seconds and send again, or stop.
pub enum RetryStep {
    Wait(u64),
    Finish(EnrichOutcome),
}

/// The fallback delay before retry number `attempt + 1`: one second, doubled
/// at every attempt.
pub open spec fn backoff_secs(attempt: nat) -> nat
    decreases attempt,
{
    if attempt == 0 {
        1
    } else {
        2 * backoff_secs((attempt - 1) as nat)
    }
}

pub open spec fn retry_delay(attempt: nat, hint: Option<u64>) -> nat {
    match hint {
        Some(h) => h as nat,
        None => backoff_secs(attempt),
    }
}

/// The outcome that the first candidate of an answer gives.
pub open spec fn candidate_outcome(c: GeocodeCandidate) -> EnrichOutcome {
    if c.full_address is None {
        EnrichOutcome::Failed(EnrichFailure::MissingAddress)
    } else if !c.has_coordinates {
        EnrichOutcome::Failed(EnrichFailure::MissingCoordinates)
    } else if c.longitude is None {
        EnrichOutcome::Failed(EnrichFailure::InvalidLongitude)
    } else if c.latitude is None {
        EnrichOutcome::Failed(EnrichFailure::InvalidLatitude)
    } else {
        EnrichOutcome::Enriched {
            position: c.full_address.unwrap(),
            latitude: c.latitude.unwrap(),
            longitude: c.longitude.unwrap(),
        }
    }
}

pub open spec fn answer_outcome(features: Option<Seq<GeocodeCandidate>>) -> EnrichOutcome {
    match features {
        None => EnrichOutcome::Failed(EnrichFailure::NoFeatures),
        Some(f) => if f.len() == 0 {
            EnrichOutcome::Failed(EnrichFailure::NoResults)
        } else {
            candidate_outcome(f[0])
        },
    }
}

/// The step taken on `reply` when `attempt` retries have been made already.
pub open spec fn step_of(attempt: nat, reply: GeocodeReply) -> RetryStep {
    match reply {
        GeocodeReply::Throttled { retry_after } => if attempt >= MAX_RETRIES {
            RetryStep::Finish(EnrichOutcome::Failed(EnrichFailure::RateLimited))
        } else {
            RetryStep::Wait(retry_delay(attempt, retry_after) as u64)
        },
        GeocodeReply::Answer { features } => RetryStep::Finish(
            answer_outcome(
                match features {
                    Some(f) => Some(f@),
                    None => None,
                },
            ),
        ),
        GeocodeReply::Status(code) => RetryStep::Finish(
            EnrichOutcome::Failed(EnrichFailure::UnexpectedStatus(code)),
        ),
        GeocodeReply::Transport => RetryStep::Finish(
            EnrichOutcome::Failed(EnrichFailure::Transport),
        ),
    }
}

/// Seconds to wait before the next attempt: the provider's hint when it gave
/// one, else the doubling fallback.
pub fn retry_delay_secs(attempt: u32, hint: Option<u64>) -> (r: u64)
    requires
        attempt <= MAX_RETRIES,
    ensures
        r == retry_delay(attempt as nat, hint),
{
    match hint {
        Some(h) => h,
        None => {
            let mut d: u64 = 1;
            let mut i: u32 = 0;
            while i < attempt
                invariant
                    i <= attempt <= MAX_RETRIES,
                    d == backoff_secs(i as nat),
                    d <= 8,
                    i == 0 ==> d == 1,
                    i == 1 ==> d == 2,
                    i == 2 ==> d == 4,
                    i == 3 ==> d == 8,
                decreases attempt - i,
            {
                d = d * 2;
                i = i + 1;
            }
            d
        },
    }
}

/// The outcome of an answer's first candidate; further candidates are ignored.
pub fn read_answer(features: Option<Vec<GeocodeCandidate>>) -> (r: EnrichOutcome)
    ensures
        r == answer_outcome(
            match features {
                Some(f) => Some(f@),
                None => None,
            },
        ),
{
    match features {
        None => EnrichOutcome::Failed(EnrichFailure::NoFeatures),
        Some(mut f) => {
            if f.len() == 0 {
                EnrichOutcome::Failed(EnrichFailure::NoResults)
            } else {
                let c = f.swap_remove(0);
                match c.full_address {
                    None => EnrichOutcome::Failed(EnrichFailure::MissingAddress),
                    Some(position) => if !c.has_coordinates {
                        EnrichOutcome::Failed(EnrichFailure::MissingCoordinates)
                    } else {
                        match c.longitude {
                            None => EnrichOutcome::Failed(EnrichFailure::InvalidLongitude),
                            Some(longitude) => match c.latitude {
                                None => EnrichOutcome::Failed(EnrichFailure::InvalidLatitude),
                                Some(latitude) => EnrichOutcome::Enriched {
                                    position,
                                    latitude,
                                    longitude,
                                },
                            },
                        }
                    },
                }
            }
        },
    }
}

/// The retry state of one record's request: how many retries were made.
pub struct GeocodeRetry {
    attempt: u32,
}

impl GeocodeRetry {
    pub closed spec fn attempts(&self) -> nat {
        self.attempt as nat
    }

    pub fn new() -> (r: GeocodeRetry)
        ensures
            r.attempts() == 0,
    {
        GeocodeRetry { attempt: 0 }
    }

    /// Decides what follows `reply`. A throttled reply is retried, after the
    /// delay the provider asked for or the doubling fallback, until
    /// `MAX_RETRIES` retries were made; then the record fails. Any other
    /// reply is definitive.
    pub fn on_reply(&mut self, reply: GeocodeReply) -> (r: RetryStep)
        requires
            old(self).attempts() <= MAX_RETRIES,
        ensures
            r == step_of(old(self).attempts(), reply),
            final(self).attempts() <= MAX_RETRIES,
            r is Wait ==> final(self).attempts() == old(self).attempts() + 1,
            r is Finish ==> final(self).attempts() == old(self).attempts(),
    {
        match reply {
            GeocodeReply::Throttled { retry_after } => {
                if self.attempt >= MAX_RETRIES {
                    RetryStep::Finish(EnrichOutcome::Failed(EnrichFailure::RateLimited))
                } else {
                    let d = retry_delay_secs(self.attempt, retry_after);
                    self.attempt = self.attempt + 1;
                    RetryStep::Wait(d)
                }
            },
            GeocodeReply::Answer { features } => RetryStep::Finish(read_answer(features)),
            GeocodeReply::Status(code) => RetryStep::Finish(
                EnrichOutcome::Failed(EnrichFailure::UnexpectedStatus(code)),
            ),
            GeocodeReply::Transport => RetryStep::Finish(
                EnrichOutcome::Failed(EnrichFailure::Transport),
            ),
        }
    }
}

/// A throttled reply after `MAX_RETRIES` retries ends the record as
/// rate-limited, and one before it is retried.
pub proof fn lemma_throttling_is_bounded(attempt: nat, hint: Option<u64>)
    ensures
        attempt >= MAX_RETRIES ==> step_of(
            attempt,
            GeocodeReply::Throttled { retry_after: hint },
        ) == RetryStep::Finish(EnrichOutcome::Failed(EnrichFailure::RateLimited)),
        attempt < MAX_RETRIES ==> step_of(
            attempt,
            GeocodeReply::Throttled { retry_after: hint },
        ) is Wait,
{
}

/// A record after its outcome: the three enriched fields replaced, or the
/// record as it was.
pub open spec fn apply_outcome(s: Stop, o: EnrichOutcome) -> Stop {
    match o {
        EnrichOutcome::Enriched { position, latitude, longitude } => Stop {
            id: s.id,
            position,
            latitude,
            longitude,
            stop_id: s.stop_id,
        },
        EnrichOutcome::Failed(_) => s,
    }
}

/// Cooldown waits issued once the records before `done` were processed, out
/// of `n`, in batches of `b`: one after every full batch that another batch
/// follows.
pub open spec fn expected_waits(done: nat, n: nat, b: nat) -> nat {
    if done < n {
        done / b
    } else if n % b == 0 && n > 0 {
        (n / b - 1) as nat
    } else {
        n / b
    }
}

pub open spec fn batch_end(next: nat, n: nat, b: nat) -> nat {
    if next + b <= n {
        next + b
    } else {
        n
    }
}

/// `failed` holds the entries of `before` and the positions from `start` up
/// to `end` whose outcome is a failure, and nothing else.
pub open spec fn log_extends(
    failed: Seq<usize>,
    before: Seq<usize>,
    outs: Seq<EnrichOutcome>,
    start: int,
    end: int,
) -> bool {
    forall|x: usize|
        #[trigger] failed.contains(x) <==> (before.contains(x) || (start <= x < end
            && outs[x - start] is Failed))
}

pub ghost struct EnrichRunView {
    pub records: Seq<Stop>,
    pub initial: Seq<Stop>,
    pub batch_size: nat,
    pub next: nat,
    pub failed: Seq<usize>,
    pub cooldowns: nat,
}

/// An enrichment run over a list of records, batch by batch.
pub struct EnrichRun {
    records: Vec<Stop>,
    initial: Ghost<Seq<Stop>>,
    batch_size: usize,
    next: usize,
    failed: Vec<usize>,
    cooldowns: usize,
}

impl View for EnrichRun {
    type V = EnrichRunView;

    closed spec fn view(&self) -> EnrichRunView {
        EnrichRunView {
            records: self.records@,
            initial: self.initial@,
            batch_size: self.batch_size as nat,
            next: self.next as nat,
            failed: self.failed@,
            cooldowns: self.cooldowns as nat,
        }
    }
}

impl EnrichRunView {
    pub open spec fn wf(&self) -> bool {
        &&& self.records.len() == self.initial.len()
        &&& self.batch_size > 0
        &&& self.next <= self.records.len()
        &&& self.next < self.records.len() ==> self.next % self.batch_size == 0
        &&& forall|i: int|
            self.next <= i < self.records.len() ==> self.records[i] == self.initial[i]
        &&& forall|i: int, j: int|
            0 <= i < j < self.failed.len() ==> self.failed[i] < self.failed[j]
        &&& forall|i: int| 0 <= i < self.failed.len() ==> self.failed[i] < self.next
        &&& forall|i: int|
            0 <= i < self.failed.len() ==> self.records[self.failed[i] as int]
                == self.initial[self.failed[i] as int]
        &&& self.cooldowns == expected_waits(
            self.next,
            self.records.len(),
            self.batch_size,
        )
    }

    /// Every record is processed.
    pub open spec fn finished(&self) -> bool {
        self.next == self.records.len()
    }
}

proof fn lemma_waits_step(next: nat, n: nat, b: nat)
    requires
        b > 0,
        next < n,
        next % b == 0,
    ensures
        expected_waits(batch_end(next, n, b), n, b) == expected_waits(next, n, b) + (if batch_end(
            next,
            n,
            b,
        ) == next + b && next + b < n {
            1nat
        } else {
            0nat
        }),
        batch_end(next, n, b) < n ==> batch_end(next, n, b) % b == 0,
{
    let k = next / b;
    assert(next == k * b) by {
        vstd::arithmetic::div_mod::lemma_fundamental_div_mod(next as int, b as int);
    }
    assert((next + b) / b == k + 1 && (next + b) % b == 0) by {
        vstd::arithmetic::div_mod::lemma_div_multiples_vanish((k + 1) as int, b as int);
        vstd::arithmetic::div_mod::lemma_mod_multiples_basic((k + 1) as int, b as int);
        assert((k + 1) * b == next + b) by (nonlinear_arith)
            requires
                next == k * b,
        ;
    }
    if next + b > n {
        let r = (n - next) as nat;
        assert(n / b == k && n % b == r) by {
            vstd::arithmetic::div_mod::lemma_fundamental_div_mod_converse(
                n as int,
                b as int,
                k as int,
                r as int,
            );
        }
    }
}

impl EnrichRun {
    /// Starts a run over `records` in batches of `batch_size`.
    pub fn new(records: Vec<Stop>, batch_size: usize) -> (r: EnrichRun)
        requires
            batch_size > 0,
        ensures
            r@.wf(),
            r@.records == records@,
            r@.initial == records@,
            r@.batch_size == batch_size,
            r@.next == 0,
            r@.failed.len() == 0,
            r@.cooldowns == 0,
    {
        proof {
            if records@.len() == 0 {
                assert(expected_waits(0, 0, batch_size as nat) == 0);
            }
        }
        EnrichRun {
            initial: Ghost(records@),
            records,
            batch_size,
            next: 0,
            failed: Vec::new(),
            cooldowns: 0,
        }
    }

    /// The records in their current state.
    pub fn records(&self) -> (r: &Vec<Stop>)
        ensures
            r@ == self@.records,
    {
        &self.records
    }

    /// Positions of the records whose enrichment failed, in increasing order.
    pub fn failed(&self) -> (r: &Vec<usize>)
        ensures
            r@ == self@.failed,
    {
        &self.failed
    }

    /// Cooldown waits asked for so far.
    pub fn cooldowns(&self) -> (r: usize)
        ensures
            r == self@.cooldowns,
    {
        self.cooldowns
    }

    /// The records once the run is over.
    pub fn into_records(self) -> (r: Vec<Stop>)
        ensures
            r@ == self@.records,
    {
        self.records
    }

    /// The range of records whose requests go out together next, or `None`
    /// once all are processed.
    pub fn next_batch(&self) -> (r: Option<(usize, usize)>)
        requires
            self@.wf(),
        ensures
            match r {
                Some((start, end)) => !self@.finished() && start == self@.next && end
                    == batch_end(self@.next, self@.records.len(), self@.batch_size),
                None => self@.finished(),
            },
    {
        if self.next < self.records.len() {
            let end = if self.batch_size <= self.records.len() - self.next {
                self.next + self.batch_size
            } else {
                self.records.len()
            };
            Some((self.next, end))
        } else {
            None
        }
    }

    /// Applies the outcomes of the current batch, one per record in order.
    /// An enriched record takes the new address and coordinates; a failed one
    /// keeps its values and its position joins the failure log. Returns
    /// whether a cooldown is due before the next batch: after a full batch
    /// that another batch follows.
    pub fn apply_batch(&mut self, outcomes: Vec<EnrichOutcome>) -> (wait: bool)
        requires
            old(self)@.wf(),
            !old(self)@.finished(),
            outcomes@.len() == batch_end(
                old(self)@.next,
                old(self)@.records.len(),
                old(self)@.batch_size,
            ) - old(self)@.next,
        ensures
            final(self)@.wf(),
            final(self)@.initial == old(self)@.initial,
            final(self)@.batch_size == old(self)@.batch_size,
            final(self)@.next == batch_end(
                old(self)@.next,
                old(self)@.records.len(),
                old(self)@.batch_size,
            ),
            final(self)@.records.len() == old(self)@.records.len(),
            forall|i: int|
                old(self)@.next <= i < final(self)@.next ==> final(self)@.records[i]
                    == apply_outcome(old(self)@.records[i], outcomes@[i - old(self)@.next]),
            forall|i: int|
                0 <= i < old(self)@.next ==> final(self)@.records[i] == old(self)@.records[i],
            log_extends(
                final(self)@.failed,
                old(self)@.failed,
                outcomes@,
                old(self)@.next as int,
                final(self)@.next as int,
            ),
            wait == (final(self)@.next - old(self)@.next == old(self)@.batch_size
                && final(self)@.next < old(self)@.records.len()),
            final(self)@.cooldowns == old(self)@.cooldowns + (if wait {
                1nat
            } else {
                0nat
            }),
    {
        let ghost pre = self@;
        let ghost outs = outcomes@;
        let start = self.next;
        let n = self.records.len();
        let end = start + outcomes.len();
        let mut outcomes = outcomes;
        let mut k: usize = start;
        assert(outcomes@.subrange(0, outs.len() as int) =~= outs);
        assert(pre.failed == self.failed@ && pre.records == self.records@);
        while k < end
            invariant
                pre.wf(),
                start == pre.next,
                start <= k <= end <= n,
                end == batch_end(pre.next, pre.records.len(), pre.batch_size),
                outs.len() == end - start,
                n == self.records@.len(),
                self@.initial == pre.initial,
                self@.batch_size == pre.batch_size,
                self.next == start,
                self.cooldowns == pre.cooldowns,
                outcomes@ == outs.subrange(k - start, outs.len() as int),
                forall|i: int|
                    start <= i < k ==> self.records@[i] == apply_outcome(
                        pre.records[i],
                        outs[i - start],
                    ),
                forall|i: int|
                    0 <= i < n && !(start <= i < k) ==> self.records@[i] == pre.records[i],
                forall|i: int, j: int|
                    0 <= i < j < self.failed@.len() ==> self.failed@[i] < self.failed@[j],
                forall|i: int| 0 <= i < self.failed@.len() ==> self.failed@[i] < k,
                forall|i: int|
                    0 <= i < self.failed@.len() ==> self.records@[self.failed@[i] as int]
                        == pre.initial[self.failed@[i] as int],
                log_extends(self.failed@, pre.failed, outs, start as int, k as int),
            decreases end - k,
        {
            let o = outcomes.remove(0);
            assert(o == outs[k - start]);
            let ghost prev_failed = self.failed@;
            assert(log_extends(prev_failed, pre.failed, outs, start as int, k as int));
            match o {
                EnrichOutcome::Enriched { position, latitude, longitude } => {
                    let id = self.records[k].id.clone();
                    let stop_id = self.records[k].stop_id.clone();
                    self.records.set(k, Stop { id, position, latitude, longitude, stop_id });
                    assert forall|x: usize|
                        self.failed@.contains(x) <==> (pre.failed.contains(x) || (start <= x < k
                            + 1 && outs[x - start] is Failed)) by {
                        if x == k {
                            assert(!(outs[x - start] is Failed));
                        }
                    }
                },
                EnrichOutcome::Failed(_) => {
                    self.failed.push(k);
                    assert forall|x: usize|
                        (pre.failed.contains(x) || (start <= x < k + 1 && outs[x - start] is Failed))
                        implies self.failed@.contains(x) by {
                        if x == k {
                            assert(self.failed@[prev_failed.len() as int] == x);
                        } else {
                            assert(prev_failed.contains(x));
                            let w = choose|w: int| 0 <= w < prev_failed.len() && prev_failed[w] == x;
                            assert(self.failed@[w] == x);
                        }
                    }
                    assert forall|x: usize| self.failed@.contains(x) implies (pre.failed.contains(x)
                        || (start <= x < k + 1 && outs[x - start] is Failed)) by {
                        let w = choose|w: int| 0 <= w < self.failed@.len() && self.failed@[w] == x;
                        if w < prev_failed.len() {
                            assert(prev_failed[w] == x);
                            assert(prev_failed.contains(x));
                        }
                    }
                },
            }
            assert(outcomes@ =~= outs.subrange(k + 1 - start, outs.len() as int));
            assert(log_extends(self.failed@, pre.failed, outs, start as int, k + 1));
            k = k + 1;
        }
        proof {
            lemma_waits_step(pre.next, pre.records.len(), pre.batch_size);
        }
        self.next = end;
        let wait = end - start == self.batch_size && end < n;
        if wait {
            self.cooldowns = self.cooldowns + 1;
        }
        wait
    }
}

/// Once a run over `n` records in batches of `b` is over, it has asked for
/// `n / b` cooldowns, one fewer when the last batch is full.
pub proof fn lemma_cooldown_count(run: EnrichRunView)
    requires
        run.wf(),
        run.finished(),
    ensures
        run.cooldowns == (if run.records.len() % run.batch_size == 0 && run.records.len() > 0 {
            (run.records.len() / run.batch_size) as int - 1
        } else {
            (run.records.len() / run.batch_size) as int
        }),
{
    let n = run.records.len();
    let b = run.batch_size;
    if n % b == 0 && n > 0 {
        vstd::arithmetic::div_mod::lemma_fundamental_div_mod(n as int, b as int);
        assert(n / b > 0) by (nonlinear_arith)
            requires
                n == b * (n / b) + n % b,
                n % b == 0,
                n > 0,
        ;
    }
}

/// A record whose enrichment failed keeps the values it had before the run,
/// and its position stands in the failure log exactly once.
pub proof fn lemma_failed_record_kept(run: EnrichRunView, k: usize)
    requires
        run.wf(),
        run.failed.contains(k),
    ensures
        run.records[k as int] == run.initial[k as int],
        run.records[k as int].position == run.initial[k as int].position,
        run.failed.no_duplicates(),
{
    let w = choose|w: int| 0 <= w < run.failed.len() && run.failed[w] == k;
    assert(run.records[run.failed[w] as int] == run.initial[run.failed[w] as int]);
}

/// Across one batch, as `EnrichRun::apply_batch` states it: a record whose
/// outcome is a failure (such as running out of retries while throttled)
/// keeps its values and stands in the failure log exactly once.
pub proof fn lemma_failed_outcome_logged(
    pre: EnrichRunView,
    post: EnrichRunView,
    outcomes: Seq<EnrichOutcome>,
    k: usize,
)
    requires
        post.wf(),
        log_extends(post.failed, pre.failed, outcomes, pre.next as int, post.next as int),
        pre.next <= k < post.next,
        outcomes[k - pre.next] is Failed,
    ensures
        post.failed.contains(k),
        post.failed.no_duplicates(),
        post.records[k as int].position == post.initial[k as int].position,
{
    assert(post.failed.contains(k));
    lemma_failed_record_kept(post, k);
}

} // verus!
