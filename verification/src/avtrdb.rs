use vstd::prelude::*;

use crate::provider::ProviderError;

verus! {

/// Buffer length at which an accept triggers a flush.
pub const FLUSH_THRESHOLD: usize = 100;

/// Seconds between periodic flushes of a quiet buffer.
pub const FLUSH_INTERVAL_SECS: u64 = 120;

/// Seconds to wait before resending a failed flush request.
pub const RETRY_BACKOFF_SECS: u64 = 10;

/// How many times one flush payload is sent before giving up.
pub const RETRY_LIMIT: usize = 5;

/// What an accepted identifier asks of the caller.
#[derive(Clone, Copy, PartialEq, Eq, Structural, Debug)]
pub enum AcceptOutcome {
    /// The identifier was queued; nothing else to do now.
    Queued,
    /// The buffer reached the flush threshold: the caller must flush.
    FlushNeeded,
}

/// What the retry loop does after one response to a flush request.
#[derive(Clone, Copy, PartialEq, Eq, Structural, Debug)]
pub enum FlushStep {
    /// The service accepted the payload; the flush is complete.
    Done,
    /// Wait this many seconds, then resend the identical payload.
    Backoff(u64),
    /// The retry ceiling is reached; the flush has failed.
    Abort,
}

/// Result of a completed flush: how many requests it took and which
/// identifiers were submitted.
pub struct FlushReport {
    pub attempts: usize,
    pub sent: Vec<String>,
}

/// The batching submission service. Identifiers are accumulated in a
/// buffer and submitted as one request per flush, so high-volume streams
/// cost one network call per batch instead of one per identifier.
///
/// On a flush that fails even after all retries the buffer is retained,
/// so the identifiers are submitted again by a later flush rather than
/// silently dropped.
pub struct AvtrDB {
    buffer: Vec<String>,
    last_flush: u64,
    flush_interval: u64,
}

impl AvtrDB {
    /// The identifiers waiting for the next flush, oldest first.
    pub closed spec fn spec_buffer(&self) -> Seq<Seq<char>> {
        self.buffer.deep_view()
    }

    /// When the most recent flush was triggered, in seconds.
    pub closed spec fn spec_last_flush(&self) -> u64 {
        self.last_flush
    }

    /// Seconds the periodic timer waits between flushes of this actor.
    pub closed spec fn spec_flush_interval(&self) -> u64 {
        self.flush_interval
    }

    /// A fresh actor with an empty buffer, counting the flush interval
    /// from `now`.
    pub fn new(now: u64) -> (r: Self)
        ensures
            r.spec_buffer().len() == 0,
            r.spec_last_flush() == now,
            r.spec_flush_interval() == FLUSH_INTERVAL_SECS,
    {
        Self::new_with_flush_interval(now, FLUSH_INTERVAL_SECS)
    }

    /// A fresh actor with a custom periodic flush interval.
    pub fn new_with_flush_interval(now: u64, flush_interval: u64) -> (r: Self)
        ensures
            r.spec_buffer().len() == 0,
            r.spec_last_flush() == now,
            r.spec_flush_interval() == flush_interval,
    {
        AvtrDB { buffer: Vec::new(), last_flush: now, flush_interval }
    }

    /// How many identifiers are waiting for the next flush.
    pub fn buffer_len(&self) -> (r: usize)
        ensures
            r == self.spec_buffer().len(),
    {
        self.buffer.len()
    }

    /// A copy of the waiting identifiers, oldest first; this is the
    /// payload the next flush will submit.
    pub fn snapshot(&self) -> (r: Vec<String>)
        ensures
            r.deep_view() == self.spec_buffer(),
    {
        let mut out: Vec<String> = Vec::new();
        let mut i: usize = 0;
        while i < self.buffer.len()
            invariant
                i <= self.buffer.len(),
                out@.len() == i,
                forall|j: int| 0 <= j < i ==> out@[j]@ == self.buffer@[j]@,
            decreases self.buffer.len() - i,
        {
            let elem = self.buffer[i].clone();
            out.push(elem);
            i = i + 1;
        }
        proof {
            assert forall|j: int| 0 <= j < out@.len() implies out.deep_view()[j]
                == self.buffer.deep_view()[j] by {
                assert(out.deep_view()[j] == out@[j]@);
                assert(self.buffer.deep_view()[j] == self.buffer@[j]@);
            }
            assert(out.deep_view() =~~= self.buffer.deep_view());
        }
        out
    }

    /// Queue one identifier. The call reports `FlushNeeded` exactly when
    /// it brings the buffer to the flush threshold or beyond; the caller
    /// then performs the flush. Only the accept that crosses the
    /// threshold claims the flush (it also stamps the flush time), so a
    /// burst of accepts triggers a single flush.
    pub fn send_avatar_id(&mut self, avatar_id: &str, now: u64) -> (r: AcceptOutcome)
        ensures
            final(self).spec_buffer() == old(self).spec_buffer().push(avatar_id@),
            (r == AcceptOutcome::FlushNeeded) == (old(self).spec_buffer().len() + 1
                >= FLUSH_THRESHOLD),
            r == AcceptOutcome::FlushNeeded ==> final(self).spec_last_flush() == now,
            r == AcceptOutcome::Queued ==> final(self).spec_last_flush() == old(
                self,
            ).spec_last_flush(),
            final(self).spec_flush_interval() == old(self).spec_flush_interval(),
    {
        let owned = <String as vstd::string::StringExecFns>::from_str(avatar_id);
        self.buffer.push(owned);
        assert(self.spec_buffer() =~= old(self).spec_buffer().push(avatar_id@));
        if self.buffer.len() >= FLUSH_THRESHOLD {
            self.last_flush = now;
            AcceptOutcome::FlushNeeded
        } else {
            AcceptOutcome::Queued
        }
    }

    /// Whether the periodic timer is due to flush a quiet buffer: the
    /// flush interval has fully elapsed since the last flush.
    pub fn periodic_flush_due(&self, now: u64) -> (r: bool)
        ensures
            r == (now >= self.spec_last_flush() + self.spec_flush_interval()),
    {
        now >= self.last_flush && now - self.last_flush >= self.flush_interval
    }

    /// Decide the retry loop's next move after the response to attempt
    /// number `attempts_made + 1` came back with `status`.
    pub fn flush_step(attempts_made: usize, status: u16) -> (r: FlushStep)
        ensures
            status == 200 ==> r == FlushStep::Done,
            status != 200 && attempts_made + 1 < RETRY_LIMIT ==> r == FlushStep::Backoff(
                RETRY_BACKOFF_SECS,
            ),
            status != 200 && attempts_made + 1 >= RETRY_LIMIT ==> r == FlushStep::Abort,
    {
        if status == 200 {
            FlushStep::Done
        } else if attempts_made < RETRY_LIMIT - 1 {
            FlushStep::Backoff(RETRY_BACKOFF_SECS)
        } else {
            FlushStep::Abort
        }
    }

    /// Run one flush against the sequence of response statuses the
    /// service answers with: the identical payload is resent until a 200
    /// arrives or the retry ceiling is reached. On success the submitted
    /// identifiers leave the buffer; on failure the buffer is retained
    /// for a later flush.
    pub fn flush_buffer(&mut self, statuses: &Vec<u16>, now: u64) -> (r: Result<
        FlushReport,
        ProviderError,
    >)
        requires
            statuses@.len() >= RETRY_LIMIT,
        ensures
            r is Ok <==> (exists|i: int|
                0 <= i < RETRY_LIMIT && statuses@[i] == 200),
            r matches Ok(rep) ==> {
                &&& 1 <= rep.attempts <= RETRY_LIMIT
                &&& statuses@[rep.attempts - 1] == 200
                &&& forall|j: int| 0 <= j < rep.attempts - 1 ==> statuses@[j] != 200
                &&& rep.sent.deep_view() == old(self).spec_buffer()
                &&& final(self).spec_buffer().len() == 0
                &&& final(self).spec_last_flush() == now
                &&& final(self).spec_flush_interval() == old(self).spec_flush_interval()
            },
            r is Err ==> *final(self) == *old(self) && r == Err::<FlushReport, ProviderError>(
                ProviderError::Rejected(statuses@[RETRY_LIMIT - 1]),
            ),
    {
        let payload = self.snapshot();
        let mut attempts: usize = 0;
        while attempts < RETRY_LIMIT
            invariant
                statuses@.len() >= RETRY_LIMIT,
                attempts <= RETRY_LIMIT,
                forall|j: int| 0 <= j < attempts ==> statuses@[j] != 200,
                payload.deep_view() == self.spec_buffer(),
                *self == *old(self),
            decreases RETRY_LIMIT - attempts,
        {
            let status = statuses[attempts];
            attempts = attempts + 1;
            if status == 200 {
                self.buffer = Vec::new();
                self.last_flush = now;
                assert(self.spec_buffer() =~= Seq::<Seq<char>>::empty());
                return Ok(FlushReport { attempts, sent: payload });
            }
        }
        Err(ProviderError::Rejected(statuses[RETRY_LIMIT - 1]))
    }
}

} // verus!
