//! Linear backoff, shared by reconnection and by bulk deletion under rate limiting, and the
//! decisions of a bulk deletion that works through a range of message ids chunk by chunk.

use vstd::prelude::*;

verus! {

/// Seconds added to the wait for each further attempt.
pub const BACKOFF_STEP_SECS: u64 = 5;

/// Attempts after which a retry loop gives up.
pub const MAX_ATTEMPTS: u64 = 5;

/// Message ids deleted per call when purging.
pub const PURGE_CHUNK: u32 = 100;

/// Age, in days, from which the platform refuses to delete a message.
pub const OLD_MESSAGE_DAYS: i64 = 2;

/// The linear backoff: the wait before attempt number `attempt`.
pub open spec fn backoff_spec(attempt: nat) -> nat {
    (BACKOFF_STEP_SECS * attempt) as nat
}

/// The wait before reconnection attempt `attempt`, or `None` once the attempts are used up.
pub fn reconnect_delay(attempt: u64) -> (r: Option<u64>)
    ensures
        attempt >= MAX_ATTEMPTS ==> r is None,
        attempt < MAX_ATTEMPTS ==> r == Some(backoff_spec(attempt as nat) as u64),
{
    if attempt >= MAX_ATTEMPTS {
        None
    } else {
        Some(BACKOFF_STEP_SECS * attempt)
    }
}

/// A message that the platform refuses to delete is too old, rather than protected, when it
/// is at least this many days old.
pub fn is_too_old(age_days: i64) -> (r: bool)
    ensures
        r == (age_days >= OLD_MESSAGE_DAYS),
{
    age_days >= OLD_MESSAGE_DAYS
}

/// What deleting one chunk of ids came to.
#[derive(Clone, Copy, Debug, PartialEq, Eq, Structural)]
pub enum ChunkOutcome {
    /// The platform deleted this many messages.
    Deleted(u32),
    /// Some id of the chunk names no message.
    InvalidIds,
    /// The platform refuses to delete these messages.
    Forbidden,
    /// Too many requests: wait before trying again.
    FloodWait,
    /// Any other failure.
    Failed,
}

/// What the purge does next.
#[derive(Clone, Copy, Debug, PartialEq, Eq, Structural)]
pub enum PurgeStep {
    /// Go on with the next chunk, if any is left.
    Next,
    /// Wait this many seconds, then try the same chunk again.
    Wait(u64),
    /// Stop: the messages cannot be deleted.
    Forbidden,
    /// Stop: something went wrong.
    Failed,
}

/// A purge in progress, as plain values.
pub struct PurgeView {
    /// The first id still to delete.
    pub next: int,
    /// One past the last id to delete.
    pub end: int,
    /// Ids per chunk.
    pub chunk: nat,
    /// Messages deleted so far, saturating at the largest `u64`.
    pub purged: nat,
    /// Rate-limit waits so far.
    pub waited: nat,
}

/// The chunk to delete now: from `next` up to `chunk` ids, never past `end`.
pub open spec fn chunk_end(p: PurgeView) -> int {
    if p.next + p.chunk < p.end { p.next + p.chunk } else { p.end }
}

/// The purge after deleting the current chunk came to `o`.
pub open spec fn after_outcome(p: PurgeView, o: ChunkOutcome) -> PurgeView {
    match o {
        ChunkOutcome::Deleted(n) => PurgeView {
            next: chunk_end(p),
            purged: if p.purged + n <= u64::MAX { (p.purged + n) as nat } else { u64::MAX as nat },
            ..p
        },
        ChunkOutcome::InvalidIds => PurgeView { next: chunk_end(p), ..p },
        ChunkOutcome::FloodWait => if p.waited < MAX_ATTEMPTS {
            PurgeView { waited: (p.waited + 1) as nat, ..p }
        } else {
            p
        },
        _ => p,
    }
}

/// The step after deleting the current chunk came to `o`: go on after a deletion or after ids
/// that name nothing, wait longer after each rate limit until the attempts are used up, and
/// stop on a refusal or any other failure.
pub open spec fn step_of(p: PurgeView, o: ChunkOutcome) -> PurgeStep {
    match o {
        ChunkOutcome::Deleted(_) => PurgeStep::Next,
        ChunkOutcome::InvalidIds => PurgeStep::Next,
        ChunkOutcome::Forbidden => PurgeStep::Forbidden,
        ChunkOutcome::FloodWait => if p.waited < MAX_ATTEMPTS {
            PurgeStep::Wait(backoff_spec(p.waited + 1) as u64)
        } else {
            PurgeStep::Failed
        },
        ChunkOutcome::Failed => PurgeStep::Failed,
    }
}

/// A purge of the message ids from `first` up to, not including, `end`.
pub struct Purge {
    next: i64,
    end: i64,
    chunk: u32,
    purged: u64,
    waited: u64,
}

impl View for Purge {
    type V = PurgeView;

    closed spec fn view(&self) -> PurgeView {
        PurgeView {
            next: self.next as int,
            end: self.end as int,
            chunk: self.chunk as nat,
            purged: self.purged as nat,
            waited: self.waited as nat,
        }
    }
}

impl Purge {
    /// A purge in progress is well formed.
    pub closed spec fn wf(&self) -> bool {
        &&& self.chunk > 0
        &&& i32::MIN <= self.next <= self.end <= i32::MAX as i64 + 1
        &&& self.waited <= MAX_ATTEMPTS
    }

    /// A purge of the ids from `first` up to, not including, `end`, `chunk` ids at a time.
    pub fn new(first: i32, end: i32, chunk: u32) -> (r: Purge)
        requires
            chunk > 0,
        ensures
            r.wf(),
            r@ == (PurgeView {
                next: first as int,
                end: if end < first { first as int } else { end as int },
                chunk: chunk as nat,
                purged: 0,
                waited: 0,
            }),
    {
        let end = if end < first { first } else { end };
        Purge { next: first as i64, end: end as i64, chunk, purged: 0, waited: 0 }
    }

    /// The number of ids the purge covers.
    pub fn total(&self) -> (r: u64)
        requires
            self.wf(),
        ensures
            r == self@.end - self@.next,
    {
        (self.end - self.next) as u64
    }

    /// Messages deleted so far.
    pub fn purged(&self) -> (r: u64)
        ensures
            r == self@.purged,
    {
        self.purged
    }

    /// The ids to delete now, or `None` once every chunk is done.
    pub fn current_chunk(&self) -> (r: Option<Vec<i32>>)
        requires
            self.wf(),
        ensures
            self@.next >= self@.end ==> r is None,
            self@.next < self@.end ==> (r matches Some(ids) && ids@.len() == chunk_end(self@) - self@.next
                && forall|i: int| 0 <= i < ids@.len() ==> #[trigger] ids@[i] == self@.next + i),
    {
        if self.next >= self.end {
            return None;
        }
        let stop: i64 = if self.next + (self.chunk as i64) < self.end { self.next + (self.chunk as i64) } else { self.end };
        let mut ids: Vec<i32> = Vec::new();
        let mut id: i64 = self.next;
        while id < stop
            invariant
                self.next <= id <= stop <= self.end <= i32::MAX as i64 + 1,
                i32::MIN <= self.next,
                ids@.len() == id - self.next,
                forall|i: int| 0 <= i < ids@.len() ==> #[trigger] ids@[i] == self.next + i,
            decreases stop - id,
        {
            ids.push(id as i32);
            id = id + 1;
        }
        Some(ids)
    }

    /// Records what deleting the current chunk came to and says what to do next.
    pub fn record(&mut self, outcome: ChunkOutcome) -> (r: PurgeStep)
        requires
            old(self).wf(),
            old(self)@.next < old(self)@.end,
        ensures
            final(self).wf(),
            r == step_of(old(self)@, outcome),
            final(self)@ == after_outcome(old(self)@, outcome),
    {
        let stop: i64 = if self.next + (self.chunk as i64) < self.end { self.next + (self.chunk as i64) } else { self.end };
        match outcome {
            ChunkOutcome::Deleted(n) => {
                self.purged = if self.purged <= u64::MAX - n as u64 {
                    self.purged + n as u64
                } else {
                    u64::MAX
                };
                self.next = stop;
                PurgeStep::Next
            },
            ChunkOutcome::InvalidIds => {
                self.next = stop;
                PurgeStep::Next
            },
            ChunkOutcome::Forbidden => PurgeStep::Forbidden,
            ChunkOutcome::FloodWait => {
                if self.waited < MAX_ATTEMPTS {
                    self.waited = self.waited + 1;
                    PurgeStep::Wait(BACKOFF_STEP_SECS * self.waited)
                } else {
                    PurgeStep::Failed
                }
            },
            ChunkOutcome::Failed => PurgeStep::Failed,
        }
    }
}

/// Each rate-limit wait of a purge is longer than the one before, by the backoff step.
pub proof fn lemma_waits_grow(p: PurgeView)
    requires
        p.waited < MAX_ATTEMPTS,
    ensures
        step_of(p, ChunkOutcome::FloodWait) == PurgeStep::Wait(backoff_spec(p.waited + 1) as u64),
        after_outcome(p, ChunkOutcome::FloodWait).waited == p.waited + 1,
        backoff_spec(p.waited + 2) == backoff_spec(p.waited + 1) + BACKOFF_STEP_SECS,
{
}

} // verus!
