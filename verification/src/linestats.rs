//! The numbers of added and deleted lines, counted in the background.
use vstd::prelude::*;

use crate::diff::DiffOptions;

verus! {

/// (added, deleted) line counts for both panes.
#[derive(Clone, Copy, PartialEq, Eq, Hash, Debug)]
pub struct LineStats {
    /// total (added, deleted) across all staged files
    pub staged: (usize, usize),
    /// total (added, deleted) across unstaged tracked files
    /// (untracked files excluded)
    pub unstaged: (usize, usize),
}

impl Default for LineStats {
    fn default() -> (r: Self)
        ensures
            r == (LineStats { staged: (0, 0), unstaged: (0, 0) }),
    {
        LineStats { staged: (0, 0), unstaged: (0, 0) }
    }
}

/// What a request leads to.
#[derive(Clone, Copy, PartialEq, Eq, Debug)]
pub enum StatsRequest {
    /// A count is under way.
    Pending,
    /// The request was made before, and this came of it.
    Known(Option<LineStats>),
    /// The lines are to be counted, under this hash.
    Count(u64),
}

impl StatsRequest {
    /// What is known at once.
    pub open spec fn stats(self) -> Option<LineStats> {
        match self {
            StatsRequest::Known(stats) => stats,
            _ => None,
        }
    }

    /// What is known at once.
    pub fn known(self) -> (r: Option<LineStats>)
        ensures
            r == self.stats(),
    {
        match self {
            StatsRequest::Known(stats) => stats,
            StatsRequest::Pending => None,
            StatsRequest::Count(_) => None,
        }
    }
}

/// The numbers of added and deleted lines. A request is known by the hash of
/// its options and of the number of counts that were made before it.
#[derive(Clone, Copy, PartialEq, Eq, Debug)]
pub struct AsyncLineStats {
    /// The last request, and what came of it.
    pub current: (u64, Option<LineStats>),
    /// What was counted last.
    pub last: Option<LineStats>,
    pub pending: usize,
    /// Counter that increments after each completed fetch, so a stale
    /// in-flight result never satisfies a newer request.
    pub generation: u64,
}

impl AsyncLineStats {
    /// What a request does.
    pub open spec fn ask(self, hash: u64) -> (AsyncLineStats, StatsRequest) {
        if self.pending > 0 {
            (self, StatsRequest::Pending)
        } else if self.current.0 == hash {
            (self, StatsRequest::Known(self.current.1))
        } else {
            (
                AsyncLineStats { current: (hash, None), pending: 1, ..self },
                StatsRequest::Count(hash),
            )
        }
    }

    /// What the end of a count does. A count that failed changes nothing that
    /// is known.
    pub open spec fn count(self, hash: u64, result: Option<LineStats>) -> AsyncLineStats {
        let done = AsyncLineStats {
            pending: (self.pending - 1) as usize,
            generation: self.generation.wrapping_add(1),
            ..self
        };
        match result {
            Some(stats) => AsyncLineStats {
                current: if self.current.0 == hash {
                    (hash, Some(stats))
                } else {
                    self.current
                },
                last: Some(stats),
                ..done
            },
            None => done,
        }
    }

    pub fn new() -> (r: AsyncLineStats)
        ensures
            r == (AsyncLineStats {
                current: (0u64, None::<LineStats>),
                last: None,
                pending: 0,
                generation: 0,
            }),
    {
        AsyncLineStats { current: (0, None), last: None, pending: 0, generation: 0 }
    }

    /// Most recent computed stats, if any.
    pub fn last(&self) -> (r: Option<LineStats>)
        ensures
            r == self.last,
    {
        self.last
    }

    pub fn is_pending(&self) -> (r: bool)
        ensures
            r == (self.pending > 0),
    {
        self.pending > 0
    }

    /// Request a (re)compute. `hash` is the hash of the options and of the
    /// number of counts so far.
    pub fn fetch<H: Fn(DiffOptions, u64) -> u64>(&mut self, options: DiffOptions, hash: H) -> (r:
        StatsRequest)
        requires
            call_requires(hash, (options, old(self).generation)),
        ensures
            old(self).pending > 0 ==> *final(self) == *old(self) && r is Pending,
            old(self).pending == 0 ==> exists|h: u64| #[trigger]
                call_ensures(hash, (options, old(self).generation), h) && (*final(self), r) == old(
                    self,
                ).ask(h),
    {
        if self.pending > 0 {
            return StatsRequest::Pending;
        }
        let hash_request: u64 = hash(options, self.generation);
        assert(call_ensures(hash, (options, self.generation), hash_request));
        if self.current.0 == hash_request {
            return StatsRequest::Known(self.current.1);
        }
        self.current = (hash_request, None);
        self.pending = 1;
        StatsRequest::Count(hash_request)
    }

    /// Takes over what was counted for a request, where it could be counted.
    pub fn fetched(&mut self, hash_request: u64, result: Option<LineStats>)
        requires
            old(self).pending > 0,
        ensures
            *final(self) == old(self).count(hash_request, result),
    {
        match result {
            Some(stats) => {
                if self.current.0 == hash_request {
                    self.current = (hash_request, Some(stats));
                }
                self.last = Some(stats);
            },
            None => {},
        }
        self.generation = self.generation.wrapping_add(1);
        self.pending = self.pending - 1;
    }
}

// ---------------------------------------------------------------------------
// Laws
// ---------------------------------------------------------------------------
/// A count for another request never answers the present one.
pub proof fn law_stale_count_is_no_answer(
    state: AsyncLineStats,
    hash: u64,
    result: Option<LineStats>,
)
    requires
        state.pending > 0,
        hash != state.current.0,
    ensures
        state.count(hash, result).current == state.current,
{
}

/// There is never more than one count under way; while one is, a request
/// changes nothing, and repeating an answered request gives the same answer.
pub proof fn law_requests_are_idempotent(state: AsyncLineStats, hash: u64)
    requires
        state.pending <= 1,
    ensures
        state.ask(hash).0.pending <= 1,
        state.pending == 1 ==> state.ask(hash) == (state, StatsRequest::Pending),
        ({
            let again = state.ask(hash).0.ask(hash);
            again.0 == state.ask(hash).0 && !(again.1 is Count)
        }),
{
}

/// A request that is counted without failing gets its own count as answer.
pub proof fn law_count_answers_its_request(state: AsyncLineStats, hash: u64, stats: LineStats)
    requires
        state.pending == 0,
        state.current.0 != hash,
    ensures
        ({
            let done = state.ask(hash).0.count(hash, Some(stats));
            &&& done.pending == 0
            &&& done.last == Some(stats)
            &&& done.ask(hash).1 == StatsRequest::Known(Some(stats))
        }),
{
}

/// A count that failed leaves what is known as it was; every count that ends is counted,
/// and no longer under way.
pub proof fn law_end_of_count(state: AsyncLineStats, hash: u64, result: Option<LineStats>)
    requires
        state.pending > 0,
    ensures
        state.count(hash, result).pending == state.pending - 1,
        state.generation < u64::MAX ==> state.count(hash, result).generation == state.generation + 1,
        result is None ==> state.count(hash, result).current == state.current && state.count(
            hash,
            result,
        ).last == state.last,
        result matches Some(stats) ==> state.count(hash, result).last == Some(stats),
        result matches Some(stats) ==> hash == state.current.0 ==> state.count(
            hash,
            result,
        ).current == (hash, Some(stats)),
{
}

/// A new request is counted under its own hash and has no answer yet, while what was
/// counted last can still be told; a request that was answered is answered at once.
pub proof fn law_new_request(state: AsyncLineStats, hash: u64)
    ensures
        state.ask(hash).0.last == state.last,
        state.ask(hash).0.generation == state.generation,
        state.pending == 0 && state.current.0 != hash ==> {
            &&& state.ask(hash).1 == StatsRequest::Count(hash)
            &&& state.ask(hash).0.current.0 == hash
            &&& state.ask(hash).0.current.1 is None
            &&& state.ask(hash).0.pending == 1
        },
        state.pending == 0 && state.current.0 == hash ==> state.ask(hash).1.stats()
            == state.current.1,
        !(state.ask(hash).1 is Known) ==> state.ask(hash).1.stats() is None,
{
}

} // verus!
