//! The brute-force search over a counter range.
use vstd::prelude::*;
use crate::candidate::{CandidateKind, MinedItem, candidate_digest, derive_candidate, is_candidate};
use crate::nibble::{DIGEST_NIBBLES, prefix_matches};

verus! {

/// The input of one search.
#[derive(Clone, Copy, Debug, PartialEq, Eq)]
pub struct SearchTask {
    /// The prefix that a digest must start with.
    pub target: [u8; 32],
    /// How many nibbles of `target` a digest must share.
    pub required_nibbles: usize,
    /// The first counter of the range.
    pub base: u64,
    /// How many counters the range holds.
    pub max_attempts: u64,
}

impl SearchTask {
    /// The nibble count fits a digest and the range fits a `u64`.
    pub open spec fn wf(&self) -> bool {
        &&& self.required_nibbles <= DIGEST_NIBBLES
        &&& self.base + self.max_attempts <= u64::MAX
    }
}

/// The result of one search.
#[derive(Clone, Copy, Debug, PartialEq, Eq)]
pub enum SearchOutcome {
    Found(MinedItem),
    Exhausted,
}

/// Counter `c` gives a digest whose first `n` nibbles are those of `target`.
pub open spec fn is_hit(kind: CandidateKind, target: Seq<u8>, n: int, c: int) -> bool {
    prefix_matches(candidate_digest(kind, c as u64), target, n)
}

/// No counter in `[from, to)` is a hit.
pub open spec fn no_hit_in(kind: CandidateKind, target: Seq<u8>, n: int, from: int, to: int) -> bool {
    forall|c: int| from <= c < to ==> !#[trigger] is_hit(kind, target, n, c)
}

/// `r` is what a search from counter `base` over `budget` counters returns: the
/// candidate of the first hit, or `Exhausted` when there is none.
pub open spec fn is_first_hit(
    kind: CandidateKind,
    target: Seq<u8>,
    n: int,
    base: int,
    budget: int,
    r: SearchOutcome,
) -> bool {
    match r {
        SearchOutcome::Found(item) => {
            &&& base <= item.counter < base + budget
            &&& is_candidate(kind, item.counter, item)
            &&& prefix_matches(item.digest@, target, n)
            &&& no_hit_in(kind, target, n, base, item.counter as int)
        },
        SearchOutcome::Exhausted => no_hit_in(kind, target, n, base, base + budget),
    }
}

/// What a search over the whole range of `task` returns.
pub open spec fn is_first_match(kind: CandidateKind, task: SearchTask, r: SearchOutcome) -> bool {
    is_first_hit(
        kind,
        task.target@,
        task.required_nibbles as int,
        task.base as int,
        task.max_attempts as int,
        r,
    )
}

/// Searches the counters `base, base + 1, ...` of `task` in order.
pub fn search(kind: &CandidateKind, task: &SearchTask) -> (r: SearchOutcome)
    requires
        task.wf(),
    ensures
        is_first_match(*kind, *task, r),
{
    let end: u64 = task.base + task.max_attempts;
    let mut c: u64 = task.base;
    while c < end
        invariant
            task.wf(),
            end == task.base + task.max_attempts,
            task.base <= c <= end,
            no_hit_in(
                *kind,
                task.target@,
                task.required_nibbles as int,
                task.base as int,
                c as int,
            ),
        decreases end - c,
    {
        let item = derive_candidate(kind, c);
        if crate::nibble::matches(&item.digest, &task.target, task.required_nibbles) {
            return SearchOutcome::Found(item);
        }
        assert(!is_hit(*kind, task.target@, task.required_nibbles as int, c as int));
        c = c + 1;
    }
    SearchOutcome::Exhausted
}

/// Counter of step `s` of worker `worker` among `worker_count`.
pub open spec fn stride_counter(task: SearchTask, worker: u64, worker_count: u64, s: int) -> int {
    task.base + worker + s * worker_count
}

/// Step `s` of the worker lies in the range of `task`.
pub open spec fn in_range(task: SearchTask, worker: u64, worker_count: u64, s: int) -> bool {
    worker + s * worker_count < task.max_attempts
}

/// No step in `[from, to)` of the worker meets `task`.
pub open spec fn no_stride_hit(
    kind: CandidateKind,
    task: SearchTask,
    worker: u64,
    worker_count: u64,
    from: int,
    to: int,
) -> bool {
    forall|s: int|
        from <= s < to && in_range(task, worker, worker_count, s) ==> !#[trigger] is_hit(
            kind,
            task.target@,
            task.required_nibbles as int,
            stride_counter(task, worker, worker_count, s),
        )
}

/// One worker's share of a parallel search: the steps `first_step ..
/// first_step + steps` of the counters `base + worker + s * worker_count` that
/// lie in the range of `task`, tried in order.
pub fn search_stride(
    kind: &CandidateKind,
    task: &SearchTask,
    worker: u64,
    worker_count: u64,
    first_step: u64,
    steps: u64,
) -> (r: SearchOutcome)
    requires
        task.wf(),
        worker < worker_count,
        first_step + steps <= u64::MAX,
    ensures
        match r {
            SearchOutcome::Found(item) => exists|s: int|
                {
                    &&& first_step <= s < first_step + steps
                    &&& in_range(*task, worker, worker_count, s)
                    &&& item.counter == stride_counter(*task, worker, worker_count, s)
                    &&& no_stride_hit(*kind, *task, worker, worker_count, first_step as int, s)
                } && is_candidate(*kind, item.counter, item) && prefix_matches(
                    item.digest@,
                    task.target@,
                    task.required_nibbles as int,
                ),
            SearchOutcome::Exhausted => no_stride_hit(
                *kind,
                *task,
                worker,
                worker_count,
                first_step as int,
                first_step + steps,
            ),
        },
{
    let end: u64 = first_step + steps;
    let mut s: u64 = first_step;
    while s < end
        invariant
            task.wf(),
            worker < worker_count,
            end == first_step + steps,
            first_step <= s <= end,
            no_stride_hit(*kind, *task, worker, worker_count, first_step as int, s as int),
        decreases end - s,
    {
        let off = match s.checked_mul(worker_count) {
            Some(m) => m.checked_add(worker),
            None => None,
        };
        let in_budget = match off {
            Some(o) => o < task.max_attempts,
            None => false,
        };
        if !in_budget {
            proof {
                assert forall|t: int|
                    s <= t < end && in_range(*task, worker, worker_count, t) implies false by {
                    assert(t * worker_count >= s * worker_count) by (nonlinear_arith)
                        requires t >= s, worker_count >= 0;
                }
            }
            return SearchOutcome::Exhausted;
        }
        let c: u64 = task.base + off.unwrap();
        let item = derive_candidate(kind, c);
        assert(c == stride_counter(*task, worker, worker_count, s as int));
        assert(in_range(*task, worker, worker_count, s as int));
        if crate::nibble::matches(&item.digest, &task.target, task.required_nibbles) {
            return SearchOutcome::Found(item);
        }
        s = s + 1;
    }
    SearchOutcome::Exhausted
}

} // verus!
