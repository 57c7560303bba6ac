//! The health check: counts a hit and reports the service as up.
use vstd::prelude::*;
use vstd::string::*;
use crate::counter::HitCounter;

verus! {

/// The body of a health reply.
#[derive(Debug, PartialEq, Eq)]
pub struct HealthStatus {
    pub status: String,
    pub hits: u64,
}

/// What one health check does: `after` has one more hit than `before`, and
/// the reply says "UP" with the hits counted so far, this one included.
pub open spec fn health_step(before: HitCounter, after: HitCounter, reply: HealthStatus) -> bool {
    &&& after.count() == before.count() + 1
    &&& reply.hits == after.count()
    &&& reply.status@ == "UP"@
}

/// Answers a health check: counts this hit and reports it.
pub fn health(counter: &mut HitCounter) -> (r: HealthStatus)
    requires
        old(counter).can_increment_spec(),
    ensures
        health_step(*old(counter), *final(counter), r),
{
    let hits = counter.increment_and_read();
    HealthStatus { status: String::from_str("UP"), hits }
}

/// Whether some reply carries the hit count `k`.
pub open spec fn is_returned(replies: Seq<HealthStatus>, k: int) -> bool {
    exists|i: int| 0 <= i < replies.len() && #[trigger] replies[i].hits == k
}

/// Health checks applied one after the other to a fresh counter, as the lock
/// around it serializes them, answer with the hits 1, 2, ..., N in turn: no two
/// replies share a value, and every value from 1 to N is returned.
pub proof fn lemma_serialized_hits(counters: Seq<HitCounter>, replies: Seq<HealthStatus>)
    requires
        counters.len() == replies.len() + 1,
        counters[0].count() == 0,
        forall|i: int|
            0 <= i < replies.len() ==> health_step(
                #[trigger] counters[i],
                counters[i + 1],
                replies[i],
            ),
    ensures
        forall|i: int| 0 <= i < replies.len() ==> #[trigger] replies[i].hits == i + 1,
        forall|i: int, j: int|
            0 <= i < replies.len() && 0 <= j < replies.len() && i != j ==> #[trigger] replies[i].hits
                != #[trigger] replies[j].hits,
        forall|k: int| 1 <= k <= replies.len() ==> #[trigger] is_returned(replies, k),
{
    assert forall|i: int| 0 <= i < replies.len() implies #[trigger] replies[i].hits == i + 1 by {
        lemma_count_after(counters, replies, i + 1);
        assert(health_step(counters[i], counters[i + 1], replies[i]));
    }
    assert forall|k: int| 1 <= k <= replies.len() implies #[trigger] is_returned(replies, k) by {
        assert(replies[k - 1].hits == k);
    }
}

proof fn lemma_count_after(counters: Seq<HitCounter>, replies: Seq<HealthStatus>, n: int)
    requires
        counters.len() == replies.len() + 1,
        counters[0].count() == 0,
        forall|i: int|
            0 <= i < replies.len() ==> health_step(
                #[trigger] counters[i],
                counters[i + 1],
                replies[i],
            ),
        0 <= n <= replies.len(),
    ensures
        counters[n].count() == n,
    decreases n,
{
    if n > 0 {
        lemma_count_after(counters, replies, n - 1);
        assert(health_step(counters[n - 1], counters[n], replies[n - 1]));
    }
}

} // verus!
