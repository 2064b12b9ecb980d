use vstd::prelude::*;

verus! {

/// The instant at which a request that arrives at `now` may be dispatched,
/// when the previous one went out at `last` and requests must lie at least
/// `spacing` apart.
pub open spec fn next_dispatch(last: int, spacing: int, now: int) -> int {
    if now - last < spacing {
        last + spacing
    } else {
        now
    }
}

/// The dispatch instants of requests arriving at `arrivals`, taken through the
/// gate one at a time, starting from a gate whose last dispatch was `last`.
pub open spec fn dispatches(last: int, spacing: int, arrivals: Seq<int>) -> Seq<int>
    decreases arrivals.len(),
{
    if arrivals.len() == 0 {
        Seq::empty()
    } else {
        let before = dispatches(last, spacing, arrivals.drop_last());
        let prev = if before.len() == 0 { last } else { before.last() };
        before.push(next_dispatch(prev, spacing, arrivals.last()))
    }
}

/// Keeps requests to one upstream at least `min_spacing` seconds apart.
/// Instants are whole seconds on a monotonic clock.
#[derive(Clone, Copy, Debug)]
pub struct RateGate {
    pub last_request: u64,
    pub min_spacing: u64,
}

impl RateGate {
    /// A gate whose clock starts at zero, as if a request had just gone out.
    pub fn new(min_spacing: u64) -> (r: RateGate)
        ensures
            r.last_request == 0,
            r.min_spacing == min_spacing,
    {
        RateGate { last_request: 0, min_spacing }
    }

    /// Admits a request that arrives at `now`: returns how many seconds the
    /// caller must sleep before dispatching, and records the dispatch instant.
    /// Callers must hold this value exclusively from this call until the
    /// request is dispatched.
    pub fn wait(&mut self, now: u64) -> (delay: u64)
        requires
            old(self).last_request + old(self).min_spacing <= u64::MAX,
        ensures
            final(self).min_spacing == old(self).min_spacing,
            final(self).last_request == next_dispatch(
                old(self).last_request as int,
                old(self).min_spacing as int,
                now as int,
            ),
            now + delay == final(self).last_request,
            delay == 0 <==> now - old(self).last_request >= old(self).min_spacing,
    {
        let earliest = self.last_request + self.min_spacing;
        if now < earliest {
            self.last_request = earliest;
            earliest - now
        } else {
            self.last_request = now;
            0
        }
    }
}

/// Where requests are admitted one at a time, consecutive dispatches lie at
/// least `spacing` apart, the first one at least `spacing` after the last
/// dispatch recorded before them, and no request goes out before it arrives.
pub proof fn lemma_dispatch_spacing(last: int, spacing: int, arrivals: Seq<int>)
    requires
        spacing >= 0,
    ensures
        dispatches(last, spacing, arrivals).len() == arrivals.len(),
        arrivals.len() > 0 ==> dispatches(last, spacing, arrivals)[0] >= last + spacing,
        forall|i: int|
            0 <= i < arrivals.len() ==> #[trigger] dispatches(last, spacing, arrivals)[i]
                >= arrivals[i],
        forall|i: int|
            0 <= i < arrivals.len() - 1 ==> #[trigger] dispatches(last, spacing, arrivals)[i + 1]
                >= dispatches(last, spacing, arrivals)[i] + spacing,
    decreases arrivals.len(),
{
    if arrivals.len() > 0 {
        let front = arrivals.drop_last();
        lemma_dispatch_spacing(last, spacing, front);
        let d = dispatches(last, spacing, arrivals);
        let before = dispatches(last, spacing, front);
        assert(d == before.push(d.last()));
        assert forall|i: int| 0 <= i < arrivals.len() implies #[trigger] d[i] >= arrivals[i] by {
            if i < arrivals.len() - 1 {
                assert(d[i] == before[i]);
                assert(front[i] == arrivals[i]);
            }
        }
        assert forall|i: int| 0 <= i < arrivals.len() - 1 implies #[trigger] d[i + 1] >= d[i]
            + spacing by {
            if i + 1 < arrivals.len() - 1 {
                assert(d[i + 1] == before[i + 1]);
                assert(d[i] == before[i]);
            }
        }
    }
}

} // verus!
