use vstd::prelude::*;

use crate::record::SearchError;

verus! {

/// The counter after one selection: one more, wrapping to zero past the
/// largest `usize`.
pub open spec fn advance(counter: int) -> int {
    if counter == usize::MAX {
        0
    } else {
        counter + 1
    }
}

/// The indices picked by `n` selections over a pool of `m` proxies, starting
/// from `counter`.
pub open spec fn picks(counter: int, m: int, n: nat) -> Seq<int>
    decreases n,
{
    if n == 0 {
        Seq::empty()
    } else {
        seq![counter % m] + picks(advance(counter), m, (n - 1) as nat)
    }
}

/// Hands out the configured egress proxies in turn.
#[derive(Clone, Debug)]
pub struct ProxyRotator {
    pub proxies: Vec<String>,
    pub counter: usize,
}

impl ProxyRotator {
    pub fn new(proxies: Vec<String>) -> (r: ProxyRotator)
        ensures
            r.proxies@ == proxies@,
            r.counter == 0,
    {
        ProxyRotator { proxies, counter: 0 }
    }

    /// The proxy whose turn it is; fails on an empty pool.
    pub fn next_proxy(&mut self) -> (r: Result<String, SearchError>)
        ensures
            final(self).proxies@ == old(self).proxies@,
            old(self).proxies@.len() == 0 ==> r == Err::<String, SearchError>(SearchError::ProxyRequired)
                && final(self).counter == old(self).counter,
            old(self).proxies@.len() > 0 ==> final(self).counter == advance(old(self).counter as int),
            old(self).proxies@.len() > 0 ==> (r matches Ok(p) && p@ == old(self).proxies@[old(self).counter as int
                % old(self).proxies@.len() as int]@),
    {
        let n = self.proxies.len();
        if n == 0 {
            return Err(SearchError::ProxyRequired);
        }
        let p = self.proxies[self.counter % n].clone();
        self.counter = if self.counter == usize::MAX {
            0
        } else {
            self.counter + 1
        };
        Ok(p)
    }
}

/// Starting from a fresh counter, selection `k` over a pool of `m` proxies
/// picks index `k mod m`: 0, 1, ..., m - 1, 0, 1, ...
pub proof fn lemma_round_robin(m: int, n: nat)
    requires
        m > 0,
        n <= usize::MAX + 1,
    ensures
        picks(0, m, n).len() == n,
        forall|k: int| 0 <= k < n ==> #[trigger] picks(0, m, n)[k] == k % m,
{
    lemma_picks_from(0, m, n);
}

proof fn lemma_picks_from(c: int, m: int, n: nat)
    requires
        m > 0,
        0 <= c,
        c + n <= usize::MAX + 1,
    ensures
        picks(c, m, n).len() == n,
        forall|k: int| 0 <= k < n ==> #[trigger] picks(c, m, n)[k] == (c + k) % m,
    decreases n,
{
    if n > 0 {
        lemma_picks_from(c + 1, m, (n - 1) as nat);
        let rest = picks(advance(c), m, (n - 1) as nat);
        if n > 1 {
            assert(advance(c) == c + 1);
        }
        assert forall|k: int| 0 <= k < n implies #[trigger] picks(c, m, n)[k] == (c + k) % m by {
            if k > 0 {
                assert(picks(c, m, n)[k] == rest[k - 1]);
            }
        }
    }
}

} // verus!
