use vstd::prelude::*;

verus! {

/// Looks `k` up among key/value pairs; where a key occurs more than once the
/// last pair holding it wins.
pub open spec fn lookup(s: Seq<(Seq<char>, Seq<char>)>, k: Seq<char>) -> Option<Seq<char>>
    decreases s.len(),
{
    if s.len() == 0 {
        None
    } else if s.last().0 == k {
        Some(s.last().1)
    } else {
        lookup(s.drop_last(), k)
    }
}

/// Where the last pair with key `k` stands; -1 where none has it.
pub open spec fn last_index(s: Seq<(Seq<char>, Seq<char>)>, k: Seq<char>) -> int
    decreases s.len(),
{
    if s.len() == 0 {
        -1
    } else if s.last().0 == k {
        s.len() - 1
    } else {
        last_index(s.drop_last(), k)
    }
}

/// `s` with `v` stored under `k`: in place where `k` is present, at the end
/// otherwise.
pub open spec fn insert_pair(s: Seq<(Seq<char>, Seq<char>)>, k: Seq<char>, v: Seq<char>) -> Seq<(Seq<char>, Seq<char>)> {
    let i = last_index(s, k);
    if i >= 0 {
        s.update(i, (k, v))
    } else {
        s.push((k, v))
    }
}

/// The token that inserting `pairs` one after another into an empty one gives:
/// each key at the place of its first pair, with the value of its last.
pub open spec fn token_fold(pairs: Seq<(Seq<char>, Seq<char>)>) -> Seq<(Seq<char>, Seq<char>)>
    decreases pairs.len(),
{
    if pairs.len() == 0 {
        Seq::empty()
    } else {
        insert_pair(token_fold(pairs.drop_last()), pairs.last().0, pairs.last().1)
    }
}

/// No key occurs twice.
pub open spec fn keys_unique(s: Seq<(Seq<char>, Seq<char>)>) -> bool {
    forall|i: int, j: int| 0 <= i < j < s.len() ==> s[i].0 != s[j].0
}

/// The pairs of `v`, as character sequences.
pub open spec fn pairs_view(v: Seq<(String, String)>) -> Seq<(Seq<char>, Seq<char>)> {
    v.map_values(|p: (String, String)| (p.0@, p.1@))
}

/// An ordered key/value map that a provider hands out with a page and gets
/// back, unchanged, to produce the following page.
#[derive(Clone, Debug)]
pub struct ContinuationToken {
    pub entries: Vec<(String, String)>,
}

impl View for ContinuationToken {
    type V = Seq<(Seq<char>, Seq<char>)>;

    open spec fn view(&self) -> Seq<(Seq<char>, Seq<char>)> {
        pairs_view(self.entries@)
    }
}

/// Finds the last pair of `entries` whose key is `key`.
pub fn find_last(entries: &Vec<(String, String)>, key: &String) -> (r: Option<usize>)
    ensures
        match r {
            Some(i) => i < entries@.len() && entries@[i as int].0@ == key@ && forall|j: int|
                i < j < entries@.len() ==> entries@[j].0@ != key@,
            None => forall|j: int| 0 <= j < entries@.len() ==> entries@[j].0@ != key@,
        },
        r is None <==> lookup(pairs_view(entries@), key@) is None,
        r matches Some(i) ==> lookup(pairs_view(entries@), key@) == Some(entries@[i as int].1@),
        r matches Some(i) ==> i == last_index(pairs_view(entries@), key@),
        r is None ==> last_index(pairs_view(entries@), key@) == -1,
{
    let mut i: usize = entries.len();
    assert(entries@.subrange(0, i as int) =~= entries@);
    while i > 0
        invariant
            i <= entries@.len(),
            forall|j: int| i <= j < entries@.len() ==> entries@[j].0@ != key@,
            lookup(pairs_view(entries@), key@) == lookup(pairs_view(entries@.subrange(0, i as int)), key@),
            last_index(pairs_view(entries@), key@) == last_index(pairs_view(entries@.subrange(0, i as int)), key@),
        decreases i,
    {
        let ghost s = pairs_view(entries@.subrange(0, i as int));
        assert(s.drop_last() =~= pairs_view(entries@.subrange(0, i - 1)));
        if entries[i - 1].0 == *key {
            return Some(i - 1);
        }
        i = i - 1;
    }
    assert(pairs_view(entries@.subrange(0, 0)) =~= Seq::empty());
    None
}

impl ContinuationToken {
    /// An empty token: there is no further page.
    pub fn new() -> (r: ContinuationToken)
        ensures
            r@.len() == 0,
    {
        ContinuationToken { entries: Vec::new() }
    }

    pub open spec fn wf(&self) -> bool {
        keys_unique(self@)
    }

    pub open spec fn spec_get(&self, key: Seq<char>) -> Option<Seq<char>> {
        lookup(self@, key)
    }

    /// A copy of the pairs, in order.
    pub fn to_pairs(&self) -> (r: Vec<(String, String)>)
        ensures
            pairs_view(r@) == self@,
    {
        let mut r: Vec<(String, String)> = Vec::new();
        let mut i: usize = 0;
        while i < self.entries.len()
            invariant
                i <= self.entries@.len(),
                pairs_view(r@) == pairs_view(self.entries@.subrange(0, i as int)),
            decreases self.entries@.len() - i,
        {
            let k = self.entries[i].0.clone();
            let v = self.entries[i].1.clone();
            let ghost before = r@;
            r.push((k, v));
            assert(r@ == before.push((k, v)));
            assert(pairs_view(r@) =~= pairs_view(before).push((k@, v@)));
            assert(pairs_view(self.entries@.subrange(0, i + 1)) =~= pairs_view(
                self.entries@.subrange(0, i as int),
            ).push((self.entries@[i as int].0@, self.entries@[i as int].1@)));
            i = i + 1;
        }
        assert(self.entries@.subrange(0, i as int) =~= self.entries@);
        r
    }

    pub fn len(&self) -> (r: usize)
        ensures
            r == self@.len(),
    {
        self.entries.len()
    }

    pub fn is_empty(&self) -> (r: bool)
        ensures
            r == (self@.len() == 0),
    {
        self.entries.len() == 0
    }

    /// The value stored under `key`.
    pub fn get(&self, key: &String) -> (r: Option<String>)
        ensures
            match r {
                Some(v) => self.spec_get(key@) == Some(v@),
                None => self.spec_get(key@) is None,
            },
    {
        match find_last(&self.entries, key) {
            Some(i) => Some(self.entries[i].1.clone()),
            None => None,
        }
    }

    pub fn contains_key(&self, key: &String) -> (r: bool)
        ensures
            r == (self.spec_get(key@) is Some),
    {
        find_last(&self.entries, key).is_some()
    }

    /// Stores `value` under `key`: in place where the key is present, at the
    /// end otherwise.
    pub fn insert(&mut self, key: String, value: String)
        requires
            old(self).wf(),
        ensures
            final(self).wf(),
            final(self).spec_get(key@) == Some(value@),
            forall|k: Seq<char>| k != key@ ==> #[trigger] final(self).spec_get(k) == old(self).spec_get(k),
            old(self).spec_get(key@) is Some ==> final(self)@.len() == old(self)@.len(),
            old(self).spec_get(key@) is None ==> final(self)@ == old(self)@.push((key@, value@)),
            final(self)@ == insert_pair(old(self)@, key@, value@),
    {
        let ghost old_view = self@;
        match find_last(&self.entries, &key) {
            Some(i) => {
                let ghost kv = key@;
                let ghost vv = value@;
                self.entries.set(i, (key, value));
                assert(self@ =~= old_view.update(i as int, (kv, vv)));
                assert forall|k: Seq<char>| #[trigger] lookup(self@, k) == (if k == kv { Some(vv) } else { lookup(old_view, k) }) by {
                    lemma_lookup_update(old_view, i as int, vv, k);
                }
            },
            None => {
                let ghost kv = key@;
                self.entries.push((key, value));
                assert(self@ =~= old_view.push((kv, value@)));
                assert(self@.drop_last() =~= old_view);
            },
        }
    }
}

/// Replacing the value of a pair whose key occurs once changes the lookup of
/// that key alone.
pub proof fn lemma_lookup_update(s: Seq<(Seq<char>, Seq<char>)>, i: int, v: Seq<char>, k: Seq<char>)
    requires
        keys_unique(s),
        0 <= i < s.len(),
    ensures
        keys_unique(s.update(i, (s[i].0, v))),
        lookup(s.update(i, (s[i].0, v)), k) == (if k == s[i].0 { Some(v) } else { lookup(s, k) }),
    decreases s.len(),
{
    let t = s.update(i, (s[i].0, v));
    assert forall|a: int, b: int| 0 <= a < b < t.len() implies t[a].0 != t[b].0 by {
        assert(t[a].0 == s[a].0 && t[b].0 == s[b].0);
    }
    if i < s.len() - 1 {
        assert(t.drop_last() =~= s.drop_last().update(i, (s[i].0, v)));
        lemma_lookup_update(s.drop_last(), i, v, k);
        if s.last().0 == k {
            assert(s[i].0 != s.last().0);
        }
    } else {
        assert(t.drop_last() =~= s.drop_last());
        if k != s[i].0 {
        } 
    }
}

} // verus!
