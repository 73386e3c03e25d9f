use vstd::prelude::*;

verus! {

broadcast use vstd::seq_lib::group_filter_ensures;

/// What the server reports when it prepares a statement.
#[derive(Debug, Clone, Copy, PartialEq, Eq, Structural)]
pub struct StmtInfo {
    /// Server-assigned statement id.
    pub id: u32,
    pub num_columns: u16,
    pub num_params: u16,
    /// The id of the connection that prepared the statement.
    pub connection_id: u32,
}

/// One cache entry as the contracts see it: query text and statement.
pub type CacheEntry = (Seq<char>, StmtInfo);

/// Index of the entry for `q`, if any.
pub open spec fn index_of(s: Seq<CacheEntry>, q: Seq<char>) -> int {
    if exists|i: int| 0 <= i < s.len() && s[i].0 == q {
        choose|i: int| 0 <= i < s.len() && s[i].0 == q
    } else {
        -1
    }
}

/// Query texts of the entries, least recently used first.
pub open spec fn queries_of(s: Seq<CacheEntry>) -> Seq<Seq<char>> {
    s.map_values(|e: CacheEntry| e.0)
}

/// No query text occurs twice.
pub open spec fn distinct_queries(s: Seq<CacheEntry>) -> bool {
    forall|i: int, j: int| 0 <= i < j < s.len() ==> s[i].0 != s[j].0
}

/// The entries after a hit on position `i`: that entry moves to the most recent place.
pub open spec fn touch(s: Seq<CacheEntry>, i: int) -> Seq<CacheEntry> {
    s.remove(i).push(s[i])
}

/// The entries after inserting an absent query under capacity `cap`.
pub open spec fn insert_entries(s: Seq<CacheEntry>, cap: nat, e: CacheEntry) -> Seq<CacheEntry> {
    if cap == 0 {
        s
    } else if s.len() < cap {
        s.push(e)
    } else {
        s.subrange(1, s.len() as int).push(e)
    }
}

/// The entry that inserting an absent query evicts, if any.
pub open spec fn insert_evicts(s: Seq<CacheEntry>, cap: nat) -> Option<CacheEntry> {
    if cap != 0 && s.len() >= cap && s.len() > 0 {
        Some(s[0])
    } else {
        None
    }
}

/// A bounded cache of prepared statements keyed by query text, evicting the least recently used.
pub struct StmtCache {
    cap: usize,
    /// Least recently used first.
    entries: Vec<(String, StmtInfo)>,
}

impl View for StmtCache {
    type V = Seq<CacheEntry>;

    closed spec fn view(&self) -> Seq<CacheEntry> {
        self.entries@.map_values(|e: (String, StmtInfo)| (e.0@, e.1))
    }
}

impl StmtCache {
    /// The capacity the cache was made with.
    pub closed spec fn capacity_spec(&self) -> nat {
        self.cap as nat
    }

    /// The cache holds at most its capacity, and each query once.
    pub open spec fn wf(&self) -> bool {
        &&& self@.len() <= self.capacity_spec()
        &&& distinct_queries(self@)
    }

    /// Makes an empty cache that holds at most `cap` statements.
    pub fn new(cap: usize) -> (r: StmtCache)
        ensures
            r.wf(),
            r@ == Seq::<CacheEntry>::empty(),
            r.capacity_spec() == cap,
    {
        let r = StmtCache { cap, entries: Vec::new() };
        proof {
            assert(r@ =~= Seq::<CacheEntry>::empty());
        }
        r
    }

    pub fn capacity(&self) -> (r: usize)
        ensures
            r == self.capacity_spec(),
    {
        self.cap
    }

    pub fn len(&self) -> (r: usize)
        ensures
            r == self@.len(),
    {
        self.entries.len()
    }

    fn find(&self, query: &String) -> (r: Option<usize>)
        ensures
            match r {
                Some(i) => i < self@.len() && self@[i as int].0 == query@,
                None => forall|i: int| 0 <= i < self@.len() ==> self@[i].0 != query@,
            },
    {
        let mut i: usize = 0;
        while i < self.entries.len()
            invariant
                i <= self@.len(),
                self@.len() == self.entries@.len(),
                forall|k: int| 0 <= k < i ==> self@[k].0 != query@,
            decreases self.entries@.len() - i,
        {
            if self.entries[i].0 == *query {
                return Some(i);
            }
            i = i + 1;
        }
        None
    }

    /// Returns true when a statement for `query` is cached. Does not change the order.
    pub fn contains_query(&self, query: &String) -> (r: bool)
        ensures
            r == (exists|i: int| 0 <= i < self@.len() && self@[i].0 == query@),
    {
        match self.find(query) {
            Some(_) => true,
            None => false,
        }
    }

    /// Looks a query up; on a hit its entry becomes the most recently used.
    pub fn by_query(&mut self, query: &String) -> (r: Option<StmtInfo>)
        requires
            old(self).wf(),
        ensures
            final(self).wf(),
            final(self).capacity_spec() == old(self).capacity_spec(),
            index_of(old(self)@, query@) < 0 ==> r.is_none() && final(self)@ == old(self)@,
            index_of(old(self)@, query@) >= 0 ==> r == Some(old(self)@[index_of(old(self)@, query@)].1)
                && final(self)@ == touch(old(self)@, index_of(old(self)@, query@)),
    {
        let ghost s = self@;
        match self.find(query) {
            None => {
                proof {
                    assert(!(exists|i: int| 0 <= i < s.len() && s[i].0 == query@));
                }
                None
            },
            Some(i) => {
                proof {
                    assert(s[i as int].0 == query@);
                    assert(index_of(s, query@) == i as int) by {
                        let j = index_of(s, query@);
                        assert(0 <= j < s.len() && s[j].0 == query@);
                        if j != i as int {
                            assert(distinct_queries(s));
                        }
                    }
                }
                let e = self.entries.remove(i);
                let info = e.1;
                self.entries.push(e);
                proof {
                    assert(self@ =~= touch(s, i as int));
                    assert forall|a: int, b: int| 0 <= a < b < self@.len() implies self@[a].0
                        != self@[b].0 by {
                        let t = touch(s, i as int);
                        assert(t == self@);
                        if b == self@.len() - 1 {
                            let a0 = if a < i { a } else { a + 1 };
                            assert(t[a] == s[a0]);
                            assert(t[b] == s[i as int]);
                        } else {
                            let a0 = if a < i { a } else { a + 1 };
                            let b0 = if b < i { b } else { b + 1 };
                            assert(t[a] == s[a0]);
                            assert(t[b] == s[b0]);
                        }
                    }
                }
                Some(info)
            },
        }
    }

    /// Caches the statement for a query that is not cached yet.
    ///
    /// Returns the entry that had to leave to make room, whose statement the
    /// caller closes on the server. With capacity zero nothing is cached.
    pub fn put(&mut self, query: String, info: StmtInfo) -> (r: Option<(String, StmtInfo)>)
        requires
            old(self).wf(),
            forall|i: int| 0 <= i < old(self)@.len() ==> old(self)@[i].0 != query@,
        ensures
            final(self).wf(),
            final(self).capacity_spec() == old(self).capacity_spec(),
            final(self)@ == insert_entries(old(self)@, old(self).capacity_spec(), (query@, info)),
            match insert_evicts(old(self)@, old(self).capacity_spec()) {
                Some(e) => r.is_some() && r.unwrap().0@ == e.0 && r.unwrap().1 == e.1,
                None => r.is_none(),
            },
    {
        let ghost s = self@;
        let ghost e = (query@, info);
        if self.cap == 0 {
            return None;
        }
        let mut evicted: Option<(String, StmtInfo)> = None;
        if self.entries.len() >= self.cap {
            let old_entry = self.entries.remove(0);
            evicted = Some(old_entry);
            proof {
                assert(self@ =~= s.subrange(1, s.len() as int));
            }
        }
        self.entries.push((query, info));
        proof {
            let t = insert_entries(s, self.cap as nat, e);
            assert(self@ =~= t);
            assert forall|a: int, b: int| 0 <= a < b < self@.len() implies self@[a].0
                != self@[b].0 by {
                if s.len() < self.cap {
                    assert(t[a] == s[a]);
                } else {
                    assert(t[a] == s[a + 1]);
                    if b < self@.len() - 1 {
                        assert(t[b] == s[b + 1]);
                    }
                }
            }
        }
        evicted
    }

    /// Drops every entry that holds the statement `id`.
    pub fn remove(&mut self, id: u32)
        requires
            old(self).wf(),
        ensures
            final(self).wf(),
            final(self).capacity_spec() == old(self).capacity_spec(),
            final(self)@ == old(self)@.filter(|e: CacheEntry| e.1.id != id),
    {
        let ghost s = self@;
        let mut kept: Vec<(String, StmtInfo)> = Vec::new();
        let mut i: usize = 0;
        while i < self.entries.len()
            invariant
                i <= s.len(),
                s.len() == self.entries@.len(),
                s == self@,
                kept@.map_values(|e: (String, StmtInfo)| (e.0@, e.1)) == s.subrange(0, i as int).filter(
                    |e: CacheEntry| e.1.id != id,
                ),
            decreases s.len() - i,
        {
            let ghost before = kept@.map_values(|e: (String, StmtInfo)| (e.0@, e.1));
            proof {
                assert(s.subrange(0, i as int + 1).drop_last() =~= s.subrange(0, i as int));
                assert(s.subrange(0, i as int + 1).last() == s[i as int]);
            }
            if self.entries[i].1.id != id {
                let q = self.entries[i].0.clone();
                kept.push((q, self.entries[i].1));
                proof {
                    assert(kept@.map_values(|e: (String, StmtInfo)| (e.0@, e.1)) =~= before.push(
                        s[i as int],
                    ));
                }
            }
            proof {
                reveal(Seq::filter);
                assert(s.subrange(0, i as int + 1).filter(|e: CacheEntry| e.1.id != id) == (
                if s[i as int].1.id != id {
                    s.subrange(0, i as int).filter(|e: CacheEntry| e.1.id != id).push(s[i as int])
                } else {
                    s.subrange(0, i as int).filter(|e: CacheEntry| e.1.id != id)
                }));
            }
            i = i + 1;
        }
        proof {
            assert(s.subrange(0, s.len() as int) =~= s);
        }
        self.entries = kept;
        proof {
            let f = s.filter(|e: CacheEntry| e.1.id != id);
            assert(self@ == f);
            assert forall|a: int, b: int| 0 <= a < b < f.len() implies f[a].0 != f[b].0 by {
                lemma_filter_keeps_distinct(s, id, a, b);
            }
        }
    }

    /// Empties the cache.
    pub fn clear(&mut self)
        requires
            old(self).wf(),
        ensures
            final(self).wf(),
            final(self).capacity_spec() == old(self).capacity_spec(),
            final(self)@ == Seq::<CacheEntry>::empty(),
    {
        self.entries = Vec::new();
        proof {
            assert(self@ =~= Seq::<CacheEntry>::empty());
        }
    }

    /// Takes every entry out, least recently used first, leaving the cache empty.
    pub fn drain(&mut self) -> (r: Vec<(String, StmtInfo)>)
        requires
            old(self).wf(),
        ensures
            final(self).wf(),
            final(self).capacity_spec() == old(self).capacity_spec(),
            final(self)@ == Seq::<CacheEntry>::empty(),
            r@.map_values(|e: (String, StmtInfo)| (e.0@, e.1)) == old(self)@,
    {
        let r = self.entries.split_off(0);
        proof {
            assert(self@ =~= Seq::<CacheEntry>::empty());
        }
        r
    }

    /// The cached query texts, most recently used first.
    pub fn queries_mru(&self) -> (r: Vec<String>)
        ensures
            r@.len() == self@.len(),
            forall|i: int| 0 <= i < r@.len() ==> r@[i]@ == self@[self@.len() - 1 - i].0,
    {
        let mut r: Vec<String> = Vec::new();
        let n = self.entries.len();
        let mut i: usize = 0;
        while i < n
            invariant
                n == self@.len(),
                n == self.entries@.len(),
                i <= n,
                r@.len() == i,
                forall|k: int| 0 <= k < i ==> r@[k]@ == self@[n - 1 - k].0,
            decreases n - i,
        {
            r.push(self.entries[n - 1 - i].0.clone());
            i = i + 1;
        }
        r
    }
}

proof fn lemma_filter_keeps_distinct(s: Seq<CacheEntry>, id: u32, a: int, b: int)
    requires
        distinct_queries(s),
        0 <= a < b < s.filter(|e: CacheEntry| e.1.id != id).len(),
    ensures
        s.filter(|e: CacheEntry| e.1.id != id)[a].0 != s.filter(|e: CacheEntry| e.1.id != id)[b].0,
    decreases s.len(),
{
    let p = |e: CacheEntry| e.1.id != id;
    reveal(Seq::filter);
    if s.len() > 0 {
        let init = s.drop_last();
        assert(distinct_queries(init)) by {
            assert forall|i: int, j: int| 0 <= i < j < init.len() implies init[i].0 != init[j].0 by {
                assert(init[i] == s[i] && init[j] == s[j]);
            }
        }
        let fi = init.filter(p);
        if p(s.last()) {
            assert(s.filter(p) == fi.push(s.last()));
            if b < fi.len() {
                lemma_filter_keeps_distinct(init, id, a, b);
            } else {
                assert(fi.contains(fi[a]));
                init.lemma_filter_contains_rev(p, fi[a]);
                let k = choose|k: int| 0 <= k < init.len() && init[k] == fi[a];
                assert(init[k] == s[k]);
                assert(s[k].0 != s[s.len() - 1].0);
                assert(s.filter(p)[b] == s.last());
            }
        } else {
            assert(s.filter(p) == fi);
            lemma_filter_keeps_distinct(init, id, a, b);
        }
    }
}

/// The entries after preparing `q`: a hit moves it to the most recent place, a miss inserts it.
pub open spec fn prepare_entries(s: Seq<CacheEntry>, cap: nat, q: Seq<char>, info: StmtInfo) -> Seq<
    CacheEntry,
> {
    if index_of(s, q) >= 0 {
        touch(s, index_of(s, q))
    } else {
        insert_entries(s, cap, (q, info))
    }
}

/// How many statements preparing `q` closes on the server: one per eviction.
pub open spec fn prepare_closes(s: Seq<CacheEntry>, cap: nat, q: Seq<char>) -> nat {
    if index_of(s, q) < 0 && insert_evicts(s, cap).is_some() {
        1
    } else {
        0
    }
}

/// Entries and number of closed statements after preparing `qs` in order on an empty cache;
/// the statement prepared for `qs[i]` on a miss is `infos[i]`.
pub open spec fn run_prepares(cap: nat, qs: Seq<Seq<char>>, infos: Seq<StmtInfo>) -> (Seq<
    CacheEntry,
>, nat)
    decreases qs.len(),
{
    if qs.len() == 0 {
        (Seq::empty(), 0)
    } else {
        let prev = run_prepares(cap, qs.drop_last(), infos);
        let q = qs.last();
        (
            prepare_entries(prev.0, cap, q, infos[qs.len() - 1]),
            prev.1 + prepare_closes(prev.0, cap, q),
        )
    }
}

/// No query occurs twice in `qs`.
pub open spec fn all_distinct(qs: Seq<Seq<char>>) -> bool {
    forall|i: int, j: int| 0 <= i < j < qs.len() ==> qs[i] != qs[j]
}

/// The statements that preparing `qs` in order on an empty cache closes, in the order of
/// their `COM_STMT_CLOSE`.
pub open spec fn run_closed(cap: nat, qs: Seq<Seq<char>>, infos: Seq<StmtInfo>) -> Seq<StmtInfo>
    decreases qs.len(),
{
    if qs.len() == 0 {
        Seq::empty()
    } else {
        let prev = run_prepares(cap, qs.drop_last(), infos);
        let closed = run_closed(cap, qs.drop_last(), infos);
        if index_of(prev.0, qs.last()) < 0 && insert_evicts(prev.0, cap) is Some {
            closed.push(insert_evicts(prev.0, cap).unwrap().1)
        } else {
            closed
        }
    }
}

/// The entries for `qs[lo..]` with their statements, least recently used first.
pub open spec fn window(qs: Seq<Seq<char>>, infos: Seq<StmtInfo>, lo: int) -> Seq<CacheEntry> {
    Seq::new((qs.len() - lo) as nat, |j: int| (qs[lo + j], infos[lo + j]))
}

/// With capacity `cap > 0`, preparing `qs.len() > cap` distinct queries closes exactly
/// `qs.len() - cap` statements: those of the first `qs.len() - cap` queries, in order. The
/// cache then holds the last `cap` queries with their statements, the most recently
/// prepared last.
pub proof fn lemma_distinct_prepares_evict(cap: nat, qs: Seq<Seq<char>>, infos: Seq<StmtInfo>)
    requires
        cap > 0,
        all_distinct(qs),
        qs.len() > cap,
        infos.len() == qs.len(),
    ensures
        run_prepares(cap, qs, infos).1 == qs.len() - cap,
        run_closed(cap, qs, infos) == infos.subrange(0, qs.len() - cap),
        run_prepares(cap, qs, infos).0 == window(qs, infos, qs.len() - cap),
        queries_of(run_prepares(cap, qs, infos).0) == qs.subrange(qs.len() - cap, qs.len() as int),
{
    lemma_distinct_prepares_window(cap, qs, infos);
    let lo = qs.len() - cap;
    assert(queries_of(window(qs, infos, lo)) =~= qs.subrange(lo, qs.len() as int));
}

proof fn lemma_distinct_prepares_window(cap: nat, qs: Seq<Seq<char>>, infos: Seq<StmtInfo>)
    requires
        cap > 0,
        all_distinct(qs),
        infos.len() >= qs.len(),
    ensures
        ({
            let lo = if qs.len() > cap { qs.len() - cap } else { 0int };
            &&& run_prepares(cap, qs, infos).1 == lo
            &&& run_prepares(cap, qs, infos).0 == window(qs, infos, lo)
            &&& run_closed(cap, qs, infos) == infos.subrange(0, lo)
        }),
    decreases qs.len(),
{
    if qs.len() > 0 {
        let init = qs.drop_last();
        assert(all_distinct(init)) by {
            assert forall|i: int, j: int| 0 <= i < j < init.len() implies init[i] != init[j] by {
                assert(init[i] == qs[i] && init[j] == qs[j]);
            }
        }
        lemma_distinct_prepares_window(cap, init, infos);
        let prev = run_prepares(cap, init, infos);
        let n = qs.len() as int;
        let q = qs.last();
        let plo = if init.len() > cap { init.len() - cap } else { 0int };
        let lo = if qs.len() > cap { qs.len() - cap } else { 0int };
        assert(prev.0 == window(init, infos, plo));
        assert(index_of(prev.0, q) < 0) by {
            if exists|i: int| 0 <= i < prev.0.len() && prev.0[i].0 == q {
                let i = choose|i: int| 0 <= i < prev.0.len() && prev.0[i].0 == q;
                assert(prev.0[i].0 == init[plo + i]);
                assert(init[plo + i] == qs[plo + i]);
                assert(qs[plo + i] != qs[n - 1]);
            }
        }
        let e = (q, infos[n - 1]);
        if prev.0.len() < cap {
            assert(plo == 0);
            assert(prev.0.push(e) =~= window(qs, infos, lo));
        } else {
            assert(plo == n - 1 - cap);
            assert(prev.0[0] == (qs[plo], infos[plo]));
            assert(prev.0.subrange(1, prev.0.len() as int).push(e) =~= window(qs, infos, lo));
            assert(infos.subrange(0, plo).push(infos[plo]) =~= infos.subrange(0, lo));
        }
    } else {
        assert(window(qs, infos, 0) =~= Seq::<CacheEntry>::empty());
        assert(infos.subrange(0, 0) =~= Seq::<StmtInfo>::empty());
    }
}

} // verus!
