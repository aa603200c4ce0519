use vstd::prelude::*;

verus! {

/// One cached record of some kind, with the scope that owns it.
pub struct Entry<R> {
    pub id: u64,
    pub scope: Option<u64>,
    pub record: R,
}

/// What the map holds for an identifier: its scope and its record.
pub type Slot<R> = (Option<u64>, R);

/// The map that a sequence of entries describes.
pub open spec fn map_of<R>(s: Seq<Entry<R>>) -> Map<u64, Slot<R>>
    decreases s.len(),
{
    if s.len() == 0 {
        Map::empty()
    } else {
        let e = s.last();
        map_of(s.drop_last()).insert(e.id, (e.scope, e.record))
    }
}

/// The identifiers of the entries owned by `scope`, in the order of the entries.
pub open spec fn ids_in_scope<R>(s: Seq<Entry<R>>, scope: u64) -> Seq<u64>
    decreases s.len(),
{
    if s.len() == 0 {
        Seq::empty()
    } else {
        let e = s.last();
        let rest = ids_in_scope(s.drop_last(), scope);
        if e.scope == Some(scope) {
            rest.push(e.id)
        } else {
            rest
        }
    }
}

/// The part of a map whose scope is not `scope`.
pub open spec fn without_scope<R>(m: Map<u64, Slot<R>>, scope: u64) -> Map<u64, Slot<R>> {
    m.restrict(m.dom().filter(|k: u64| m[k].0 != Some(scope)))
}

pub open spec fn unique_ids<R>(s: Seq<Entry<R>>) -> bool {
    &&& forall|i: int| 0 <= i < s.len() ==> #[trigger] s[i].id != 0
    &&& forall|i: int, j: int| 0 <= i < j < s.len() ==> #[trigger] s[i].id != #[trigger] s[j].id
}

proof fn lemma_contains<R>(s: Seq<Entry<R>>, k: u64)
    ensures
        map_of(s).contains_key(k) <==> exists|i: int| 0 <= i < s.len() && s[i].id == k,
    decreases s.len(),
{
    if s.len() > 0 {
        let p = s.drop_last();
        lemma_contains(p, k);
        if map_of(p).contains_key(k) {
            let i = choose|i: int| 0 <= i < p.len() && p[i].id == k;
            assert(s[i] == p[i]);
        }
        if exists|i: int| 0 <= i < s.len() && s[i].id == k {
            let i = choose|i: int| 0 <= i < s.len() && s[i].id == k;
            if i < p.len() {
                assert(p[i] == s[i]);
            }
        }
    }
}

proof fn lemma_at<R>(s: Seq<Entry<R>>, i: int)
    requires
        unique_ids(s),
        0 <= i < s.len(),
    ensures
        map_of(s).contains_key(s[i].id),
        map_of(s)[s[i].id] == (s[i].scope, s[i].record),
    decreases s.len(),
{
    let p = s.drop_last();
    if i < s.len() - 1 {
        assert(p[i] == s[i]);
        assert(unique_ids(p));
        lemma_at(p, i);
        assert(s[i].id != s.last().id);
    }
}

proof fn lemma_update<R>(s: Seq<Entry<R>>, i: int, e: Entry<R>)
    requires
        unique_ids(s),
        0 <= i < s.len(),
        e.id == s[i].id,
    ensures
        map_of(s.update(i, e)) == map_of(s).insert(e.id, (e.scope, e.record)),
        unique_ids(s.update(i, e)),
    decreases s.len(),
{
    let t = s.update(i, e);
    let p = s.drop_last();
    assert(unique_ids(t)) by {
        assert forall|a: int, b: int| 0 <= a < b < t.len() implies #[trigger] t[a].id != #[trigger] t[b].id by {
            assert(t[a].id == s[a].id && t[b].id == s[b].id);
        }
        assert forall|a: int| 0 <= a < t.len() implies #[trigger] t[a].id != 0 by {
            assert(t[a].id == s[a].id);
        }
    }
    if i == s.len() - 1 {
        assert(t.drop_last() =~= p);
        lemma_contains(p, e.id);
        assert(map_of(s) == map_of(p).insert(e.id, (s[i].scope, s[i].record)));
        assert(map_of(t) =~= map_of(s).insert(e.id, (e.scope, e.record)));
    } else {
        assert(unique_ids(p));
        lemma_update(p, i, e);
        assert(t.drop_last() =~= p.update(i, e));
        assert(s.last().id != e.id);
        assert(map_of(t) =~= map_of(s).insert(e.id, (e.scope, e.record)));
    }
}

proof fn lemma_remove<R>(s: Seq<Entry<R>>, i: int)
    requires
        unique_ids(s),
        0 <= i < s.len(),
    ensures
        map_of(s.remove(i)) == map_of(s).remove(s[i].id),
        unique_ids(s.remove(i)),
    decreases s.len(),
{
    let t = s.remove(i);
    let p = s.drop_last();
    let k = s[i].id;
    assert(unique_ids(t)) by {
        assert forall|a: int, b: int| 0 <= a < b < t.len() implies #[trigger] t[a].id != #[trigger] t[b].id by {
            let a2 = if a < i { a } else { a + 1 };
            let b2 = if b < i { b } else { b + 1 };
            assert(t[a] == s[a2] && t[b] == s[b2]);
        }
        assert forall|a: int| 0 <= a < t.len() implies #[trigger] t[a].id != 0 by {
            let a2 = if a < i { a } else { a + 1 };
            assert(t[a] == s[a2]);
        }
    }
    if i == s.len() - 1 {
        assert(t =~= p);
        assert forall|j: int| 0 <= j < p.len() implies p[j].id != k by {
            assert(p[j] == s[j]);
        }
        lemma_contains(p, k);
        assert(map_of(t) =~= map_of(s).remove(k));
    } else {
        assert(unique_ids(p));
        assert(p[i] == s[i]);
        lemma_remove(p, i);
        assert(t.drop_last() =~= p.remove(i));
        assert(t.last() == s.last());
        assert(s.last().id != k);
        assert(map_of(t) =~= map_of(s).remove(k));
    }
}

proof fn lemma_ids_in_scope<R>(s: Seq<Entry<R>>, scope: u64)
    requires
        unique_ids(s),
    ensures
        ids_in_scope(s, scope).no_duplicates(),
        forall|k: u64| #[trigger] ids_in_scope(s, scope).contains(k) <==> (map_of(s).contains_key(k)
            && map_of(s)[k].0 == Some(scope)),
    decreases s.len(),
{
    if s.len() > 0 {
        let p = s.drop_last();
        let e = s.last();
        assert(unique_ids(p));
        lemma_ids_in_scope(p, scope);
        lemma_contains(p, e.id);
        assert forall|j: int| 0 <= j < p.len() implies p[j].id != e.id by {
            assert(p[j] == s[j]);
        }
        let rest = ids_in_scope(p, scope);
        if e.scope == Some(scope) {
            assert(!rest.contains(e.id));
            assert forall|k: u64| #[trigger] ids_in_scope(s, scope).contains(k) <==> (map_of(s).contains_key(k)
                && map_of(s)[k].0 == Some(scope)) by {
                if rest.push(e.id).contains(k) && k != e.id {
                    let j = choose|j: int| 0 <= j < rest.push(e.id).len() && rest.push(e.id)[j] == k;
                    assert(rest[j] == k);
                }
                if rest.contains(k) {
                    let j = choose|j: int| 0 <= j < rest.len() && rest[j] == k;
                    assert(rest.push(e.id)[j] == k);
                }
                if k == e.id {
                    assert(rest.push(e.id)[rest.len() as int] == k);
                }
            }
        }
    }
}

/// A map from identifier to record for one kind of entity. Entries keep the
/// order in which their identifiers were first inserted.
pub struct KindMap<R> {
    entries: Vec<Entry<R>>,
}

impl<R> KindMap<R> {
    pub closed spec fn entries(&self) -> Seq<Entry<R>> {
        self.entries@
    }

    /// Identifiers are non-zero and appear at most once.
    pub closed spec fn wf(&self) -> bool {
        unique_ids(self.entries@)
    }

    pub closed spec fn view(&self) -> Map<u64, Slot<R>> {
        map_of(self.entries@)
    }

    pub fn new() -> (r: Self)
        ensures
            r.wf(),
            r@ == Map::<u64, Slot<R>>::empty(),
    {
        KindMap { entries: Vec::new() }
    }

    fn find(&self, id: u64) -> (r: Option<usize>)
        requires
            self.wf(),
        ensures
            match r {
                Some(i) => i < self.entries@.len() && self.entries@[i as int].id == id,
                None => !self@.contains_key(id),
            },
    {
        let mut i: usize = 0;
        while i < self.entries.len()
            invariant
                i <= self.entries@.len(),
                forall|j: int| 0 <= j < i ==> self.entries@[j].id != id,
            decreases self.entries@.len() - i,
        {
            if self.entries[i].id == id {
                return Some(i);
            }
            i = i + 1;
        }
        proof {
            lemma_contains(self.entries@, id);
        }
        None
    }

    /// The record cached under `id`, if any.
    pub fn get(&self, id: u64) -> (r: Option<&R>)
        requires
            self.wf(),
        ensures
            r == (if self@.contains_key(id) { Some(&self@[id].1) } else { None::<&R> }),
    {
        match self.find(id) {
            Some(i) => {
                proof {
                    lemma_at(self.entries@, i as int);
                }
                Some(&self.entries[i].record)
            },
            None => None,
        }
    }

    /// Stores `record` under `id`, replacing what was there, and hands back the
    /// previous record.
    pub fn upsert(&mut self, id: u64, scope: Option<u64>, record: R) -> (r: Option<R>)
        requires
            old(self).wf(),
            id != 0,
        ensures
            final(self).wf(),
            final(self)@ == old(self)@.insert(id, (scope, record)),
            r == (if old(self)@.contains_key(id) { Some(old(self)@[id].1) } else { None::<R> }),
    {
        let e = Entry { id, scope, record };
        match self.find(id) {
            Some(i) => {
                proof {
                    lemma_at(self.entries@, i as int);
                    lemma_update(self.entries@, i as int, e);
                }
                let prev = self.entries.remove(i);
                self.entries.insert(i, e);
                assert(self.entries@ =~= old(self).entries@.update(i as int, e));
                Some(prev.record)
            },
            None => {
                proof {
                    lemma_contains(self.entries@, id);
                }
                self.entries.push(e);
                proof {
                    assert(self.entries@.drop_last() =~= old(self).entries@);
                    assert forall|a: int, b: int| 0 <= a < b < self.entries@.len() implies
                        #[trigger] self.entries@[a].id != #[trigger] self.entries@[b].id by {
                        if b == self.entries@.len() - 1 {
                            assert(self.entries@[a] == old(self).entries@[a]);
                        }
                    }
                }
                None
            },
        }
    }

    /// Removes the record cached under `id` and hands it back.
    pub fn remove(&mut self, id: u64) -> (r: Option<R>)
        requires
            old(self).wf(),
        ensures
            final(self).wf(),
            final(self)@ == old(self)@.remove(id),
            r == (if old(self)@.contains_key(id) { Some(old(self)@[id].1) } else { None::<R> }),
    {
        match self.find(id) {
            Some(i) => {
                proof {
                    lemma_at(self.entries@, i as int);
                    lemma_remove(self.entries@, i as int);
                }
                let e = self.entries.remove(i);
                Some(e.record)
            },
            None => {
                assert(self@ =~= old(self)@.remove(id));
                None
            },
        }
    }

    /// The identifiers owned by `scope`, in insertion order.
    pub fn list_in_scope(&self, scope: u64) -> (r: Vec<u64>)
        requires
            self.wf(),
        ensures
            r@ == ids_in_scope(self.entries(), scope),
            r@.no_duplicates(),
            forall|k: u64| #[trigger] r@.contains(k) <==> (self@.contains_key(k) && self@[k].0 == Some(scope)),
    {
        proof {
            lemma_ids_in_scope(self.entries@, scope);
        }
        let mut out: Vec<u64> = Vec::new();
        let mut i: usize = 0;
        while i < self.entries.len()
            invariant
                i <= self.entries@.len(),
                out@ == ids_in_scope(self.entries@.subrange(0, i as int), scope),
            decreases self.entries@.len() - i,
        {
            proof {
                assert(self.entries@.subrange(0, i + 1).drop_last() =~= self.entries@.subrange(0, i as int));
            }
            if self.entries[i].scope == Some(scope) {
                out.push(self.entries[i].id);
            }
            i = i + 1;
        }
        assert(self.entries@.subrange(0, i as int) =~= self.entries@);
        out
    }

    /// Removes every record owned by `scope` and keeps the others.
    pub fn evict_scope(&mut self, scope: u64)
        requires
            old(self).wf(),
        ensures
            final(self).wf(),
            final(self)@ == without_scope(old(self)@, scope),
    {
        let ghost src = self.entries@;
        let mut kept: Vec<Entry<R>> = Vec::new();
        let ghost n = src.len();
        while self.entries.len() > 0
            invariant
                unique_ids(src),
                n == src.len(),
                self.entries@.len() <= n,
                forall|j: int| 0 <= j < self.entries@.len() ==> #[trigger] self.entries@[j] == src[n - self.entries@.len() + j],
                unique_ids(kept@),
                forall|j: int| 0 <= j < kept@.len() ==> exists|a: int|
                    0 <= a < n - self.entries@.len() && #[trigger] kept@[j] == src[a],
                map_of(kept@) == without_scope(map_of(src.subrange(0, n - self.entries@.len())), scope),
            decreases self.entries@.len(),
        {
            let ghost done = n - self.entries@.len();
            let e = self.entries.remove(0);
            proof {
                assert(e == src[done]);
                let pre = src.subrange(0, done);
                let post = src.subrange(0, done + 1);
                assert(post.drop_last() =~= pre);
                assert(post.last() == e);
                lemma_contains(pre, e.id);
                assert forall|a: int| 0 <= a < pre.len() implies pre[a].id != e.id by {
                    assert(pre[a] == src[a]);
                }
                assert(!map_of(pre).contains_key(e.id));
                lemma_contains(kept@, e.id);
                assert forall|j: int| 0 <= j < kept@.len() implies kept@[j].id != e.id by {
                    let a = choose|a: int| 0 <= a < done && kept@[j] == src[a];
                }
            }
            if e.scope == Some(scope) {
                proof {
                    let pre = src.subrange(0, done);
                    let post = src.subrange(0, done + 1);
                    assert(without_scope(map_of(post), scope) =~= without_scope(map_of(pre), scope));
                }
            } else {
                let ghost kept_before = kept@;
                kept.push(e);
                proof {
                    let pre = src.subrange(0, done);
                    let post = src.subrange(0, done + 1);
                    assert(kept@.drop_last() =~= kept_before);
                    assert(without_scope(map_of(post), scope) =~= without_scope(map_of(pre), scope).insert(
                        e.id,
                        (e.scope, e.record),
                    ));
                    assert forall|a: int, b: int| 0 <= a < b < kept@.len() implies
                        #[trigger] kept@[a].id != #[trigger] kept@[b].id by {
                        if b == kept@.len() - 1 {
                            assert(kept@[a] == kept_before[a]);
                        }
                    }
                    assert forall|j: int| 0 <= j < kept@.len() implies exists|a: int|
                        0 <= a < done + 1 && #[trigger] kept@[j] == src[a] by {
                        if j == kept@.len() - 1 {
                            assert(kept@[j] == src[done]);
                        } else {
                            assert(kept@[j] == kept_before[j]);
                        }
                    }
                }
            }
        }
        proof {
            assert(src.subrange(0, n as int) =~= src);
        }
        self.entries = kept;
    }
}

} // verus!
