//! A small association table from root-relative paths (component lists) to
//! file ids: the reverse direction of the backing store's id map.

use vstd::prelude::*;

use super::paths::{bytes_eq, seqs_view};

verus! {

/// The map that a list of entries with distinct keys stands for.
pub open spec fn assoc_map<K, V>(s: Seq<(K, V)>) -> Map<K, V>
    decreases s.len(),
{
    if s.len() == 0 {
        Map::empty()
    } else {
        assoc_map(s.drop_last()).insert(s.last().0, s.last().1)
    }
}

pub open spec fn distinct_keys<K, V>(s: Seq<(K, V)>) -> bool {
    forall|i: int, j: int| 0 <= i < s.len() && 0 <= j < s.len() && i != j ==> s[i].0 != s[j].0
}

proof fn lemma_distinct_drop_last<K, V>(s: Seq<(K, V)>)
    requires
        distinct_keys(s),
        s.len() > 0,
    ensures
        distinct_keys(s.drop_last()),
        forall|i: int| 0 <= i < s.len() - 1 ==> s.drop_last()[i].0 != s.last().0,
{
    assert forall|i: int| 0 <= i < s.len() - 1 implies s.drop_last()[i].0 != s.last().0 by {
        assert(s.drop_last()[i] == s[i]);
    }
}

/// Entries are found under their keys; absent keys are not in the map.
pub proof fn lemma_assoc_lookup<K, V>(s: Seq<(K, V)>, k: K)
    requires
        distinct_keys(s),
    ensures
        assoc_map(s).contains_key(k) <==> exists|i: int| 0 <= i < s.len() && s[i].0 == k,
        forall|i: int| 0 <= i < s.len() && s[i].0 == k ==> assoc_map(s)[k] == s[i].1,
    decreases s.len(),
{
    if s.len() > 0 {
        let t = s.drop_last();
        lemma_distinct_drop_last(s);
        lemma_assoc_lookup(t, k);
        if assoc_map(s).contains_key(k) {
            if k == s.last().0 {
                assert(s[s.len() - 1].0 == k);
            } else {
                let i = choose|i: int| 0 <= i < t.len() && t[i].0 == k;
                assert(s[i] == t[i]);
            }
        }
        assert forall|i: int| 0 <= i < s.len() && s[i].0 == k implies assoc_map(s)[k]
            == s[i].1 by {
            if i < s.len() - 1 {
                assert(s[i] == t[i]);
            }
        }
        if exists|i: int| 0 <= i < s.len() && s[i].0 == k {
            let i = choose|i: int| 0 <= i < s.len() && s[i].0 == k;
            if i < s.len() - 1 {
                assert(s[i] == t[i]);
            }
        }
    }
}

pub proof fn lemma_assoc_update<K, V>(s: Seq<(K, V)>, i: int, v: V)
    requires
        distinct_keys(s),
        0 <= i < s.len(),
    ensures
        assoc_map(s.update(i, (s[i].0, v))) == assoc_map(s).insert(s[i].0, v),
        distinct_keys(s.update(i, (s[i].0, v))),
    decreases s.len(),
{
    let u = s.update(i, (s[i].0, v));
    let t = s.drop_last();
    lemma_distinct_drop_last(s);
    if i == s.len() - 1 {
        assert(u.drop_last() =~= t);
        assert(assoc_map(u) =~= assoc_map(s).insert(s[i].0, v));
    } else {
        assert(t[i] == s[i]);
        lemma_assoc_update(t, i, v);
        assert(u.drop_last() =~= t.update(i, (s[i].0, v)));
        assert(u.last() == s.last());
        assert(assoc_map(u) =~= assoc_map(s).insert(s[i].0, v));
    }
    assert forall|a: int, b: int| 0 <= a < u.len() && 0 <= b < u.len() && a != b implies u[a].0
        != u[b].0 by {
        assert(u[a].0 == s[a].0);
        assert(u[b].0 == s[b].0);
    }
}

pub proof fn lemma_assoc_remove<K, V>(s: Seq<(K, V)>, i: int)
    requires
        distinct_keys(s),
        0 <= i < s.len(),
    ensures
        assoc_map(s.remove(i)) == assoc_map(s).remove(s[i].0),
        distinct_keys(s.remove(i)),
    decreases s.len(),
{
    let r = s.remove(i);
    let t = s.drop_last();
    let k = s[i].0;
    lemma_distinct_drop_last(s);
    if i == s.len() - 1 {
        assert(r =~= t);
        lemma_assoc_lookup(t, k);
        assert(!assoc_map(t).contains_key(k));
        assert(assoc_map(r) =~= assoc_map(s).remove(k));
    } else {
        assert(t[i] == s[i]);
        lemma_assoc_remove(t, i);
        assert(r.drop_last() =~= t.remove(i));
        assert(r.last() == s.last());
        assert(s.last().0 != k);
        assert(assoc_map(r) =~= assoc_map(s).remove(k));
    }
    assert forall|a: int, b: int| 0 <= a < r.len() && 0 <= b < r.len() && a != b implies r[a].0
        != r[b].0 by {
        let a2 = if a < i {
            a
        } else {
            a + 1
        };
        let b2 = if b < i {
            b
        } else {
            b + 1
        };
        assert(r[a] == s[a2]);
        assert(r[b] == s[b2]);
    }
}

/// Component-wise equality of two root-relative paths.
pub fn path_eq(a: &Vec<Vec<u8>>, b: &Vec<Vec<u8>>) -> (r: bool)
    ensures
        r == (seqs_view(a@) == seqs_view(b@)),
{
    if a.len() != b.len() {
        return false;
    }
    let mut i: usize = 0;
    while i < a.len()
        invariant
            a@.len() == b@.len(),
            i <= a@.len(),
            forall|j: int| 0 <= j < i ==> a@[j]@ == b@[j]@,
        decreases a@.len() - i,
    {
        if !bytes_eq(a[i].as_slice(), b[i].as_slice()) {
            assert(seqs_view(a@)[i as int] != seqs_view(b@)[i as int]);
            return false;
        }
        i = i + 1;
    }
    assert(seqs_view(a@) =~= seqs_view(b@));
    true
}

/// A copy of a root-relative path.
pub fn path_clone(a: &Vec<Vec<u8>>) -> (r: Vec<Vec<u8>>)
    ensures
        seqs_view(r@) == seqs_view(a@),
{
    let mut r: Vec<Vec<u8>> = Vec::new();
    let mut i: usize = 0;
    while i < a.len()
        invariant
            i <= a@.len(),
            seqs_view(r@) =~= seqs_view(a@).subrange(0, i as int),
        decreases a@.len() - i,
    {
        let mut c: Vec<u8> = Vec::new();
        let mut j: usize = 0;
        while j < a[i].len()
            invariant
                i < a@.len(),
                seqs_view(r@) =~= seqs_view(a@).subrange(0, i as int),
                j <= a@[i as int]@.len(),
                c@ =~= a@[i as int]@.subrange(0, j as int),
            decreases a@[i as int]@.len() - j,
        {
            c.push(a[i][j]);
            j = j + 1;
        }
        assert(c@ =~= a@[i as int]@);
        let ghost before = r@;
        assert(seqs_view(before).len() == before.len());
        assert(before.len() == i);
        r.push(c);
        assert(r@ == before.push(c));
        assert forall|k: int| 0 <= k < i + 1 implies #[trigger] seqs_view(r@)[k] == seqs_view(
            a@,
        )[k] by {
            if k < i {
                assert(seqs_view(before)[k] == seqs_view(a@).subrange(0, i as int)[k]);
                assert(r@[k] == before[k]);
            } else {
                assert(r@[k] == c);
            }
        }
        assert(seqs_view(r@) =~= seqs_view(a@).subrange(0, i + 1));
        i = i + 1;
    }
    assert(seqs_view(a@).subrange(0, a@.len() as int) =~= seqs_view(a@));
    r
}

/// Paths to ids, as a list of entries with distinct paths.
pub struct PathTable {
    entries: Vec<(Vec<Vec<u8>>, u64)>,
}

pub open spec fn entries_view(e: Seq<(Vec<Vec<u8>>, u64)>) -> Seq<(Seq<Seq<u8>>, u64)> {
    e.map_values(|x: (Vec<Vec<u8>>, u64)| (seqs_view(x.0@), x.1))
}

impl View for PathTable {
    type V = Map<Seq<Seq<u8>>, u64>;

    closed spec fn view(&self) -> Map<Seq<Seq<u8>>, u64> {
        assoc_map(entries_view(self.entries@))
    }
}

impl PathTable {
    pub closed spec fn wf(&self) -> bool {
        distinct_keys(entries_view(self.entries@))
    }

    pub fn new() -> (t: Self)
        ensures
            t.wf(),
            t@ == Map::<Seq<Seq<u8>>, u64>::empty(),
    {
        let t = PathTable { entries: Vec::new() };
        assert(entries_view(t.entries@) =~= Seq::<(Seq<Seq<u8>>, u64)>::empty());
        t
    }

    fn find(&self, k: &Vec<Vec<u8>>) -> (r: Option<usize>)
        requires
            self.wf(),
        ensures
            match r {
                Some(i) => i < self.entries@.len() && entries_view(self.entries@)[i as int].0
                    == seqs_view(k@),
                None => forall|i: int|
                    0 <= i < self.entries@.len() ==> entries_view(self.entries@)[i].0 != seqs_view(
                        k@,
                    ),
            },
    {
        let mut i: usize = 0;
        while i < self.entries.len()
            invariant
                i <= self.entries@.len(),
                forall|j: int|
                    0 <= j < i ==> entries_view(self.entries@)[j].0 != seqs_view(k@),
            decreases self.entries@.len() - i,
        {
            if path_eq(&self.entries[i].0, k) {
                return Some(i);
            }
            i = i + 1;
        }
        None
    }

    pub fn get(&self, k: &Vec<Vec<u8>>) -> (r: Option<u64>)
        requires
            self.wf(),
        ensures
            match r {
                Some(id) => self@.contains_key(seqs_view(k@)) && self@[seqs_view(k@)] == id,
                None => !self@.contains_key(seqs_view(k@)),
            },
    {
        proof {
            lemma_assoc_lookup(entries_view(self.entries@), seqs_view(k@));
        }
        match self.find(k) {
            Some(i) => Some(self.entries[i].1),
            None => None,
        }
    }

    /// Insert or overwrite the entry for `k`.
    pub fn insert(&mut self, k: Vec<Vec<u8>>, id: u64)
        requires
            old(self).wf(),
        ensures
            final(self).wf(),
            final(self)@ == old(self)@.insert(seqs_view(k@), id),
    {
        let ghost kv = seqs_view(k@);
        match self.find(&k) {
            Some(i) => {
                let ghost ev = entries_view(self.entries@);
                proof {
                    lemma_assoc_update(ev, i as int, id);
                }
                self.entries.set(i, (k, id));
                assert(entries_view(self.entries@) =~= ev.update(i as int, (ev[i as int].0, id)));
            },
            None => {
                let ghost ev = entries_view(self.entries@);
                self.entries.push((k, id));
                assert(entries_view(self.entries@) =~= ev.push((kv, id)));
                assert(entries_view(self.entries@).drop_last() =~= ev);
                assert forall|a: int, b: int|
                    0 <= a < ev.len() + 1 && 0 <= b < ev.len() + 1 && a != b implies entries_view(
                    self.entries@,
                )[a].0 != entries_view(self.entries@)[b].0 by {
                    if a < ev.len() {
                        assert(entries_view(self.entries@)[a] == ev[a]);
                    }
                    if b < ev.len() {
                        assert(entries_view(self.entries@)[b] == ev[b]);
                    }
                }
            },
        }
    }

    /// Remove the entry for `k`, returning its id if it was present.
    pub fn remove(&mut self, k: &Vec<Vec<u8>>) -> (r: Option<u64>)
        requires
            old(self).wf(),
        ensures
            final(self).wf(),
            final(self)@ == old(self)@.remove(seqs_view(k@)),
            match r {
                Some(id) => old(self)@.contains_key(seqs_view(k@)) && old(self)@[seqs_view(k@)]
                    == id,
                None => !old(self)@.contains_key(seqs_view(k@)),
            },
    {
        let ghost ev = entries_view(self.entries@);
        proof {
            lemma_assoc_lookup(ev, seqs_view(k@));
        }
        match self.find(k) {
            Some(i) => {
                proof {
                    lemma_assoc_remove(ev, i as int);
                }
                let (_, id) = self.entries.remove(i);
                assert(entries_view(self.entries@) =~= ev.remove(i as int));
                Some(id)
            },
            None => {
                assert(!old(self)@.contains_key(seqs_view(k@)));
                assert(old(self)@.remove(seqs_view(k@)) =~= old(self)@);
                None
            },
        }
    }
}

} // verus!
