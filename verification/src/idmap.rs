//! An ordered table from object ids to records.

use vstd::prelude::*;

verus! {

/// A table keyed by `u64` ids, kept in ascending key order.
///
/// Its view is the `Map` from the ids that are present to their records.
pub struct IdMap<V> {
    entries: Vec<(u64, V)>,
}

/// Each member comes strictly before the next one.
pub open spec fn strictly_ascending(s: Seq<u64>) -> bool {
    forall|i: int, j: int| 0 <= i < j < s.len() ==> s[i] < s[j]
}

/// The members of a finite set, in ascending order.
pub open spec fn ascending(s: Set<u64>) -> Seq<u64> {
    choose|q: Seq<u64>| strictly_ascending(q) && q.to_set() == s
}

/// A strictly ascending sequence is the only one that lists its members so.
pub proof fn lemma_ascending_is_unique(a: Seq<u64>, b: Seq<u64>)
    requires
        strictly_ascending(a),
        strictly_ascending(b),
        a.to_set() == b.to_set(),
    ensures
        a == b,
    decreases a.len(),
{
    if a.len() == 0 {
        if b.len() > 0 {
            assert(b.to_set().contains(b[0]));
            assert(a.to_set().contains(b[0]));
        }
        assert(a =~= b);
    } else {
        assert(a.to_set().contains(a.last()));
        assert(b.to_set().contains(a.last()));
        assert(b.len() > 0);
        assert(b.to_set().contains(b.last()));
        assert(a.to_set().contains(b.last()));
        let i = choose|i: int| 0 <= i < a.len() && a[i] == b.last();
        let j = choose|j: int| 0 <= j < b.len() && b[j] == a.last();
        assert(a.last() == b.last());
        let a1 = a.drop_last();
        let b1 = b.drop_last();
        assert(a1.to_set() =~= b1.to_set()) by {
            assert forall|x: u64| a1.to_set().contains(x) == b1.to_set().contains(x) by {
                if a1.contains(x) {
                    let k = choose|k: int| 0 <= k < a1.len() && a1[k] == x;
                    assert(a[k] == x);
                    assert(a.to_set().contains(x));
                    assert(b.to_set().contains(x));
                    let m = choose|m: int| 0 <= m < b.len() && b[m] == x;
                    assert(m < b.len() - 1);
                    assert(b1[m] == x);
                }
                if b1.contains(x) {
                    let k = choose|k: int| 0 <= k < b1.len() && b1[k] == x;
                    assert(b[k] == x);
                    assert(b.to_set().contains(x));
                    assert(a.to_set().contains(x));
                    let m = choose|m: int| 0 <= m < a.len() && a[m] == x;
                    assert(m < a.len() - 1);
                    assert(a1[m] == x);
                }
            }
        }
        lemma_ascending_is_unique(a1, b1);
        assert(a =~= a1.push(a.last()));
        assert(b =~= b1.push(b.last()));
    }
}

/// `ascending` of the members of a strictly ascending sequence is that sequence.
pub proof fn lemma_ascending_of_sorted(q: Seq<u64>)
    requires
        strictly_ascending(q),
    ensures
        ascending(q.to_set()) == q,
{
    let p = ascending(q.to_set());
    assert(strictly_ascending(p) && p.to_set() == q.to_set());
    lemma_ascending_is_unique(p, q);
}

proof fn lemma_sorted_below(s: Set<u64>, n: int) -> (q: Seq<u64>)
    requires
        0 <= n <= u64::MAX + 1,
        forall|x: u64| #[trigger] s.contains(x) ==> x < n,
    ensures
        strictly_ascending(q),
        q.to_set() == s,
    decreases n,
{
    if n == 0 {
        let q = Seq::<u64>::empty();
        assert(q.to_set() =~= s);
        q
    } else {
        let top = (n - 1) as u64;
        let rest = lemma_sorted_below(s.remove(top), n - 1);
        assert forall|i: int| 0 <= i < rest.len() implies #[trigger] rest[i] < top by {
            assert(rest.to_set().contains(rest[i]));
        }
        if s.contains(top) {
            let q = rest.push(top);
            assert forall|x: u64| q.to_set().contains(x) == s.contains(x) by {
                if s.contains(x) && x != top {
                    assert(rest.to_set().contains(x));
                    let i = choose|i: int| 0 <= i < rest.len() && rest[i] == x;
                    assert(q[i] == x);
                }
                if x == top {
                    assert(q[rest.len() as int] == x);
                }
                if q.to_set().contains(x) && x != top {
                    let i = choose|i: int| 0 <= i < q.len() && q[i] == x;
                    assert(rest[i] == x);
                    assert(rest.to_set().contains(x));
                }
            }
            assert(q.to_set() =~= s);
            q
        } else {
            assert(s.remove(top) =~= s);
            rest
        }
    }
}

/// Every set of ids can be listed so: `ascending` lists its members and no others.
pub proof fn lemma_ascending_lists(s: Set<u64>)
    ensures
        strictly_ascending(ascending(s)),
        ascending(s).to_set() == s,
{
    let q = lemma_sorted_below(s, u64::MAX + 1);
    assert(strictly_ascending(q) && q.to_set() == s);
}

impl<V> View for IdMap<V> {
    type V = Map<u64, V>;

    closed spec fn view(&self) -> Map<u64, V> {
        entries_map(self.entries@)
    }
}

/// Position of `id` among the entries, where it is present.
spec fn slot<V>(entries: Seq<(u64, V)>, id: u64) -> int {
    choose|i: int| 0 <= i < entries.len() && entries[i].0 == id
}

spec fn present<V>(entries: Seq<(u64, V)>, id: u64) -> bool {
    exists|i: int| 0 <= i < entries.len() && entries[i].0 == id
}

spec fn entries_map<V>(entries: Seq<(u64, V)>) -> Map<u64, V> {
    Map::new(|id: u64| present(entries, id), |id: u64| entries[slot(entries, id)].1)
}

spec fn keys_of<V>(entries: Seq<(u64, V)>) -> Seq<u64> {
    entries.map_values(|e: (u64, V)| e.0)
}

spec fn keys_ascend<V>(entries: Seq<(u64, V)>) -> bool {
    forall|i: int, j: int| 0 <= i < j < entries.len() ==> entries[i].0 < entries[j].0
}

proof fn lemma_slot<V>(entries: Seq<(u64, V)>, i: int)
    requires
        keys_ascend(entries),
        0 <= i < entries.len(),
    ensures
        present(entries, entries[i].0),
        slot(entries, entries[i].0) == i,
        entries_map(entries).contains_key(entries[i].0),
        entries_map(entries)[entries[i].0] == entries[i].1,
{
    let j = slot(entries, entries[i].0);
    assert(present(entries, entries[i].0));
    assert(entries[j].0 == entries[i].0);
}

impl<V> IdMap<V> {
    /// The keys come in strictly ascending order.
    pub closed spec fn wf(&self) -> bool {
        keys_ascend(self.entries@)
    }

    /// The ids, in the order in which `id_at` counts them.
    pub closed spec fn ids(&self) -> Seq<u64> {
        keys_of(self.entries@)
    }

    /// What `ids` lists: the present ids, ascending, each once.
    pub proof fn lemma_ids(&self)
        requires
            self.wf(),
        ensures
            self@.dom().finite(),
            self@.len() == self.ids().len(),
            strictly_ascending(self.ids()),
            self.ids().to_set() == self@.dom(),
            self.ids() == ascending(self@.dom()),
            forall|i: int| 0 <= i < self.ids().len() ==> self@.contains_key(#[trigger] self.ids()[i]),
            forall|id: u64| #[trigger] self@.contains_key(id) ==> exists|i: int|
                0 <= i < self.ids().len() && self.ids()[i] == id,
    {
        let ids = self.ids();
        assert(strictly_ascending(ids));
        assert forall|id: u64| #[trigger] self@.contains_key(id) implies exists|i: int|
            0 <= i < ids.len() && ids[i] == id by {
            assert(present(self.entries@, id));
            let i = slot(self.entries@, id);
            assert(ids[i] == id);
        }
        assert forall|i: int| 0 <= i < ids.len() implies self@.contains_key(#[trigger] ids[i]) by {
            lemma_slot(self.entries@, i);
        }
        assert(ids.to_set() =~= self@.dom());
        assert(ids.no_duplicates());
        ids.unique_seq_to_set();
        lemma_ascending_of_sorted(ids);
    }

    /// An empty table.
    pub fn new() -> (r: Self)
        ensures
            r.wf(),
            r@ == Map::<u64, V>::empty(),
    {
        let r = IdMap { entries: Vec::new() };
        assert(r@ =~= Map::<u64, V>::empty());
        r
    }

    /// How many ids are present.
    pub fn len(&self) -> (n: usize)
        requires
            self.wf(),
        ensures
            n == self@.len(),
            n == self.ids().len(),
    {
        proof {
            self.lemma_ids();
        }
        self.entries.len()
    }

    /// Where `id` stands, or would be inserted.
    fn find(&self, id: u64) -> (r: (bool, usize))
        requires
            self.wf(),
        ensures
            r.1 <= self.entries@.len(),
            r.0 ==> r.1 < self.entries@.len() && self.entries@[r.1 as int].0 == id,
            r.0 == self@.contains_key(id),
            forall|i: int| 0 <= i < r.1 ==> (#[trigger] self.entries@[i]).0 < id,
            !r.0 ==> forall|i: int|
                r.1 <= i < self.entries@.len() ==> (#[trigger] self.entries@[i]).0 > id,
    {
        let mut lo: usize = 0;
        let mut hi: usize = self.entries.len();
        while lo < hi
            invariant
                0 <= lo <= hi <= self.entries@.len(),
                self.wf(),
                forall|i: int| 0 <= i < lo ==> (#[trigger] self.entries@[i]).0 < id,
                forall|i: int|
                    hi <= i < self.entries@.len() ==> (#[trigger] self.entries@[i]).0 > id,
            decreases hi - lo,
        {
            let mid: usize = lo + (hi - lo) / 2;
            let k: u64 = self.entries[mid].0;
            if k == id {
                proof {
                    lemma_slot(self.entries@, mid as int);
                }
                return (true, mid);
            }
            if k < id {
                lo = mid + 1;
            } else {
                hi = mid;
            }
        }
        (false, lo)
    }

    /// Whether `id` is present.
    pub fn contains(&self, id: u64) -> (b: bool)
        requires
            self.wf(),
        ensures
            b == self@.contains_key(id),
    {
        self.find(id).0
    }

    /// The record of `id`.
    pub fn get(&self, id: u64) -> (r: Option<&V>)
        requires
            self.wf(),
        ensures
            r is Some == self@.contains_key(id),
            r is Some ==> *r->0 == self@[id],
    {
        let (found, i) = self.find(id);
        if found {
            proof {
                lemma_slot(self.entries@, i as int);
            }
            Some(&self.entries[i].1)
        } else {
            None
        }
    }

    /// The record of `id`, to be changed in place.
    pub fn get_mut(&mut self, id: u64) -> (r: Option<&mut V>)
        requires
            old(self).wf(),
        ensures
            final(self).wf(),
            r is Some == old(self)@.contains_key(id),
            r matches Some(v) ==> *v == old(self)@[id] && final(self)@ == old(self)@.insert(
                id,
                *final(v),
            ) && final(self).ids() == old(self).ids(),
            r is None ==> *final(self) == *old(self),
    {
        let (found, i) = self.find(id);
        if found {
            let ghost before = self.entries@;
            proof {
                lemma_slot(before, i as int);
                assert forall|v: V| #![trigger before.update(i as int, (id, v))] keys_ascend(
                    before.update(i as int, (id, v)),
                ) && entries_map(before.update(i as int, (id, v))) == entries_map(before).insert(
                    id,
                    v,
                ) && keys_of(before.update(i as int, (id, v))) == keys_of(before) by {
                    let after = before.update(i as int, (id, v));
                    lemma_update(before, after, i as int);
                }
            }
            let e: &mut (u64, V) = &mut self.entries[i];
            Some(&mut e.1)
        } else {
            None
        }
    }

    /// Sets the record of `id`, new or not.
    pub fn insert(&mut self, id: u64, value: V)
        requires
            old(self).wf(),
        ensures
            final(self).wf(),
            final(self)@ == old(self)@.insert(id, value),
    {
        let (found, i) = self.find(id);
        let ghost before = self.entries@;
        if found {
            self.entries[i] = (id, value);
            proof {
                lemma_update(before, self.entries@, i as int);
            }
        } else {
            self.entries.insert(i, (id, value));
            proof {
                lemma_insert(before, i as int, id, value);
            }
        }
    }

    /// Takes the record of `id` out.
    pub fn remove(&mut self, id: u64) -> (r: Option<V>)
        requires
            old(self).wf(),
        ensures
            final(self).wf(),
            final(self)@ == old(self)@.remove(id),
            r is Some == old(self)@.contains_key(id),
            r is Some ==> r->0 == old(self)@[id],
    {
        let (found, i) = self.find(id);
        let ghost before = self.entries@;
        if found {
            proof {
                lemma_slot(before, i as int);
                lemma_remove(before, i as int);
            }
            let (k, v) = self.entries.remove(i);
            Some(v)
        } else {
            assert(self@ =~= old(self)@.remove(id));
            None
        }
    }

    /// Takes every id from `lo` to `hi` out.
    pub fn remove_range(&mut self, lo: u64, hi: u64)
        requires
            old(self).wf(),
        ensures
            final(self).wf(),
            final(self)@ == old(self)@.remove_keys(Set::new(|k: u64| lo <= k <= hi)),
    {
        let ghost gone = Set::new(|k: u64| lo <= k <= hi);
        let ghost before = self@;
        let mut i: usize = 0;
        while i < self.entries.len()
            invariant
                self.wf(),
                i <= self.entries@.len(),
                gone == Set::new(|k: u64| lo <= k <= hi),
                before == old(self)@,
                self@.remove_keys(gone) == before.remove_keys(gone),
                forall|j: int| 0 <= j < i ==> !gone.contains((#[trigger] self.entries@[j]).0),
            decreases self.entries@.len() - i,
        {
            let k: u64 = self.entries[i].0;
            if lo <= k && k <= hi {
                let ghost mid = self.entries@;
                proof {
                    lemma_slot(mid, i as int);
                    lemma_remove(mid, i as int);
                }
                let _ = self.entries.remove(i);
                assert(self@ == entries_map(mid).remove(k));
                assert(self@.remove_keys(gone) =~= entries_map(mid).remove_keys(gone));
            } else {
                i = i + 1;
            }
        }
        assert(self@.remove_keys(gone) =~= self@) by {
            assert forall|k: u64| self@.contains_key(k) implies !gone.contains(k) by {
                let j = slot(self.entries@, k);
                assert(present(self.entries@, k));
                assert(self.entries@[j].0 == k);
            }
        }
    }

    /// The id in place `i` of the ascending order.
    pub fn id_at(&self, i: usize) -> (id: u64)
        requires
            self.wf(),
            i < self.ids().len(),
        ensures
            id == self.ids()[i as int],
            self@.contains_key(id),
    {
        proof {
            lemma_slot(self.entries@, i as int);
        }
        self.entries[i].0
    }

    /// The record of the id in place `i` of the ascending order.
    pub fn value_at(&self, i: usize) -> (v: &V)
        requires
            self.wf(),
            i < self.ids().len(),
        ensures
            self@.contains_key(self.ids()[i as int]),
            *v == self@[self.ids()[i as int]],
    {
        proof {
            lemma_slot(self.entries@, i as int);
        }
        &self.entries[i].1
    }
}

proof fn lemma_update<V>(before: Seq<(u64, V)>, after: Seq<(u64, V)>, i: int)
    requires
        keys_ascend(before),
        0 <= i < before.len(),
        after == before.update(i, (before[i].0, after[i].1)),
    ensures
        keys_ascend(after),
        entries_map(after) == entries_map(before).insert(before[i].0, after[i].1),
        keys_of(after) == keys_of(before),
{
    assert(keys_ascend(after)) by {
        assert forall|a: int, b: int| 0 <= a < b < after.len() implies after[a].0 < after[b].0 by {
            assert(before[a].0 < before[b].0);
        }
    }
    let want = entries_map(before).insert(before[i].0, after[i].1);
    assert forall|k: u64| entries_map(after).contains_key(k) == want.contains_key(k) by {
        if present(before, k) {
            let j = slot(before, k);
            assert(after[j].0 == k);
        }
        if present(after, k) {
            let j = slot(after, k);
            assert(before[j].0 == k);
        }
        lemma_slot(after, i);
    }
    assert forall|k: u64| entries_map(after).contains_key(k) implies entries_map(after)[k]
        == want[k] by {
        let j = slot(after, k);
        lemma_slot(after, j);
        lemma_slot(before, j);
    }
    assert(entries_map(after) =~= want);
    assert(keys_of(after) =~= keys_of(before));
}

proof fn lemma_insert<V>(before: Seq<(u64, V)>, i: int, id: u64, value: V)
    requires
        keys_ascend(before),
        0 <= i <= before.len(),
        forall|j: int| 0 <= j < i ==> (#[trigger] before[j]).0 < id,
        forall|j: int| i <= j < before.len() ==> (#[trigger] before[j]).0 > id,
    ensures
        keys_ascend(before.insert(i, (id, value))),
        entries_map(before.insert(i, (id, value))) == entries_map(before).insert(id, value),
{
    let after = before.insert(i, (id, value));
    let want = entries_map(before).insert(id, value);
    assert(keys_ascend(after));
    lemma_slot(after, i);
    assert forall|k: u64| #[trigger] present(after, k) == (k == id || present(before, k)) by {
        if present(before, k) {
            let j = slot(before, k);
            assert(after[if j < i { j } else { j + 1 }].0 == k);
        }
        if k != id && present(after, k) {
            let j = slot(after, k);
            assert(before[if j < i { j } else { j - 1 }].0 == k);
        }
    }
    assert forall|k: u64| present(after, k) implies entries_map(after)[k] == #[trigger] want[k] by {
        if k != id {
            let j = slot(before, k);
            lemma_slot(after, if j < i { j } else { j + 1 });
        }
    }
    assert(entries_map(after) =~= want);
}

proof fn lemma_remove<V>(before: Seq<(u64, V)>, i: int)
    requires
        keys_ascend(before),
        0 <= i < before.len(),
    ensures
        keys_ascend(before.remove(i)),
        entries_map(before.remove(i)) == entries_map(before).remove(before[i].0),
{
    let after = before.remove(i);
    let want = entries_map(before).remove(before[i].0);
    assert(keys_ascend(after));
    assert forall|k: u64| #[trigger] present(after, k) == (k != before[i].0 && present(before, k)) by {
        if k != before[i].0 && present(before, k) {
            let j = slot(before, k);
            assert(after[if j < i { j } else { j - 1 }].0 == k);
        }
        if present(after, k) {
            let j = slot(after, k);
            assert(before[if j < i { j } else { j + 1 }].0 == k);
        }
    }
    assert forall|k: u64| present(after, k) implies entries_map(after)[k] == #[trigger] want[k] by {
        let j = slot(before, k);
        lemma_slot(after, if j < i { j } else { j - 1 });
    }
    assert(entries_map(after) =~= want);
}

} // verus!
