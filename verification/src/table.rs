//! A small keyed table: entries are held in insertion order and no key occurs
//! twice, so the table stands for a finite map.

use vstd::prelude::*;

verus! {

/// Whether no key occurs twice in `keys`.
pub open spec fn distinct<K>(keys: Seq<K>) -> bool {
    forall|i: int, j: int| 0 <= i < j < keys.len() ==> keys[i] != keys[j]
}

/// Whether `k` occurs in `keys`.
pub open spec fn occurs<K>(keys: Seq<K>, k: K) -> bool {
    exists|i: int| 0 <= i < keys.len() && keys[i] == k
}

/// A place at which `k` occurs in `keys`, where it occurs at all.
pub open spec fn place<K>(keys: Seq<K>, k: K) -> int {
    choose|i: int| 0 <= i < keys.len() && keys[i] == k
}

/// The map that sends each key of `keys` to the value at the same place of
/// `vals`.
pub open spec fn as_map<K, V>(keys: Seq<K>, vals: Seq<V>) -> Map<K, V> {
    Map::new(|k: K| occurs(keys, k), |k: K| vals[place(keys, k)])
}

/// Each place of a table with distinct keys is found again by its key.
pub proof fn lemma_entry<K, V>(keys: Seq<K>, vals: Seq<V>, i: int)
    requires
        distinct(keys),
        keys.len() == vals.len(),
        0 <= i < keys.len(),
    ensures
        occurs(keys, keys[i]),
        place(keys, keys[i]) == i,
        as_map(keys, vals).contains_key(keys[i]),
        as_map(keys, vals)[keys[i]] == vals[i],
{
    assert(occurs(keys, keys[i]));
    let p = place(keys, keys[i]);
    assert(0 <= p < keys.len() && keys[p] == keys[i]);
    if p < i {
        assert(keys[p] != keys[i]);
    } else if i < p {
        assert(keys[i] != keys[p]);
    }
}

/// Appending an entry under a key that does not occur yet inserts it.
pub proof fn lemma_push<K, V>(keys: Seq<K>, vals: Seq<V>, k: K, v: V)
    requires
        distinct(keys),
        keys.len() == vals.len(),
        !occurs(keys, k),
    ensures
        distinct(keys.push(k)),
        as_map(keys.push(k), vals.push(v)) == as_map(keys, vals).insert(k, v),
{
    let keys2 = keys.push(k);
    let vals2 = vals.push(v);
    assert forall|i: int, j: int| 0 <= i < j < keys2.len() implies keys2[i] != keys2[j] by {
        if j == keys.len() {
            if keys[i] == k {
                assert(occurs(keys, k));
            }
        }
    }
    assert forall|x: K| #[trigger] occurs(keys2, x) <==> (x == k || occurs(keys, x)) by {
        if occurs(keys2, x) {
            let p = place(keys2, x);
            if p < keys.len() {
                assert(keys[p] == x);
            }
        }
        if x == k {
            assert(keys2[keys.len() as int] == k);
        }
        if occurs(keys, x) {
            let p = place(keys, x);
            assert(keys2[p] == x);
        }
    }
    assert forall|x: K| occurs(keys2, x) implies #[trigger] as_map(keys2, vals2)[x] == as_map(
        keys,
        vals,
    ).insert(k, v)[x] by {
        let p = place(keys2, x);
        lemma_entry(keys2, vals2, p);
        if p < keys.len() {
            lemma_entry(keys, vals, p);
        }
    }
    assert(as_map(keys2, vals2) =~= as_map(keys, vals).insert(k, v));
}

/// Replacing the value at a place replaces the value under the key there.
pub proof fn lemma_update<K, V>(keys: Seq<K>, vals: Seq<V>, i: int, v: V)
    requires
        distinct(keys),
        keys.len() == vals.len(),
        0 <= i < keys.len(),
    ensures
        as_map(keys, vals.update(i, v)) == as_map(keys, vals).insert(keys[i], v),
{
    let vals2 = vals.update(i, v);
    lemma_entry(keys, vals, i);
    assert forall|x: K| occurs(keys, x) implies #[trigger] as_map(keys, vals2)[x] == as_map(
        keys,
        vals,
    ).insert(keys[i], v)[x] by {
        let p = place(keys, x);
        lemma_entry(keys, vals, p);
        lemma_entry(keys, vals2, p);
    }
    assert(as_map(keys, vals2) =~= as_map(keys, vals).insert(keys[i], v));
}

/// Taking the entry at a place out removes its key.
pub proof fn lemma_remove<K, V>(keys: Seq<K>, vals: Seq<V>, i: int)
    requires
        distinct(keys),
        keys.len() == vals.len(),
        0 <= i < keys.len(),
    ensures
        distinct(keys.remove(i)),
        as_map(keys.remove(i), vals.remove(i)) == as_map(keys, vals).remove(keys[i]),
{
    let keys2 = keys.remove(i);
    let vals2 = vals.remove(i);
    assert forall|a: int, b: int| 0 <= a < b < keys2.len() implies keys2[a] != keys2[b] by {
        let a0 = if a < i { a } else { a + 1 };
        let b0 = if b < i { b } else { b + 1 };
        assert(keys2[a] == keys[a0] && keys2[b] == keys[b0]);
    }
    assert forall|x: K| #[trigger] occurs(keys2, x) <==> (x != keys[i] && occurs(keys, x)) by {
        if occurs(keys2, x) {
            let p = place(keys2, x);
            let p0 = if p < i { p } else { p + 1 };
            assert(keys[p0] == x);
            if x == keys[i] {
                if p0 < i {
                    assert(keys[p0] != keys[i]);
                } else {
                    assert(keys[i] != keys[p0]);
                }
            }
        }
        if x != keys[i] && occurs(keys, x) {
            let p = place(keys, x);
            let p2 = if p < i { p } else { p - 1 };
            assert(keys2[p2] == x);
        }
    }
    assert forall|x: K| occurs(keys2, x) implies #[trigger] as_map(keys2, vals2)[x] == as_map(
        keys,
        vals,
    ).remove(keys[i])[x] by {
        let p = place(keys2, x);
        lemma_entry(keys2, vals2, p);
        let p0 = if p < i { p } else { p + 1 };
        lemma_entry(keys, vals, p0);
    }
    assert(as_map(keys2, vals2) =~= as_map(keys, vals).remove(keys[i]));
}

/// A table of entries with distinct keys.
pub struct Table<K, V> {
    pub keys: Vec<K>,
    pub vals: Vec<V>,
}

impl<K, V> View for Table<K, V> {
    type V = Map<K, V>;

    /// The finite map that the table stands for.
    open spec fn view(&self) -> Map<K, V> {
        as_map(self.keys@, self.vals@)
    }
}

impl<K: Copy, V: Copy> Table<K, V> {
    /// Keys and values go in pairs, and no key occurs twice.
    pub open spec fn wf(&self) -> bool {
        &&& self.keys@.len() == self.vals@.len()
        &&& distinct(self.keys@)
    }

    /// The empty table.
    pub fn new() -> (t: Self)
        ensures
            t.wf(),
            t@ == Map::<K, V>::empty(),
            t.keys@.len() == 0,
    {
        let t = Table { keys: Vec::new(), vals: Vec::new() };
        assert(t@ =~= Map::<K, V>::empty());
        t
    }

    /// The number of entries.
    pub fn len(&self) -> (n: usize)
        requires
            self.wf(),
        ensures
            n == self.keys@.len(),
    {
        self.keys.len()
    }

    /// The key at place `i`.
    pub fn key_at(&self, i: usize) -> (k: K)
        requires
            self.wf(),
            i < self.keys@.len(),
        ensures
            k == self.keys@[i as int],
            self@.contains_key(k),
    {
        proof {
            lemma_entry(self.keys@, self.vals@, i as int);
        }
        self.keys[i]
    }

    /// The value at place `i`, which is the value under the key there.
    pub fn value_at(&self, i: usize) -> (v: V)
        requires
            self.wf(),
            i < self.keys@.len(),
        ensures
            v == self.vals@[i as int],
            self@.contains_key(self.keys@[i as int]),
            v == self@[self.keys@[i as int]],
    {
        proof {
            lemma_entry(self.keys@, self.vals@, i as int);
        }
        self.vals[i]
    }

    /// Replaces the value at place `i`.
    pub fn set_at(&mut self, i: usize, v: V)
        requires
            old(self).wf(),
            i < old(self).keys@.len(),
        ensures
            final(self).wf(),
            final(self).keys@ == old(self).keys@,
            final(self)@ == old(self)@.insert(old(self).keys@[i as int], v),
    {
        proof {
            lemma_update(self.keys@, self.vals@, i as int, v);
        }
        self.vals.set(i, v);
    }

    /// Adds an entry under a key that the table does not hold yet.
    pub fn insert_new(&mut self, k: K, v: V)
        requires
            old(self).wf(),
            !old(self)@.contains_key(k),
        ensures
            final(self).wf(),
            final(self)@ == old(self)@.insert(k, v),
    {
        proof {
            lemma_push(self.keys@, self.vals@, k, v);
        }
        self.keys.push(k);
        self.vals.push(v);
    }

    /// Takes the entry at place `i` out.
    pub fn remove_at(&mut self, i: usize)
        requires
            old(self).wf(),
            i < old(self).keys@.len(),
        ensures
            final(self).wf(),
            final(self)@ == old(self)@.remove(old(self).keys@[i as int]),
    {
        proof {
            lemma_remove(self.keys@, self.vals@, i as int);
        }
        self.keys.remove(i);
        self.vals.remove(i);
    }

    /// A copy of the table, entry by entry.
    pub fn duplicate(&self) -> (t: Self)
        requires
            self.wf(),
        ensures
            t.wf(),
            t.keys@ == self.keys@,
            t.vals@ == self.vals@,
            t@ == self@,
    {
        let mut t = Table { keys: Vec::new(), vals: Vec::new() };
        let n = self.keys.len();
        let mut i: usize = 0;
        while i < n
            invariant
                self.wf(),
                n == self.keys@.len(),
                i <= n,
                t.keys@ == self.keys@.subrange(0, i as int),
                t.vals@ == self.vals@.subrange(0, i as int),
            decreases n - i,
        {
            t.keys.push(self.keys[i]);
            t.vals.push(self.vals[i]);
            i += 1;
            assert(t.keys@ =~= self.keys@.subrange(0, i as int));
            assert(t.vals@ =~= self.vals@.subrange(0, i as int));
        }
        assert(t.keys@ =~= self.keys@);
        assert(t.vals@ =~= self.vals@);
        t
    }
}

} // verus!
