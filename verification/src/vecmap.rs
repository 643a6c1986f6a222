//! A small association map from `u32` keys to values, kept as a vector
//! sorted by key. It stands in for an ordered tree map: lookups are linear,
//! which is fine for the handful of axes a device exposes, and iteration
//! visits keys in ascending order.

use vstd::prelude::*;

verus! {

/// Whether the keys of `s` are strictly increasing.
pub open spec fn entries_sorted<V>(s: Seq<(u32, V)>) -> bool {
    forall|i: int, j: int| 0 <= i < j < s.len() ==> (#[trigger] s[i]).0 < (#[trigger] s[j]).0
}

/// The value `s` associates with `k`, by first match.
pub open spec fn spec_lookup<V>(s: Seq<(u32, V)>, k: u32) -> Option<V>
    decreases s.len(),
{
    if s.len() == 0 {
        None
    } else if s[0].0 == k {
        Some(s[0].1)
    } else {
        spec_lookup(s.drop_first(), k)
    }
}

/// `s` with `k` bound to `v`: an existing binding of `k` is replaced,
/// otherwise `(k, v)` enters at its sorted position.
pub open spec fn spec_insert<V>(s: Seq<(u32, V)>, k: u32, v: V) -> Seq<(u32, V)>
    decreases s.len(),
{
    if s.len() == 0 {
        seq![(k, v)]
    } else if s[0].0 < k {
        seq![s[0]] + spec_insert(s.drop_first(), k, v)
    } else if s[0].0 == k {
        seq![(k, v)] + s.drop_first()
    } else {
        seq![(k, v)] + s
    }
}

/// Every key of the inserted sequence is `k` or a key of `s`.
proof fn lemma_insert_keys<V>(s: Seq<(u32, V)>, k: u32, v: V)
    ensures
        forall|i: int|
            0 <= i < spec_insert(s, k, v).len() ==> (#[trigger] spec_insert(s, k, v)[i]).0 == k
                || (exists|j: int| 0 <= j < s.len() && (#[trigger] s[j]).0 == spec_insert(s, k, v)[i].0),
    decreases s.len(),
{
    if s.len() == 0 {
    } else if s[0].0 < k {
        lemma_insert_keys(s.drop_first(), k, v);
        assert forall|i: int| 0 <= i < spec_insert(s, k, v).len() implies (#[trigger] spec_insert(
            s,
            k,
            v,
        )[i]).0 == k || (exists|j: int|
            0 <= j < s.len() && (#[trigger] s[j]).0 == spec_insert(s, k, v)[i].0) by {
            if i == 0 {
                assert(s[0].0 == spec_insert(s, k, v)[0].0);
            } else {
                let e = spec_insert(s.drop_first(), k, v)[i - 1];
                assert(spec_insert(s, k, v)[i] == e);
                if e.0 != k {
                    let j = choose|j: int|
                        0 <= j < s.drop_first().len() && (#[trigger] s.drop_first()[j]).0 == e.0;
                    assert(s[j + 1].0 == e.0);
                }
            }
        }
    } else {
    }
}

/// A successful lookup names an entry that is really there.
pub proof fn lemma_lookup_in_entries<V>(s: Seq<(u32, V)>, k: u32)
    ensures
        spec_lookup(s, k) matches Some(v) ==> exists|j: int|
            0 <= j < s.len() && #[trigger] s[j] == (k, v),
    decreases s.len(),
{
    if s.len() > 0 {
        if s[0].0 == k {
            assert(s[0] == (k, s[0].1));
        } else {
            lemma_lookup_in_entries(s.drop_first(), k);
            if spec_lookup(s, k) is Some {
                let v = spec_lookup(s, k).unwrap();
                let j = choose|j: int| 0 <= j < s.drop_first().len() && #[trigger] s.drop_first()[j] == (k, v);
                assert(s[j + 1] == (k, v));
            }
        }
    }
}

/// Every entry of the inserted sequence is the new binding or one of `s`.
pub proof fn lemma_insert_entries<V>(s: Seq<(u32, V)>, k: u32, v: V)
    ensures
        forall|i: int|
            0 <= i < spec_insert(s, k, v).len() ==> #[trigger] spec_insert(s, k, v)[i] == (k, v)
                || (exists|j: int| 0 <= j < s.len() && #[trigger] s[j] == spec_insert(s, k, v)[i]),
    decreases s.len(),
{
    if s.len() == 0 {
    } else if s[0].0 < k {
        lemma_insert_entries(s.drop_first(), k, v);
        assert forall|i: int| 0 <= i < spec_insert(s, k, v).len() implies #[trigger] spec_insert(
            s,
            k,
            v,
        )[i] == (k, v) || (exists|j: int|
            0 <= j < s.len() && #[trigger] s[j] == spec_insert(s, k, v)[i]) by {
            if i == 0 {
                assert(s[0] == spec_insert(s, k, v)[0]);
            } else {
                let e = spec_insert(s.drop_first(), k, v)[i - 1];
                assert(spec_insert(s, k, v)[i] == e);
                if e != (k, v) {
                    let j = choose|j: int|
                        0 <= j < s.drop_first().len() && #[trigger] s.drop_first()[j] == e;
                    assert(s[j + 1] == e);
                }
            }
        }
    } else {
    }
}

/// Insertion keeps the keys strictly sorted.
proof fn lemma_insert_sorted<V>(s: Seq<(u32, V)>, k: u32, v: V)
    requires
        entries_sorted(s),
    ensures
        entries_sorted(spec_insert(s, k, v)),
    decreases s.len(),
{
    if s.len() == 0 {
    } else if s[0].0 < k {
        assert(entries_sorted(s.drop_first()));
        lemma_insert_sorted(s.drop_first(), k, v);
        lemma_insert_keys(s.drop_first(), k, v);
        let t = spec_insert(s, k, v);
        assert forall|i: int, j: int| 0 <= i < j < t.len() implies (#[trigger] t[i]).0
            < (#[trigger] t[j]).0 by {
            if i == 0 {
                let e = spec_insert(s.drop_first(), k, v)[j - 1];
                assert(t[j] == e);
                if e.0 != k {
                    let j2 = choose|j2: int|
                        0 <= j2 < s.drop_first().len() && (#[trigger] s.drop_first()[j2]).0 == e.0;
                    assert(s[0].0 < s[j2 + 1].0);
                }
            } else {
                assert(t[i] == spec_insert(s.drop_first(), k, v)[i - 1]);
                assert(t[j] == spec_insert(s.drop_first(), k, v)[j - 1]);
            }
        }
    } else {
    }
}

/// Looking a key up after an insertion: the inserted key maps to the new
/// value, every other key is untouched.
pub proof fn lemma_lookup_insert<V>(s: Seq<(u32, V)>, k: u32, v: V, k2: u32)
    requires
        entries_sorted(s),
    ensures
        spec_lookup(spec_insert(s, k, v), k2) == if k2 == k {
            Some(v)
        } else {
            spec_lookup(s, k2)
        },
    decreases s.len(),
{
    if s.len() == 0 {
        let t = spec_insert(s, k, v);
        assert(t =~= seq![(k, v)]);
        assert(t.drop_first() =~= Seq::<(u32, V)>::empty());
        if k2 != k {
            assert(spec_lookup(t, k2) == spec_lookup(t.drop_first(), k2));
            assert(spec_lookup(t.drop_first(), k2) is None);
        }
    } else if s[0].0 < k {
        assert(entries_sorted(s.drop_first()));
        lemma_lookup_insert(s.drop_first(), k, v, k2);
        let t = spec_insert(s, k, v);
        assert(t.drop_first() =~= spec_insert(s.drop_first(), k, v));
        assert(t[0] == s[0]);
        if k2 == s[0].0 {
            assert(spec_lookup(t, k2) == Some(s[0].1));
            assert(spec_lookup(s, k2) == Some(s[0].1));
        } else {
            assert(spec_lookup(t, k2) == spec_lookup(t.drop_first(), k2));
            assert(spec_lookup(s, k2) == spec_lookup(s.drop_first(), k2));
        }
    } else if s[0].0 == k {
        let t = spec_insert(s, k, v);
        assert(t.drop_first() =~= s.drop_first());
        assert(t[0] == (k, v));
        if k2 != k {
            assert(spec_lookup(t, k2) == spec_lookup(t.drop_first(), k2));
            assert(spec_lookup(s, k2) == spec_lookup(s.drop_first(), k2));
        }
    } else {
        let t = spec_insert(s, k, v);
        assert(t.drop_first() =~= s);
        assert(t[0] == (k, v));
        if k2 != k {
            assert(spec_lookup(t, k2) == spec_lookup(t.drop_first(), k2));
        }
    }
}

/// How an insertion rewrites the entry sequence, at the position the sorted
/// order assigns to `k`.
proof fn lemma_insert_split<V>(s: Seq<(u32, V)>, k: u32, v: V, idx: int)
    requires
        entries_sorted(s),
        0 <= idx <= s.len(),
        forall|j: int| 0 <= j < idx ==> (#[trigger] s[j]).0 < k,
        idx < s.len() ==> s[idx].0 >= k,
    ensures
        idx < s.len() && s[idx].0 == k ==> spec_insert(s, k, v) =~= s.take(idx) + seq![(k, v)]
            + s.skip(idx + 1),
        !(idx < s.len() && s[idx].0 == k) ==> spec_insert(s, k, v) =~= s.take(idx) + seq![(k, v)]
            + s.skip(idx),
    decreases idx,
{
    if idx == 0 {
        if s.len() > 0 && s[0].0 == k {
            assert(spec_insert(s, k, v) =~= seq![(k, v)] + s.drop_first());
            assert(s.skip(1) =~= s.drop_first());
        }
    } else {
        assert(entries_sorted(s.drop_first()));
        lemma_insert_split(s.drop_first(), k, v, idx - 1);
        assert(s.drop_first().take(idx - 1) =~= s.take(idx).drop_first());
        assert(s.drop_first().skip(idx - 1) =~= s.skip(idx));
        if idx < s.len() && s[idx].0 == k {
            assert(s.drop_first().skip(idx) =~= s.skip(idx + 1));
            assert(spec_insert(s, k, v) =~= seq![s[0]] + (s.drop_first().take(idx - 1) + seq![
                (k, v),
            ] + s.drop_first().skip(idx)));
        } else {
            assert(spec_insert(s, k, v) =~= seq![s[0]] + (s.drop_first().take(idx - 1) + seq![
                (k, v),
            ] + s.drop_first().skip(idx - 1)));
        }
    }
}

/// An association map from `u32` keys to values, sorted by key.
#[derive(Clone, Debug)]
pub struct VecMap<V> {
    entries: Vec<(u32, V)>,
}

impl<V> VecMap<V> {
    /// The entries as specifications see them.
    pub closed spec fn view(self) -> Seq<(u32, V)> {
        self.entries@
    }

    /// The map's invariant: keys strictly increasing.
    pub open spec fn wf(self) -> bool {
        entries_sorted(self.view())
    }

    /// An empty map.
    pub fn new() -> (r: VecMap<V>)
        ensures
            r.view() =~= Seq::<(u32, V)>::empty(),
            r.wf(),
    {
        VecMap { entries: Vec::new() }
    }

    /// How many keys are bound.
    pub fn len(&self) -> (r: usize)
        ensures
            r == self.view().len(),
    {
        self.entries.len()
    }

    /// The entry at iteration position `i` (ascending key order).
    pub fn entry_at(&self, i: usize) -> (r: &(u32, V))
        requires
            i < self.view().len(),
        ensures
            *r == self.view()[i as int],
    {
        &self.entries[i]
    }

    /// Removes and returns the entry with the smallest key.
    pub fn remove_first(&mut self) -> (r: (u32, V))
        requires
            old(self).view().len() > 0,
        ensures
            r == old(self).view()[0],
            final(self).view() == old(self).view().drop_first(),
            old(self).wf() ==> final(self).wf(),
    {
        let r = self.entries.remove(0);
        proof {
            assert(self.view() =~= old(self).view().drop_first());
        }
        r
    }

    /// Appends an entry whose key exceeds every present key.
    pub fn push_back(&mut self, k: u32, v: V)
        requires
            forall|j: int| 0 <= j < old(self).view().len() ==> (#[trigger] old(self).view()[j]).0 < k,
        ensures
            final(self).view() == old(self).view().push((k, v)),
            old(self).wf() ==> final(self).wf(),
    {
        self.entries.push((k, v));
    }

    /// The value bound to `k`, if any.
    pub fn get(&self, k: u32) -> (r: Option<&V>)
        ensures
            match r {
                Some(v) => spec_lookup(self.view(), k) == Some(*v),
                None => spec_lookup(self.view(), k) is None,
            },
    {
        let n = self.entries.len();
        let mut i: usize = 0;
        proof {
            assert(self.view().skip(0) =~= self.view());
        }
        while i < n
            invariant
                0 <= i <= n,
                n == self.view().len(),
                spec_lookup(self.view(), k) == spec_lookup(self.view().skip(i as int), k),
            decreases n - i,
        {
            proof {
                assert(self.view().skip(i as int).drop_first() =~= self.view().skip(i as int + 1));
            }
            if self.entries[i].0 == k {
                assert(self.view().skip(i as int)[0] == self.view()[i as int]);
                return Some(&self.entries[i].1);
            }
            assert(self.view().skip(i as int)[0] == self.view()[i as int]);
            i += 1;
        }
        None
    }

    /// Binds `k` to `v`, replacing any existing binding.
    pub fn insert(&mut self, k: u32, v: V)
        requires
            old(self).wf(),
        ensures
            final(self).view() == spec_insert(old(self).view(), k, v),
            final(self).wf(),
    {
        let ghost s0 = self.view();
        let n = self.entries.len();
        let mut idx: usize = 0;
        while idx < n && self.entries[idx].0 < k
            invariant
                0 <= idx <= n,
                n == self.view().len(),
                self.view() == s0,
                forall|j: int| 0 <= j < idx ==> (#[trigger] s0[j]).0 < k,
            decreases n - idx,
        {
            idx += 1;
        }
        proof {
            lemma_insert_split(s0, k, v, idx as int);
            lemma_insert_sorted(s0, k, v);
        }
        if idx < n && self.entries[idx].0 == k {
            self.entries[idx] = (k, v);
            proof {
                assert(final(self).view() =~= s0.take(idx as int) + seq![(k, v)] + s0.skip(
                    idx as int + 1,
                ));
            }
        } else {
            self.entries.insert(idx, (k, v));
            proof {
                assert(final(self).view() =~= s0.take(idx as int) + seq![(k, v)] + s0.skip(
                    idx as int,
                ));
            }
        }
    }
}

} // verus!
