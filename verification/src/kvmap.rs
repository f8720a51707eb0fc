//! A small association map with `String` keys, kept in insertion order.
//!
//! The wire format carries its maps as JSON objects, so an ordered list of
//! pairs is the faithful model: rendering walks the entries in order, and
//! upserts replace in place. Lookups take the first match, which is the only
//! match while the keys are distinct — every constructor in this crate keeps
//! them distinct.

use vstd::prelude::*;

verus! {

/// First-match lookup among key/value pairs.
pub open spec fn kv_get<T>(entries: Seq<(Seq<char>, T)>, key: Seq<char>) -> Option<T>
    decreases entries.len(),
{
    if entries.len() == 0 {
        None
    } else if entries[0].0 == key {
        Some(entries[0].1)
    } else {
        kv_get(entries.skip(1), key)
    }
}

/// Upsert: replaces the value in place where the key stands, else appends.
pub open spec fn kv_put<T>(entries: Seq<(Seq<char>, T)>, key: Seq<char>, val: T) -> Seq<
    (Seq<char>, T),
>
    decreases entries.len(),
{
    if entries.len() == 0 {
        seq![(key, val)]
    } else if entries[0].0 == key {
        seq![(key, val)] + entries.skip(1)
    } else {
        seq![entries[0]] + kv_put(entries.skip(1), key, val)
    }
}

/// No key occurs twice.
pub open spec fn kv_distinct<T>(entries: Seq<(Seq<char>, T)>) -> bool {
    forall|i: int, j: int| 0 <= i < j < entries.len() ==> (#[trigger] entries[i]).0 != (
    #[trigger] entries[j]).0
}

#[derive(Debug, Clone)]
pub struct KvMap<V> {
    entries: Vec<(String, V)>,
}

impl<V: View> View for KvMap<V> {
    type V = Seq<(Seq<char>, V::V)>;

    closed spec fn view(&self) -> Seq<(Seq<char>, V::V)> {
        self.entries@.map_values(|p: (String, V)| (p.0@, p.1@))
    }
}

impl<V: View> KvMap<V> {
    pub fn new() -> (r: KvMap<V>)
        ensures
            r@ == Seq::<(Seq<char>, V::V)>::empty(),
    {
        let r = KvMap { entries: Vec::new() };
        proof {
            assert(r@ =~= Seq::<(Seq<char>, V::V)>::empty());
        }
        r
    }

    pub fn len(&self) -> (r: usize)
        ensures
            r == self@.len(),
    {
        self.entries.len()
    }

    pub fn is_empty(&self) -> (r: bool)
        ensures
            r == (self@.len() == 0),
    {
        self.entries.len() == 0
    }

    /// The entries, in order. The view is exactly their view, pair by pair.
    pub fn pairs(&self) -> (r: &Vec<(String, V)>)
        ensures
            r@.len() == self@.len(),
            forall|i: int| 0 <= i < r@.len() ==> (#[trigger] r@[i]).0@ == self@[i].0 && r@[i].1@
                == self@[i].1,
    {
        &self.entries
    }

    /// The value under `key`, if the key is present.
    pub fn get<'a>(&'a self, key: &str) -> (r: Option<&'a V>)
        ensures
            match r {
                Some(v) => kv_get(self@, key@) == Some(v@),
                None => kv_get(self@, key@) is None,
            },
    {
        let k = String::from_str(key);
        let n = self.entries.len();
        let mut i: usize = 0;
        proof {
            assert(self@.skip(0) =~= self@);
        }
        while i < n
            invariant
                i <= n,
                n == self.entries@.len(),
                k@ == key@,
                kv_get(self@, key@) == kv_get(self@.skip(i as int), key@),
            decreases n - i,
        {
            proof {
                assert(self@.skip(i as int)[0] == self@[i as int]);
                assert(self@.skip(i as int).skip(1) =~= self@.skip(i + 1));
            }
            if self.entries[i].0 == k {
                return Some(&self.entries[i].1);
            }
            i = i + 1;
        }
        proof {
            assert(self@.skip(n as int) =~= Seq::<(Seq<char>, V::V)>::empty());
        }
        None
    }

    /// Upserts `key`: the stored entries become `kv_put` of the old ones.
    pub fn insert(&mut self, key: String, val: V)
        ensures
            final(self)@ == kv_put(old(self)@, key@, val@),
    {
        let ghost m = self@;
        let ghost kk = key@;
        let ghost vv = val@;
        let n = self.entries.len();
        let mut i: usize = 0;
        while i < n
            invariant
                i <= n,
                n == self.entries@.len(),
                self@ == m,
                m == old(self)@,
                kk == key@,
                vv == val@,
                forall|j: int| 0 <= j < i ==> (#[trigger] m[j]).0 != kk,
            decreases n - i,
        {
            if self.entries[i].0 == key {
                self.entries.set(i, (key, val));
                proof {
                    assert(self@ =~= m.update(i as int, (kk, vv)));
                    lemma_kv_put_found(m, kk, vv, i as int);
                }
                return ;
            }
            i = i + 1;
        }
        self.entries.push((key, val));
        proof {
            assert(self@ =~= m.push((kk, vv)));
            lemma_kv_put_missing(m, kk, vv);
        }
    }
}

proof fn lemma_kv_put_found<T>(m: Seq<(Seq<char>, T)>, key: Seq<char>, val: T, i: int)
    requires
        0 <= i < m.len(),
        m[i].0 == key,
        forall|j: int| 0 <= j < i ==> (#[trigger] m[j]).0 != key,
    ensures
        kv_put(m, key, val) == m.update(i, (key, val)),
    decreases i,
{
    if i == 0 {
        assert(kv_put(m, key, val) == seq![(key, val)] + m.skip(1));
        assert(seq![(key, val)] + m.skip(1) =~= m.update(0, (key, val)));
    } else {
        assert(m[0].0 != key);
        assert(m.skip(1)[i - 1] == m[i]);
        assert(forall|j: int| 0 <= j < i - 1 ==> (#[trigger] m.skip(1)[j]).0 != key);
        lemma_kv_put_found(m.skip(1), key, val, i - 1);
        assert(kv_put(m, key, val) == seq![m[0]] + kv_put(m.skip(1), key, val));
        assert(seq![m[0]] + m.skip(1).update(i - 1, (key, val)) =~= m.update(i, (key, val)));
    }
}

/// Upserting an absent key appends the pair.
pub proof fn lemma_kv_put_missing<T>(m: Seq<(Seq<char>, T)>, key: Seq<char>, val: T)
    requires
        forall|j: int| 0 <= j < m.len() ==> (#[trigger] m[j]).0 != key,
    ensures
        kv_put(m, key, val) == m.push((key, val)),
    decreases m.len(),
{
    if m.len() == 0 {
        assert(kv_put(m, key, val) =~= m.push((key, val)));
    } else {
        assert(m[0].0 != key);
        assert(forall|j: int| 0 <= j < m.skip(1).len() ==> (#[trigger] m.skip(1)[j]).0 != key);
        lemma_kv_put_missing(m.skip(1), key, val);
        assert(kv_put(m, key, val) == seq![m[0]] + m.skip(1).push((key, val)));
        assert(seq![m[0]] + m.skip(1).push((key, val)) =~= m.push((key, val)));
    }
}

/// Lookup distributes over concatenation: the left entries are searched
/// first.
pub proof fn lemma_kv_get_concat<T>(a: Seq<(Seq<char>, T)>, b: Seq<(Seq<char>, T)>, key: Seq<char>)
    ensures
        kv_get(a + b, key) == match kv_get(a, key) {
            Option::Some(v) => Option::Some(v),
            Option::None => kv_get(b, key),
        },
    decreases a.len(),
{
    if a.len() == 0 {
        assert(a + b =~= b);
        assert(kv_get(a, key) is None);
    } else {
        lemma_kv_get_concat(a.skip(1), b, key);
        assert((a + b)[0] == a[0]);
        assert((a + b).skip(1) =~= a.skip(1) + b);
        assert(kv_get(a + b, key) == if a[0].0 == key {
            Option::Some(a[0].1)
        } else {
            kv_get(a.skip(1) + b, key)
        });
    }
}

/// `kv_put` keeps the keys distinct.
pub proof fn lemma_kv_put_distinct<T>(m: Seq<(Seq<char>, T)>, key: Seq<char>, val: T)
    requires
        kv_distinct(m),
    ensures
        kv_distinct(kv_put(m, key, val)),
    decreases m.len(),
{
    let r = kv_put(m, key, val);
    if m.len() == 0 {
        assert(r == seq![(key, val)]);
        assert(kv_distinct(r));
    } else if m[0].0 == key {
        assert(r == seq![(key, val)] + m.skip(1));
        assert(forall|j: int| 0 <= j < m.skip(1).len() ==> #[trigger] m.skip(1)[j] == m[j + 1]);
        assert forall|i: int, j: int| 0 <= i < j < r.len() implies (#[trigger] r[i]).0 != (
        #[trigger] r[j]).0 by {
            if i == 0 {
                assert(r[j] == m[j]);
                assert(m[0].0 != m[j].0);
            } else {
                assert(r[i] == m[i]);
                assert(r[j] == m[j]);
            }
        }
    } else {
        assert(forall|i: int, j: int| 0 <= i < j < m.skip(1).len() ==> (#[trigger] m.skip(1)[i]).0
            != (#[trigger] m.skip(1)[j]).0);
        lemma_kv_put_distinct(m.skip(1), key, val);
        let rr = kv_put(m.skip(1), key, val);
        assert(r == seq![m[0]] + rr);
        lemma_kv_put_keys(m.skip(1), key, val);
        assert forall|i: int, j: int| 0 <= i < j < r.len() implies (#[trigger] r[i]).0 != (
        #[trigger] r[j]).0 by {
            if i == 0 {
                assert(r[j] == rr[j - 1]);
                if rr[j - 1].0 == key {
                    assert(m[0].0 != key);
                } else {
                    let k = choose|k: int| 0 <= k < m.skip(1).len() && m.skip(1)[k].0 == rr[j
                        - 1].0;
                    assert(m[k + 1] == m.skip(1)[k]);
                    assert(m[0].0 != m[k + 1].0);
                }
            } else {
                assert(r[i] == rr[i - 1]);
                assert(r[j] == rr[j - 1]);
            }
        }
    }
}

/// Every key of `kv_put(m, key, val)` is `key` or a key of `m`.
proof fn lemma_kv_put_keys<T>(m: Seq<(Seq<char>, T)>, key: Seq<char>, val: T)
    ensures
        forall|i: int| 0 <= i < kv_put(m, key, val).len() ==> (#[trigger] kv_put(m, key, val)[i]).0
            == key || exists|k: int| 0 <= k < m.len() && m[k].0 == kv_put(m, key, val)[i].0,
    decreases m.len(),
{
    let r = kv_put(m, key, val);
    if m.len() == 0 {
        assert(r == seq![(key, val)]);
    } else if m[0].0 == key {
        assert(r == seq![(key, val)] + m.skip(1));
        assert forall|i: int| 0 <= i < r.len() implies (#[trigger] r[i]).0 == key || exists|k: int|
            0 <= k < m.len() && m[k].0 == r[i].0 by {
            if i > 0 {
                assert(r[i] == m.skip(1)[i - 1]);
                assert(m[i] == m.skip(1)[i - 1]);
                assert(m[i].0 == r[i].0);
            }
        }
    } else {
        lemma_kv_put_keys(m.skip(1), key, val);
        let rr = kv_put(m.skip(1), key, val);
        assert(r == seq![m[0]] + rr);
        assert forall|i: int| 0 <= i < r.len() implies (#[trigger] r[i]).0 == key || exists|k: int|
            0 <= k < m.len() && m[k].0 == r[i].0 by {
            if i == 0 {
                assert(m[0].0 == r[0].0);
            } else {
                assert(r[i] == rr[i - 1]);
                if rr[i - 1].0 == key {
                } else {
                    let k = choose|k: int| 0 <= k < m.skip(1).len() && m.skip(1)[k].0 == rr[i
                        - 1].0;
                    assert(m[k + 1] == m.skip(1)[k]);
                    assert(m[k + 1].0 == r[i].0);
                }
            }
        }
    }
}

} // verus!
