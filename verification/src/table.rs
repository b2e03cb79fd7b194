use vstd::prelude::*;

verus! {

/// A small association table with string keys, kept free of duplicates.
/// Insertion order is preserved: a fresh key is appended, a present key
/// has its value replaced in place.
#[derive(Debug)]
pub struct StrTable<V> {
    pub pairs: Vec<(String, V)>,
}

/// No two entries share a key.
pub open spec fn keys_unique<V>(s: Seq<(String, V)>) -> bool {
    forall|i: int, j: int| 0 <= i < j < s.len() ==> (#[trigger] s[i]).0@ != (#[trigger] s[j]).0@
}

/// Index of the first entry with key `k`, or -1.
pub open spec fn idx_of<V>(s: Seq<(String, V)>, k: Seq<char>) -> int
    decreases s.len(),
{
    if s.len() == 0 {
        -1
    } else if s[0].0@ == k {
        0
    } else {
        let r = idx_of(s.drop_first(), k);
        if r == -1 {
            -1
        } else {
            r + 1
        }
    }
}

/// The value stored under key `k`, if any.
pub open spec fn spec_get<V>(s: Seq<(String, V)>, k: Seq<char>) -> Option<V> {
    if idx_of(s, k) == -1 {
        None
    } else {
        Some(s[idx_of(s, k)].1)
    }
}

/// What `idx_of` finds: a miss means no entry has the key, a hit is the
/// first entry with it.
pub proof fn lemma_idx_of_props<V>(s: Seq<(String, V)>, k: Seq<char>)
    ensures
        idx_of(s, k) == -1 ==> forall|i: int| 0 <= i < s.len() ==> (#[trigger] s[i]).0@ != k,
        idx_of(s, k) != -1 ==> 0 <= idx_of(s, k) < s.len() && s[idx_of(s, k)].0@ == k && forall|
            i: int,
        | 0 <= i < idx_of(s, k) ==> (#[trigger] s[i]).0@ != k,
    decreases s.len(),
{
    if s.len() != 0 && s[0].0@ != k {
        lemma_idx_of_props(s.drop_first(), k);
        let st = s.drop_first();
        if idx_of(s, k) == -1 {
            assert(idx_of(st, k) == -1);
            assert forall|i: int| 0 <= i < s.len() implies (#[trigger] s[i]).0@ != k by {
                if i > 0 {
                    assert(st[i - 1] == s[i]);
                }
            };
        } else {
            let f = idx_of(s, k);
            assert(f == idx_of(st, k) + 1);
            assert(st[f - 1] == s[f]);
            assert forall|i: int| 0 <= i < f implies (#[trigger] s[i]).0@ != k by {
                if i > 0 {
                    assert(st[i - 1] == s[i]);
                }
            };
        }
    }
}

/// With unique keys, `spec_get` is decided by any one matching position.
pub proof fn lemma_get_at<V>(s: Seq<(String, V)>, i: int)
    requires
        keys_unique(s),
        0 <= i < s.len(),
    ensures
        spec_get(s, s[i].0@) == Some(s[i].1),
    decreases s.len(),
{
    let k = s[i].0@;
    lemma_idx_of_props(s, k);
    let f = idx_of(s, k);
    if f == -1 {
        assert(s[i].0@ != k);
    }
    assert(f != -1);
    if f != i {
        assert(s[f].0@ == s[i].0@);
    }
}

/// With no matching position, `spec_get` misses.
pub proof fn lemma_get_none<V>(s: Seq<(String, V)>, k: Seq<char>)
    requires
        forall|i: int| 0 <= i < s.len() ==> (#[trigger] s[i]).0@ != k,
    ensures
        spec_get(s, k) is None,
{
    lemma_idx_of_props(s, k);
    let f = idx_of(s, k);
    if f != -1 {
        assert(s[f].0@ != k);
    }
}

/// Two sequences whose entries match pairwise at every position that could
/// carry key `k` store the same value under `k`.
pub proof fn lemma_get_agree<V>(s1: Seq<(String, V)>, s2: Seq<(String, V)>, k: Seq<char>)
    requires
        s1.len() == s2.len(),
        forall|i: int| 0 <= i < s1.len() && (#[trigger] s1[i]).0@ == k ==> s1[i] == s2[i],
        forall|i: int| 0 <= i < s2.len() && (#[trigger] s2[i]).0@ == k ==> s1[i] == s2[i],
    ensures
        spec_get(s1, k) == spec_get(s2, k),
{
    lemma_idx_of_props(s1, k);
    lemma_idx_of_props(s2, k);
    let f1 = idx_of(s1, k);
    let f2 = idx_of(s2, k);
    if f1 == -1 && f2 == -1 {
    } else if f1 == -1 {
        assert(s2[f2].0@ == k);
        assert(s1[f2].0@ != k);
        assert(false);
    } else if f2 == -1 {
        assert(s1[f1].0@ == k);
        assert(s2[f1].0@ != k);
        assert(false);
    } else {
        assert(s1[f1].0@ == k);
        assert(s2[f2].0@ == k);
        if f1 < f2 {
            assert(s2[f1].0@ != k);
            assert(false);
        }
        if f2 < f1 {
            assert(s1[f2].0@ != k);
            assert(false);
        }
    }
}

impl<V> StrTable<V> {
    /// The table's invariant.
    pub open spec fn wf(&self) -> bool {
        keys_unique(self.pairs@)
    }

    /// Lookup under key `k` as the table's model.
    pub open spec fn spec_index(&self, k: Seq<char>) -> Option<V> {
        spec_get(self.pairs@, k)
    }

    /// An empty table.
    pub fn new() -> (r: Self)
        ensures
            r.wf(),
            r.pairs@.len() == 0,
            forall|k: Seq<char>| #[trigger] r.spec_index(k) is None,
    {
        let r = StrTable { pairs: Vec::new() };
        proof {
            assert forall|k: Seq<char>| #[trigger] r.spec_index(k) is None by {
                lemma_get_none(r.pairs@, k);
            };
        }
        r
    }

    /// Number of entries.
    pub fn len(&self) -> (r: usize)
        ensures
            r == self.pairs@.len(),
    {
        self.pairs.len()
    }

    /// Borrow the value stored under `key`, if any.
    pub fn get(&self, key: &String) -> (r: Option<&V>)
        requires
            self.wf(),
        ensures
            match r {
                Some(v) => self.spec_index(key@) == Some(*v),
                None => self.spec_index(key@) is None,
            },
    {
        let mut i: usize = 0;
        while i < self.pairs.len()
            invariant
                self.wf(),
                i <= self.pairs@.len(),
                forall|j: int| 0 <= j < i ==> (#[trigger] self.pairs@[j]).0@ != key@,
            decreases self.pairs@.len() - i,
        {
            if self.pairs[i].0 == *key {
                proof {
                    lemma_get_at(self.pairs@, i as int);
                }
                return Some(&self.pairs[i].1);
            }
            i = i + 1;
        }
        proof {
            lemma_get_none(self.pairs@, key@);
        }
        None
    }

    /// Store `value` under `key`: replace in place when the key is
    /// present, append when it is fresh; every other key keeps its value.
    pub fn insert(&mut self, key: String, value: V)
        requires
            old(self).wf(),
        ensures
            final(self).wf(),
            final(self).spec_index(key@) == Some(value),
            forall|k2: Seq<char>|
                k2 != key@ ==> #[trigger] final(self).spec_index(k2) == old(self).spec_index(k2),
            idx_of(old(self).pairs@, key@) == -1 ==> final(self).pairs@ == old(self).pairs@.push(
                (key, value),
            ),
            idx_of(old(self).pairs@, key@) != -1 ==> final(self).pairs@ == old(
                self,
            ).pairs@.update(idx_of(old(self).pairs@, key@), (key, value)),
    {
        let ghost s0 = self.pairs@;
        let ghost k0 = key@;
        let mut i: usize = 0;
        while i < self.pairs.len()
            invariant
                self.pairs@ == s0,
                s0 == old(self).pairs@,
                keys_unique(s0),
                i <= s0.len(),
                k0 == key@,
                forall|j: int| 0 <= j < i ==> (#[trigger] s0[j]).0@ != k0,
            decreases s0.len() - i,
        {
            if self.pairs[i].0 == key {
                proof {
                    crate::table::lemma_idx_of_props(s0, k0);
                    let f = idx_of(s0, k0);
                    if f == -1 {
                        assert(s0[i as int].0@ != k0);
                    }
                    assert(f == i);
                }
                self.pairs[i] = (key, value);
                proof {
                    let sn = self.pairs@;
                    let p = sn[i as int];
                    assert(sn == s0.update(i as int, p));
                    assert(p.0@ == k0);
                    assert(s0[i as int].0@ == k0);
                    assert forall|i2: int, j2: int|
                        0 <= i2 < j2 < sn.len() implies (#[trigger] sn[i2]).0@ != (
                    #[trigger] sn[j2]).0@ by {
                        assert(s0[i2].0@ != s0[j2].0@);
                        assert(sn[i2] == if i2 == i as int {
                            p
                        } else {
                            s0[i2]
                        });
                        assert(sn[j2] == if j2 == i as int {
                            p
                        } else {
                            s0[j2]
                        });
                    };
                    lemma_get_at(sn, i as int);
                    assert forall|k2: Seq<char>| k2 != k0 implies #[trigger] spec_get(sn, k2)
                        == spec_get(s0, k2) by {
                        lemma_get_agree(sn, s0, k2);
                    };
                    assert(self.spec_index(k0) == Some(value));
                    assert forall|k2: Seq<char>| k2 != k0 implies #[trigger] self.spec_index(k2)
                        == spec_get(s0, k2) by {
                        assert(spec_get(sn, k2) == spec_get(s0, k2));
                    };
                }
                return;
            }
            i = i + 1;
        }
        proof {
            assert forall|j: int| 0 <= j < s0.len() implies (#[trigger] s0[j]).0@ != k0 by {}
            lemma_get_none(s0, k0);
            assert(idx_of(s0, k0) == -1);
        }
        self.pairs.push((key, value));
        proof {
            let sn = self.pairs@;
            let p = sn[s0.len() as int];
            assert(sn == s0.push(p));
            assert(p.0@ == k0);
            assert forall|i2: int, j2: int|
                0 <= i2 < j2 < sn.len() implies (#[trigger] sn[i2]).0@ != (#[trigger] sn[j2]).0@ by {
                if j2 < s0.len() as int {
                    assert(s0[i2].0@ != s0[j2].0@);
                } else {
                    assert(sn[j2] == p);
                    assert(sn[i2] == s0[i2]);
                    assert(s0[i2].0@ != k0);
                }
            };
            lemma_get_at(sn, s0.len() as int);
            assert forall|k2: Seq<char>| k2 != k0 implies #[trigger] spec_get(sn, k2) == spec_get(
                s0,
                k2,
            ) by {
                lemma_idx_of_props(s0, k2);
                lemma_idx_of_props(sn, k2);
                let f0 = idx_of(s0, k2);
                let fn0 = idx_of(sn, k2);
                if f0 == -1 {
                    if fn0 != -1 {
                        assert(sn[fn0].0@ == k2);
                        if fn0 < s0.len() as int {
                            assert(s0[fn0].0@ != k2);
                        } else {
                            assert(sn[fn0] == p);
                        }
                        assert(false);
                    }
                } else {
                    assert(s0[f0].0@ == k2);
                    assert(sn[f0] == s0[f0]);
                    if fn0 == -1 {
                        assert(sn[f0].0@ != k2);
                        assert(false);
                    }
                    assert(sn[fn0].0@ == k2);
                    if fn0 < f0 {
                        assert(s0[fn0].0@ != k2);
                        assert(sn[fn0] == s0[fn0]);
                        assert(false);
                    }
                    if f0 < fn0 {
                        assert(sn[f0].0@ != k2);
                        assert(false);
                    }
                }
            };
        }
    }
}

} // verus!
