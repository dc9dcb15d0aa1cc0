//! The context mapping: string keys to string values, owned by an element
//! and pushed downward into descendants at serialization time.

use vstd::prelude::*;

verus! {

/// A sequence of key/value entries folded into a map, later entries winning.
pub open spec fn seq_to_map(s: Seq<(String, String)>) -> Map<Seq<char>, Seq<char>>
    decreases s.len(),
{
    if s.len() == 0 {
        Map::empty()
    } else {
        seq_to_map(s.drop_last()).insert(s.last().0@, s.last().1@)
    }
}

/// A mapping from string keys to string values.  Keys are unique and
/// entries keep their insertion order.

pub struct Context {
    pub entries: Vec<(String, String)>,
}

impl View for Context {
    type V = Map<Seq<char>, Seq<char>>;

    open spec fn view(&self) -> Map<Seq<char>, Seq<char>> {
        seq_to_map(self.entries@)
    }
}

/// The keys of the entries in `s` are pairwise distinct.
pub open spec fn distinct_keys(s: Seq<(String, String)>) -> bool {
    forall|i: int, j: int| 0 <= i < j < s.len() ==> s[i].0@ != s[j].0@
}

proof fn lemma_seq_to_map_contains(s: Seq<(String, String)>, k: Seq<char>)
    ensures
        seq_to_map(s).contains_key(k) <==> (exists|i: int| 0 <= i < s.len() && s[i].0@ == k),
    decreases s.len(),
{
    if s.len() > 0 {
        lemma_seq_to_map_contains(s.drop_last(), k);
        if exists|i: int| 0 <= i < s.drop_last().len() && s.drop_last()[i].0@ == k {
            let i = choose|i: int| 0 <= i < s.drop_last().len() && s.drop_last()[i].0@ == k;
            assert(s[i].0@ == k);
        }
        if s.last().0@ == k {
            assert(s[s.len() - 1].0@ == k);
        }
        if exists|i: int| 0 <= i < s.len() && s[i].0@ == k {
            let i = choose|i: int| 0 <= i < s.len() && s[i].0@ == k;
            if i < s.len() - 1 {
                assert(s.drop_last()[i].0@ == k);
            }
        }
    }
}

proof fn lemma_seq_to_map_value(s: Seq<(String, String)>, i: int)
    requires
        distinct_keys(s),
        0 <= i < s.len(),
    ensures
        seq_to_map(s).contains_key(s[i].0@),
        seq_to_map(s)[s[i].0@] == s[i].1@,
    decreases s.len(),
{
    if i == s.len() - 1 {
    } else {
        assert(distinct_keys(s.drop_last()));
        assert(s.drop_last()[i] == s[i]);
        lemma_seq_to_map_value(s.drop_last(), i);
        assert(s.last().0@ != s[i].0@);
    }
}

proof fn lemma_seq_to_map_update(s: Seq<(String, String)>, i: int, p: (String, String))
    requires
        distinct_keys(s),
        0 <= i < s.len(),
        s[i].0@ == p.0@,
    ensures
        seq_to_map(s.update(i, p)) == seq_to_map(s).insert(p.0@, p.1@),
    decreases s.len(),
{
    let t = s.update(i, p);
    if i == s.len() - 1 {
        assert(t.drop_last() =~= s.drop_last());
        assert(seq_to_map(t) =~= seq_to_map(s).insert(p.0@, p.1@));
    } else {
        assert(distinct_keys(s.drop_last()));
        assert(s.drop_last()[i] == s[i]);
        lemma_seq_to_map_update(s.drop_last(), i, p);
        assert(t.drop_last() =~= s.drop_last().update(i, p));
        assert(t.last() == s.last());
        assert(s.last().0@ != p.0@);
        assert(seq_to_map(t) =~= seq_to_map(s).insert(p.0@, p.1@));
    }
}

impl Context {
    /// Keys are pairwise distinct.
    pub open spec fn wf(&self) -> bool {
        distinct_keys(self.entries@)
    }

    /// An empty context.
    pub fn new() -> (r: Context)
        ensures
            r@ == Map::<Seq<char>, Seq<char>>::empty(),
            r.wf(),
    {
        Context { entries: Vec::new() }
    }

    /// True exactly when the context holds no entry.
    pub fn is_empty(&self) -> (r: bool)
        ensures
            r == (self@ == Map::<Seq<char>, Seq<char>>::empty()),
    {
        let r = self.entries.len() == 0;
        proof {
            if self.entries@.len() == 0 {
                assert(self@ =~= Map::<Seq<char>, Seq<char>>::empty());
            } else {
                assert(self@.contains_key(self.entries@.last().0@));
                assert(!Map::<Seq<char>, Seq<char>>::empty().contains_key(
                    self.entries@.last().0@,
                ));
            }
        }
        r
    }

    /// Sets `key` to `value`, overwriting an existing entry for that key.
    pub fn insert(&mut self, key: String, value: String)
        ensures
            old(self).wf() ==> (final(self)@ == old(self)@.insert(key@, value@)
                && final(self).wf()),
    {
        let n = self.entries.len();
        let mut i: usize = 0;
        while i < n
            invariant
                *self == *old(self),
                n == self.entries@.len(),
                i <= n,
                forall|j: int| 0 <= j < i ==> self.entries@[j].0@ != key@,
            decreases n - i,
        {
            let hit = self.entries[i].0 == key;
            if hit {
                proof {
                    if old(self).wf() {
                        lemma_seq_to_map_update(
                            self.entries@,
                            i as int,
                            (key, value),
                        );
                    }
                }
                let kv = &mut self.entries[i];
                kv.0 = key;
                kv.1 = value;
                proof {
                    assert(self.entries@ =~= old(self).entries@.update(
                        i as int,
                        (key, value),
                    ));
                    if old(self).wf() {
                        assert(forall|i2: int, j2: int|
                            0 <= i2 < j2 < self.entries@.len() ==> self.entries@[i2].0@
                                != self.entries@[j2].0@);
                    }
                }
                return;
            }
            i = i + 1;
        }
        proof {
            lemma_seq_to_map_contains(self.entries@, key@);
        }
        self.entries.push((key, value));
        proof {
            assert(self.entries@.drop_last() =~= old(self).entries@);
            assert(self.entries@.last() == (key, value));
        }
    }

    /// Looks a key up; `None` when the key has no entry.
    pub fn get(&self, key: &String) -> (r: Option<String>)
        ensures
            self.wf() ==> match r {
                Some(v) => self@.contains_key(key@) && self@[key@] == v@,
                None => !self@.contains_key(key@),
            },
    {
        let n = self.entries.len();
        let mut i: usize = 0;
        while i < n
            invariant
                n == self.entries@.len(),
                i <= n,
                forall|j: int| 0 <= j < i ==> self.entries@[j].0@ != key@,
            decreases n - i,
        {
            let hit = self.entries[i].0 == *key;
            if hit {
                proof {
                    if self.wf() {
                        lemma_seq_to_map_value(self.entries@, i as int);
                    }
                }
                return Some(self.entries[i].1.clone());
            }
            i = i + 1;
        }
        proof {
            lemma_seq_to_map_contains(self.entries@, key@);
        }
        None
    }

    /// A copy holding the same mapping.
    pub fn duplicate(&self) -> (r: Context)
        ensures
            r@ == self@,
            r.wf(),
    {
        let mut r = Context::new();
        r.update(self);
        proof {
            assert(Map::<Seq<char>, Seq<char>>::empty().union_prefer_right(self@) =~= self@);
        }
        r
    }

    /// Merge-overwrite: copies every entry of `delta` into `self`, the
    /// entries of `delta` winning on key clashes.
    pub fn update(&mut self, delta: &Context)
        ensures
            old(self).wf() ==> (final(self)@ == old(self)@.union_prefer_right(delta@)
                && final(self).wf()),
    {
        let n = delta.entries.len();
        let mut i: usize = 0;
        while i < n
            invariant
                n == delta.entries@.len(),
                i <= n,
                old(self).wf() ==> (self.wf() && self@ == old(self)@.union_prefer_right(
                    seq_to_map(delta.entries@.take(i as int)),
                )),
            decreases n - i,
        {
            let kv = &delta.entries[i];
            let k = kv.0.clone();
            let v = kv.1.clone();
            self.insert(k, v);
            proof {
                if old(self).wf() {
                    let t = delta.entries@.take(i + 1);
                    assert(t.drop_last() =~= delta.entries@.take(i as int));
                    assert(t.last() == delta.entries@[i as int]);
                    assert(old(self)@.union_prefer_right(seq_to_map(t)) =~= old(self)@
                        .union_prefer_right(seq_to_map(delta.entries@.take(i as int))).insert(
                        delta.entries@[i as int].0@,
                        delta.entries@[i as int].1@,
                    ));
                }
            }
            i = i + 1;
        }
        proof {
            assert(delta.entries@.take(n as int) =~= delta.entries@);
        }
    }
}

} // verus!
