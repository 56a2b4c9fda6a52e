//! The in-memory key-value index: the authoritative source for reads,
//! rebuilt from the log at startup and mutated only after a record has
//! reached the log. Modeled as a `Map` from key characters to value
//! characters; stored as a vector of entries with pairwise distinct keys.

use vstd::prelude::*;

verus! {

/// One key-value binding held by the index.
struct Entry {
    key: String,
    value: String,
}

/// The map denoted by a sequence of entries, later entries winning.
spec fn map_of(s: Seq<Entry>) -> Map<Seq<char>, Seq<char>>
    decreases s.len(),
{
    if s.len() == 0 {
        Map::empty()
    } else {
        map_of(s.drop_last()).insert(s.last().key@, s.last().value@)
    }
}

spec fn keys_distinct(s: Seq<Entry>) -> bool {
    forall|i: int, j: int| 0 <= i < j < s.len() ==> s[i].key@ != s[j].key@
}

/// The in-memory mapping from key to current value.
pub struct Index {
    entries: Vec<Entry>,
}

impl View for Index {
    type V = Map<Seq<char>, Seq<char>>;

    closed spec fn view(&self) -> Map<Seq<char>, Seq<char>> {
        map_of(self.entries@)
    }
}

proof fn lemma_contains_iff_found(s: Seq<Entry>, k: Seq<char>)
    ensures
        map_of(s).contains_key(k) <==> (exists|i: int| 0 <= i < s.len() && s[i].key@ == k),
    decreases s.len(),
{
    if s.len() > 0 {
        lemma_contains_iff_found(s.drop_last(), k);
        if s.last().key@ == k {
            assert(s[s.len() - 1].key@ == k);
        } else {
            if map_of(s).contains_key(k) {
                let i = choose|i: int| 0 <= i < s.drop_last().len() && s.drop_last()[i].key@ == k;
                assert(s[i].key@ == k);
            }
            if exists|i: int| 0 <= i < s.len() && s[i].key@ == k {
                let i = choose|i: int| 0 <= i < s.len() && s[i].key@ == k;
                assert(i < s.len() - 1);
                assert(s.drop_last()[i].key@ == k);
            }
        }
    }
}

proof fn lemma_value_at_found(s: Seq<Entry>, k: Seq<char>, i: int)
    requires
        keys_distinct(s),
        0 <= i < s.len(),
        s[i].key@ == k,
    ensures
        map_of(s).contains_key(k),
        map_of(s)[k] == s[i].value@,
    decreases s.len(),
{
    if i == s.len() - 1 {
        assert(s.last() == s[i]);
    } else {
        assert(s.last().key@ != k);
        assert(s.drop_last()[i] == s[i]);
        assert(keys_distinct(s.drop_last())) by {
            assert(forall|a: int, b: int|
                0 <= a < b < s.drop_last().len() ==> s.drop_last()[a] == s[a]
                    && s.drop_last()[b] == s[b]);
        }
        lemma_value_at_found(s.drop_last(), k, i);
    }
}

proof fn lemma_remove_found(s: Seq<Entry>, k: Seq<char>, i: int)
    requires
        keys_distinct(s),
        0 <= i < s.len(),
        s[i].key@ == k,
    ensures
        map_of(s.remove(i)) == map_of(s).remove(k),
    decreases s.len(),
{
    assert(keys_distinct(s.drop_last())) by {
        assert(forall|a: int, b: int|
            0 <= a < b < s.drop_last().len() ==> s.drop_last()[a] == s[a] && s.drop_last()[b]
                == s[b]);
    }
    if i == s.len() - 1 {
        assert(s.remove(i) =~= s.drop_last());
        assert(forall|j: int| 0 <= j < s.drop_last().len() ==> s.drop_last()[j].key@ != k);
        lemma_contains_iff_found(s.drop_last(), k);
        assert(!map_of(s.drop_last()).contains_key(k));
        assert(map_of(s).remove(k) =~= map_of(s.drop_last()));
    } else {
        lemma_remove_found(s.drop_last(), k, i);
        let r = s.remove(i);
        assert(r.len() == s.len() - 1);
        assert(r.drop_last() =~= s.drop_last().remove(i));
        assert(r.last() == s.last());
        assert(map_of(r) == map_of(s.drop_last().remove(i)).insert(s.last().key@, s.last().value@));
        assert(s.last().key@ != k);
        assert(map_of(s.drop_last()).remove(k).insert(s.last().key@, s.last().value@) =~= map_of(
            s.drop_last(),
        ).insert(s.last().key@, s.last().value@).remove(k));
    }
}

proof fn lemma_distinct_remove(s: Seq<Entry>, i: int)
    requires
        keys_distinct(s),
        0 <= i < s.len(),
    ensures
        keys_distinct(s.remove(i)),
{
    let r = s.remove(i);
    assert(forall|a: int| 0 <= a < r.len() ==> r[a] == (if a < i {
        s[a]
    } else {
        s[a + 1]
    }));
}

impl Index {
    /// An empty index.
    pub fn new() -> (r: Index)
        ensures
            r@ == Map::<Seq<char>, Seq<char>>::empty(),
    {
        let entries: Vec<Entry> = Vec::new();
        Index { entries }
    }

    /// The position of the entry for `key`, if one is present.
    fn find(&self, key: &String) -> (r: Option<usize>)
        ensures
            match r {
                Some(i) => i < self.entries@.len() && self.entries@[i as int].key@ == key@,
                None => forall|i: int|
                    0 <= i < self.entries@.len() ==> self.entries@[i].key@ != key@,
            },
    {
        let n = self.entries.len();
        let mut i: usize = 0;
        while i < n
            invariant
                i <= n,
                n == self.entries@.len(),
                forall|j: int| 0 <= j < i ==> self.entries@[j].key@ != key@,
            decreases n - i,
        {
            if self.entries[i].key == *key {
                return Some(i);
            }
            i = i + 1;
        }
        None
    }

    /// The current value bound to `key`, or `None` where no binding exists.
    pub fn get(&self, key: &String) -> (r: Option<String>)
        ensures
            match r {
                Some(v) => self@.contains_key(key@) && v@ == self@[key@],
                None => !self@.contains_key(key@),
            },
    {
        proof {
            use_type_invariant(&*self);
        }
        match self.find(key) {
            Some(i) => {
                proof {
                    lemma_value_at_found(self.entries@, key@, i as int);
                }
                Some(self.entries[i].value.clone())
            },
            None => {
                proof {
                    lemma_contains_iff_found(self.entries@, key@);
                }
                None
            },
        }
    }

    /// Binds `key` to `value`, replacing any previous binding wholesale.
    pub fn insert(&mut self, key: String, value: String)
        ensures
            final(self)@ == old(self)@.insert(key@, value@),
    {
        proof {
            use_type_invariant(&*self);
        }
        let found = self.find(&key);
        let ghost before = self.entries@;
        let mut entries: Vec<Entry> = Vec::new();
        std::mem::swap(&mut entries, &mut self.entries);
        match found {
            Some(i) => {
                proof {
                    lemma_remove_found(before, key@, i as int);
                    lemma_distinct_remove(before, i as int);
                }
                entries.remove(i);
            },
            None => {
                proof {
                    lemma_contains_iff_found(before, key@);
                    assert(map_of(before).remove(key@) =~= map_of(before));
                }
            },
        }
        let ghost mid = entries@;
        proof {
            assert(map_of(mid) == map_of(before).remove(key@));
            assert(forall|j: int| 0 <= j < mid.len() ==> mid[j].key@ != key@) by {
                lemma_contains_iff_found(mid, key@);
            }
        }
        let ghost kv = key@;
        let ghost vv = value@;
        entries.push(Entry { key, value });
        proof {
            assert(entries@.drop_last() =~= mid);
            assert(map_of(entries@) == map_of(mid).insert(kv, vv));
            assert(map_of(before).remove(kv).insert(kv, vv) =~= map_of(before).insert(kv, vv));
        }
        self.entries = entries;
    }

    /// Removes any binding for `key`; removing an absent key is a no-op.
    pub fn remove(&mut self, key: &String)
        ensures
            final(self)@ == old(self)@.remove(key@),
    {
        proof {
            use_type_invariant(&*self);
        }
        let found = self.find(key);
        let ghost before = self.entries@;
        match found {
            Some(i) => {
                proof {
                    lemma_remove_found(before, key@, i as int);
                    lemma_distinct_remove(before, i as int);
                }
                let mut entries: Vec<Entry> = Vec::new();
                std::mem::swap(&mut entries, &mut self.entries);
                entries.remove(i);
                self.entries = entries;
            },
            None => {
                proof {
                    lemma_contains_iff_found(before, key@);
                    assert(map_of(before).remove(key@) =~= map_of(before));
                }
            },
        }
    }

    #[verifier::type_invariant]
    spec fn well_formed(&self) -> bool {
        keys_distinct(self.entries@)
    }
}

} // verus!
