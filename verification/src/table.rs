//! A table of values by name.

use vstd::prelude::*;

verus! {

/// Values by name, each name at most once.
#[derive(Debug)]
pub struct NameTable<V> {
    entries: Vec<(String, V)>,
}

/// Whether no two entries have the same name.
spec fn distinct<V>(entries: Seq<(String, V)>) -> bool {
    forall|a: int, b: int|
        0 <= a < b < entries.len() ==> (#[trigger] entries[a]).0@ != (#[trigger] entries[b]).0@
}

/// Whether the entry at `k` has the name.
spec fn named<V>(entries: Seq<(String, V)>, name: Seq<char>, k: int) -> bool {
    0 <= k < entries.len() && entries[k].0@ == name
}

spec fn as_map<V>(entries: Seq<(String, V)>) -> Map<Seq<char>, V> {
    Map::new(
        |name: Seq<char>| exists|k: int| named(entries, name, k),
        |name: Seq<char>| entries[choose|k: int| named(entries, name, k)].1,
    )
}

proof fn lemma_as_map<V>(entries: Seq<(String, V)>, k: int)
    requires
        distinct(entries),
        0 <= k < entries.len(),
    ensures
        as_map(entries).contains_key(entries[k].0@),
        as_map(entries)[entries[k].0@] == entries[k].1,
{
    let name = entries[k].0@;
    assert(named(entries, name, k));
    let other = choose|m: int| named(entries, name, m);
    assert(other == k);
}

/// Dropping the entry of that name, where there is one, and adding the new one at the
/// end replaces the value under the name.
proof fn lemma_replaced<V>(before: Seq<(String, V)>, found: Option<usize>, entry: (String, V))
    requires
        distinct(before),
        match found {
            Some(k) => named(before, entry.0@, k as int),
            None => !as_map(before).contains_key(entry.0@),
        },
    ensures
        ({
            let kept = match found {
                Some(k) => before.remove(k as int),
                None => before,
            };
            &&& distinct(kept.push(entry))
            &&& as_map(kept.push(entry)) == as_map(before).insert(entry.0@, entry.1)
        }),
{
    let kept = match found {
        Some(k) => before.remove(k as int),
        None => before,
    };
    let after = kept.push(entry);
    // Where the entry at `m` of `kept` stood before.
    let origin = |m: int|
        match found {
            Some(k) if m >= k => m + 1,
            _ => m,
        };
    assert forall|m: int| 0 <= m < kept.len() implies {
        &&& 0 <= #[trigger] origin(m) < before.len()
        &&& after[m] == before[origin(m)]
        &&& after[m].0@ != entry.0@
    } by {
        if found is None {
            assert(!named(before, entry.0@, m));
        }
    }
    assert forall|a: int, b: int| 0 <= a < b < after.len() implies (#[trigger] after[a]).0@ != (
    #[trigger] after[b]).0@ by {
        assert(0 <= origin(a) < before.len());
        if b < kept.len() {
            assert(0 <= origin(b) < before.len());
        }
    }
    let old_map = as_map(before);
    let new_map = as_map(after);
    assert forall|name: Seq<char>| #[trigger]
        new_map.contains_key(name) == old_map.insert(entry.0@, entry.1).contains_key(name) && (
    new_map.contains_key(name) ==> new_map[name] == old_map.insert(entry.0@, entry.1)[name]) by {
        lemma_as_map(after, kept.len() as int);
        if name != entry.0@ {
            if new_map.contains_key(name) {
                let m = choose|m: int| named(after, name, m);
                assert(0 <= origin(m) < before.len());
                lemma_as_map(before, origin(m));
                lemma_as_map(after, m);
            }
            if old_map.contains_key(name) {
                let n = choose|n: int| named(before, name, n);
                let m = match found {
                    Some(k) if n > k => n - 1,
                    _ => n,
                };
                assert(named(after, name, m));
            }
        }
    }
    assert(new_map =~= old_map.insert(entry.0@, entry.1));
}

/// There are as many names as entries.
proof fn lemma_count<V>(entries: Seq<(String, V)>)
    requires
        distinct(entries),
    ensures
        as_map(entries).dom().finite(),
        as_map(entries).len() == entries.len(),
    decreases entries.len(),
{
    if entries.len() == 0 {
        assert(as_map(entries).dom() =~= Set::empty());
    } else {
        let before = entries.drop_last();
        let entry = entries.last();
        assert forall|k: int| !named(before, entry.0@, k) by {
            if 0 <= k < before.len() {
                assert(entries[k] == before[k]);
            }
        }
        lemma_count(before);
        lemma_replaced(before, None, entry);
        assert(before.push(entry) =~= entries);
    }
}

/// Dropping an entry drops its name.
proof fn lemma_removed<V>(before: Seq<(String, V)>, k: int)
    requires
        distinct(before),
        0 <= k < before.len(),
    ensures
        distinct(before.remove(k)),
        as_map(before.remove(k)) == as_map(before).remove(before[k].0@),
{
    let after = before.remove(k);
    let old_map = as_map(before);
    let new_map = as_map(after);
    assert forall|name: Seq<char>| #[trigger]
        new_map.contains_key(name) == old_map.remove(before[k].0@).contains_key(name) && (
    new_map.contains_key(name) ==> new_map[name] == old_map[name]) by {
        if new_map.contains_key(name) {
            let m = choose|m: int| named(after, name, m);
            let n = if m < k {
                m
            } else {
                m + 1
            };
            assert(after[m] == before[n]);
            lemma_as_map(before, n);
            lemma_as_map(after, m);
        }
        if old_map.contains_key(name) && name != before[k].0@ {
            let n = choose|n: int| named(before, name, n);
            let m = if n < k {
                n
            } else {
                n - 1
            };
            assert(named(after, name, m));
        }
    }
    assert(new_map =~= old_map.remove(before[k].0@));
}

impl<V> View for NameTable<V> {
    type V = Map<Seq<char>, V>;

    closed spec fn view(&self) -> Map<Seq<char>, V> {
        as_map(self.entries@)
    }
}

impl<V> NameTable<V> {
    #[verifier::type_invariant]
    spec fn names_distinct(self) -> bool {
        distinct(self.entries@)
    }

    /// A table with nothing in it.
    pub fn new() -> (res: Self)
        ensures
            res@ == Map::<Seq<char>, V>::empty(),
    {
        let res = NameTable { entries: Vec::new() };
        assert(res@ =~= Map::<Seq<char>, V>::empty());
        res
    }

    fn position(&self, name: &str) -> (res: Option<usize>)
        ensures
            match res {
                Some(k) => named(self.entries@, name@, k as int),
                None => !self@.contains_key(name@),
            },
    {
        let wanted = name.to_string();
        let mut k: usize = 0;
        while k < self.entries.len()
            invariant
                wanted@ == name@,
                k <= self.entries.len(),
                forall|m: int| 0 <= m < k ==> !named(self.entries@, name@, m),
            decreases self.entries.len() - k,
        {
            if self.entries[k].0 == wanted {
                return Some(k);
            }
            k += 1;
        }
        None
    }

    /// The value under `name`, if there is one.
    pub fn get(&self, name: &str) -> (res: Option<&V>)
        ensures
            match res {
                Some(v) => self@.contains_key(name@) && *v == self@[name@],
                None => !self@.contains_key(name@),
            },
    {
        match self.position(name) {
            Some(k) => {
                proof {
                    use_type_invariant(self);
                    lemma_as_map(self.entries@, k as int);
                }
                Some(&self.entries[k].1)
            },
            None => None,
        }
    }

    /// How many names are in the table.
    pub fn len(&self) -> (res: usize)
        ensures
            self@.dom().finite(),
            res == self@.len(),
    {
        proof {
            use_type_invariant(self);
            lemma_count(self.entries@);
        }
        self.entries.len()
    }

    /// Whether there is a value under `name`.
    pub fn contains_key(&self, name: &str) -> (res: bool)
        ensures
            res == self@.contains_key(name@),
    {
        self.get(name).is_some()
    }

    /// Takes the value under `name` out of the table and hands it back.
    pub fn remove(&mut self, name: &str) -> (res: Option<V>)
        ensures
            final(self)@ == old(self)@.remove(name@),
            match res {
                Some(v) => old(self)@.contains_key(name@) && v == old(self)@[name@],
                None => !old(self)@.contains_key(name@),
            },
    {
        match self.position(name) {
            Some(k) => {
                proof {
                    use_type_invariant(&*self);
                    lemma_as_map(self.entries@, k as int);
                    lemma_removed(self.entries@, k as int);
                }
                let mut entries: Vec<(String, V)> = Vec::new();
                std::mem::swap(&mut entries, &mut self.entries);
                let (_, value) = entries.remove(k);
                self.entries = entries;
                Some(value)
            },
            None => {
                assert(self@.remove(name@) =~= self@);
                None
            },
        }
    }

    /// Puts `value` under `name` and hands back the value that was there.
    pub fn insert(&mut self, name: String, value: V) -> (res: Option<V>)
        ensures
            final(self)@ == old(self)@.insert(name@, value),
            match res {
                Some(v) => old(self)@.contains_key(name@) && v == old(self)@[name@],
                None => !old(self)@.contains_key(name@),
            },
    {
        let found = self.position(name.as_str());
        proof {
            use_type_invariant(&*self);
        }
        let mut entries: Vec<(String, V)> = Vec::new();
        std::mem::swap(&mut entries, &mut self.entries);
        let ghost before = entries@;
        let res = match found {
            Some(k) => {
                proof {
                    lemma_as_map(before, k as int);
                }
                Some(entries.remove(k).1)
            },
            None => None,
        };
        proof {
            lemma_replaced(before, found, (name, value));
        }
        entries.push((name, value));
        self.entries = entries;
        res
    }
}

impl<V> Default for NameTable<V> {
    /// A table with nothing in it.
    fn default() -> (res: Self)
        ensures
            res@ == Map::<Seq<char>, V>::empty(),
    {
        NameTable::new()
    }
}

impl<V: Clone> Clone for NameTable<V> {
    /// A table with the same names, and a clone of each value.
    fn clone(&self) -> (res: Self)
        ensures
            res@.dom() == self@.dom(),
            forall|name: Seq<char>| #[trigger]
                self@.contains_key(name) ==> cloned(self@[name], res@[name]),
    {
        proof {
            use_type_invariant(self);
        }
        let mut entries: Vec<(String, V)> = Vec::new();
        let mut k: usize = 0;
        while k < self.entries.len()
            invariant
                k <= self.entries.len(),
                entries.len() == k,
                forall|m: int|
                    0 <= m < k ==> (#[trigger] entries[m]).0 == self.entries[m].0 && cloned(
                        self.entries[m].1,
                        entries[m].1,
                    ),
            decreases self.entries.len() - k,
        {
            entries.push((self.entries[k].0.clone(), self.entries[k].1.clone()));
            k += 1;
        }
        let res = NameTable { entries };
        proof {
            assert forall|name: Seq<char>| res@.contains_key(name) == #[trigger] self@.contains_key(
                name,
            ) && (self@.contains_key(name) ==> cloned(self@[name], res@[name])) by {
                if self@.contains_key(name) {
                    let m = choose|m: int| named(self.entries@, name, m);
                    lemma_as_map(self.entries@, m);
                    lemma_as_map(res.entries@, m);
                }
                if res@.contains_key(name) {
                    let m = choose|m: int| named(res.entries@, name, m);
                    assert(named(self.entries@, name, m));
                }
            }
            assert(res@.dom() =~= self@.dom());
        }
        res
    }
}

} // verus!
