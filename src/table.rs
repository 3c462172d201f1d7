use vstd::prelude::*;

verus! {

/// The views of a list of strings.
pub open spec fn string_views(v: Seq<String>) -> Seq<Seq<char>> {
    v.map_values(|s: String| s@)
}

/// One key of a table with its value.
#[derive(Debug)]
struct TableEntry<V> {
    key: String,
    value: V,
}

/// A finite map from names (or ids) to values, each key held once.
pub struct NameTable<V> {
    entries: Vec<TableEntry<V>>,
    model: Ghost<Map<Seq<char>, V>>,
}

impl<V> View for NameTable<V> {
    type V = Map<Seq<char>, V>;

    closed spec fn view(&self) -> Map<Seq<char>, V> {
        self.model@
    }
}

/// The entries hold each key once, and exactly the keys and values of `m`.
spec fn entries_match<V>(entries: Seq<TableEntry<V>>, m: Map<Seq<char>, V>) -> bool {
    &&& forall|i: int, j: int|
        0 <= i < j < entries.len() ==> (#[trigger] entries[i]).key@ != (#[trigger] entries[j]).key@
    &&& forall|i: int|
        0 <= i < entries.len() ==> {
            &&& m.contains_key((#[trigger] entries[i]).key@)
            &&& m[entries[i].key@] == entries[i].value
        }
    &&& forall|k: Seq<char>|
        #[trigger] m.contains_key(k) ==> exists|i: int|
            0 <= i < entries.len() && (#[trigger] entries[i]).key@ == k
}

proof fn lemma_push_fresh<V>(entries: Seq<TableEntry<V>>, m: Map<Seq<char>, V>, e: TableEntry<V>)
    requires
        entries_match(entries, m),
        !m.contains_key(e.key@),
    ensures
        entries_match(entries.push(e), m.insert(e.key@, e.value)),
{
    let es = entries.push(e);
    let m2 = m.insert(e.key@, e.value);
    assert forall|i: int, j: int| 0 <= i < j < es.len() implies (#[trigger] es[i]).key@ != (
    #[trigger] es[j]).key@ by {
        if j == entries.len() {
            assert(m.contains_key(entries[i].key@));
        } else {
            assert(es[i] == entries[i] && es[j] == entries[j]);
        }
    }
    assert forall|i: int| 0 <= i < es.len() implies {
        &&& m2.contains_key((#[trigger] es[i]).key@)
        &&& m2[es[i].key@] == es[i].value
    } by {
        if i < entries.len() {
            assert(es[i] == entries[i]);
            assert(m.contains_key(entries[i].key@));
        }
    }
    assert forall|k: Seq<char>| #[trigger] m2.contains_key(k) implies exists|i: int|
        0 <= i < es.len() && (#[trigger] es[i]).key@ == k by {
        if k == e.key@ {
            assert(es[entries.len() as int].key@ == k);
        } else {
            assert(m.contains_key(k));
            let i = choose|i: int| 0 <= i < entries.len() && (#[trigger] entries[i]).key@ == k;
            assert(es[i] == entries[i]);
        }
    }
}

proof fn lemma_replace_at<V>(
    entries: Seq<TableEntry<V>>,
    m: Map<Seq<char>, V>,
    i: int,
    e: TableEntry<V>,
)
    requires
        entries_match(entries, m),
        0 <= i < entries.len(),
        entries[i].key@ == e.key@,
    ensures
        entries_match(entries.update(i, e), m.insert(e.key@, e.value)),
{
    let es = entries.update(i, e);
    let m2 = m.insert(e.key@, e.value);
    assert forall|a: int, b: int| 0 <= a < b < es.len() implies (#[trigger] es[a]).key@ != (
    #[trigger] es[b]).key@ by {
        assert(es[a].key@ == entries[a].key@ && es[b].key@ == entries[b].key@);
    }
    assert forall|a: int| 0 <= a < es.len() implies {
        &&& m2.contains_key((#[trigger] es[a]).key@)
        &&& m2[es[a].key@] == es[a].value
    } by {
        if a != i {
            assert(es[a] == entries[a]);
            assert(m.contains_key(entries[a].key@));
            assert(entries[a].key@ != entries[i].key@);
        }
    }
    assert forall|k: Seq<char>| #[trigger] m2.contains_key(k) implies exists|a: int|
        0 <= a < es.len() && (#[trigger] es[a]).key@ == k by {
        if k == e.key@ {
            assert(es[i].key@ == k);
        } else {
            assert(m.contains_key(k));
            let a = choose|a: int| 0 <= a < entries.len() && (#[trigger] entries[a]).key@ == k;
            assert(es[a].key@ == entries[a].key@);
        }
    }
}

impl<V> NameTable<V> {
    /// Each key is held once, and the entries are exactly the view.
    pub closed spec fn wf(&self) -> bool {
        entries_match(self.entries@, self.model@)
    }

    /// An empty table.
    pub fn new() -> (r: NameTable<V>)
        ensures
            r.wf(),
            r@ == Map::<Seq<char>, V>::empty(),
    {
        NameTable { entries: Vec::new(), model: Ghost(Map::empty()) }
    }

    /// The position of `key` among the entries, if it is there.
    fn position(&self, key: &String) -> (r: Option<usize>)
        requires
            self.wf(),
        ensures
            match r {
                Some(i) => i < self.entries@.len() && self.entries@[i as int].key@ == key@,
                None => !self@.contains_key(key@),
            },
    {
        let mut i: usize = 0;
        while i < self.entries.len()
            invariant
                self.wf(),
                i <= self.entries@.len(),
                forall|k: int| 0 <= k < i ==> (#[trigger] self.entries@[k]).key@ != key@,
            decreases self.entries@.len() - i,
        {
            if self.entries[i].key == *key {
                return Some(i);
            }
            i = i + 1;
        }
        None
    }

    /// The value held under `key`, if any.
    pub fn get(&self, key: &String) -> (r: Option<&V>)
        requires
            self.wf(),
        ensures
            r == (if self@.contains_key(key@) {
                Some(&self@[key@])
            } else {
                None
            }),
    {
        match self.position(key) {
            Some(i) => Some(&self.entries[i].value),
            None => None,
        }
    }

    /// Holds `value` under `key`, in place of any value held there before.
    pub fn set(&mut self, key: &String, value: V)
        requires
            old(self).wf(),
        ensures
            final(self).wf(),
            final(self)@ == old(self)@.insert(key@, value),
    {
        let ghost m = self.model@.insert(key@, value);
        let e = TableEntry { key: key.clone(), value: value };
        match self.position(key) {
            Some(i) => {
                proof {
                    lemma_replace_at(self.entries@, self.model@, i as int, e);
                }
                self.entries.set(i, e);
            },
            None => {
                proof {
                    lemma_push_fresh(self.entries@, self.model@, e);
                }
                self.entries.push(e);
            },
        }
        self.model = Ghost(m);
    }
}

impl<V: Copy> NameTable<V> {
    /// Keeps the keys that `live` lists and drops the rest.
    pub fn retain_keys(&mut self, live: &Vec<String>)
        requires
            old(self).wf(),
        ensures
            final(self).wf(),
            final(self)@ == old(self)@.restrict(string_views(live@).to_set()),
    {
        let ghost live_keys = string_views(live@).to_set();
        let ghost model = self.model@;
        let mut kept: Vec<TableEntry<V>> = Vec::new();
        let ghost mut part: Map<Seq<char>, V> = Map::empty();
        let mut i: usize = 0;
        while i < self.entries.len()
            invariant
                self.wf(),
                model == self.model@,
                live_keys == string_views(live@).to_set(),
                i <= self.entries@.len(),
                entries_match(kept@, part),
                forall|k: Seq<char>|
                    #[trigger] part.contains_key(k) <==> (live_keys.contains(k) && exists|b: int|
                        0 <= b < i && (#[trigger] self.entries@[b]).key@ == k),
                forall|k: Seq<char>| #[trigger] part.contains_key(k) ==> part[k] == model[k],
            decreases self.entries@.len() - i,
        {
            let key = &self.entries[i].key;
            let mut found = false;
            let mut j: usize = 0;
            while j < live.len()
                invariant
                    j <= live@.len(),
                    found <==> exists|k: int| 0 <= k < j && (#[trigger] live@[k])@ == key@,
                decreases live@.len() - j,
            {
                if live[j] == *key {
                    found = true;
                }
                j = j + 1;
            }
            let ghost views = string_views(live@);
            proof {
                if found {
                    let k = choose|k: int| 0 <= k < live@.len() && (#[trigger] live@[k])@ == key@;
                    assert(views[k] == key@);
                } else {
                    assert forall|k: int| 0 <= k < views.len() implies #[trigger] views[k] != key@ by {
                        assert(live@[k]@ != key@);
                    }
                }
                assert(model.contains_key(key@));
                if part.contains_key(key@) {
                    let b = choose|b: int| 0 <= b < i && (#[trigger] self.entries@[b]).key@ == key@;
                    assert(self.entries@[b].key@ != self.entries@[i as int].key@);
                }
            }
            if found {
                let e = TableEntry { key: key.clone(), value: self.entries[i].value };
                proof {
                    lemma_push_fresh(kept@, part, e);
                    part = part.insert(key@, e.value);
                }
                kept.push(e);
            }
            assert forall|k: Seq<char>| #[trigger] part.contains_key(k) <==> (live_keys.contains(k)
                && exists|b: int| 0 <= b < i + 1 && (#[trigger] self.entries@[b]).key@ == k) by {
                if live_keys.contains(k) && k == key@ {
                    assert(self.entries@[i as int].key@ == k);
                }
            }
            i = i + 1;
        }
        proof {
            assert forall|k: Seq<char>| #[trigger] model.contains_key(k) && live_keys.contains(k)
                implies part.contains_key(k) by {
                let b = choose|b: int|
                    0 <= b < self.entries@.len() && (#[trigger] self.entries@[b]).key@ == k;
            }
            assert(part =~= model.restrict(live_keys));
        }
        self.entries = kept;
        self.model = Ghost(part);
    }
}

} // verus!
