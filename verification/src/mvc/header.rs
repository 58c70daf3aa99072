//! The header of a request or a response: a map from names to values.
use vstd::prelude::*;

verus! {

/// The names and values of the entries, as characters.
pub open spec fn pairs_view(entries: Seq<(String, String)>) -> Seq<(Seq<char>, Seq<char>)> {
    entries.map_values(|e: (String, String)| (e.0@, e.1@))
}

/// `i` is an entry of `ps` named `k`.
pub open spec fn has_key_at(ps: Seq<(Seq<char>, Seq<char>)>, k: Seq<char>, i: int) -> bool {
    0 <= i < ps.len() && ps[i].0 == k
}

/// No two entries have the same name.
pub open spec fn keys_distinct(ps: Seq<(Seq<char>, Seq<char>)>) -> bool {
    forall|i: int, j: int| 0 <= i < ps.len() && 0 <= j < ps.len() && i != j ==> #[trigger] ps[i].0 != #[trigger] ps[j].0
}

/// The map that the entries stand for.
pub open spec fn pairs_map(ps: Seq<(Seq<char>, Seq<char>)>) -> Map<Seq<char>, Seq<char>> {
    Map::new(
        |k: Seq<char>| exists|i: int| has_key_at(ps, k, i),
        |k: Seq<char>| ps[choose|i: int| has_key_at(ps, k, i)].1,
    )
}

/// Entries with distinct names, standing for a map from names to values.
pub struct Header {
    entries: Vec<(String, String)>,
}

impl View for Header {
    type V = Map<Seq<char>, Seq<char>>;

    closed spec fn view(&self) -> Map<Seq<char>, Seq<char>> {
        pairs_map(pairs_view(self.entries@))
    }
}

/// In entries with distinct names, the entry named `k` is the one that the map reads.
proof fn lemma_lookup(ps: Seq<(Seq<char>, Seq<char>)>, k: Seq<char>, i: int)
    requires
        keys_distinct(ps),
        has_key_at(ps, k, i),
    ensures
        pairs_map(ps).contains_key(k),
        pairs_map(ps)[k] == ps[i].1,
{
    let j = choose|j: int| has_key_at(ps, k, j);
    assert(has_key_at(ps, k, j));
    if j != i {
        assert(ps[i].0 != ps[j].0);
    }
}

impl Header {
    #[verifier::type_invariant]
    spec fn inv(self) -> bool {
        keys_distinct(pairs_view(self.entries@))
    }

    /// A header with no entries.
    pub fn new() -> (r: Header)
        ensures
            r@ == Map::<Seq<char>, Seq<char>>::empty(),
    {
        let r = Header { entries: Vec::new() };
        assert(r@ =~= Map::<Seq<char>, Seq<char>>::empty());
        r
    }

    /// The entries, each name once.
    pub fn pairs(&self) -> (r: &Vec<(String, String)>)
        ensures
            pairs_map(pairs_view(r@)) == self@,
            keys_distinct(pairs_view(r@)),
    {
        proof { use_type_invariant(self); }
        &self.entries
    }

    /// The value of the entry named `key`, if there is one.
    pub fn get(&self, key: &str) -> (r: Option<&String>)
        ensures
            match r {
                Some(v) => self@.contains_key(key@) && v@ == self@[key@],
                None => !self@.contains_key(key@),
            },
    {
        proof { use_type_invariant(self); }
        let ghost ps = pairs_view(self.entries@);
        let wanted = key.to_owned();
        let mut i: usize = 0;
        while i < self.entries.len()
            invariant
                i <= self.entries.len(),
                ps == pairs_view(self.entries@),
                keys_distinct(ps),
                forall|j: int| 0 <= j < i ==> ps[j].0 != key@,
                wanted@ == key@,
            decreases self.entries.len() - i,
        {
            if self.entries[i].0 == wanted {
                proof { lemma_lookup(ps, key@, i as int); }
                return Some(&self.entries[i].1);
            }
            i += 1;
        }
        None
    }

    /// Sets the entry named `key` to `value`, and gives back the value it had, if any.
    pub fn insert(&mut self, key: String, value: String) -> (r: Option<String>)
        ensures
            final(self)@ == old(self)@.insert(key@, value@),
            match r {
                Some(v) => old(self)@.contains_key(key@) && v@ == old(self)@[key@],
                None => !old(self)@.contains_key(key@),
            },
    {
        proof { use_type_invariant(&*self); }
        let ghost ps = pairs_view(self.entries@);
        let mut entries = Vec::new();
        std::mem::swap(&mut entries, &mut self.entries);
        let mut i: usize = 0;
        while i < entries.len()
            invariant
                i <= entries.len(),
                ps == pairs_view(entries@),
                ps == pairs_view(old(self).entries@),
                keys_distinct(ps),
                forall|j: int| 0 <= j < i ==> ps[j].0 != key@,
            decreases entries.len() - i,
        {
            if entries[i].0 == key {
                proof { lemma_lookup(ps, key@, i as int); }
                let old_entry = entries.remove(i);
                entries.insert(i, (key, value));
                let ghost ps2 = pairs_view(entries@);
                assert(ps2 =~= ps.update(i as int, (key@, value@)));
                assert(pairs_map(ps2) =~= pairs_map(ps).insert(key@, value@)) by {
                    assert forall|k: Seq<char>| #[trigger] pairs_map(ps2).contains_key(k)
                        == pairs_map(ps).insert(key@, value@).contains_key(k) by {
                        if exists|j: int| has_key_at(ps, k, j) {
                            let j = choose|j: int| has_key_at(ps, k, j);
                            assert(has_key_at(ps2, k, j));
                        }
                        if exists|j: int| has_key_at(ps2, k, j) {
                            let j = choose|j: int| has_key_at(ps2, k, j);
                            if j != i {
                                assert(has_key_at(ps, k, j));
                            }
                        }
                    }
                    assert forall|k: Seq<char>| pairs_map(ps2).contains_key(k) implies
                        #[trigger] pairs_map(ps2)[k] == pairs_map(ps).insert(key@, value@)[k] by {
                        let j = choose|j: int| has_key_at(ps2, k, j);
                        lemma_lookup(ps2, k, j);
                        if j != i {
                            lemma_lookup(ps, k, j);
                        }
                    }
                }
                self.entries = entries;
                return Some(old_entry.1);
            }
            i += 1;
        }
        assert(!pairs_map(ps).contains_key(key@));
        entries.push((key, value));
        let ghost ps2 = pairs_view(entries@);
        assert(ps2 =~= ps.push((key@, value@)));
        assert(pairs_map(ps2) =~= pairs_map(ps).insert(key@, value@)) by {
            assert forall|k: Seq<char>| #[trigger] pairs_map(ps2).contains_key(k)
                == pairs_map(ps).insert(key@, value@).contains_key(k) by {
                if exists|j: int| has_key_at(ps, k, j) {
                    let j = choose|j: int| has_key_at(ps, k, j);
                    assert(has_key_at(ps2, k, j));
                }
                if k == key@ {
                    assert(has_key_at(ps2, k, ps.len() as int));
                }
                if exists|j: int| has_key_at(ps2, k, j) {
                    let j = choose|j: int| has_key_at(ps2, k, j);
                    if j < ps.len() {
                        assert(has_key_at(ps, k, j));
                    }
                }
            }
            assert forall|k: Seq<char>| pairs_map(ps2).contains_key(k) implies
                #[trigger] pairs_map(ps2)[k] == pairs_map(ps).insert(key@, value@)[k] by {
                let j = choose|j: int| has_key_at(ps2, k, j);
                lemma_lookup(ps2, k, j);
                if j < ps.len() {
                    lemma_lookup(ps, k, j);
                }
            }
        }
        self.entries = entries;
        None
    }
}

} // verus!
