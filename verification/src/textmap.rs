//! A map whose keys are texts.

use vstd::prelude::*;

use crate::text::same_text;

verus! {

/// A map whose keys are texts. It is meant for the few runs of one runtime.
#[derive(Debug)]
pub struct TextMap<V> {
    entries: Vec<(String, V)>,
}

/// The map that a list of entries stands for; an earlier entry wins.
pub open spec fn entry_map<V>(entries: Seq<(String, V)>) -> Map<Seq<char>, V>
    decreases entries.len(),
{
    if entries.len() == 0 {
        Map::empty()
    } else {
        entry_map(entries.drop_first()).insert(entries[0].0@, entries[0].1)
    }
}

proof fn lemma_entry_map_push<V>(entries: Seq<(String, V)>, last: (String, V))
    ensures
        entry_map(entries.push(last)) == if entry_map(entries).dom().contains(last.0@) {
            entry_map(entries)
        } else {
            entry_map(entries).insert(last.0@, last.1)
        },
    decreases entries.len(),
{
    if entries.len() == 0 {
        assert(entries.push(last).drop_first() =~= entries);
    } else {
        assert(entries.push(last).drop_first() =~= entries.drop_first().push(last));
        lemma_entry_map_push(entries.drop_first(), last);
        assert(entry_map(entries.push(last)) =~= if entry_map(entries).dom().contains(last.0@) {
            entry_map(entries)
        } else {
            entry_map(entries).insert(last.0@, last.1)
        });
    }
}

/// Whether some values are those of a map: each key has its value among them once.
pub open spec fn are_values<V>(values: Seq<V>, map: Map<Seq<char>, V>) -> bool {
    exists|keys: Seq<Seq<char>>|
        {
            &&& keys.no_duplicates()
            &&& keys.len() == values.len()
            &&& forall|k: Seq<char>| #[trigger] map.dom().contains(k) <==> keys.contains(k)
            &&& forall|i: int| 0 <= i < keys.len() ==> values[i] == map[#[trigger] keys[i]]
        }
}

impl<V> TextMap<V> {
    pub closed spec fn view(&self) -> Map<Seq<char>, V> {
        entry_map(self.entries@)
    }

    pub fn new() -> (r: Self)
        ensures
            r@ == Map::<Seq<char>, V>::empty(),
    {
        TextMap { entries: Vec::new() }
    }

    pub fn get(&self, key: &str) -> (r: Option<&V>)
        ensures
            match r {
                Some(v) => self@.dom().contains(key@) && *v == self@[key@],
                None => !self@.dom().contains(key@),
            },
    {
        let mut i: usize = 0;
        let ghost all = self.entries@;
        assert(all.skip(0) =~= all);
        while i < self.entries.len()
            invariant
                i <= all.len(),
                all == self.entries@,
                entry_map(all).dom().contains(key@) == entry_map(all.skip(i as int)).dom().contains(
                    key@,
                ),
                entry_map(all).dom().contains(key@) ==> entry_map(all)[key@] == entry_map(
                    all.skip(i as int),
                )[key@],
            decreases all.len() - i,
        {
            assert(all.skip(i as int)[0] == all[i as int]);
            assert(all.skip(i as int).drop_first() =~= all.skip(i + 1));
            if same_text(self.entries[i].0.as_str(), key) {
                return Some(&self.entries[i].1);
            }
            i += 1;
        }
        None
    }

    pub fn contains(&self, key: &str) -> (r: bool)
        ensures
            r == self@.dom().contains(key@),
    {
        self.get(key).is_some()
    }

    /// Takes a key out.
    pub fn remove(&mut self, key: &str)
        ensures
            final(self)@ == old(self)@.remove(key@),
    {
        let mut taken: Vec<(String, V)> = Vec::new();
        std::mem::swap(&mut taken, &mut self.entries);
        let ghost all = taken@;
        let mut kept: Vec<(String, V)> = Vec::new();
        assert(entry_map(all.take(0)) =~= Map::empty()) by {
            assert(all.take(0) =~= seq![]);
        }
        assert(entry_map(kept@) =~= entry_map(all.take(0)).remove(key@));
        for entry in it: taken
            invariant
                it.seq() == all,
                entry_map(kept@) == entry_map(all.take(it.index() as int)).remove(key@),
        {
            let ghost i = it.index() as int;
            proof {
                assert(all.take(i + 1) =~= all.take(i).push(all[i]));
                lemma_entry_map_push(all.take(i), all[i]);
                lemma_entry_map_push(kept@, entry);
            }
            let ghost before = kept@;
            if !same_text(entry.0.as_str(), key) {
                kept.push(entry);
            }
            assert(entry_map(kept@) =~= entry_map(all.take(i + 1)).remove(key@));
        }
        assert(all.take(all.len() as int) =~= all);
        self.entries = kept;
    }

    /// Gives a key a value.
    pub fn insert(&mut self, key: String, value: V)
        ensures
            final(self)@ == old(self)@.insert(key@, value),
    {
        let ghost before = self@;
        self.remove(key.as_str());
        let ghost rest = self.entries@;
        self.entries.insert(0, (key, value));
        proof {
            assert(self.entries@.drop_first() =~= rest);
            assert(before.remove(key@).insert(key@, value) =~= before.insert(key@, value));
        }
    }

    /// Takes all values out, each once.
    pub fn drain(&mut self) -> (r: Vec<V>)
        ensures
            final(self)@ == Map::<Seq<char>, V>::empty(),
            are_values(r@, old(self)@),
    {
        let mut taken: Vec<(String, V)> = Vec::new();
        std::mem::swap(&mut taken, &mut self.entries);
        let ghost all = taken@;
        let mut values: Vec<V> = Vec::new();
        let mut seen: TextMap<()> = TextMap::new();
        let ghost mut keys: Seq<Seq<char>> = seq![];
        assert(all.take(0) =~= seq![]);
        for entry in it: taken
            invariant
                it.seq() == all,
                keys.no_duplicates(),
                keys.len() == values@.len(),
                forall|k: Seq<char>| #[trigger]
                    entry_map(all.take(it.index() as int)).dom().contains(k) <==> keys.contains(k),
                forall|k: Seq<char>| #[trigger] seen@.dom().contains(k) <==> keys.contains(k),
                forall|i: int|
                    0 <= i < keys.len() ==> values@[i] == entry_map(all.take(it.index() as int))[
                        #[trigger] keys[i]],
        {
            let ghost i = it.index() as int;
            let ghost before = keys;
            let (key, value) = entry;
            proof {
                assert(all.take(i + 1) =~= all.take(i).push(all[i]));
                lemma_entry_map_push(all.take(i), all[i]);
                assert(seen@.dom().contains(key@) <==> entry_map(all.take(i)).dom().contains(key@));
            }
            if !seen.contains(key.as_str()) {
                proof {
                    keys = keys.push(key@);
                    assert forall|k: Seq<char>| before.contains(k) || k == key@ implies
                        keys.contains(k) by {
                        if before.contains(k) {
                            let j = choose|j: int| 0 <= j < before.len() && before[j] == k;
                            assert(keys[j] == k);
                        } else {
                            assert(keys[before.len() as int] == key@);
                        }
                    }
                    assert forall|j: int| 0 <= j < before.len() implies #[trigger] keys[j] != key@ by {
                        assert(before.contains(before[j]));
                    }
                }
                values.push(value);
                seen.insert(key, ());
            }
            proof {
                assert forall|j: int| 0 <= j < keys.len() implies values@[j] == entry_map(
                    all.take(i + 1),
                )[#[trigger] keys[j]] by {
                    if j < before.len() {
                        assert(before[j] == keys[j]);
                        assert(before.contains(before[j]));
                    }
                }
            }
        }
        assert(all.take(all.len() as int) =~= all);
        self.entries = Vec::new();
        values
    }
}

impl<V: Copy> TextMap<V> {
    /// All values, each once.
    pub fn values(&self) -> (r: Vec<V>)
        ensures
            are_values(r@, self@),
    {
        let ghost all = self.entries@;
        let mut values: Vec<V> = Vec::new();
        let mut seen: TextMap<()> = TextMap::new();
        let ghost mut keys: Seq<Seq<char>> = seq![];
        let mut n: usize = 0;
        assert(all.take(0) =~= seq![]);
        while n < self.entries.len()
            invariant
                n <= all.len(),
                all == self.entries@,
                keys.no_duplicates(),
                keys.len() == values@.len(),
                forall|k: Seq<char>| #[trigger]
                    entry_map(all.take(n as int)).dom().contains(k) <==> keys.contains(k),
                forall|k: Seq<char>| #[trigger] seen@.dom().contains(k) <==> keys.contains(k),
                forall|i: int|
                    0 <= i < keys.len() ==> values@[i] == entry_map(all.take(n as int))[
                        #[trigger] keys[i]],
            decreases all.len() - n,
        {
            let ghost i = n as int;
            let ghost before = keys;
            let key = self.entries[n].0.as_str();
            proof {
                assert(all.take(i + 1) =~= all.take(i).push(all[i]));
                lemma_entry_map_push(all.take(i), all[i]);
                assert(seen@.dom().contains(key@) <==> entry_map(all.take(i)).dom().contains(key@));
            }
            if !seen.contains(key) {
                proof {
                    keys = keys.push(key@);
                    assert forall|k: Seq<char>| before.contains(k) || k == key@ implies
                        keys.contains(k) by {
                        if before.contains(k) {
                            let j = choose|j: int| 0 <= j < before.len() && before[j] == k;
                            assert(keys[j] == k);
                        } else {
                            assert(keys[before.len() as int] == key@);
                        }
                    }
                    assert forall|j: int| 0 <= j < before.len() implies #[trigger] keys[j] != key@ by {
                        assert(before.contains(before[j]));
                    }
                }
                values.push(self.entries[n].1);
                seen.insert(key.to_owned(), ());
            }
            proof {
                assert forall|j: int| 0 <= j < keys.len() implies values@[j] == entry_map(
                    all.take(i + 1),
                )[#[trigger] keys[j]] by {
                    if j < before.len() {
                        assert(before[j] == keys[j]);
                        assert(before.contains(before[j]));
                    }
                }
            }
            n += 1;
        }
        assert(all.take(n as int) =~= all);
        values
    }
}

} // verus!
