//! A set of names and a cache of directory previews.

use vstd::prelude::*;
use crate::paths::{is_rooted, names, paths_equal};
use crate::provider::{DirectoryPreviewState, PreviewStateModel};

verus! {

/// A set of names.
#[derive(Debug)]
pub struct NameSet {
    items: Vec<String>,
}

impl View for NameSet {
    type V = Set<Seq<char>>;

    closed spec fn view(&self) -> Set<Seq<char>> {
        Set::new(|s: Seq<char>| exists|i: int| 0 <= i < self.items@.len() && self.items@[i]@ == s)
    }
}

impl NameSet {
    /// The empty set.
    pub fn new() -> (r: NameSet)
        ensures
            r@ == Set::<Seq<char>>::empty(),
    {
        let r = NameSet { items: Vec::new() };
        proof {
            assert(r@ =~= Set::<Seq<char>>::empty());
        }
        r
    }

    /// Tests whether the set holds `name`.
    pub fn contains(&self, name: &String) -> (b: bool)
        ensures
            b == self@.contains(name@),
    {
        let mut i: usize = 0;
        while i < self.items.len()
            invariant
                i <= self.items@.len(),
                forall|k: int| 0 <= k < i ==> (#[trigger] self.items@[k])@ != name@,
            decreases self.items@.len() - i,
        {
            if self.items[i] == *name {
                proof {
                    assert(self.items@[i as int]@ == name@);
                }
                return true;
            }
            i += 1;
        }
        false
    }

    /// Tests whether the set holds nothing.
    pub fn is_empty(&self) -> (b: bool)
        ensures
            b == (self@ == Set::<Seq<char>>::empty()),
    {
        let b = self.items.len() == 0;
        proof {
            if b {
                assert(self@ =~= Set::<Seq<char>>::empty());
            } else {
                assert(self@.contains(self.items@[0]@));
            }
        }
        b
    }

    /// Adds `name`.
    pub fn insert(&mut self, name: String)
        ensures
            final(self)@ == old(self)@.insert(name@),
    {
        let ghost before = self.items@;
        self.items.push(name);
        proof {
            let after = self.items@;
            assert forall|s: Seq<char>| self@.contains(s) == old(self)@.insert(name@).contains(s) by {
                if old(self)@.contains(s) {
                    let i = choose|i: int| 0 <= i < before.len() && before[i]@ == s;
                    assert(after[i]@ == s);
                }
                if s == name@ {
                    assert(after[before.len() as int]@ == s);
                }
                if self@.contains(s) && s != name@ {
                    let i = choose|i: int| 0 <= i < after.len() && after[i]@ == s;
                    assert(before[i]@ == s);
                }
            }
            assert(self@ =~= old(self)@.insert(name@));
        }
    }

    /// Removes `name`.
    pub fn remove(&mut self, name: &String)
        ensures
            final(self)@ == old(self)@.remove(name@),
    {
        let ghost before = self.items@;
        let mut kept: Vec<String> = Vec::new();
        let mut i: usize = 0;
        while i < self.items.len()
            invariant
                i <= self.items@.len(),
                self.items@ == before,
                forall|k: int|
                    0 <= k < kept@.len() ==> (#[trigger] kept@[k])@ != name@ && exists|j: int|
                        0 <= j < i && before[j]@ == kept@[k]@,
                forall|j: int|
                    0 <= j < i && (#[trigger] before[j])@ != name@ ==> exists|k: int|
                        0 <= k < kept@.len() && kept@[k]@ == before[j]@,
            decreases self.items@.len() - i,
        {
            if self.items[i] != *name {
                let ghost old_kept = kept@;
                kept.push(self.items[i].clone());
                proof {
                    assert(before[i as int]@ == kept@[old_kept.len() as int]@);
                    assert forall|j: int|
                        0 <= j < i + 1 && (#[trigger] before[j])@ != name@ implies exists|k: int|
                        0 <= k < kept@.len() && kept@[k]@ == before[j]@ by {
                        if j < i {
                            let k = choose|k: int|
                                0 <= k < old_kept.len() && old_kept[k]@ == before[j]@;
                            assert(kept@[k]@ == before[j]@);
                        }
                    }
                    assert forall|k: int| 0 <= k < kept@.len() implies (#[trigger] kept@[k])@
                        != name@ && exists|j: int|
                        0 <= j < i + 1 && before[j]@ == kept@[k]@ by {
                        if k < old_kept.len() {
                            let j = choose|j: int| 0 <= j < i && before[j]@ == old_kept[k]@;
                            assert(before[j]@ == kept@[k]@);
                        }
                    }
                }
            }
            i += 1;
        }
        self.items = kept;
        proof {
            let after = self.items@;
            assert forall|s: Seq<char>| self@.contains(s) == old(self)@.remove(name@).contains(s) by {
                if old(self)@.contains(s) && s != name@ {
                    let j = choose|j: int| 0 <= j < before.len() && before[j]@ == s;
                    assert(before[j]@ != name@);
                }
                if self@.contains(s) {
                    let k = choose|k: int| 0 <= k < after.len() && after[k]@ == s;
                    assert(after[k]@ != name@);
                }
            }
            assert(self@ =~= old(self)@.remove(name@));
        }
    }

    /// Removes every name.
    pub fn clear(&mut self)
        ensures
            final(self)@ == Set::<Seq<char>>::empty(),
    {
        self.items.clear();
        proof {
            assert(self@ =~= Set::<Seq<char>>::empty());
        }
    }
}

/// What two texts for one path have in common.
pub open spec fn path_key(path: Seq<char>) -> (bool, Seq<Seq<char>>) {
    (is_rooted(path), names(path))
}

/// The contents of a preview cache, by path.
pub type CacheModel = Map<(bool, Seq<Seq<char>>), PreviewStateModel>;

/// One cached preview.
#[derive(Debug)]
struct CacheEntry {
    path: String,
    state: DirectoryPreviewState,
}

spec fn cached_at(entries: Seq<CacheEntry>, key: (bool, Seq<Seq<char>>), from: int) -> Option<int>
    decreases entries.len() - from,
{
    if from < 0 || from >= entries.len() {
        None
    } else if path_key(entries[from].path@) == key {
        Some(from)
    } else {
        cached_at(entries, key, from + 1)
    }
}

proof fn lemma_cached_at(entries: Seq<CacheEntry>, key: (bool, Seq<Seq<char>>), from: int)
    requires
        0 <= from <= entries.len(),
    ensures
        match cached_at(entries, key, from) {
            Some(i) => {
                &&& from <= i < entries.len()
                &&& path_key(entries[i].path@) == key
                &&& forall|k: int| from <= k < i ==> path_key((#[trigger] entries[k]).path@) != key
            },
            None => forall|k: int|
                from <= k < entries.len() ==> path_key((#[trigger] entries[k]).path@) != key,
        },
    decreases entries.len() - from,
{
    if from < entries.len() && path_key(entries[from].path@) != key {
        lemma_cached_at(entries, key, from + 1);
    }
}

proof fn lemma_cached_at_is(
    entries: Seq<CacheEntry>,
    key: (bool, Seq<Seq<char>>),
    from: int,
    i: int,
)
    requires
        0 <= from <= i < entries.len(),
        path_key(entries[i].path@) == key,
        forall|k: int| from <= k < i ==> path_key((#[trigger] entries[k]).path@) != key,
    ensures
        cached_at(entries, key, from) == Some(i),
    decreases entries.len() - from,
{
    if from < i {
        assert(path_key(entries[from].path@) != key);
        lemma_cached_at_is(entries, key, from + 1, i);
    }
}

/// Directory previews by path. Texts that denote one path share a preview.
#[derive(Debug)]
pub struct PreviewCache {
    entries: Vec<CacheEntry>,
}

impl View for PreviewCache {
    type V = CacheModel;

    closed spec fn view(&self) -> CacheModel {
        Map::new(
            |key: (bool, Seq<Seq<char>>)| cached_at(self.entries@, key, 0) is Some,
            |key: (bool, Seq<Seq<char>>)| self.entries@[cached_at(self.entries@, key, 0)->0].state@,
        )
    }
}

impl PreviewCache {
    /// The empty cache.
    pub fn new() -> (r: PreviewCache)
        ensures
            r@ == CacheModel::empty(),
    {
        let r = PreviewCache { entries: Vec::new() };
        proof {
            assert(r@ =~= CacheModel::empty());
        }
        r
    }

    /// Removes every preview.
    pub fn clear(&mut self)
        ensures
            final(self)@ == CacheModel::empty(),
    {
        self.entries.clear();
        proof {
            assert(self@ =~= CacheModel::empty());
        }
    }

    /// Tests whether nothing is cached.
    pub fn is_empty(&self) -> (b: bool)
        ensures
            b == (self@ == CacheModel::empty()),
    {
        let b = self.entries.len() == 0;
        proof {
            if b {
                assert(self@ =~= CacheModel::empty());
            } else {
                lemma_cached_at_is(self.entries@, path_key(self.entries@[0].path@), 0, 0);
                assert(self@.contains_key(path_key(self.entries@[0].path@)));
            }
        }
        b
    }

    fn position(&self, path: &str) -> (r: Option<usize>)
        ensures
            match r {
                Some(i) => i < self.entries@.len() && cached_at(
                    self.entries@,
                    path_key(path@),
                    0,
                ) == Some(i as int),
                None => cached_at(self.entries@, path_key(path@), 0) is None,
            },
    {
        let mut i: usize = 0;
        while i < self.entries.len()
            invariant
                i <= self.entries@.len(),
                cached_at(self.entries@, path_key(path@), 0) == cached_at(
                    self.entries@,
                    path_key(path@),
                    i as int,
                ),
            decreases self.entries@.len() - i,
        {
            if paths_equal(self.entries[i].path.as_str(), path) {
                return Some(i);
            }
            i += 1;
        }
        None
    }

    /// The preview that is cached for `path`.
    pub fn get(&self, path: &str) -> (r: Option<&DirectoryPreviewState>)
        ensures
            match r {
                Some(state) => self@.contains_key(path_key(path@)) && self@[path_key(path@)]
                    == state@,
                None => !self@.contains_key(path_key(path@)),
            },
    {
        match self.position(path) {
            Some(i) => Some(&self.entries[i].state),
            None => None,
        }
    }

    /// Caches `state` for `path`.
    pub fn insert(&mut self, path: String, state: DirectoryPreviewState)
        ensures
            final(self)@ == old(self)@.insert(path_key(path@), state@),
    {
        let ghost before = self.entries@;
        let ghost key = path_key(path@);
        proof {
            lemma_cached_at(before, key, 0);
        }
        match self.position(path.as_str()) {
            Some(i) => {
                self.entries.set(i, CacheEntry { path, state });
            },
            None => {
                self.entries.push(CacheEntry { path, state });
            },
        }
        proof {
            let after = self.entries@;
            assert forall|k: (bool, Seq<Seq<char>>)| #[trigger]
                self@.contains_key(k) == old(self)@.insert(key, state@).contains_key(k) && (
            self@.contains_key(k) ==> self@[k] == old(self)@.insert(key, state@)[k]) by {
                lemma_cached_at(before, k, 0);
                lemma_cached_at(after, k, 0);
                if k == key {
                    match cached_at(before, key, 0) {
                        Some(i) => {
                            assert forall|j: int| 0 <= j < i implies path_key(
                                (#[trigger] after[j]).path@,
                            ) != key by {
                                assert(path_key(before[j].path@) != key);
                            }
                            lemma_cached_at_is(after, key, 0, i);
                        },
                        None => {
                            assert forall|j: int| 0 <= j < before.len() implies path_key(
                                (#[trigger] after[j]).path@,
                            ) != key by {
                                assert(path_key(before[j].path@) != key);
                            }
                            lemma_cached_at_is(after, key, 0, before.len() as int);
                        },
                    }
                } else {
                    match cached_at(before, k, 0) {
                        Some(i) => {
                            assert forall|j: int| 0 <= j < i implies path_key(
                                (#[trigger] after[j]).path@,
                            ) != k by {
                                assert(path_key(before[j].path@) != k);
                            }
                            assert(after[i] == before[i]);
                            lemma_cached_at_is(after, k, 0, i);
                        },
                        None => {
                            match cached_at(after, k, 0) {
                                Some(i) => {
                                    assert(path_key(after[i].path@) == k);
                                    assert(path_key(before[i].path@) != k);
                                },
                                None => {},
                            }
                        },
                    }
                }
            }
            assert(self@ =~= old(self)@.insert(key, state@));
        }
    }
}

} // verus!
