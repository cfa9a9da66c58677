use vstd::prelude::*;
use crate::model::{Profile, ProfileModel};

verus! {

/// The profile store: every known profile, keyed by its canonical directory.
#[derive(Debug)]
pub struct Profiles {
    entries: Vec<Profile>,
}

/// The position in `s` of the profile whose path is `k`.
pub open spec fn index_of(s: Seq<Profile>, k: Seq<char>) -> int {
    choose|i: int| 0 <= i < s.len() && s[i].path@ == k
}

pub open spec fn has_path(s: Seq<Profile>, k: Seq<char>) -> bool {
    exists|i: int| 0 <= i < s.len() && s[i].path@ == k
}

pub open spec fn distinct_paths(s: Seq<Profile>) -> bool {
    forall|i: int, j: int|
        0 <= i < s.len() && 0 <= j < s.len() && i != j ==> s[i].path@ != s[j].path@
}

pub open spec fn map_of(s: Seq<Profile>) -> Map<Seq<char>, ProfileModel> {
    Map::new(|k: Seq<char>| has_path(s, k), |k: Seq<char>| s[index_of(s, k)]@)
}

proof fn lemma_entry(s: Seq<Profile>, i: int)
    requires
        distinct_paths(s),
        0 <= i < s.len(),
    ensures
        map_of(s).contains_key(s[i].path@),
        map_of(s)[s[i].path@] == s[i]@,
        index_of(s, s[i].path@) == i,
{
    let k = s[i].path@;
    assert(has_path(s, k));
    let j = index_of(s, k);
    assert(0 <= j < s.len() && s[j].path@ == k);
}

impl View for Profiles {
    type V = Map<Seq<char>, ProfileModel>;

    closed spec fn view(&self) -> Map<Seq<char>, ProfileModel> {
        map_of(self.entries@)
    }
}

impl Profiles {
    /// Well-formed: no two entries share a path, and every entry is
    /// well-formed.
    pub closed spec fn wf(&self) -> bool {
        distinct_paths(self.entries@) && forall|i: int| 0 <= i < self.entries@.len() ==> (#[trigger] self.entries@[i]).wf()
    }

    /// The stored paths, in storage order.
    pub closed spec fn path_seq(&self) -> Seq<Seq<char>> {
        self.entries@.map_values(|p: Profile| p.path@)
    }

    /// The stored paths are exactly the keys of the store, each once.
    pub proof fn lemma_path_seq(&self, k: Seq<char>)
        requires
            self.wf(),
        ensures
            crate::model::distinct(self.path_seq()),
            self@.contains_key(k) <==> exists|i: int| 0 <= i < self.path_seq().len() && self.path_seq()[i] == k,
    {
        if self@.contains_key(k) {
            let i = index_of(self.entries@, k);
            assert(self.path_seq()[i] == k);
        }
        if exists|i: int| 0 <= i < self.path_seq().len() && self.path_seq()[i] == k {
            let i = choose|i: int| 0 <= i < self.path_seq().len() && self.path_seq()[i] == k;
            lemma_entry(self.entries@, i);
        }
    }

    /// Every value in the store sits under its own path.
    pub proof fn lemma_keys_are_paths(&self, k: Seq<char>)
        requires
            self.wf(),
            self@.contains_key(k),
        ensures
            self@[k].path == k,
    {
        let i = index_of(self.entries@, k);
        lemma_entry(self.entries@, i);
    }

    /// An empty store.
    pub fn new() -> (r: Profiles)
        ensures
            r.wf(),
            r@ == Map::<Seq<char>, ProfileModel>::empty(),
    {
        let r = Profiles { entries: Vec::new() };
        assert(r@ =~= Map::<Seq<char>, ProfileModel>::empty());
        r
    }

    /// Builds the store from the profiles loaded at start-up: every loaded
    /// path is a key, and every stored profile is one of those loaded.
    pub fn init(loaded: Vec<Profile>) -> (r: Profiles)
        requires
            forall|i: int| 0 <= i < loaded.len() ==> (#[trigger] loaded@[i]).wf(),
        ensures
            r.wf(),
            forall|i: int| 0 <= i < loaded.len() ==> #[trigger] r@.contains_key(loaded@[i].path@),
            forall|k: Seq<char>| #[trigger] r@.contains_key(k) ==> exists|i: int|
                0 <= i < loaded.len() && loaded@[i]@ == r@[k],
    {
        let mut r = Profiles::new();
        let mut rest = loaded;
        let ghost all = rest@;
        let ghost mut i: int = 0;
        while rest.len() > 0
            invariant
                r.wf(),
                0 <= i <= all.len(),
                rest@ == all.subrange(i, all.len() as int),
                forall|j: int| 0 <= j < all.len() ==> (#[trigger] all[j]).wf(),
                forall|j: int| 0 <= j < i ==> #[trigger] r@.contains_key(all[j].path@),
                forall|k: Seq<char>| #[trigger] r@.contains_key(k) ==> exists|j: int|
                    0 <= j < i && all[j]@ == r@[k],
            decreases rest.len(),
        {
            let p = rest.remove(0);
            proof {
                assert(p == all[i]);
            }
            let ghost before = r@;
            r.insert(p);
            proof {
                assert forall|k: Seq<char>| #[trigger] r@.contains_key(k) implies exists|j: int|
                    0 <= j < i + 1 && all[j]@ == r@[k] by {
                    if k != all[i].path@ {
                        assert(before.contains_key(k));
                    }
                }
                i = i + 1;
                assert(rest@ =~= all.subrange(i, all.len() as int));
            }
        }
        r
    }

    /// The profile stored under `path`, if any.
    pub fn get(&self, path: &str) -> (r: Option<&Profile>)
        requires
            self.wf(),
        ensures
            r is Some <==> self@.contains_key(path@),
            r matches Some(p) ==> p@ == self@[path@] && p.wf(),
    {
        match self.find(path) {
            Some(i) => {
                proof {
                    lemma_entry(self.entries@, i as int);
                }
                Some(&self.entries[i])
            },
            None => None,
        }
    }

    fn find(&self, path: &str) -> (r: Option<usize>)
        ensures
            r matches Some(i) ==> i < self.entries.len() && self.entries@[i as int].path@ == path@,
            r is None ==> !has_path(self.entries@, path@),
    {
        let mut i: usize = 0;
        while i < self.entries.len()
            invariant
                i <= self.entries.len(),
                forall|j: int| 0 <= j < i ==> self.entries@[j].path@ != path@,
            decreases self.entries.len() - i,
        {
            if crate::model::str_eq(self.entries[i].path.as_str(), path) {
                return Some(i);
            }
            i = i + 1;
        }
        None
    }

    /// Adds `profile` under its path, replacing any profile already stored
    /// there. The path is expected to be canonical already.
    pub fn insert(&mut self, profile: Profile)
        requires
            old(self).wf(),
            profile.wf(),
        ensures
            final(self).wf(),
            final(self)@ == old(self)@.insert(profile.path@, profile@),
    {
        let ghost k = profile.path@;
        let ghost s0 = self.entries@;
        match self.find(profile.path.as_str()) {
            Some(i) => {
                self.entries.set(i, profile);
                proof {
                    let s1 = self.entries@;
                    assert forall|a: int| 0 <= a < s1.len() implies (#[trigger] s1[a]).wf() by {
                        if a != i {
                            assert(s1[a] == s0[a]);
                        }
                    }
                    assert forall|a: int, b: int|
                        0 <= a < s1.len() && 0 <= b < s1.len() && a != b
                        implies s1[a].path@ != s1[b].path@ by {
                        if a != i && b != i {
                            assert(s1[a] == s0[a] && s1[b] == s0[b]);
                        } else if a == i {
                            assert(s0[a].path@ == k);
                        } else {
                            assert(s0[b].path@ == k);
                        }
                    }
                    assert forall|k2: Seq<char>| #[trigger] map_of(s1).contains_key(k2)
                        == old(self)@.insert(k, profile@).contains_key(k2) by {
                        if has_path(s1, k2) {
                            let j = choose|j: int| 0 <= j < s1.len() && s1[j].path@ == k2;
                            if j != i {
                                assert(s0[j] == s1[j]);
                            }
                        }
                        if has_path(s0, k2) && k2 != k {
                            let j = choose|j: int| 0 <= j < s0.len() && s0[j].path@ == k2;
                            assert(s0[j] == s1[j]);
                        }
                        if k2 == k {
                            assert(s1[i as int].path@ == k);
                        }
                    }
                    assert forall|k2: Seq<char>| #[trigger] map_of(s1).contains_key(k2)
                        implies map_of(s1)[k2] == old(self)@.insert(k, profile@)[k2] by {
                        let j = choose|j: int| 0 <= j < s1.len() && s1[j].path@ == k2;
                        lemma_entry(s1, j);
                        if j != i {
                            assert(s0[j] == s1[j]);
                            lemma_entry(s0, j);
                        }
                    }
                    assert(map_of(s1) =~= old(self)@.insert(k, profile@));
                }
            },
            None => {
                self.entries.push(profile);
                proof {
                    let s1 = self.entries@;
                    let n = s0.len() as int;
                    assert forall|a: int| 0 <= a < s1.len() implies (#[trigger] s1[a]).wf() by {
                        if a < n {
                            assert(s1[a] == s0[a]);
                        }
                    }
                    assert forall|a: int, b: int|
                        0 <= a < s1.len() && 0 <= b < s1.len() && a != b
                        implies s1[a].path@ != s1[b].path@ by {
                        if a < n && b < n {
                            assert(s1[a] == s0[a] && s1[b] == s0[b]);
                        } else if a == n {
                            assert(s1[b] == s0[b]);
                        } else {
                            assert(s1[a] == s0[a]);
                        }
                    }
                    assert forall|k2: Seq<char>| #[trigger] map_of(s1).contains_key(k2)
                        == old(self)@.insert(k, profile@).contains_key(k2) by {
                        if has_path(s1, k2) && k2 != k {
                            let j = choose|j: int| 0 <= j < s1.len() && s1[j].path@ == k2;
                            assert(s0[j] == s1[j]);
                        }
                        if has_path(s0, k2) {
                            let j = choose|j: int| 0 <= j < s0.len() && s0[j].path@ == k2;
                            assert(s0[j] == s1[j]);
                        }
                        if k2 == k {
                            assert(s1[n].path@ == k);
                        }
                    }
                    assert forall|k2: Seq<char>| #[trigger] map_of(s1).contains_key(k2)
                        implies map_of(s1)[k2] == old(self)@.insert(k, profile@)[k2] by {
                        let j = choose|j: int| 0 <= j < s1.len() && s1[j].path@ == k2;
                        lemma_entry(s1, j);
                        if j != n {
                            assert(s0[j] == s1[j]);
                            lemma_entry(s0, j);
                        }
                    }
                    assert(map_of(s1) =~= old(self)@.insert(k, profile@));
                }
            },
        }
    }

    /// Removes the profile stored under `path`. Reports the removed profile,
    /// or `None` when no profile was stored there; that is no error.
    pub fn remove(&mut self, path: &str) -> (r: Option<Profile>)
        requires
            old(self).wf(),
        ensures
            final(self).wf(),
            final(self)@ == old(self)@.remove(path@),
            r is Some <==> old(self)@.contains_key(path@),
            r matches Some(p) ==> p@ == old(self)@[path@] && p.wf(),
    {
        let ghost s0 = self.entries@;
        match self.find(path) {
            Some(i) => {
                proof {
                    lemma_entry(s0, i as int);
                }
                let p = self.entries.remove(i);
                proof {
                    let s1 = self.entries@;
                    let k = path@;
                    assert forall|a: int| 0 <= a < s1.len() implies #[trigger] s1[a] == s0[if a
                        < i { a } else { a + 1 }] by {}
                    assert forall|a: int| 0 <= a < s1.len() implies (#[trigger] s1[a]).wf() by {
                        assert(s1[a] == s0[if a < i { a } else { a + 1 }]);
                    }
                    assert forall|a: int, b: int|
                        0 <= a < s1.len() && 0 <= b < s1.len() && a != b
                        implies s1[a].path@ != s1[b].path@ by {
                        assert(s1[a] == s0[if a < i { a } else { a + 1 }]);
                        assert(s1[b] == s0[if b < i { b } else { b + 1 }]);
                    }
                    assert forall|k2: Seq<char>| #[trigger] map_of(s1).contains_key(k2)
                        == old(self)@.remove(k).contains_key(k2) by {
                        if has_path(s1, k2) {
                            let j = choose|j: int| 0 <= j < s1.len() && s1[j].path@ == k2;
                            let j0 = if j < i { j } else { j + 1 };
                            assert(s1[j] == s0[j0]);
                        }
                        if has_path(s0, k2) && k2 != k {
                            let j = choose|j: int| 0 <= j < s0.len() && s0[j].path@ == k2;
                            if j < i {
                                assert(s1[j] == s0[j]);
                            } else {
                                assert(j != i);
                                assert(s1[j - 1] == s0[j]);
                            }
                        }
                    }
                    assert forall|k2: Seq<char>| #[trigger] map_of(s1).contains_key(k2)
                        implies map_of(s1)[k2] == old(self)@.remove(k)[k2] by {
                        let j = choose|j: int| 0 <= j < s1.len() && s1[j].path@ == k2;
                        let j0 = if j < i { j } else { j + 1 };
                        lemma_entry(s1, j);
                        assert(s1[j] == s0[j0]);
                        lemma_entry(s0, j0);
                    }
                    assert(map_of(s1) =~= old(self)@.remove(k));
                }
                Some(p)
            },
            None => {
                assert(self@ =~= old(self)@.remove(path@));
                None
            },
        }
    }

    /// The paths of all stored profiles, each once.
    pub fn paths(&self) -> (r: Vec<String>)
        requires
            self.wf(),
        ensures
            crate::model::strs(r) == self.path_seq(),
            forall|i: int| 0 <= i < r.len() ==> self@.contains_key(#[trigger] r@[i]@),
            forall|k: Seq<char>| #[trigger] self@.contains_key(k) ==> exists|i: int|
                0 <= i < r.len() && r@[i]@ == k,
    {
        let mut r: Vec<String> = Vec::new();
        let mut i: usize = 0;
        while i < self.entries.len()
            invariant
                i <= self.entries.len(),
                r.len() == i,
                forall|j: int| 0 <= j < i ==> #[trigger] r@[j]@ == self.entries@[j].path@,
            decreases self.entries.len() - i,
        {
            r.push(self.entries[i].path.clone());
            i = i + 1;
        }
        proof {
            assert(crate::model::strs(r) =~= self.path_seq());
            assert forall|j: int| 0 <= j < r.len() implies self@.contains_key(#[trigger] r@[j]@) by {
                lemma_entry(self.entries@, j);
            }
            assert forall|k: Seq<char>| #[trigger] self@.contains_key(k) implies exists|j: int|
                0 <= j < r.len() && r@[j]@ == k by {
                let j = choose|j: int| 0 <= j < self.entries.len() && self.entries@[j].path@ == k;
                assert(r@[j]@ == k);
            }
        }
        r
    }
}

/// Removing a path that the store does not hold changes nothing and
/// reports nothing removed.
pub proof fn law_remove_absent(s: Map<Seq<char>, ProfileModel>, path: Seq<char>)
    requires
        !s.contains_key(path),
    ensures
        s.remove(path) == s,
{
    assert(s.remove(path) =~= s);
}

} // verus!
