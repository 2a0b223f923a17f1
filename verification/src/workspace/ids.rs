//! Small collections keyed by id: a set and a map that keep each id once.

use vstd::prelude::*;
use vstd::string::*;

use crate::text;
use crate::text::{find_text, owned, same_text};

verus! {

/// Whether no text of a list occurs twice.
pub open spec fn distinct(list: Seq<Seq<char>>) -> bool {
    forall|i: int, j: int| 0 <= i < j < list.len() ==> list[i] != list[j]
}

/// A set of ids.
pub struct IdSet {
    ids: Vec<String>,
}

impl View for IdSet {
    type V = Set<Seq<char>>;

    closed spec fn view(&self) -> Set<Seq<char>> {
        text::texts(self.ids@).to_set()
    }
}

impl IdSet {
    /// No id is kept twice.
    #[verifier::type_invariant]
    closed spec fn once(&self) -> bool {
        distinct(text::texts(self.ids@))
    }

    /// No ids.
    pub fn new() -> (r: IdSet)
        ensures
            r@ == Set::<Seq<char>>::empty(),
    {
        let ids: Vec<String> = Vec::new();
        assert(text::texts(ids@) =~= Seq::<Seq<char>>::empty());
        let r = IdSet { ids };
        assert(r@ =~= Set::<Seq<char>>::empty());
        r
    }

    /// Whether an id is in the set.
    pub fn contains(&self, id: &str) -> (r: bool)
        ensures
            r == self@.contains(id@),
    {
        let found: Option<usize> = find_text(&self.ids, id);
        proof {
            let all = text::texts(self.ids@);
            text::lemma_position_of(all, id@);
            if let Some(i) = found {
                assert(all[i as int] == id@);
                assert(all.contains(id@));
            } else if all.contains(id@) {
                let j = choose|j: int| 0 <= j < all.len() && all[j] == id@;
                assert(all[j] != id@);
            }
        }
        found.is_some()
    }

    /// Put an id into the set.
    pub fn insert(&mut self, id: &str)
        ensures
            final(self)@ == old(self)@.insert(id@),
    {
        proof {
            use_type_invariant(&*self);
        }
        if self.contains(id) {
            assert(self@ =~= self@.insert(id@));
            return;
        }
        let ghost before = text::texts(self.ids@);
        let mut ids: Vec<String> = Vec::new();
        std::mem::swap(&mut ids, &mut self.ids);
        ids.push(owned(id));
        proof {
            let after = text::texts(ids@);
            assert(after =~= before.push(id@));
            assert forall|i: int, j: int| 0 <= i < j < after.len() implies after[i] != after[j] by {
                if j == before.len() {
                    assert(before.contains(before[i]));
                }
            }
            assert forall|x: Seq<char>| after.to_set().contains(x) == before.to_set().insert(
                id@,
            ).contains(x) by {
                if after.contains(x) {
                    let i = choose|i: int| 0 <= i < after.len() && after[i] == x;
                    if i < before.len() {
                        assert(before[i] == x);
                    }
                }
                if before.contains(x) {
                    let i = choose|i: int| 0 <= i < before.len() && before[i] == x;
                    assert(after[i] == x);
                }
                assert(after[before.len() as int] == id@);
            }
            assert(after.to_set() =~= before.to_set().insert(id@));
        }
        self.ids = ids;
    }

    /// Take an id out of the set. Returns whether it was in it.
    pub fn remove(&mut self, id: &str) -> (r: bool)
        ensures
            final(self)@ == old(self)@.remove(id@),
            r == old(self)@.contains(id@),
    {
        proof {
            use_type_invariant(&*self);
        }
        if !self.contains(id) {
            assert(self@ =~= self@.remove(id@));
            return false;
        }
        let ghost before = text::texts(self.ids@);
        let mut ids: Vec<String> = Vec::new();
        std::mem::swap(&mut ids, &mut self.ids);
        let found: Option<usize> = find_text(&ids, id);
        proof {
            text::lemma_position_of(before, id@);
            assert(before.contains(id@));
        }
        if let Some(k) = found {
            ids.remove(k);
            proof {
                let after = text::texts(ids@);
                assert(after =~= before.remove(k as int));
                assert forall|i: int, j: int| 0 <= i < j < after.len() implies after[i]
                    != after[j] by {
                    let a = if i < k {
                        i
                    } else {
                        i + 1
                    };
                    let b = if j < k {
                        j
                    } else {
                        j + 1
                    };
                    assert(after[i] == before[a] && after[j] == before[b]);
                }
                assert forall|x: Seq<char>| after.to_set().contains(x) == before.to_set().remove(
                    id@,
                ).contains(x) by {
                    if after.contains(x) {
                        let i = choose|i: int| 0 <= i < after.len() && after[i] == x;
                        let a = if i < k {
                            i
                        } else {
                            i + 1
                        };
                        assert(before[a] == x);
                        assert(before[k as int] == id@);
                        assert(a != k);
                    }
                    if before.contains(x) && x != id@ {
                        let a = choose|a: int| 0 <= a < before.len() && before[a] == x;
                        let i = if a < k {
                            a
                        } else {
                            a - 1
                        };
                        assert(after[i] == x);
                    }
                }
                assert(after.to_set() =~= before.to_set().remove(id@));
            }
        }
        self.ids = ids;
        true
    }
}

/// What each key of a list of pairs stands for.
pub open spec fn meaning(list: Seq<(Seq<char>, Seq<char>)>) -> Map<Seq<char>, Seq<char>>
    decreases list.len(),
{
    if list.len() == 0 {
        Map::empty()
    } else {
        meaning(list.drop_last()).insert(list.last().0, list.last().1)
    }
}

/// The keys of a list of pairs.
pub open spec fn keys(list: Seq<(Seq<char>, Seq<char>)>) -> Seq<Seq<char>> {
    list.map_values(|p: (Seq<char>, Seq<char>)| p.0)
}

proof fn lemma_meaning(list: Seq<(Seq<char>, Seq<char>)>)
    requires
        distinct(keys(list)),
    ensures
        forall|i: int|
            0 <= i < list.len() ==> meaning(list).dom().contains((#[trigger] list[i]).0)
                && meaning(list)[list[i].0] == list[i].1,
        forall|k: Seq<char>| #[trigger]
            meaning(list).dom().contains(k) ==> exists|i: int|
                0 <= i < list.len() && (#[trigger] list[i]).0 == k,
    decreases list.len(),
{
    if list.len() > 0 {
        let rest = list.drop_last();
        assert forall|i: int, j: int| 0 <= i < j < keys(rest).len() implies keys(rest)[i] != keys(
            rest,
        )[j] by {
            assert(keys(list)[i] == keys(rest)[i] && keys(list)[j] == keys(rest)[j]);
        }
        lemma_meaning(rest);
        assert forall|i: int| 0 <= i < list.len() implies meaning(list).dom().contains(
            (#[trigger] list[i]).0,
        ) && meaning(list)[list[i].0] == list[i].1 by {
            if i < rest.len() {
                assert(rest[i] == list[i]);
                assert(keys(list)[i] != keys(list)[list.len() - 1]);
            }
        }
        assert forall|k: Seq<char>| #[trigger] meaning(list).dom().contains(k) implies exists|
            i: int,
        | 0 <= i < list.len() && (#[trigger] list[i]).0 == k by {
            if k == list.last().0 {
                assert(list[list.len() - 1].0 == k);
            } else {
                let i = choose|i: int| 0 <= i < rest.len() && (#[trigger] rest[i]).0 == k;
                assert(list[i] == rest[i]);
            }
        }
    }
}

/// A map from ids to ids.
pub struct IdMap {
    pairs: Vec<(String, String)>,
}

impl View for IdMap {
    type V = Map<Seq<char>, Seq<char>>;

    closed spec fn view(&self) -> Map<Seq<char>, Seq<char>> {
        meaning(text::pairs(self.pairs@))
    }
}

impl IdMap {
    /// No key is kept twice.
    #[verifier::type_invariant]
    closed spec fn once(&self) -> bool {
        distinct(keys(text::pairs(self.pairs@)))
    }

    /// No entries.
    pub fn new() -> (r: IdMap)
        ensures
            r@ == Map::<Seq<char>, Seq<char>>::empty(),
    {
        let pairs: Vec<(String, String)> = Vec::new();
        assert(text::pairs(pairs@) =~= Seq::<(Seq<char>, Seq<char>)>::empty());
        IdMap { pairs }
    }

    fn find(&self, key: &str) -> (r: Option<usize>)
        ensures
            match r {
                Some(i) => i < self.pairs@.len() && self.pairs@[i as int].0@ == key@,
                None => forall|j: int|
                    0 <= j < self.pairs@.len() ==> (#[trigger] self.pairs@[j]).0@ != key@,
            },
    {
        let mut i: usize = 0;
        while i < self.pairs.len()
            invariant
                i <= self.pairs@.len(),
                forall|j: int| 0 <= j < i ==> (#[trigger] self.pairs@[j]).0@ != key@,
            decreases self.pairs@.len() - i,
        {
            if same_text(self.pairs[i].0.as_str(), key) {
                return Some(i);
            }
            i += 1;
        }
        None
    }

    /// What a key stands for.
    pub fn get(&self, key: &str) -> (r: Option<String>)
        ensures
            match r {
                Some(v) => self@.dom().contains(key@) && self@[key@] == v@,
                None => !self@.dom().contains(key@),
            },
    {
        proof {
            use_type_invariant(self);
            lemma_meaning(text::pairs(self.pairs@));
        }
        match self.find(key) {
            Some(i) => {
                assert(text::pairs(self.pairs@)[i as int] == (key@, self.pairs@[i as int].1@));
                Some(self.pairs[i].1.clone())
            },
            None => {
                proof {
                    let all = text::pairs(self.pairs@);
                    if meaning(all).dom().contains(key@) {
                        let i = choose|i: int| 0 <= i < all.len() && (#[trigger] all[i]).0 == key@;
                        assert(self.pairs@[i].0@ == key@);
                    }
                }
                None
            },
        }
    }

    /// Take a key out of the map.
    pub fn remove(&mut self, key: &str)
        ensures
            final(self)@ == old(self)@.remove(key@),
    {
        proof {
            use_type_invariant(&*self);
        }
        let ghost before = text::pairs(self.pairs@);
        let found: Option<usize> = self.find(key);
        match found {
            Some(k) => {
                let mut pairs: Vec<(String, String)> = Vec::new();
                std::mem::swap(&mut pairs, &mut self.pairs);
                pairs.remove(k);
                proof {
                    let after = text::pairs(pairs@);
                    assert(before[k as int].0 == key@);
                    assert(after =~= before.remove(k as int));
                    lemma_removed(before, k as int);
                }
                self.pairs = pairs;
            },
            None => {
                proof {
                    lemma_meaning(before);
                    if meaning(before).dom().contains(key@) {
                        let i = choose|i: int|
                            0 <= i < before.len() && (#[trigger] before[i]).0 == key@;
                        assert(self.pairs@[i].0@ == key@);
                    }
                    assert(meaning(before) =~= meaning(before).remove(key@));
                }
            },
        }
    }

    /// Have a key stand for a value.
    pub fn insert(&mut self, key: &str, value: &str)
        ensures
            final(self)@ == old(self)@.insert(key@, value@),
    {
        self.remove(key);
        proof {
            use_type_invariant(&*self);
        }
        let ghost before = text::pairs(self.pairs@);
        proof {
            lemma_meaning(before);
        }
        let mut pairs: Vec<(String, String)> = Vec::new();
        std::mem::swap(&mut pairs, &mut self.pairs);
        pairs.push((owned(key), owned(value)));
        proof {
            let after = text::pairs(pairs@);
            assert(after =~= before.push((key@, value@)));
            assert(after.drop_last() =~= before);
            assert forall|i: int, j: int| 0 <= i < j < keys(after).len() implies keys(after)[i]
                != keys(after)[j] by {
                if j == before.len() {
                    assert(before[i] == after[i]);
                    assert(meaning(before).dom().contains(before[i].0));
                } else {
                    assert(keys(before)[i] == keys(after)[i] && keys(before)[j] == keys(after)[j]);
                }
            }
        }
        self.pairs = pairs;
        assert(self@ =~= old(self)@.insert(key@, value@));
    }
}

proof fn lemma_removed(list: Seq<(Seq<char>, Seq<char>)>, k: int)
    requires
        distinct(keys(list)),
        0 <= k < list.len(),
    ensures
        distinct(keys(list.remove(k))),
        meaning(list.remove(k)) == meaning(list).remove(list[k].0),
{
    let after = list.remove(k);
    assert forall|i: int, j: int| 0 <= i < j < keys(after).len() implies keys(after)[i] != keys(
        after,
    )[j] by {
        let a = if i < k {
            i
        } else {
            i + 1
        };
        let b = if j < k {
            j
        } else {
            j + 1
        };
        assert(keys(after)[i] == keys(list)[a] && keys(after)[j] == keys(list)[b]);
    }
    lemma_meaning(list);
    lemma_meaning(after);
    let x = meaning(after);
    let y = meaning(list).remove(list[k].0);
    assert forall|key: Seq<char>| x.dom().contains(key) == y.dom().contains(key) by {
        if x.dom().contains(key) {
            let i = choose|i: int| 0 <= i < after.len() && (#[trigger] after[i]).0 == key;
            let a = if i < k {
                i
            } else {
                i + 1
            };
            assert(after[i] == list[a]);
            assert(keys(list)[a] == key);
            assert(keys(list)[k] == list[k].0);
            if a < k {
                assert(keys(list)[a] != keys(list)[k]);
            } else {
                assert(keys(list)[k] != keys(list)[a]);
            }
        }
        if y.dom().contains(key) {
            let a = choose|a: int| 0 <= a < list.len() && (#[trigger] list[a]).0 == key;
            let i = if a < k {
                a
            } else {
                a - 1
            };
            assert(after[i] == list[a]);
        }
    }
    assert forall|key: Seq<char>| x.dom().contains(key) implies x[key] == y[key] by {
        let i = choose|i: int| 0 <= i < after.len() && (#[trigger] after[i]).0 == key;
        let a = if i < k {
            i
        } else {
            i + 1
        };
        assert(after[i] == list[a]);
        assert(meaning(list)[list[a].0] == list[a].1);
        assert(x[after[i].0] == after[i].1);
    }
    assert(x =~= y);
}

} // verus!
