//! A snapshot of environment variables: a map from variable names to values.
use vstd::prelude::*;
use vstd::string::*;

verus! {

/// Environment variables by name, each name present at most once.
pub struct EnvMap {
    entries: Vec<(String, String)>,
}

impl EnvMap {
    /// No name occurs twice.
    #[verifier::type_invariant]
    spec fn unique_keys(self) -> bool {
        forall|i: int, j: int|
            0 <= i < j < self.entries@.len() ==> #[trigger] self.entries@[i].0@
                != #[trigger] self.entries@[j].0@
    }

    /// Whether the entry at `i` has name `k`.
    pub closed spec fn has_key_at(self, i: int, k: Seq<char>) -> bool {
        0 <= i < self.entries@.len() && self.entries@[i].0@ == k
    }

    /// The value of the entry at `i`.
    pub closed spec fn value_at(self, i: int) -> Seq<char> {
        self.entries@[i].1@
    }
}

impl View for EnvMap {
    type V = Map<Seq<char>, Seq<char>>;

    closed spec fn view(&self) -> Map<Seq<char>, Seq<char>> {
        Map::new(
            |k: Seq<char>| exists|i: int| self.has_key_at(i, k),
            |k: Seq<char>| self.value_at(choose|i: int| self.has_key_at(i, k)),
        )
    }
}

impl EnvMap {
    /// An empty map.
    pub fn new() -> (m: Self)
        ensures
            m@ == Map::<Seq<char>, Seq<char>>::empty(),
    {
        let m = EnvMap { entries: Vec::new() };
        assert(m@ =~= Map::<Seq<char>, Seq<char>>::empty());
        m
    }

    /// The position of the entry named `key`, if any.
    fn position(&self, key: &str) -> (r: Option<usize>)
        ensures
            r matches Some(i) ==> self.has_key_at(i as int, key@),
            r is None ==> forall|i: int| !self.has_key_at(i, key@),
    {
        let wanted = String::from_str(key);
        let mut i: usize = 0;
        while i < self.entries.len()
            invariant
                i <= self.entries@.len(),
                wanted@ == key@,
                forall|k: int| 0 <= k < i ==> !self.has_key_at(k, key@),
            decreases self.entries.len() - i,
        {
            if self.entries[i].0 == wanted {
                return Some(i);
            }
            i = i + 1;
        }
        None
    }

    /// The value of `key`, if it is set.
    pub fn get(&self, key: &str) -> (r: Option<&String>)
        ensures
            r matches Some(v) ==> self@.contains_key(key@) && self@[key@] == v@,
            r is None ==> !self@.contains_key(key@),
    {
        proof {
            use_type_invariant(self);
        }
        match self.position(key) {
            Some(i) => {
                proof {
                    let j = choose|j: int| self.has_key_at(j, key@);
                    assert(j == i) by {
                        if j < i {
                            assert(self.entries@[j].0@ != self.entries@[i as int].0@);
                        } else if j > i {
                            assert(self.entries@[i as int].0@ != self.entries@[j].0@);
                        }
                    }
                }
                Some(&self.entries[i].1)
            },
            None => None,
        }
    }

    /// Sets `key` to `value`, replacing an earlier value.
    pub fn insert(&mut self, key: String, value: String)
        ensures
            final(self)@ == old(self)@.insert(key@, value@),
    {
        proof {
            use_type_invariant(&*self);
        }
        let ghost old_self = *self;
        match self.position(key.as_str()) {
            Some(i) => {
                let mut entries: Vec<(String, String)> = Vec::new();
                std::mem::swap(&mut entries, &mut self.entries);
                entries.set(i, (key, value));
                proof {
                    assert forall|a: int, b: int|
                        0 <= a < b < entries@.len() implies #[trigger] entries@[a].0@
                        != #[trigger] entries@[b].0@ by {
                        assert(old_self.entries@[a].0@ != old_self.entries@[b].0@);
                    }
                }
                self.entries = entries;
            },
            None => {
                let mut entries: Vec<(String, String)> = Vec::new();
                std::mem::swap(&mut entries, &mut self.entries);
                entries.push((key, value));
                proof {
                    assert forall|a: int, b: int|
                        0 <= a < b < entries@.len() implies #[trigger] entries@[a].0@
                        != #[trigger] entries@[b].0@ by {
                        if b < old_self.entries@.len() {
                            assert(old_self.entries@[a].0@ != old_self.entries@[b].0@);
                        } else {
                            assert(!old_self.has_key_at(a, entries@[b].0@));
                        }
                    }
                }
                self.entries = entries;
            },
        }
        proof {
            let ghost nm = self@;
            let ghost om = old_self@.insert(key@, value@);
            assert forall|k: Seq<char>| nm.contains_key(k) <==> om.contains_key(k) by {
                if nm.contains_key(k) {
                    let j = choose|j: int| self.has_key_at(j, k);
                    if k != key@ {
                        assert(old_self.has_key_at(j, k));
                    }
                }
                if om.contains_key(k) && k != key@ {
                    let j = choose|j: int| old_self.has_key_at(j, k);
                    assert(self.has_key_at(j, k));
                }
                if k == key@ {
                    let j = if old_self.entries@.len() < self.entries@.len() {
                        old_self.entries@.len() as int
                    } else {
                        choose|j: int| old_self.has_key_at(j, k)
                    };
                    assert(self.has_key_at(j, k));
                }
            }
            assert forall|k: Seq<char>| #[trigger] nm.contains_key(k) implies nm[k] == om[k] by {
                let j = choose|j: int| self.has_key_at(j, k);
                if k == key@ {
                    assert(self.entries@[j].1@ == value@) by {
                        if old_self.entries@.len() < self.entries@.len() {
                            if j < old_self.entries@.len() {
                                assert(old_self.has_key_at(j, k));
                            }
                        } else {
                            let i = choose|i: int| old_self.has_key_at(i, k);
                            assert(self.has_key_at(i, k));
                            if j != i {
                                if j < i {
                                    assert(self.entries@[j].0@ != self.entries@[i].0@);
                                } else {
                                    assert(self.entries@[i].0@ != self.entries@[j].0@);
                                }
                            }
                        }
                    }
                } else {
                    assert(old_self.has_key_at(j, k));
                    let i = choose|i: int| old_self.has_key_at(i, k);
                    assert(i == j) by {
                        if i < j {
                            assert(old_self.entries@[i].0@ != old_self.entries@[j].0@);
                        } else if j < i {
                            assert(old_self.entries@[j].0@ != old_self.entries@[i].0@);
                        }
                    }
                }
            }
            assert(nm =~= om);
        }
    }

    /// The names of all variables.
    pub fn keys(&self) -> (r: Vec<String>)
        ensures
            r@.map_values(|s: String| s@).to_set() == self@.dom(),
    {
        let mut r: Vec<String> = Vec::new();
        let mut i: usize = 0;
        while i < self.entries.len()
            invariant
                i <= self.entries@.len(),
                r@.len() == i,
                forall|k: int| 0 <= k < i ==> (#[trigger] r@[k])@ == self.entries@[k].0@,
            decreases self.entries.len() - i,
        {
            r.push(self.entries[i].0.clone());
            i = i + 1;
        }
        proof {
            let rv = r@.map_values(|s: String| s@);
            assert forall|k: Seq<char>| rv.to_set().contains(k) <==> self@.dom().contains(k) by {
                if rv.to_set().contains(k) {
                    let j = choose|j: int| 0 <= j < rv.len() && rv[j] == k;
                    assert(self.has_key_at(j, k));
                }
                if self@.dom().contains(k) {
                    let j = choose|j: int| self.has_key_at(j, k);
                    assert(rv[j] == k);
                }
            }
            assert(rv.to_set() =~= self@.dom());
        }
        r
    }
}

/// Law: after `insert(key, value)`, `get(key)` gives back `value`, and every other name
/// keeps its value (or stays unset).
pub proof fn lemma_insert_then_get(
    before: Map<Seq<char>, Seq<char>>,
    key: Seq<char>,
    value: Seq<char>,
    other: Seq<char>,
)
    requires
        other != key,
    ensures
        before.insert(key, value).contains_key(key),
        before.insert(key, value)[key] == value,
        before.insert(key, value).contains_key(other) == before.contains_key(other),
        before.contains_key(other) ==> before.insert(key, value)[other] == before[other],
{
}

} // verus!
