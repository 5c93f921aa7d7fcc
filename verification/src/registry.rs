//! Records kept under their account identifier, in increasing identifier order.
use vstd::prelude::*;

use crate::text::{lemma_seq_lt_transitive, lemma_seq_lt_trichotomy, seq_lt, str_lt, strictly_sorted};

verus! {

/// A record stored under a string key.
pub trait Keyed {
    /// The key of this record.
    spec fn key_view(&self) -> Seq<char>;

    /// The key of this record.
    fn key(&self) -> (r: &String)
        ensures
            r@ == self.key_view(),
    ;
}

/// The keys of a sequence of records, in order.
pub open spec fn keys_of<T: Keyed>(s: Seq<T>) -> Seq<Seq<char>> {
    s.map_values(|t: T| t.key_view())
}

/// Records by key, at most one per key, kept in increasing key order.
pub struct Registry<T: Keyed> {
    entries: Vec<T>,
}

impl<T: Keyed> Registry<T> {
    /// Keys strictly increase along the entries.
    #[verifier::type_invariant]
    spec fn sorted_keys(self) -> bool {
        strictly_sorted(keys_of(self.entries@))
    }

    /// Whether the entry at `i` has key `k`.
    pub closed spec fn has_key_at(self, i: int, k: Seq<char>) -> bool {
        0 <= i < self.entries@.len() && self.entries@[i].key_view() == k
    }

    /// The entry at `i`.
    pub closed spec fn entry_at(self, i: int) -> T {
        self.entries@[i]
    }
}

impl<T: Keyed> View for Registry<T> {
    type V = Map<Seq<char>, T>;

    closed spec fn view(&self) -> Map<Seq<char>, T> {
        Map::new(
            |k: Seq<char>| exists|i: int| self.has_key_at(i, k),
            |k: Seq<char>| self.entry_at(choose|i: int| self.has_key_at(i, k)),
        )
    }
}

/// In a strictly sorted sequence, equal elements stand at the same position.
proof fn lemma_sorted_distinct(s: Seq<Seq<char>>, i: int, j: int)
    requires
        strictly_sorted(s),
        0 <= i < s.len(),
        0 <= j < s.len(),
        s[i] == s[j],
    ensures
        i == j,
{
    lemma_seq_lt_trichotomy(s[i], s[i]);
    if i < j {
        assert(seq_lt(s[i], s[j]));
    } else if j < i {
        assert(seq_lt(s[j], s[i]));
    }
}

impl<T: Keyed> Registry<T> {
    /// An empty registry.
    pub fn new() -> (r: Self)
        ensures
            r@ == Map::<Seq<char>, T>::empty(),
    {
        let r = Registry { entries: Vec::new() };
        assert(r@ =~= Map::<Seq<char>, T>::empty());
        r
    }

    /// The entry at a position where key `k` stands is the one the view gives for `k`.
    proof fn lemma_view_at(self, i: int)
        requires
            self.sorted_keys(),
            0 <= i < self.entries@.len(),
        ensures
            self@.contains_key(self.entries@[i].key_view()),
            self@[self.entries@[i].key_view()] == self.entries@[i],
    {
        let k = self.entries@[i].key_view();
        assert(self.has_key_at(i, k));
        let j = choose|j: int| self.has_key_at(j, k);
        assert(keys_of(self.entries@)[i] == k && keys_of(self.entries@)[j] == k);
        lemma_sorted_distinct(keys_of(self.entries@), i, j);
    }

    /// The first position whose key is not below `key`.
    fn lower_bound(&self, key: &str) -> (p: usize)
        requires
            self.sorted_keys(),
        ensures
            p <= self.entries@.len(),
            forall|k: int| 0 <= k < p ==> seq_lt(#[trigger] keys_of(self.entries@)[k], key@),
            p < self.entries@.len() ==> !seq_lt(keys_of(self.entries@)[p as int], key@),
    {
        let ghost ks = keys_of(self.entries@);
        let mut p: usize = 0;
        while p < self.entries.len() && str_lt(self.entries[p].key().as_str(), key)
            invariant
                p <= self.entries@.len(),
                ks == keys_of(self.entries@),
                forall|k: int| 0 <= k < p ==> seq_lt(#[trigger] ks[k], key@),
            decreases self.entries.len() - p,
        {
            p = p + 1;
        }
        p
    }

    /// The record stored under `key`, if any.
    pub fn get(&self, key: &str) -> (r: Option<&T>)
        ensures
            r matches Some(t) ==> self@.contains_key(key@) && self@[key@] == *t,
            r is None ==> !self@.contains_key(key@),
    {
        proof {
            use_type_invariant(self);
        }
        let ghost ks = keys_of(self.entries@);
        let p = self.lower_bound(key);
        if p < self.entries.len() && !str_lt(key, self.entries[p].key().as_str()) {
            proof {
                lemma_seq_lt_trichotomy(ks[p as int], key@);
                self.lemma_view_at(p as int);
            }
            Some(&self.entries[p])
        } else {
            proof {
                if self@.contains_key(key@) {
                    let j = choose|j: int| self.has_key_at(j, key@);
                    assert(ks[j] == key@);
                    lemma_seq_lt_trichotomy(key@, key@);
                    if j >= p {
                        lemma_seq_lt_trichotomy(ks[p as int], key@);
                        if j > p {
                            assert(seq_lt(ks[p as int], ks[j]));
                        }
                    }
                }
            }
            None
        }
    }

    /// Whether a record is stored under `key`.
    pub fn contains_key(&self, key: &str) -> (r: bool)
        ensures
            r == self@.contains_key(key@),
    {
        self.get(key).is_some()
    }

    /// Stores `item` under its key, replacing the record stored there before.
    pub fn insert(&mut self, item: T)
        ensures
            final(self)@ == old(self)@.insert(item.key_view(), item),
    {
        proof {
            use_type_invariant(&*self);
        }
        let ghost old_self = *self;
        let ghost ks = keys_of(self.entries@);
        let ghost k = item.key_view();
        let p = self.lower_bound(item.key().as_str());
        let replace = p < self.entries.len() && !str_lt(
            item.key().as_str(),
            self.entries[p].key().as_str(),
        );
        proof {
            if p < ks.len() {
                lemma_seq_lt_trichotomy(ks[p as int], k);
            }
        }
        let mut entries: Vec<T> = Vec::new();
        std::mem::swap(&mut entries, &mut self.entries);
        if replace {
            entries.set(p, item);
            proof {
                let nk = keys_of(entries@);
                assert(nk == ks.update(p as int, k));
                assert(nk == ks);
            }
        } else {
            entries.insert(p, item);
            proof {
                let nk = keys_of(entries@);
                assert(nk == ks.insert(p as int, k));
                if p < ks.len() {
                    assert(seq_lt(k, ks[p as int]));
                }
                assert(strictly_sorted(nk)) by {
                    assert forall|a: int, b: int| 0 <= a < b < nk.len() implies seq_lt(
                        #[trigger] nk[a],
                        #[trigger] nk[b],
                    ) by {
                        if a < p && b == p {
                            assert(seq_lt(ks[a], k));
                        } else if a < p && b > p {
                            assert(seq_lt(ks[a], k));
                            assert(nk[b] == ks[b - 1]);
                            if b - 1 == p {
                            } else {
                                assert(seq_lt(ks[p as int], ks[b - 1]));
                                lemma_seq_lt_transitive(k, ks[p as int], ks[b - 1]);
                            }
                            lemma_seq_lt_transitive(ks[a], k, ks[b - 1]);
                        } else if a == p {
                            assert(nk[b] == ks[b - 1]);
                            if b - 1 > p {
                                assert(seq_lt(ks[p as int], ks[b - 1]));
                                lemma_seq_lt_transitive(k, ks[p as int], ks[b - 1]);
                            }
                        } else if a > p {
                            assert(nk[a] == ks[a - 1] && nk[b] == ks[b - 1]);
                        } else {
                            assert(nk[a] == ks[a] && nk[b] == ks[b]);
                        }
                    }
                }
            }
        }
        self.entries = entries;
        proof {
            let nm = self@;
            let om = old_self@.insert(k, item);
            let nk = keys_of(self.entries@);
            assert forall|q: Seq<char>| nm.contains_key(q) <==> om.contains_key(q) by {
                if nm.contains_key(q) {
                    let j = choose|j: int| self.has_key_at(j, q);
                    if q != k {
                        if replace {
                            assert(old_self.has_key_at(j, q));
                        } else if j < p {
                            assert(old_self.has_key_at(j, q));
                        } else {
                            assert(j != p);
                            assert(old_self.has_key_at(j - 1, q));
                        }
                    }
                }
                if om.contains_key(q) && q != k {
                    let j = choose|j: int| old_self.has_key_at(j, q);
                    if replace || j < p {
                        if replace && j == p {
                            assert(false);
                        }
                        assert(self.has_key_at(j, q));
                    } else {
                        assert(self.has_key_at(j + 1, q));
                    }
                }
                if q == k {
                    assert(self.has_key_at(p as int, q));
                }
            }
            assert forall|q: Seq<char>| #[trigger] nm.contains_key(q) implies nm[q] == om[q] by {
                let j = choose|j: int| self.has_key_at(j, q);
                assert(nk[j] == q);
                if q == k {
                    assert(nk[p as int] == k);
                    lemma_sorted_distinct(nk, j, p as int);
                } else {
                    let i = if replace || j < p {
                        j
                    } else {
                        j - 1
                    };
                    assert(old_self.has_key_at(i, q));
                    old_self.lemma_view_at(i);
                }
            }
            assert(nm =~= om);
        }
    }

    /// The records in increasing key order.
    pub fn entries(&self) -> (r: &[T])
        ensures
            strictly_sorted(keys_of(r@)),
            forall|i: int|
                0 <= i < r@.len() ==> self@.contains_key(#[trigger] r@[i].key_view())
                    && self@[r@[i].key_view()] == r@[i],
            forall|q: Seq<char>|
                #[trigger] self@.contains_key(q) ==> exists|i: int|
                    0 <= i < r@.len() && r@[i].key_view() == q,
    {
        proof {
            use_type_invariant(self);
            assert forall|i: int| 0 <= i < self.entries@.len() implies self@.contains_key(
                #[trigger] self.entries@[i].key_view(),
            ) && self@[self.entries@[i].key_view()] == self.entries@[i] by {
                self.lemma_view_at(i);
            }
            assert forall|q: Seq<char>| #[trigger] self@.contains_key(q) implies exists|i: int|
                0 <= i < self.entries@.len() && self.entries@[i].key_view() == q by {
                let j = choose|j: int| self.has_key_at(j, q);
            }
        }
        self.entries.as_slice()
    }
}

/// Law: after `insert(item)`, `get` of the item's key gives back the item, and every
/// other key keeps its record (or stays absent).
pub proof fn lemma_insert_then_get<T: Keyed>(before: Map<Seq<char>, T>, item: T, other: Seq<char>)
    requires
        other != item.key_view(),
    ensures
        before.insert(item.key_view(), item).contains_key(item.key_view()),
        before.insert(item.key_view(), item)[item.key_view()] == item,
        before.insert(item.key_view(), item).contains_key(other) == before.contains_key(other),
        before.contains_key(other) ==> before.insert(item.key_view(), item)[other] == before[other],
{
}

} // verus!
