//! Association lists with string keys kept strictly sorted.
//!
//! Every keyed container that feeds the canonical encoding is stored this
//! way: entries strictly ordered by [`crate::order::lex_lt`], so that the
//! entry sequence — and with it every canonical encoding and hash — is a
//! function of the map contents alone, not of insertion order.

use vstd::prelude::*;
use crate::order::{lex_lt, str_lt, str_eq, lemma_lex_irrefl, lemma_lex_trans, lemma_lex_connected};

verus! {

/// Keys are strictly increasing.
pub open spec fn entries_sorted<V>(s: Seq<(Seq<char>, V)>) -> bool {
    forall|i: int, j: int| 0 <= i < j < s.len() ==> lex_lt(s[i].0, s[j].0)
}

/// Some entry carries key `k`.
pub open spec fn has_key<V>(s: Seq<(Seq<char>, V)>, k: Seq<char>) -> bool {
    exists|i: int| 0 <= i < s.len() && s[i].0 == k
}

/// The value stored under `k`, if any entry carries it: the first match.
pub open spec fn value_of<V>(s: Seq<(Seq<char>, V)>, k: Seq<char>) -> V
    recommends
        has_key(s, k),
    decreases s.len(),
{
    if s.len() == 0 {
        arbitrary()
    } else if s[0].0 == k {
        s[0].1
    } else {
        value_of(s.drop_first(), k)
    }
}

/// The entry sequence as a map from key to value.
pub open spec fn map_of<V>(s: Seq<(Seq<char>, V)>) -> Map<Seq<char>, V> {
    Map::new(|k: Seq<char>| has_key(s, k), |k: Seq<char>| value_of(s, k))
}

/// In a sorted entry sequence each key appears at exactly one position.
pub proof fn lemma_sorted_key_unique<V>(s: Seq<(Seq<char>, V)>, i: int, j: int)
    requires
        entries_sorted(s),
        0 <= i < s.len(),
        0 <= j < s.len(),
        s[i].0 == s[j].0,
    ensures
        i == j,
{
    if i < j {
        assert(lex_lt(s[i].0, s[j].0));
        lemma_lex_irrefl(s[i].0);
    }
    if j < i {
        assert(lex_lt(s[j].0, s[i].0));
        lemma_lex_irrefl(s[i].0);
    }
}

/// In a sorted entry sequence, the entry at a position carrying `k`
/// determines `value_of`.
pub proof fn lemma_value_at<V>(s: Seq<(Seq<char>, V)>, i: int)
    requires
        entries_sorted(s),
        0 <= i < s.len(),
    ensures
        has_key(s, s[i].0),
        value_of(s, s[i].0) == s[i].1,
    decreases s.len(),
{
    assert(has_key(s, s[i].0));
    if i == 0 {
    } else {
        assert(lex_lt(s[0].0, s[i].0));
        lemma_lex_irrefl(s[0].0);
        assert(s[0].0 != s[i].0);
        let t = s.drop_first();
        assert forall|a: int, b: int| 0 <= a < b < t.len() implies lex_lt(t[a].0, t[b].0) by {
            assert(t[a] == s[a + 1]);
            assert(t[b] == s[b + 1]);
        }
        assert(t[i - 1] == s[i]);
        lemma_value_at(t, i - 1);
    }
}

/// The first entry carrying `k` determines `value_of`, sorted or not.
pub proof fn lemma_first_match<V>(s: Seq<(Seq<char>, V)>, i: int, k: Seq<char>)
    requires
        0 <= i < s.len(),
        s[i].0 == k,
        forall|j: int| 0 <= j < i ==> s[j].0 != k,
    ensures
        has_key(s, k),
        value_of(s, k) == s[i].1,
    decreases i,
{
    assert(has_key(s, k));
    if i == 0 {
    } else {
        let t = s.drop_first();
        assert(t[i - 1] == s[i]);
        assert forall|j: int| 0 <= j < i - 1 implies t[j].0 != k by {
            assert(t[j] == s[j + 1]);
        }
        lemma_first_match(t, i - 1, k);
    }
}

/// Dropping the first entry of a sorted sequence removes exactly its key.
pub proof fn lemma_drop_first_map<V>(s: Seq<(Seq<char>, V)>)
    requires
        entries_sorted(s),
        s.len() > 0,
    ensures
        entries_sorted(s.drop_first()),
        map_of(s.drop_first()) == map_of(s).remove(s[0].0),
    decreases s.len(),
{
    let t = s.drop_first();
    assert forall|i: int, j: int| 0 <= i < j < t.len() implies lex_lt(t[i].0, t[j].0) by {
        assert(t[i] == s[i + 1]);
        assert(t[j] == s[j + 1]);
    }
    assert forall|k: Seq<char>| #[trigger] has_key(t, k) implies has_key(s, k) && k != s[0].0 by {
        let i = choose|i: int| 0 <= i < t.len() && t[i].0 == k;
        assert(t[i] == s[i + 1]);
        assert(lex_lt(s[0].0, s[i + 1].0));
        lemma_lex_irrefl(s[0].0);
    }
    assert forall|k: Seq<char>| has_key(s, k) && k != s[0].0 implies #[trigger] has_key(t, k) by {
        let i = choose|i: int| 0 <= i < s.len() && s[i].0 == k;
        assert(i != 0);
        assert(t[i - 1] == s[i]);
    }
    assert forall|k: Seq<char>| #[trigger] has_key(t, k) implies value_of(t, k) == value_of(s, k) by {
        let i = choose|i: int| 0 <= i < t.len() && t[i].0 == k;
        assert(t[i] == s[i + 1]);
        lemma_value_at(t, i);
        lemma_value_at(s, i + 1);
    }
    assert(map_of(s.drop_first()) =~= map_of(s).remove(s[0].0));
}

/// Two sorted entry sequences that represent the same map are the same
/// sequence: the canonical form of a map is unique.
pub proof fn lemma_sorted_extensional<V>(s1: Seq<(Seq<char>, V)>, s2: Seq<(Seq<char>, V)>)
    requires
        entries_sorted(s1),
        entries_sorted(s2),
        map_of(s1) == map_of(s2),
    ensures
        s1 == s2,
    decreases s1.len(),
{
    if s1.len() == 0 && s2.len() == 0 {
        assert(s1 =~= s2);
    } else if s1.len() == 0 {
        lemma_value_at(s2, 0);
        assert(map_of(s2).dom().contains(s2[0].0));
        assert(has_key(s1, s2[0].0));
    } else if s2.len() == 0 {
        lemma_value_at(s1, 0);
        assert(map_of(s1).dom().contains(s1[0].0));
        assert(has_key(s2, s1[0].0));
    } else {
        let k1 = s1[0].0;
        let k2 = s2[0].0;
        // The head key of a sorted sequence is its least key; equal maps
        // have equal least keys.
        lemma_value_at(s1, 0);
        lemma_value_at(s2, 0);
        assert(map_of(s1).dom().contains(k1));
        assert(map_of(s2).dom().contains(k2));
        assert(map_of(s2).dom().contains(k1));
        assert(map_of(s1).dom().contains(k2));
        assert(has_key(s2, k1));
        assert(has_key(s1, k2));
        let i2 = choose|i: int| 0 <= i < s2.len() && s2[i].0 == k1;
        let i1 = choose|i: int| 0 <= i < s1.len() && s1[i].0 == k2;
        if k1 != k2 {
            assert(i2 != 0);
            assert(i1 != 0);
            assert(lex_lt(k2, s2[i2].0));
            assert(lex_lt(k1, s1[i1].0));
            lemma_lex_trans(k1, k2, k1);
            lemma_lex_irrefl(k1);
        }
        assert(k1 == k2);
        assert(map_of(s1)[k1] == value_of(s1, k1));
        assert(map_of(s2)[k1] == value_of(s2, k1));
        assert(value_of(s1, k1) == value_of(s2, k1));
        assert(s1[0] == s2[0]);
        lemma_drop_first_map(s1);
        lemma_drop_first_map(s2);
        lemma_sorted_extensional(s1.drop_first(), s2.drop_first());
        assert forall|i: int| 0 <= i < s1.len() implies s1[i] == s2[i] by {
            if i > 0 {
                assert(s1[i] == s1.drop_first()[i - 1]);
                assert(s2[i] == s2.drop_first()[i - 1]);
            }
        }
        assert(s1 =~= s2);
    }
}

/// A map whose entries stay strictly sorted by key.
#[derive(Debug)]
pub struct StrMap<V> {
    entries: Vec<(String, V)>,
}

impl<V> View for StrMap<V> {
    type V = Seq<(Seq<char>, V)>;

    closed spec fn view(&self) -> Seq<(Seq<char>, V)> {
        Seq::new(self.entries@.len(), |i: int| (self.entries@[i].0@, self.entries@[i].1))
    }
}

impl<V> StrMap<V> {
    /// The entries are strictly sorted by key.
    pub open spec fn wf(&self) -> bool {
        entries_sorted(self@)
    }

    /// The map the entries represent.
    pub open spec fn spec_map(&self) -> Map<Seq<char>, V> {
        map_of(self@)
    }

    /// An empty map.
    pub fn new() -> (r: Self)
        ensures
            r.wf(),
            r@ =~= Seq::<(Seq<char>, V)>::empty(),
            r.spec_map() =~= Map::<Seq<char>, V>::empty(),
    {
        let r = StrMap { entries: Vec::new() };
        proof {
            assert(r@.len() == 0);
            assert forall|k: Seq<char>| !has_key(r@, k) by {}
            assert(map_of(r@) =~= Map::<Seq<char>, V>::empty());
        }
        r
    }

    /// How many entries the map holds.
    pub fn len(&self) -> (n: usize)
        ensures
            n == self@.len(),
    {
        self.entries.len()
    }

    /// Whether the map holds no entry.
    pub fn is_empty(&self) -> (b: bool)
        ensures
            b == (self@.len() == 0),
    {
        self.entries.len() == 0
    }

    /// The entry at a position, in key order.
    pub fn entry_at(&self, i: usize) -> (r: (&String, &V))
        requires
            i < self@.len(),
        ensures
            r.0@ == self@[i as int].0,
            *r.1 == self@[i as int].1,
    {
        let e = &self.entries[i];
        (&e.0, &e.1)
    }

    /// Looks a key up: the first entry carrying it.
    pub fn get(&self, key: &str) -> (r: Option<&V>)
        ensures
            match r {
                Some(v) => has_key(self@, key@) && *v == value_of(self@, key@),
                None => !has_key(self@, key@),
            },
    {
        let n = self.entries.len();
        let mut i: usize = 0;
        while i < n
            invariant
                n == self@.len(),
                i <= n,
                forall|j: int| 0 <= j < i ==> self@[j].0 != key@,
            decreases n - i,
        {
            if str_eq(self.entries[i].0.as_str(), key) {
                proof {
                    lemma_first_match(self@, i as int, key@);
                }
                return Some(&self.entries[i].1);
            }
            i += 1;
        }
        proof {
            if has_key(self@, key@) {
                let j = choose|j: int| 0 <= j < self@.len() && self@[j].0 == key@;
                assert(self@[j].0 != key@);
            }
        }
        None
    }

    /// Whether the map holds the key.
    pub fn contains_key(&self, key: &str) -> (b: bool)
        ensures
            b == has_key(self@, key@),
    {
        self.get(key).is_some()
    }

    /// Inserts or replaces; the entries stay sorted, and the represented map
    /// gains exactly this binding.
    pub fn insert(&mut self, key: String, value: V)
        requires
            old(self).wf(),
        ensures
            final(self).wf(),
            final(self).spec_map() == old(self).spec_map().insert(key@, value),
            has_key(final(self)@, key@),
            forall|k: Seq<char>| #[trigger] has_key(final(self)@, k) ==>
                k == key@ || has_key(old(self)@, k),
    {
        let ghost old_view = self@;
        let n = self.entries.len();
        let mut i: usize = 0;
        while i < n
            invariant
                entries_sorted(old_view),
                old_view == self@,
                self@ == old(self)@,
                n == self@.len(),
                i <= n,
                forall|j: int| 0 <= j < i ==> lex_lt(self@[j].0, key@),
            decreases n - i,
        {
            if str_eq(self.entries[i].0.as_str(), key.as_str()) {
                let ghost gi = i as int;
                self.entries.set(i, (key, value));
                proof {
                    let newv = self@;
                    assert forall|a: int, b: int| 0 <= a < b < newv.len()
                        implies lex_lt(newv[a].0, newv[b].0) by {
                        assert(old_view[a].0 == newv[a].0);
                        assert(old_view[b].0 == newv[b].0);
                    }
                    self.lemma_insert_replaced(old_view, gi);
                    assert(old_view == old(self)@);
                    assert(old(self).spec_map() == map_of(old_view));
                    assert(self@[gi] == (key@, value));
                    assert(self.spec_map() == map_of(old_view).insert(self@[gi].0, self@[gi].1));
                    assert(self.spec_map() == old(self).spec_map().insert(key@, value));
                }
                return;
            }
            if str_lt(key.as_str(), self.entries[i].0.as_str()) {
                let ghost gi = i as int;
                self.entries.insert(i, (key, value));
                proof {
                    self.lemma_insert_fresh(old_view, gi);
                }
                return;
            }
            proof {
                if !lex_lt(self@[i as int].0, key@) {
                    lemma_lex_connected(self@[i as int].0, key@);
                }
            }
            i += 1;
        }
        let ghost gi = i as int;
        self.entries.push((key, value));
        proof {
            assert(self@ =~= old_view.insert(gi, (key@, value)));
            self.lemma_insert_fresh(old_view, gi);
        }
    }

    /// After replacing the entry at `i` (same key, new value), the new view
    /// represents the old map with that binding overwritten.
    proof fn lemma_insert_replaced(&self, old_view: Seq<(Seq<char>, V)>, i: int)
        requires
            entries_sorted(old_view),
            0 <= i < old_view.len(),
            self@.len() == old_view.len(),
            forall|j: int| 0 <= j < old_view.len() && j != i ==> self@[j] == old_view[j],
            self@[i].0 == old_view[i].0,
        ensures
            self.wf(),
            self.spec_map() == map_of(old_view).insert(self@[i].0, self@[i].1),
            has_key(self@, self@[i].0),
            forall|k: Seq<char>| #[trigger] has_key(self@, k) ==> has_key(old_view, k),
    {
        let newv = self@;
        let key = newv[i].0;
        assert forall|a: int, b: int| 0 <= a < b < newv.len()
            implies lex_lt(newv[a].0, newv[b].0) by {
            assert(newv[a].0 == old_view[a].0);
            assert(newv[b].0 == old_view[b].0);
        }
        assert forall|k: Seq<char>| #[trigger] has_key(newv, k) implies has_key(old_view, k) by {
            let j = choose|j: int| 0 <= j < newv.len() && newv[j].0 == k;
            assert(old_view[j].0 == newv[j].0);
        }
        assert forall|k: Seq<char>| #[trigger] has_key(old_view, k) implies has_key(newv, k) by {
            let j = choose|j: int| 0 <= j < old_view.len() && old_view[j].0 == k;
            assert(newv[j].0 == old_view[j].0);
        }
        assert forall|k: Seq<char>| has_key(newv, k) && k != key
            implies #[trigger] value_of(newv, k) == value_of(old_view, k) by {
            let j = choose|j: int| 0 <= j < newv.len() && newv[j].0 == k;
            assert(j != i);
            lemma_value_at(newv, j);
            lemma_value_at(old_view, j);
        }
        lemma_value_at(newv, i);
        assert(map_of(newv) =~= map_of(old_view).insert(key, newv[i].1));
    }

    /// After inserting a fresh entry at position `i` between its neighbours,
    /// the new view represents the old map plus that binding.
    proof fn lemma_insert_fresh(&self, old_view: Seq<(Seq<char>, V)>, i: int)
        requires
            entries_sorted(old_view),
            0 <= i <= old_view.len(),
            self@.len() == old_view.len() + 1,
            forall|j: int| 0 <= j < i ==> self@[j] == old_view[j],
            forall|j: int| i < j < self@.len() ==> self@[j] == old_view[j - 1],
            forall|j: int| 0 <= j < i ==> lex_lt(old_view[j].0, self@[i].0),
            i < old_view.len() ==> lex_lt(self@[i].0, old_view[i].0),
        ensures
            self.wf(),
            self.spec_map() == map_of(old_view).insert(self@[i].0, self@[i].1),
            has_key(self@, self@[i].0),
            forall|k: Seq<char>| #[trigger] has_key(self@, k) ==>
                k == self@[i].0 || has_key(old_view, k),
    {
        let newv = self@;
        let key = newv[i].0;
        assert forall|a: int, b: int| 0 <= a < b < newv.len()
            implies lex_lt(newv[a].0, newv[b].0) by {
            if a < i && b < i {
                assert(newv[a] == old_view[a]);
                assert(newv[b] == old_view[b]);
            } else if a < i && b == i {
                assert(newv[a] == old_view[a]);
            } else if a < i && b > i {
                assert(newv[a] == old_view[a]);
                assert(newv[b] == old_view[b - 1]);
                assert(a < b - 1);
                assert(lex_lt(old_view[a].0, old_view[b - 1].0));
            } else if a == i && b > i {
                assert(newv[b] == old_view[b - 1]);
                assert(i <= b - 1 < old_view.len());
                assert(lex_lt(key, old_view[i].0));
                if b - 1 > i {
                    lemma_lex_trans(key, old_view[i].0, old_view[b - 1].0);
                }
            } else {
                assert(newv[a] == old_view[a - 1]);
                assert(newv[b] == old_view[b - 1]);
                assert(lex_lt(old_view[a - 1].0, old_view[b - 1].0));
            }
        }
        assert forall|k: Seq<char>| #[trigger] has_key(newv, k)
            implies k == key || has_key(old_view, k) by {
            let j = choose|j: int| 0 <= j < newv.len() && newv[j].0 == k;
            if j < i {
                assert(old_view[j].0 == k);
            } else if j > i {
                assert(old_view[j - 1].0 == k);
            }
        }
        assert forall|k: Seq<char>| #[trigger] has_key(old_view, k) implies has_key(newv, k) by {
            let j = choose|j: int| 0 <= j < old_view.len() && old_view[j].0 == k;
            if j < i {
                assert(newv[j].0 == k);
            } else {
                assert(newv[j + 1].0 == k);
            }
        }
        assert forall|k: Seq<char>| has_key(newv, k) && k != key
            implies #[trigger] value_of(newv, k) == value_of(old_view, k) by {
            let j = choose|j: int| 0 <= j < newv.len() && newv[j].0 == k;
            lemma_value_at(newv, j);
            if j < i {
                lemma_value_at(old_view, j);
            } else {
                lemma_value_at(old_view, j - 1);
            }
        }
        lemma_value_at(newv, i);
        assert(map_of(newv) =~= map_of(old_view).insert(key, newv[i].1));
    }

    /// Removes a key; returns the value that was bound to it, if any.
    pub fn remove(&mut self, key: &str) -> (r: Option<V>)
        requires
            old(self).wf(),
        ensures
            final(self).wf(),
            final(self).spec_map() == old(self).spec_map().remove(key@),
            match r {
                Some(v) => has_key(old(self)@, key@) && v == value_of(old(self)@, key@)
                    && final(self)@.len() == old(self)@.len() - 1,
                None => !has_key(old(self)@, key@) && *final(self) == *old(self),
            },
    {
        let ghost old_view = self@;
        let n = self.entries.len();
        let mut i: usize = 0;
        while i < n
            invariant
                entries_sorted(old_view),
                old_view == self@,
                *self == *old(self),
                n == self@.len(),
                i <= n,
                forall|j: int| 0 <= j < i ==> self@[j].0 != key@,
            decreases n - i,
        {
            if str_eq(self.entries[i].0.as_str(), key) {
                let ghost gi = i as int;
                let e = self.entries.remove(i);
                proof {
                    let newv = self@;
                    assert forall|a: int, b: int| 0 <= a < b < newv.len()
                        implies lex_lt(newv[a].0, newv[b].0) by {
                        let oa: int = if a < gi { a } else { a + 1 };
                        let ob: int = if b < gi { b } else { b + 1 };
                        assert(newv[a].0 == old_view[oa].0);
                        assert(newv[b].0 == old_view[ob].0);
                    }
                    lemma_value_at(old_view, gi);
                    assert forall|k: Seq<char>| #[trigger] has_key(newv, k)
                        implies has_key(old_view, k) && k != key@ by {
                        let j = choose|j: int| 0 <= j < newv.len() && newv[j].0 == k;
                        let oj: int = if j < gi { j } else { j + 1 };
                        assert(old_view[oj].0 == k);
                        lemma_sorted_key_unique(old_view, gi, gi);
                        if old_view[oj].0 == key@ {
                            lemma_sorted_key_unique(old_view, oj, gi);
                        }
                    }
                    assert forall|k: Seq<char>| has_key(old_view, k) && k != key@
                        implies #[trigger] has_key(newv, k) by {
                        let j = choose|j: int| 0 <= j < old_view.len() && old_view[j].0 == k;
                        assert(j != gi);
                        let nj: int = if j < gi { j } else { j - 1 };
                        assert(newv[nj].0 == k);
                    }
                    assert forall|k: Seq<char>| #[trigger] has_key(newv, k)
                        implies value_of(newv, k) == value_of(old_view, k) by {
                        let j = choose|j: int| 0 <= j < newv.len() && newv[j].0 == k;
                        let oj: int = if j < gi { j } else { j + 1 };
                        lemma_value_at(newv, j);
                        lemma_value_at(old_view, oj);
                    }
                    assert(map_of(newv) =~= map_of(old_view).remove(key@));
                }
                return Some(e.1);
            }
            i += 1;
        }
        proof {
            if has_key(old_view, key@) {
                let j = choose|j: int| 0 <= j < old_view.len() && old_view[j].0 == key@;
                assert(old_view[j].0 != key@);
            }
            assert(map_of(old_view) =~= map_of(old_view).remove(key@));
        }
        None
    }
}

impl<V> StrMap<V> {
    /// Replaces the value under an existing key; reports whether the key
    /// was present. The key set never changes.
    pub fn update_value(&mut self, key: &str, value: V) -> (b: bool)
        requires
            old(self).wf(),
        ensures
            final(self).wf(),
            b == has_key(old(self)@, key@),
            b ==> final(self).spec_map() == old(self).spec_map().insert(key@, value),
            !b ==> *final(self) == *old(self),
    {
        let ghost old_view = self@;
        let n = self.entries.len();
        let mut i: usize = 0;
        while i < n
            invariant
                entries_sorted(old_view),
                old_view == self@,
                *self == *old(self),
                n == self@.len(),
                i <= n,
                forall|j: int| 0 <= j < i ==> self@[j].0 != key@,
            decreases n - i,
        {
            if str_eq(self.entries[i].0.as_str(), key) {
                let ghost gi = i as int;
                let k2 = self.entries[i].0.clone();
                self.entries.set(i, (k2, value));
                proof {
                    assert(self@[gi].0 == old_view[gi].0);
                    self.lemma_insert_replaced(old_view, gi);
                    assert(has_key(old_view, key@));
                    assert(self.spec_map() == map_of(old_view).insert(key@, value));
                }
                return true;
            }
            i += 1;
        }
        proof {
            if has_key(old_view, key@) {
                let j = choose|j: int| 0 <= j < old_view.len() && old_view[j].0 == key@;
                assert(old_view[j].0 != key@);
            }
        }
        false
    }
}

impl<V> StrMap<V> {
    /// The keys, in order.
    pub fn keys(&self) -> (r: Vec<String>)
        ensures
            r@.len() == self@.len(),
            forall|i: int| 0 <= i < r@.len() ==> r@[i]@ == self@[i].0,
    {
        let mut r: Vec<String> = Vec::new();
        let n = self.entries.len();
        let mut i: usize = 0;
        while i < n
            invariant
                n == self@.len(),
                i <= n,
                r@.len() == i,
                forall|j: int| 0 <= j < i ==> r@[j]@ == self@[j].0,
            decreases n - i,
        {
            r.push(self.entries[i].0.clone());
            i += 1;
        }
        r
    }
}

} // verus!
