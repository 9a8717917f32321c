//! Small string-keyed collections: an insertion-ordered map and set whose keys
//! never repeat.  They stand where the middleware configurations keep
//! `HashMap<String, _>` and `HashSet<String>`; iteration follows insertion order.
use vstd::prelude::*;
use crate::text::{str_eq, views};

verus! {

/// The keys of a list of entries, as character sequences.
pub open spec fn keys_of<V>(s: Seq<(String, V)>) -> Seq<Seq<char>> {
    s.map_values(|e: (String, V)| e.0@)
}

/// No key occurs twice.
pub open spec fn unique_keys<V>(s: Seq<(String, V)>) -> bool {
    forall|i: int, j: int| 0 <= i < j < s.len() ==> s[i].0@ != s[j].0@
}

/// The map that a list of entries with unique keys denotes.
pub open spec fn map_of<V>(s: Seq<(String, V)>) -> Map<Seq<char>, V> {
    Map::new(
        |k: Seq<char>| exists|i: int| 0 <= i < s.len() && s[i].0@ == k,
        |k: Seq<char>| s[choose|i: int| 0 <= i < s.len() && s[i].0@ == k].1,
    )
}

/// The value of the first entry with key `k`.
pub open spec fn first_value<V>(s: Seq<(String, V)>, k: Seq<char>) -> Option<V> {
    if exists|i: int| 0 <= i < s.len() && s[i].0@ == k {
        Some(s[choose|i: int| 0 <= i < s.len() && s[i].0@ == k && forall|j: int| 0 <= j < i ==> s[j].0@ != k].1)
    } else {
        None
    }
}

/// The first entry with a key determines `first_value`.
pub proof fn lemma_first_value_at<V>(s: Seq<(String, V)>, i: int)
    requires
        0 <= i < s.len(),
        forall|j: int| 0 <= j < i ==> s[j].0@ != s[i].0@,
    ensures
        first_value(s, s[i].0@) == Some(s[i].1),
{
    let k = s[i].0@;
    let c = choose|c: int| 0 <= c < s.len() && s[c].0@ == k && forall|j: int| 0 <= j < c ==> s[j].0@ != k;
    assert(0 <= i < s.len() && s[i].0@ == k && forall|j: int| 0 <= j < i ==> s[j].0@ != k);
    assert(c == i) by {
        if c < i {
        } else if c > i {
            assert(s[i].0@ != k);
        }
    }
}

/// In a list with unique keys, each entry is in the map it denotes.
pub proof fn lemma_map_of_at<V>(s: Seq<(String, V)>, i: int)
    requires
        unique_keys(s),
        0 <= i < s.len(),
    ensures
        map_of(s).dom().contains(s[i].0@),
        map_of(s)[s[i].0@] == s[i].1,
{
    let k = s[i].0@;
    assert(map_of(s).dom().contains(k));
    let c = choose|c: int| 0 <= c < s.len() && s[c].0@ == k;
    assert(c == i) by {
        if c < i {
            assert(s[c].0@ != s[i].0@);
        } else if c > i {
            assert(s[i].0@ != s[c].0@);
        }
    }
}

/// An insertion-ordered map from strings to `V` with unique keys.
#[derive(Clone)]
pub struct StrMap<V> {
    pub entries: Vec<(String, V)>,
}

impl<V> StrMap<V> {
    /// The entries in insertion order.
    pub open spec fn seq(&self) -> Seq<(String, V)> {
        self.entries@
    }

    /// The keys are unique.
    pub open spec fn wf(&self) -> bool {
        unique_keys(self.entries@)
    }

    /// The map the entries denote.
    pub open spec fn to_map(&self) -> Map<Seq<char>, V> {
        map_of(self.entries@)
    }

    /// An empty map.
    pub fn new() -> (res: Self)
        ensures
            res.wf(),
            res.seq().len() == 0,
            res.to_map() == Map::<Seq<char>, V>::empty(),
    {
        let res = StrMap { entries: Vec::new() };
        assert(res.to_map() =~= Map::<Seq<char>, V>::empty());
        res
    }

    /// The map has one key per entry.
    pub proof fn lemma_len(&self)
        requires
            self.wf(),
        ensures
            self.to_map().dom().finite(),
            self.to_map().dom().len() == self.seq().len(),
    {
        lemma_map_of_len(self.entries@);
    }

    /// Number of entries.
    pub fn len(&self) -> (res: usize)
        ensures
            res == self.seq().len(),
    {
        self.entries.len()
    }

    /// Index of the entry with key `k`.
    pub fn index_of(&self, k: &str) -> (res: Option<usize>)
        ensures
            res matches Some(i) ==> i < self.entries@.len() && self.entries@[i as int].0@ == k@
                && forall|j: int| 0 <= j < i ==> self.entries@[j].0@ != k@,
            res is None ==> forall|i: int| 0 <= i < self.entries@.len() ==> self.entries@[i].0@ != k@,
    {
        let mut i: usize = 0;
        while i < self.entries.len()
            invariant
                i <= self.entries@.len(),
                forall|j: int| 0 <= j < i ==> self.entries@[j].0@ != k@,
            decreases self.entries.len() - i,
        {
            if str_eq(self.entries[i].0.as_str(), k) {
                return Some(i);
            }
            i = i + 1;
        }
        None
    }

    /// Whether a key is present.
    pub fn contains_key(&self, k: &str) -> (res: bool)
        ensures
            res == self.to_map().dom().contains(k@),
    {
        let idx = self.index_of(k);
        match idx {
            Some(i) => {
                assert(self.entries@[i as int].0@ == k@);
                assert(self.to_map().dom().contains(k@));
                true
            },
            None => {
                assert(!(exists|i: int| 0 <= i < self.entries@.len() && self.entries@[i].0@ == k@));
                false
            },
        }
    }

    /// The value stored under `k`.
    pub fn get(&self, k: &str) -> (res: Option<&V>)
        requires
            self.wf(),
        ensures
            res matches Some(v) ==> self.to_map().dom().contains(k@) && *v == self.to_map()[k@],
            res is None ==> !self.to_map().dom().contains(k@),
    {
        match self.index_of(k) {
            Some(i) => {
                let ghost s = self.entries@;
                proof {
                    let c = choose|j: int| 0 <= j < s.len() && s[j].0@ == k@;
                    assert(c == i as int) by {
                        if c != i as int {
                            if c < i as int {
                                assert(s[c].0@ != s[i as int].0@);
                            } else {
                                assert(s[i as int].0@ != s[c].0@);
                            }
                        }
                    }
                }
                Some(&self.entries[i].1)
            },
            None => {
                assert(!(exists|i: int| 0 <= i < self.entries@.len() && self.entries@[i].0@ == k@));
                None
            },
        }
    }

    /// Sets the value under `k`, replacing the previous one in place when `k` is present.
    pub fn insert(&mut self, k: String, v: V)
        requires
            old(self).wf(),
        ensures
            final(self).wf(),
            final(self).to_map() == old(self).to_map().insert(k@, v),
            old(self).to_map().dom().contains(k@) ==> final(self).seq().len() == old(self).seq().len(),
            !old(self).to_map().dom().contains(k@) ==> final(self).seq() == old(self).seq().push((k, v)),
    {
        let ghost s0 = self.entries@;
        let ghost kv = k@;
        let idx = self.index_of(k.as_str());
        assert(idx is None ==> forall|i: int| 0 <= i < s0.len() ==> s0[i].0@ != kv);
        assert(idx is None ==> !map_of(s0).dom().contains(kv));
        assert(idx is Some ==> map_of(s0).dom().contains(kv));
        match idx {
            Some(i) => {
                assert(s0[i as int].0@ == kv);
                self.entries.set(i, (k, v));
                let ghost s1 = self.entries@;
                assert(s1 == s0.update(i as int, (k, v)));
                assert(unique_keys(s1)) by {
                    assert forall|a: int, b: int| 0 <= a < b < s1.len() implies s1[a].0@ != s1[b].0@ by {
                        if a == i as int {
                            assert(s0[b].0@ != s0[a].0@);
                        } else if b == i as int {
                            assert(s0[a].0@ != s0[b].0@);
                        } else {
                        }
                    }
                }
                proof {
                    lemma_map_of_update(s0, i as int, k, v);
                }
            },
            None => {
                self.entries.push((k, v));
                let ghost s1 = self.entries@;
                assert(s1 == s0.push((k, v)));
                assert(unique_keys(s1)) by {
                    assert forall|a: int, b: int| 0 <= a < b < s1.len() implies s1[a].0@ != s1[b].0@ by {
                        if b == s0.len() {
                            assert(s0[a].0@ != kv);
                        } else {
                        }
                    }
                }
                proof {
                    lemma_map_of_push(s0, k, v);
                }
            },
        }
    }

    /// Removes the entry at `i`, keeping the order of the others.
    pub fn remove_at(&mut self, i: usize) -> (res: (String, V))
        requires
            old(self).wf(),
            i < old(self).seq().len(),
        ensures
            final(self).wf(),
            res == old(self).seq()[i as int],
            final(self).seq() == old(self).seq().remove(i as int),
            final(self).to_map() == old(self).to_map().remove(old(self).seq()[i as int].0@),
    {
        let ghost s0 = self.entries@;
        proof {
            lemma_map_of_remove(s0, i as int);
        }
        self.entries.remove(i)
    }

    /// Removes the entry under `k`, if any, returning its value.
    pub fn remove(&mut self, k: &str) -> (res: Option<V>)
        requires
            old(self).wf(),
        ensures
            final(self).wf(),
            final(self).to_map() == old(self).to_map().remove(k@),
            res matches Some(v) ==> old(self).to_map().dom().contains(k@) && v == old(self).to_map()[k@],
            res is None ==> !old(self).to_map().dom().contains(k@) && final(self).seq() == old(self).seq(),
    {
        match self.index_of(k) {
            Some(i) => {
                proof {
                    lemma_map_of_at(self.entries@, i as int);
                }
                let (_, v) = self.remove_at(i);
                Some(v)
            },
            None => {
                assert(!(exists|i: int| 0 <= i < self.entries@.len() && self.entries@[i].0@ == k@));
                assert(self.to_map().remove(k@) =~= self.to_map());
                None
            },
        }
    }

    /// Removes every entry.
    pub fn clear(&mut self)
        ensures
            final(self).wf(),
            final(self).seq().len() == 0,
            final(self).to_map() == Map::<Seq<char>, V>::empty(),
    {
        self.entries.clear();
        assert(self.to_map() =~= Map::<Seq<char>, V>::empty());
    }
}

/// A list of entries with unique keys denotes a finite map with one key per entry.
pub proof fn lemma_map_of_len<V>(s: Seq<(String, V)>)
    requires
        unique_keys(s),
    ensures
        map_of(s).dom().finite(),
        map_of(s).dom().len() == s.len(),
    decreases s.len(),
{
    if s.len() == 0 {
        assert(map_of(s).dom() =~= Set::<Seq<char>>::empty());
    } else {
        let t = s.drop_last();
        let e = s.last();
        assert(unique_keys(t));
        lemma_map_of_len(t);
        assert forall|i: int| 0 <= i < t.len() implies t[i].0@ != e.0@ by {
            assert(s[i] == t[i]);
        }
        lemma_map_of_push(t, e.0, e.1);
        assert(t.push((e.0, e.1)) =~= s);
        assert(!map_of(t).dom().contains(e.0@));
    }
}

/// Removing an entry removes its key from the map.
pub proof fn lemma_map_of_remove<V>(s: Seq<(String, V)>, i: int)
    requires
        unique_keys(s),
        0 <= i < s.len(),
    ensures
        unique_keys(s.remove(i)),
        map_of(s.remove(i)) == map_of(s).remove(s[i].0@),
{
    let t = s.remove(i);
    let k = s[i].0@;
    assert(unique_keys(t)) by {
        assert forall|a: int, b: int| 0 <= a < b < t.len() implies t[a].0@ != t[b].0@ by {
            let a0 = if a < i { a } else { a + 1 };
            let b0 = if b < i { b } else { b + 1 };
            assert(t[a] == s[a0] && t[b] == s[b0]);
        }
    }
    assert forall|key: Seq<char>| #[trigger] map_of(t).dom().contains(key) <==> map_of(s).remove(k).dom().contains(key) by {
        if map_of(t).dom().contains(key) {
            let j = choose|j: int| 0 <= j < t.len() && t[j].0@ == key;
            let j0 = if j < i { j } else { j + 1 };
            assert(s[j0].0@ == key);
            assert(key != k) by {
                if j0 < i { assert(s[j0].0@ != s[i].0@); } else { assert(s[i].0@ != s[j0].0@); }
            }
        }
        if map_of(s).remove(k).dom().contains(key) {
            let j = choose|j: int| 0 <= j < s.len() && s[j].0@ == key;
            assert(j != i);
            let j1 = if j < i { j } else { j - 1 };
            assert(t[j1].0@ == key);
        }
    }
    assert forall|key: Seq<char>| #[trigger] map_of(t).dom().contains(key) implies map_of(t)[key] == map_of(s).remove(k)[key] by {
        let j = choose|j: int| 0 <= j < t.len() && t[j].0@ == key;
        let j0 = if j < i { j } else { j + 1 };
        assert(t[j] == s[j0]);
        lemma_map_of_at(t, j);
        lemma_map_of_at(s, j0);
    }
    assert(map_of(t) =~= map_of(s).remove(k));
}

pub proof fn lemma_map_of_update<V>(s: Seq<(String, V)>, i: int, k: String, v: V)
    requires
        unique_keys(s),
        0 <= i < s.len(),
        s[i].0@ == k@,
    ensures
        map_of(s.update(i, (k, v))) == map_of(s).insert(k@, v),
{
    let t = s.update(i, (k, v));
    assert forall|key: Seq<char>| #[trigger] map_of(t).dom().contains(key) <==> map_of(s).insert(
        k@,
        v,
    ).dom().contains(key) by {
        if map_of(s).dom().contains(key) {
            let j = choose|j: int| 0 <= j < s.len() && s[j].0@ == key;
            if j == i {
                assert(t[i].0@ == key);
            } else {
                assert(t[j].0@ == key);
            }
        }
        if map_of(t).dom().contains(key) {
            let j = choose|j: int| 0 <= j < t.len() && t[j].0@ == key;
            if j != i {
                assert(s[j].0@ == key);
            }
        }
    }
    assert forall|key: Seq<char>| #[trigger] map_of(t).dom().contains(key) implies map_of(t)[key]
        == map_of(s).insert(k@, v)[key] by {
        let j = choose|j: int| 0 <= j < t.len() && t[j].0@ == key;
        if key == k@ {
            assert(j == i) by {
                if j != i {
                    if j < i {
                        assert(s[j].0@ != s[i].0@);
                    } else {
                        assert(s[i].0@ != s[j].0@);
                    }
                }
            }
        } else {
            assert(j != i);
            assert(s[j].0@ == key);
            let j2 = choose|j2: int| 0 <= j2 < s.len() && s[j2].0@ == key;
            assert(j2 == j) by {
                if j2 != j {
                    if j2 < j {
                        assert(s[j2].0@ != s[j].0@);
                    } else {
                        assert(s[j].0@ != s[j2].0@);
                    }
                }
            }
        }
    }
    assert(map_of(t) =~= map_of(s).insert(k@, v));
}

proof fn lemma_map_of_push<V>(s: Seq<(String, V)>, k: String, v: V)
    requires
        unique_keys(s),
        forall|i: int| 0 <= i < s.len() ==> s[i].0@ != k@,
    ensures
        map_of(s.push((k, v))) == map_of(s).insert(k@, v),
{
    let t = s.push((k, v));
    assert forall|key: Seq<char>| #[trigger] map_of(t).dom().contains(key) <==> map_of(s).insert(
        k@,
        v,
    ).dom().contains(key) by {
        if map_of(s).dom().contains(key) {
            let j = choose|j: int| 0 <= j < s.len() && s[j].0@ == key;
            assert(t[j].0@ == key);
        }
        if key == k@ {
            assert(t[s.len() as int].0@ == key);
        }
        if map_of(t).dom().contains(key) {
            let j = choose|j: int| 0 <= j < t.len() && t[j].0@ == key;
            if j < s.len() {
                assert(s[j].0@ == key);
            }
        }
    }
    assert forall|key: Seq<char>| #[trigger] map_of(t).dom().contains(key) implies map_of(t)[key]
        == map_of(s).insert(k@, v)[key] by {
        let j = choose|j: int| 0 <= j < t.len() && t[j].0@ == key;
        if key == k@ {
            assert(j == s.len());
        } else {
            assert(j < s.len());
            assert(s[j].0@ == key);
            let j2 = choose|j2: int| 0 <= j2 < s.len() && s[j2].0@ == key;
            assert(j2 == j) by {
                if j2 != j {
                    if j2 < j {
                        assert(s[j2].0@ != s[j].0@);
                    } else {
                        assert(s[j].0@ != s[j2].0@);
                    }
                }
            }
        }
    }
    assert(map_of(t) =~= map_of(s).insert(k@, v));
}

/// The members of a list of strings.
pub open spec fn set_of(s: Seq<String>) -> Set<Seq<char>> {
    Set::new(|k: Seq<char>| exists|i: int| 0 <= i < s.len() && s[i]@ == k)
}

/// No string occurs twice.
pub open spec fn unique_strs(s: Seq<String>) -> bool {
    forall|i: int, j: int| 0 <= i < j < s.len() ==> s[i]@ != s[j]@
}

/// `s` with `k` added at the end, unless it is already there.
pub open spec fn seq_insert(s: Seq<Seq<char>>, k: Seq<char>) -> Seq<Seq<char>> {
    if s.contains(k) {
        s
    } else {
        s.push(k)
    }
}

/// `s` with each of `items` added in turn by `seq_insert`.
pub open spec fn seq_insert_all(s: Seq<Seq<char>>, items: Seq<Seq<char>>) -> Seq<Seq<char>>
    decreases items.len(),
{
    if items.len() == 0 {
        s
    } else {
        seq_insert(seq_insert_all(s, items.drop_last()), items.last())
    }
}

/// An insertion-ordered set of strings.
#[derive(Clone)]
pub struct StrSet {
    pub items: Vec<String>,
}

impl StrSet {
    /// The members in insertion order.
    pub open spec fn seq(&self) -> Seq<String> {
        self.items@
    }

    /// No member repeats.
    pub open spec fn wf(&self) -> bool {
        unique_strs(self.items@)
    }

    /// The members as a set.
    pub open spec fn to_set(&self) -> Set<Seq<char>> {
        set_of(self.items@)
    }

    /// The members in insertion order, as character sequences.
    pub open spec fn members(&self) -> Seq<Seq<char>> {
        views(self.items@)
    }

    /// Membership in the set is membership in the sequence of members.
    pub proof fn lemma_members(&self)
        ensures
            forall|k: Seq<char>| #[trigger] self.to_set().contains(k) == self.members().contains(k),
    {
        assert forall|k: Seq<char>| #[trigger] self.to_set().contains(k) == self.members().contains(k) by {
            if self.to_set().contains(k) {
                let j = choose|j: int| 0 <= j < self.items@.len() && self.items@[j]@ == k;
                assert(self.members()[j] == k);
            }
            if self.members().contains(k) {
                let j = choose|j: int| 0 <= j < self.members().len() && self.members()[j] == k;
                assert(self.items@[j]@ == k);
            }
        }
    }

    /// An empty set.
    pub fn new() -> (res: Self)
        ensures
            res.wf(),
            res.seq().len() == 0,
            res.members() == Seq::<Seq<char>>::empty(),
            res.to_set() == Set::<Seq<char>>::empty(),
    {
        let res = StrSet { items: Vec::new() };
        assert(res.members() =~= Seq::<Seq<char>>::empty());
        assert(res.to_set() =~= Set::<Seq<char>>::empty());
        res
    }

    /// Number of members.
    pub fn len(&self) -> (res: usize)
        ensures
            res == self.seq().len(),
    {
        self.items.len()
    }

    /// Whether the set is empty.
    pub fn is_empty(&self) -> (res: bool)
        ensures
            res == (self.seq().len() == 0),
            res == (self.to_set() == Set::<Seq<char>>::empty()),
    {
        if self.items.len() == 0 {
            assert(self.to_set() =~= Set::<Seq<char>>::empty());
            true
        } else {
            assert(self.to_set().contains(self.items@[0]@));
            false
        }
    }

    /// Membership.
    pub fn contains(&self, k: &str) -> (res: bool)
        ensures
            res == self.to_set().contains(k@),
    {
        let mut i: usize = 0;
        while i < self.items.len()
            invariant
                i <= self.items@.len(),
                forall|j: int| 0 <= j < i ==> self.items@[j]@ != k@,
            decreases self.items.len() - i,
        {
            if str_eq(self.items[i].as_str(), k) {
                return true;
            }
            i = i + 1;
        }
        false
    }

    /// Adds `k` unless it is already a member.
    pub fn insert(&mut self, k: String)
        requires
            old(self).wf(),
        ensures
            final(self).wf(),
            final(self).to_set() == old(self).to_set().insert(k@),
            old(self).to_set().contains(k@) ==> final(self).seq() == old(self).seq(),
            !old(self).to_set().contains(k@) ==> final(self).seq() == old(self).seq().push(k),
            final(self).members() == seq_insert(old(self).members(), k@),
    {
        proof {
            self.lemma_members();
        }
        if self.contains(k.as_str()) {
            assert(self.to_set().insert(k@) =~= self.to_set());
        } else {
            let ghost s0 = self.items@;
            let ghost kv = k@;
            self.items.push(k);
            let ghost s1 = self.items@;
            assert(unique_strs(s1)) by {
                assert forall|a: int, b: int| 0 <= a < b < s1.len() implies s1[a]@ != s1[b]@ by {
                    if b == s0.len() {
                        assert(!(exists|i: int| 0 <= i < s0.len() && s0[i]@ == kv));
                        assert(s1[a] == s0[a]);
                    }
                }
            }
            assert forall|x: Seq<char>| #[trigger] set_of(s1).contains(x) <==> set_of(s0).insert(kv).contains(x) by {
                if set_of(s0).contains(x) {
                    let j = choose|j: int| 0 <= j < s0.len() && s0[j]@ == x;
                    assert(s1[j]@ == x);
                }
                if x == kv {
                    assert(s1[s0.len() as int]@ == x);
                }
                if set_of(s1).contains(x) {
                    let j = choose|j: int| 0 <= j < s1.len() && s1[j]@ == x;
                    if j < s0.len() {
                        assert(s0[j]@ == x);
                    }
                }
            }
            assert(set_of(s1) =~= set_of(s0).insert(kv));
            assert(views(s1) =~= views(s0).push(kv));
        }
    }

    /// Removes every member.
    pub fn clear(&mut self)
        ensures
            final(self).wf(),
            final(self).seq().len() == 0,
            final(self).members() == Seq::<Seq<char>>::empty(),
            final(self).to_set() == Set::<Seq<char>>::empty(),
    {
        self.items.clear();
        assert(self.members() =~= Seq::<Seq<char>>::empty());
        assert(self.to_set() =~= Set::<Seq<char>>::empty());
    }
}

} // verus!
