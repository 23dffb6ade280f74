//! The two collections the contracts keep their state in.
//!
//! Both enumerate their entries in insertion order, and a removal moves the
//! last entry into the freed slot ("swap remove"), which is the order in which
//! the chain's unordered collections hand out their keys and values.
//!
//! The chain's collections are handles into the contract's key-value
//! storage: each of their operations reads or writes that storage through a
//! host call, so what one of them holds is not a function of the handle. The
//! contracts' state is therefore kept here as values, and the contract code
//! around the library loads it from storage and stores it back.
use vstd::prelude::*;

verus! {

/// The sequence `s` after the entry at `i` was removed by moving the last
/// entry into its slot.
pub open spec fn swap_removed<A>(s: Seq<A>, i: int) -> Seq<A> {
    s.update(i, s.last()).drop_last()
}

/// The character sequences of a sequence of strings.
pub open spec fn string_views(v: Seq<String>) -> Seq<Seq<char>> {
    v.map_values(|s: String| s@)
}

/// `s` after `x` was added to it as a set member: unchanged when `x` is
/// already there, else with `x` at the end.
pub open spec fn with_member<A>(s: Seq<A>, x: A) -> Seq<A> {
    if s.contains(x) {
        s
    } else {
        s.push(x)
    }
}

/// `s` after `x` was removed from it as a set member: unchanged when `x` is
/// not there, else with the last entry moved into the slot `x` held.
pub open spec fn without_member<A>(s: Seq<A>, x: A) -> Seq<A> {
    if s.contains(x) {
        swap_removed(s, s.index_of(x))
    } else {
        s
    }
}

/// The end of the page of at most `limit` entries that starts at `from`, in
/// a collection of `len` entries.
pub open spec fn page_end(from: int, limit: int, len: int) -> int {
    if from + limit < len {
        from + limit
    } else {
        len
    }
}

/// The number of entries on the page of at most `limit` entries that starts
/// at `from`, in a collection of `len` entries.
pub open spec fn page_len(from: int, limit: int, len: int) -> int {
    if from < page_end(from, limit, len) {
        page_end(from, limit, len) - from
    } else {
        0
    }
}

/// The page of at most `limit` entries of `s` that starts at position
/// `from`.
pub open spec fn page_of<A>(s: Seq<A>, from: int, limit: int) -> Seq<A> {
    Seq::new(page_len(from, limit, s.len() as int) as nat, |i: int| s[from + i])
}

/// Two consecutive pages make up the page that spans both: the pages of
/// `limit_a` and then `limit_b` entries from `from` list the same entries,
/// in the same order, as the page of `limit_a + limit_b` entries.
pub proof fn law_pages_concatenate<A>(s: Seq<A>, from: int, limit_a: int, limit_b: int)
    requires
        0 <= from,
        0 <= limit_a,
        0 <= limit_b,
    ensures
        page_of(s, from, limit_a) + page_of(s, from + limit_a, limit_b) == page_of(s, from, limit_a + limit_b),
{
    let a = page_of(s, from, limit_a);
    let b = page_of(s, from + limit_a, limit_b);
    let c = page_of(s, from, limit_a + limit_b);
    assert forall|i: int| 0 <= i < c.len() implies #[trigger] (a + b)[i] == c[i] by {
        if i >= a.len() {
            assert((a + b)[i] == b[i - a.len()]);
        }
    }
    assert(a + b =~= c);
}

/// In a sequence without duplicates, the index of the entry at `i` is `i`.
pub proof fn lemma_index_of_distinct<A>(s: Seq<A>, i: int)
    requires
        s.no_duplicates(),
        0 <= i < s.len(),
    ensures
        s.index_of(s[i]) == i,
        s.contains(s[i]),
{
    assert(s[i] == s[i]);
    assert(s.contains(s[i]));
}

/// Removing an entry by swap removal keeps a sequence free of duplicates,
/// and leaves exactly the other entries.
pub proof fn lemma_swap_removed<A>(s: Seq<A>, i: int)
    requires
        s.no_duplicates(),
        0 <= i < s.len(),
    ensures
        swap_removed(s, i).no_duplicates(),
        swap_removed(s, i).len() == s.len() - 1,
        swap_removed(s, i).to_set() == s.to_set().remove(s[i]),
        forall|x: A| #[trigger] swap_removed(s, i).contains(x) <==> (s.contains(x) && x != s[i]),
{
    let r = swap_removed(s, i);
    let n = s.len();
    assert forall|a: int, b: int| 0 <= a < r.len() && 0 <= b < r.len() && a != b implies r[a]
        != r[b] by {
        let pa = if a == i { n - 1 } else { a };
        let pb = if b == i { n - 1 } else { b };
        assert(r[a] == s[pa]);
        assert(r[b] == s[pb]);
    }
    assert forall|x: A| #[trigger] r.contains(x) <==> (s.contains(x) && x != s[i]) by {
        if r.contains(x) {
            let a = choose|a: int| 0 <= a < r.len() && r[a] == x;
            let pa = if a == i { n - 1 } else { a };
            assert(s[pa] == x);
            assert(pa != i);
        }
        if s.contains(x) && x != s[i] {
            let p = choose|p: int| 0 <= p < s.len() && s[p] == x;
            if p == n - 1 {
                assert(r[i] == x);
            } else {
                assert(r[p] == x);
            }
        }
    }
    assert(r.to_set() =~= s.to_set().remove(s[i]));
}

/// A set of strings that remembers the order in which its members arrived.
pub struct IndexedSet {
    items: Vec<String>,
}

impl View for IndexedSet {
    type V = Seq<Seq<char>>;

    /// The members, in enumeration order.
    closed spec fn view(&self) -> Seq<Seq<char>> {
        string_views(self.items@)
    }
}

impl IndexedSet {
    /// No member occurs twice.
    pub open spec fn wf(&self) -> bool {
        self@.no_duplicates()
    }

    /// The members, as a set.
    pub open spec fn contents(&self) -> Set<Seq<char>> {
        self@.to_set()
    }

    /// An empty set.
    pub fn new() -> (s: Self)
        ensures
            s@ == Seq::<Seq<char>>::empty(),
            s.wf(),
    {
        let s = IndexedSet { items: Vec::new() };
        assert(s@ =~= Seq::<Seq<char>>::empty());
        s
    }

    /// The number of members.
    pub fn len(&self) -> (n: u64)
        ensures
            n == self@.len(),
    {
        self.items.len() as u64
    }

    /// The index of `x`, if it is a member.
    fn position(&self, x: &String) -> (r: Option<usize>)
        ensures
            match r {
                Some(i) => i < self@.len() && self@[i as int] == x@,
                None => !self@.contains(x@),
            },
    {
        let mut i: usize = 0;
        while i < self.items.len()
            invariant
                i <= self.items.len(),
                self@.len() == self.items.len(),
                forall|j: int| 0 <= j < i ==> self@[j] != x@,
            decreases self.items.len() - i,
        {
            if self.items[i] == *x {
                return Some(i);
            }
            i += 1;
        }
        None
    }

    /// Whether `x` is a member.
    pub fn contains(&self, x: &String) -> (b: bool)
        ensures
            b == self@.contains(x@),
    {
        self.position(x).is_some()
    }

    /// The member at index `i` of the enumeration.
    pub fn get(&self, i: u64) -> (s: &String)
        requires
            i < self@.len(),
        ensures
            s@ == self@[i as int],
    {
        proof {
            assert(i < self.items.len());
        }
        &self.items[i as usize]
    }

    /// Adds `x`; returns whether it was not a member before. A new member
    /// goes to the end of the enumeration.
    pub fn insert(&mut self, x: String) -> (added: bool)
        requires
            old(self).wf(),
        ensures
            final(self).wf(),
            added == !old(self)@.contains(x@),
            final(self)@ == (if added {
                old(self)@.push(x@)
            } else {
                old(self)@
            }),
            final(self).contents() == old(self).contents().insert(x@),
    {
        match self.position(&x) {
            Some(_) => {
                assert(old(self).contents() =~= old(self).contents().insert(x@));
                false
            },
            None => {
                let ghost xv = x@;
                self.items.push(x);
                assert(self@ =~= old(self)@.push(xv));
                proof {
                    old(self)@.lemma_push_to_set_commute(xv);
                }
                true
            },
        }
    }

    /// Removes `x`; returns whether it was a member. The last member moves
    /// into the slot that `x` held.
    pub fn remove(&mut self, x: &String) -> (removed: bool)
        requires
            old(self).wf(),
        ensures
            final(self).wf(),
            removed == old(self)@.contains(x@),
            final(self)@ == without_member(old(self)@, x@),
            final(self).contents() == old(self).contents().remove(x@),
    {
        match self.position(x) {
            Some(i) => {
                proof {
                    lemma_index_of_distinct(old(self)@, i as int);
                    lemma_swap_removed(old(self)@, i as int);
                }
                let _ = self.items.swap_remove(i);
                assert(self@ =~= swap_removed(old(self)@, i as int));
                true
            },
            None => {
                assert(old(self).contents() =~= old(self).contents().remove(x@));
                false
            },
        }
    }

    /// The members, in enumeration order.
    pub fn to_vec(&self) -> (v: Vec<String>)
        ensures
            string_views(v@) == self@,
    {
        let mut v: Vec<String> = Vec::new();
        let mut i: usize = 0;
        while i < self.items.len()
            invariant
                i <= self.items.len(),
                string_views(v@) == string_views(self.items@).take(i as int),
            decreases self.items.len() - i,
        {
            let item: &String = &self.items[i];
            let c = item.clone();
            assert(c == *item);
            let ghost before = v@;
            v.push(c);
            assert(string_views(v@) =~= string_views(before).push(c@));
            assert(string_views(self.items@).take(i + 1) =~= string_views(self.items@).take(
                i as int,
            ).push(self.items@[i as int]@));
            i += 1;
        }
        assert(string_views(self.items@).take(i as int) =~= self@);
        v
    }

    /// A copy with the same members in the same order.
    pub fn duplicate(&self) -> (s: Self)
        ensures
            s@ == self@,
    {
        IndexedSet { items: self.to_vec() }
    }
}

/// A map from strings that remembers the order in which its keys arrived.
pub struct IndexedMap<V> {
    keys: Vec<String>,
    values: Vec<V>,
}

impl<V> IndexedMap<V> {
    /// The keys, in enumeration order.
    pub closed spec fn keys(&self) -> Seq<Seq<char>> {
        string_views(self.keys@)
    }

    /// The values, in the order of their keys.
    pub closed spec fn values(&self) -> Seq<V> {
        self.values@
    }

    /// No key occurs twice, and each key has its value.
    pub open spec fn wf(&self) -> bool {
        &&& self.keys().no_duplicates()
        &&& self.keys().len() == self.values().len()
    }

    /// The entries, as a map.
    pub open spec fn map(&self) -> Map<Seq<char>, V> {
        Map::new(|k: Seq<char>| self.keys().contains(k), |k: Seq<char>| self.values()[self.keys().index_of(k)])
    }

    /// An empty map.
    pub fn new() -> (m: Self)
        ensures
            m.wf(),
            m.keys() == Seq::<Seq<char>>::empty(),
            m.values() == Seq::<V>::empty(),
            m.map() == Map::<Seq<char>, V>::empty(),
    {
        let m = IndexedMap { keys: Vec::new(), values: Vec::new() };
        assert(m.keys() =~= Seq::<Seq<char>>::empty());
        assert(m.map() =~= Map::<Seq<char>, V>::empty());
        m
    }

    /// The number of entries.
    pub fn len(&self) -> (n: u64)
        requires
            self.wf(),
        ensures
            n == self.keys().len(),
            n == self.map().dom().len(),
    {
        proof {
            self.keys().unique_seq_to_set();
            assert(self.map().dom() =~= self.keys().to_set());
        }
        self.keys.len() as u64
    }

    /// The index of the key `k`, if present.
    fn position(&self, k: &String) -> (r: Option<usize>)
        requires
            self.wf(),
        ensures
            match r {
                Some(i) => i < self.keys().len() && self.keys()[i as int] == k@
                    && self.keys().index_of(k@) == i,
                None => !self.keys().contains(k@),
            },
    {
        let mut i: usize = 0;
        while i < self.keys.len()
            invariant
                self.wf(),
                i <= self.keys.len(),
                self.keys().len() == self.keys.len(),
                forall|j: int| 0 <= j < i ==> self.keys()[j] != k@,
            decreases self.keys.len() - i,
        {
            if self.keys[i] == *k {
                proof {
                    lemma_index_of_distinct(self.keys(), i as int);
                }
                return Some(i);
            }
            i += 1;
        }
        None
    }

    /// Whether `k` is a key.
    pub fn contains_key(&self, k: &String) -> (b: bool)
        requires
            self.wf(),
        ensures
            b == self.map().contains_key(k@),
    {
        self.position(k).is_some()
    }

    /// The value stored under `k`.
    pub fn get(&self, k: &String) -> (r: Option<&V>)
        requires
            self.wf(),
        ensures
            r == (if self.map().contains_key(k@) {
                Some(&self.map()[k@])
            } else {
                None::<&V>
            }),
    {
        match self.position(k) {
            Some(i) => Some(&self.values[i]),
            None => None,
        }
    }

    /// The key at index `i` of the enumeration.
    pub fn key_at(&self, i: u64) -> (k: &String)
        requires
            self.wf(),
            i < self.keys().len(),
        ensures
            k@ == self.keys()[i as int],
    {
        proof {
            assert(i < self.keys.len());
        }
        &self.keys[i as usize]
    }

    /// The value at index `i` of the enumeration.
    pub fn value_at(&self, i: u64) -> (v: &V)
        requires
            self.wf(),
            i < self.keys().len(),
        ensures
            *v == self.values()[i as int],
            *v == self.map()[self.keys()[i as int]],
    {
        proof {
            lemma_index_of_distinct(self.keys(), i as int);
            assert(i < self.values.len());
        }
        &self.values[i as usize]
    }

    /// Stores `v` under `k`, returning the value it replaces. A key already
    /// present keeps its place in the enumeration; a new key goes to the end.
    pub fn insert(&mut self, k: String, v: V) -> (prev: Option<V>)
        requires
            old(self).wf(),
        ensures
            final(self).wf(),
            final(self).map() == old(self).map().insert(k@, v),
            old(self).map().contains_key(k@) ==> {
                &&& prev == Some(old(self).map()[k@])
                &&& final(self).keys() == old(self).keys()
                &&& final(self).values() == old(self).values().update(
                    old(self).keys().index_of(k@),
                    v,
                )
            },
            !old(self).map().contains_key(k@) ==> {
                &&& prev == None::<V>
                &&& final(self).keys() == old(self).keys().push(k@)
                &&& final(self).values() == old(self).values().push(v)
            },
    {
        let ghost kv = k@;
        match self.position(&k) {
            Some(i) => {
                let mut slot = v;
                self.values.set_and_swap(i, &mut slot);
                proof {
                    let m1 = self.map();
                    let m0 = old(self).map().insert(kv, v);
                    assert forall|key: Seq<char>| #[trigger] m1.contains_key(key) <==> m0.contains_key(key) by {
                        if key == kv {
                            assert(self.keys()[i as int] == kv);
                        }
                    }
                    assert forall|key: Seq<char>| m1.contains_key(key) implies m1[key] == m0[key] by {
                        let j = self.keys().index_of(key);
                        assert(0 <= j < self.keys().len() && self.keys()[j] == key);
                        lemma_index_of_distinct(self.keys(), j);
                    }
                    assert(m1 =~= m0);
                }
                Some(slot)
            },
            None => {
                self.keys.push(k);
                self.values.push(v);
                proof {
                    let n = old(self).keys().len() as int;
                    assert(self.keys() =~= old(self).keys().push(kv));
                    let m1 = self.map();
                    let m0 = old(self).map().insert(kv, v);
                    assert forall|key: Seq<char>| #[trigger] m1.contains_key(key) <==> m0.contains_key(key) by {
                        if key == kv {
                            assert(self.keys()[n] == kv);
                        }
                        if old(self).keys().contains(key) {
                            let j = choose|j: int| 0 <= j < n && old(self).keys()[j] == key;
                            assert(self.keys()[j] == key);
                        }
                    }
                    assert forall|key: Seq<char>| m1.contains_key(key) implies m1[key] == m0[key] by {
                        let j = self.keys().index_of(key);
                        assert(0 <= j < self.keys().len() && self.keys()[j] == key);
                        lemma_index_of_distinct(self.keys(), j);
                        if key != kv {
                            lemma_index_of_distinct(old(self).keys(), j);
                        }
                    }
                    assert(m1 =~= m0);
                }
                None
            },
        }
    }

    /// Removes the entry under `k`, returning its value. The last entry
    /// moves into the slot that `k` held.
    pub fn remove(&mut self, k: &String) -> (prev: Option<V>)
        requires
            old(self).wf(),
        ensures
            final(self).wf(),
            final(self).map() == old(self).map().remove(k@),
            old(self).map().contains_key(k@) ==> {
                &&& prev == Some(old(self).map()[k@])
                &&& final(self).keys() == swap_removed(old(self).keys(), old(self).keys().index_of(k@))
                &&& final(self).values() == swap_removed(
                    old(self).values(),
                    old(self).keys().index_of(k@),
                )
            },
            !old(self).map().contains_key(k@) ==> {
                &&& prev == None::<V>
                &&& final(self).keys() == old(self).keys()
                &&& final(self).values() == old(self).values()
            },
    {
        match self.position(k) {
            Some(i) => {
                proof {
                    lemma_swap_removed(old(self).keys(), i as int);
                }
                let _ = self.keys.swap_remove(i);
                let removed = self.values.swap_remove(i);
                proof {
                    assert(self.keys() =~= swap_removed(old(self).keys(), i as int));
                    let n = old(self).keys().len() as int;
                    let m1 = self.map();
                    let m0 = old(self).map().remove(k@);
                    assert forall|key: Seq<char>| #[trigger] m1.contains_key(key) <==> m0.contains_key(key) by {
                        assert(self.keys().contains(key) <==> (old(self).keys().contains(key) && key
                            != old(self).keys()[i as int]));
                    }
                    assert forall|key: Seq<char>| m1.contains_key(key) implies m1[key] == m0[key] by {
                        let j = self.keys().index_of(key);
                        assert(0 <= j < self.keys().len() && self.keys()[j] == key);
                        lemma_index_of_distinct(self.keys(), j);
                        let p = if j == i { n - 1 } else { j };
                        assert(old(self).keys()[p] == key);
                        lemma_index_of_distinct(old(self).keys(), p);
                    }
                    assert(m1 =~= m0);
                }
                Some(removed)
            },
            None => {
                assert(old(self).map().remove(k@) =~= old(self).map());
                None
            },
        }
    }
}

} // verus!
