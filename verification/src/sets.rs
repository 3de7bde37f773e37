//! Small ordered collections of strings: a set of strings and a map from a
//! string key to a set of string values. Both keep their items in the order
//! in which they were first added, and never hold an item twice.

use vstd::prelude::*;

verus! {

/// A set of strings, kept in insertion order.
#[derive(Debug)]
pub struct StringSet {
    items: Vec<String>,
}

impl View for StringSet {
    type V = Seq<Seq<char>>;

    /// The members, in the order in which they were added.
    closed spec fn view(&self) -> Seq<Seq<char>> {
        self.items@.map_values(|s: String| s@)
    }
}

impl Clone for StringSet {
    fn clone(&self) -> (r: Self)
        ensures
            r@ == self@,
    {
        let mut items: Vec<String> = Vec::new();
        let mut i: usize = 0;
        while i < self.items.len()
            invariant
                i <= self.items.len(),
                items@.len() == i,
                forall|k: int| 0 <= k < i ==> items@[k]@ == self.items@[k]@,
            decreases self.items.len() - i,
        {
            items.push(self.items[i].clone());
            i += 1;
        }
        let r = StringSet { items };
        assert(r@ =~= self@);
        r
    }
}

impl StringSet {
    /// No member occurs twice.
    pub open spec fn wf(&self) -> bool {
        self@.no_duplicates()
    }

    /// The members as a mathematical set.
    pub open spec fn as_set(&self) -> Set<Seq<char>> {
        self@.to_set()
    }

    pub fn new() -> (r: Self)
        ensures
            r@ == Seq::<Seq<char>>::empty(),
            r.wf(),
    {
        let r = StringSet { items: Vec::new() };
        assert(r@ =~= Seq::<Seq<char>>::empty());
        r
    }

    /// The number of members.
    pub fn len(&self) -> (n: usize)
        ensures
            n == self@.len(),
            self.wf() ==> n == self.as_set().len(),
    {
        proof {
            if self.wf() {
                self@.unique_seq_to_set();
            }
        }
        self.items.len()
    }

    /// The member at position `i` of the insertion order.
    pub fn get(&self, i: usize) -> (r: &String)
        requires
            i < self@.len(),
        ensures
            r@ == self@[i as int],
    {
        &self.items[i]
    }

    pub fn contains(&self, s: &str) -> (b: bool)
        ensures
            b == self@.contains(s@),
    {
        let mut i: usize = 0;
        while i < self.items.len()
            invariant
                i <= self.items.len(),
                forall|k: int| 0 <= k < i ==> self@[k] != s@,
            decreases self.items.len() - i,
        {
            if crate::text::str_eq(self.items[i].as_str(), s) {
                assert(self@[i as int] == s@);
                return true;
            }
            i += 1;
        }
        false
    }

    /// Adds `s` unless it is a member already; tells whether it was added.
    pub fn insert(&mut self, s: String) -> (added: bool)
        requires
            old(self).wf(),
        ensures
            final(self).wf(),
            added == !old(self)@.contains(s@),
            final(self)@ == insert_spec(old(self)@, s@),
    {
        if self.contains(s.as_str()) {
            false
        } else {
            self.items.push(s);
            assert(self@ =~= old(self)@.push(s@));
            true
        }
    }

    /// Adds every member of `other` that is not a member yet, in `other`'s order.
    pub fn extend(&mut self, other: &StringSet)
        requires
            old(self).wf(),
        ensures
            final(self).wf(),
            final(self)@ == extend_spec(old(self)@, other@),
    {
        let mut i: usize = 0;
        proof {
            assert(other@.skip(0) =~= other@);
        }
        while i < other.items.len()
            invariant
                i <= other.items.len(),
                self.wf(),
                extend_spec(self@, other@.skip(i as int)) == extend_spec(old(self)@, other@),
            decreases other.items.len() - i,
        {
            proof {
                assert(other@.skip(i as int).drop_first() =~= other@.skip(i as int + 1));
            }
            self.insert(other.items[i].clone());
            i += 1;
        }
        proof {
            assert(other@.skip(i as int) =~= Seq::<Seq<char>>::empty());
        }
    }
}

/// A map from a string key to a set of string values, kept in the order in
/// which the keys were first added.
#[derive(Debug)]
pub struct AttributeMap {
    entries: Vec<(String, StringSet)>,
}

impl View for AttributeMap {
    type V = Seq<(Seq<char>, Seq<Seq<char>>)>;

    /// The keys with their values, in the order in which the keys were added.
    closed spec fn view(&self) -> Seq<(Seq<char>, Seq<Seq<char>>)> {
        self.entries@.map_values(|e: (String, StringSet)| (e.0@, e.1@))
    }
}

/// Some pair of `m` has the key `k`.
pub open spec fn has_key(m: Seq<(Seq<char>, Seq<Seq<char>>)>, k: Seq<char>) -> bool {
    exists|i: int| 0 <= i < m.len() && (#[trigger] m[i]).0 == k
}

/// The place of a pair of `m` with the key `k`.
pub open spec fn index_of_key(m: Seq<(Seq<char>, Seq<Seq<char>>)>, k: Seq<char>) -> int {
    choose|i: int| 0 <= i < m.len() && (#[trigger] m[i]).0 == k
}

/// The values under the key `k`; no values where `m` lacks the key.
pub open spec fn value_of(m: Seq<(Seq<char>, Seq<Seq<char>>)>, k: Seq<char>) -> Seq<Seq<char>> {
    if has_key(m, k) {
        m[index_of_key(m, k)].1
    } else {
        Seq::empty()
    }
}

/// No key occurs twice.
pub open spec fn unique_keys(m: Seq<(Seq<char>, Seq<Seq<char>>)>) -> bool {
    forall|i: int, j: int|
        0 <= i < m.len() && 0 <= j < m.len() && i != j ==> (#[trigger] m[i]).0 != (#[trigger] m[j]).0
}

/// No key occurs twice, and no value occurs twice under a key.
pub open spec fn attrs_wf(m: Seq<(Seq<char>, Seq<Seq<char>>)>) -> bool {
    &&& unique_keys(m)
    &&& forall|i: int| 0 <= i < m.len() ==> (#[trigger] m[i]).1.no_duplicates()
}

/// `m` with the values under `k` replaced by `v`, or with the new pair at its end.
pub open spec fn put_spec(
    m: Seq<(Seq<char>, Seq<Seq<char>>)>,
    k: Seq<char>,
    v: Seq<Seq<char>>,
) -> Seq<(Seq<char>, Seq<Seq<char>>)> {
    if has_key(m, k) {
        m.update(index_of_key(m, k), (k, v))
    } else {
        m.push((k, v))
    }
}

/// `m` with the values `vs` added to those under `k`.
pub open spec fn add_values_spec(
    m: Seq<(Seq<char>, Seq<Seq<char>>)>,
    k: Seq<char>,
    vs: Seq<Seq<char>>,
) -> Seq<(Seq<char>, Seq<Seq<char>>)> {
    put_spec(m, k, extend_spec(value_of(m, k), vs))
}

/// What `put_spec` does to membership and lookup.
pub proof fn lemma_put(
    m: Seq<(Seq<char>, Seq<Seq<char>>)>,
    k: Seq<char>,
    v: Seq<Seq<char>>,
)
    requires
        unique_keys(m),
    ensures
        unique_keys(put_spec(m, k, v)),
        has_key(put_spec(m, k, v), k),
        value_of(put_spec(m, k, v), k) == v,
        forall|o: Seq<char>| o != k ==> has_key(put_spec(m, k, v), o) == has_key(m, o),
        forall|o: Seq<char>| o != k ==> value_of(put_spec(m, k, v), o) == value_of(m, o),
{
    let p = put_spec(m, k, v);
    if has_key(m, k) {
        let i = index_of_key(m, k);
        assert(p[i].0 == k);
        assert forall|o: Seq<char>| o != k implies has_key(p, o) == has_key(m, o) && value_of(p, o)
            == value_of(m, o) by {
            if has_key(m, o) {
                let j = index_of_key(m, o);
                assert(p[j].0 == o);
                let j2 = index_of_key(p, o);
                assert(m[j2].0 == o);
            }
            if has_key(p, o) {
                let j = index_of_key(p, o);
                assert(m[j].0 == o);
            }
        }
    } else {
        assert(p[m.len() as int].0 == k);
        assert forall|o: Seq<char>| o != k implies has_key(p, o) == has_key(m, o) && value_of(p, o)
            == value_of(m, o) by {
            if has_key(m, o) {
                let j = index_of_key(m, o);
                assert(p[j].0 == o);
                let j2 = index_of_key(p, o);
                assert(m[j2].0 == o);
            }
            if has_key(p, o) {
                let j = index_of_key(p, o);
                assert(m[j].0 == o);
            }
        }
    }
}

impl Clone for AttributeMap {
    fn clone(&self) -> (r: Self)
        ensures
            r@ == self@,
    {
        let mut entries: Vec<(String, StringSet)> = Vec::new();
        let mut i: usize = 0;
        while i < self.entries.len()
            invariant
                i <= self.entries.len(),
                entries@.len() == i,
                forall|k: int|
                    0 <= k < i ==> entries@[k].0@ == self.entries@[k].0@ && entries@[k].1@
                        == self.entries@[k].1@,
            decreases self.entries.len() - i,
        {
            entries.push((self.entries[i].0.clone(), self.entries[i].1.clone()));
            i += 1;
        }
        let r = AttributeMap { entries };
        assert(r@ =~= self@);
        r
    }
}

impl AttributeMap {
    /// No key occurs twice, and no value occurs twice under a key.
    pub open spec fn wf(&self) -> bool {
        attrs_wf(self@)
    }

    pub fn new() -> (r: Self)
        ensures
            r@ == Seq::<(Seq<char>, Seq<Seq<char>>)>::empty(),
            r.wf(),
    {
        let r = AttributeMap { entries: Vec::new() };
        assert(r@ =~= Seq::<(Seq<char>, Seq<Seq<char>>)>::empty());
        r
    }

    /// The number of keys.
    pub fn len(&self) -> (n: usize)
        ensures
            n == self@.len(),
    {
        self.entries.len()
    }

    /// The key at position `i`.
    pub fn key_at(&self, i: usize) -> (r: &String)
        requires
            i < self@.len(),
        ensures
            r@ == self@[i as int].0,
    {
        &self.entries[i].0
    }

    /// The values at position `i`.
    pub fn values_at(&self, i: usize) -> (r: &StringSet)
        requires
            i < self@.len(),
        ensures
            r@ == self@[i as int].1,
            self.wf() ==> r.wf(),
    {
        assert(self@[i as int].1 == self.entries@[i as int].1@);
        &self.entries[i].1
    }

    /// The position of `key`, if it is a key.
    pub fn find(&self, key: &str) -> (r: Option<usize>)
        ensures
            match r {
                Some(i) => i < self@.len() && self@[i as int].0 == key@ && has_key(self@, key@),
                None => !has_key(self@, key@),
            },
            self.wf() ==> (r matches Some(i) ==> i == index_of_key(self@, key@)),
    {
        let mut i: usize = 0;
        while i < self.entries.len()
            invariant
                i <= self.entries.len(),
                forall|k: int| 0 <= k < i ==> (#[trigger] self@[k]).0 != key@,
            decreases self.entries.len() - i,
        {
            if crate::text::str_eq(self.entries[i].0.as_str(), key) {
                assert(self@[i as int].0 == key@);
                return Some(i);
            }
            i += 1;
        }
        None
    }

    /// The values under `key`.
    pub fn get(&self, key: &str) -> (r: Option<&StringSet>)
        requires
            self.wf(),
        ensures
            r is Some == has_key(self@, key@),
            r matches Some(v) ==> v@ == value_of(self@, key@) && v.wf(),
    {
        match self.find(key) {
            Some(i) => Some(&self.entries[i].1),
            None => None,
        }
    }

    /// Puts `vals` under `key`, in place of what was there.
    pub fn insert(&mut self, key: String, vals: StringSet)
        requires
            old(self).wf(),
            vals.wf(),
        ensures
            final(self).wf(),
            final(self)@ == put_spec(old(self)@, key@, vals@),
    {
        match self.find(key.as_str()) {
            Some(i) => {
                self.entries.set(i, (key, vals));
                assert(self@ =~= put_spec(old(self)@, key@, vals@));
            },
            None => {
                self.entries.push((key, vals));
                assert(self@ =~= put_spec(old(self)@, key@, vals@));
            },
        }
        proof {
            lemma_put(old(self)@, key@, vals@);
            assert forall|i: int| 0 <= i < self@.len() implies (#[trigger] self@[i]).1.no_duplicates() by {
                if i < old(self)@.len() && self@[i] != (key@, vals@) {
                    assert(self@[i] == old(self)@[i]);
                }
            }
        }
    }

    /// Adds `vals` to the values under `key`.
    pub fn add_values(&mut self, key: String, vals: &StringSet)
        requires
            old(self).wf(),
        ensures
            final(self).wf(),
            final(self)@ == add_values_spec(old(self)@, key@, vals@),
    {
        let mut set = match self.get(key.as_str()) {
            Some(present) => present.clone(),
            None => StringSet::new(),
        };
        set.extend(vals);
        proof {
            lemma_extend_members(value_of(self@, key@), vals@);
        }
        self.insert(key, set);
    }

    /// Adds `val` to the values under `key`.
    pub fn add_value(&mut self, key: String, val: String)
        requires
            old(self).wf(),
        ensures
            final(self).wf(),
            final(self)@ == add_values_spec(old(self)@, key@, seq![val@]),
    {
        let mut one = StringSet::new();
        one.insert(val);
        assert(one@ =~= seq![val@]);
        self.add_values(key, &one);
    }
}

/// `s` with `x` at its end, unless `s` holds `x` already.
pub open spec fn insert_spec(s: Seq<Seq<char>>, x: Seq<char>) -> Seq<Seq<char>> {
    if s.contains(x) {
        s
    } else {
        s.push(x)
    }
}

/// `s` after inserting each item of `more` in turn.
pub open spec fn extend_spec(s: Seq<Seq<char>>, more: Seq<Seq<char>>) -> Seq<Seq<char>>
    decreases more.len(),
{
    if more.len() == 0 {
        s
    } else {
        extend_spec(insert_spec(s, more[0]), more.drop_first())
    }
}

/// Inserting keeps the old members, adds the new one and nothing else.
pub proof fn lemma_insert_members(s: Seq<Seq<char>>, x: Seq<char>)
    ensures
        forall|y: Seq<char>| insert_spec(s, x).contains(y) <==> (s.contains(y) || y == x),
        s.no_duplicates() ==> insert_spec(s, x).no_duplicates(),
{
    assert forall|y: Seq<char>| insert_spec(s, x).contains(y) <==> (s.contains(y) || y == x) by {
        if s.contains(x) {
        } else {
            let t = s.push(x);
            if s.contains(y) {
                let i = choose|i: int| 0 <= i < s.len() && s[i] == y;
                assert(t[i] == y);
            }
            if y == x {
                assert(t[s.len() as int] == y);
            }
        }
    }
}

/// Extending yields exactly the members of both.
pub proof fn lemma_extend_members(s: Seq<Seq<char>>, more: Seq<Seq<char>>)
    ensures
        forall|y: Seq<char>| extend_spec(s, more).contains(y) <==> (s.contains(y) || more.contains(y)),
        s.no_duplicates() ==> extend_spec(s, more).no_duplicates(),
    decreases more.len(),
{
    if more.len() == 0 {
    } else {
        lemma_insert_members(s, more[0]);
        lemma_extend_members(insert_spec(s, more[0]), more.drop_first());
        assert forall|y: Seq<char>| extend_spec(s, more).contains(y) <==> (s.contains(y)
            || more.contains(y)) by {
            if more.contains(y) {
                let i = choose|i: int| 0 <= i < more.len() && more[i] == y;
                if i > 0 {
                    assert(more.drop_first()[i - 1] == y);
                }
            }
            if more.drop_first().contains(y) {
                let i = choose|i: int| 0 <= i < more.drop_first().len() && more.drop_first()[i] == y;
                assert(more[i + 1] == y);
            }
        }
    }
}

} // verus!
