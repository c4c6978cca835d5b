//! A map from text to values that keeps its entries in key order.

use crate::text;
use vstd::prelude::*;

verus! {

/// Entries whose keys strictly increase in code-point order.
pub open spec fn sorted<T>(s: Seq<(Seq<char>, T)>) -> bool {
    forall|i: int, j: int| 0 <= i < j < s.len() ==> text::lt(#[trigger] s[i].0, #[trigger] s[j].0)
}

/// The map that a list of entries with distinct keys stands for.
pub open spec fn to_map<T>(s: Seq<(Seq<char>, T)>) -> Map<Seq<char>, T>
    decreases s.len(),
{
    if s.len() == 0 {
        Map::empty()
    } else {
        to_map(s.drop_last()).insert(s.last().0, s.last().1)
    }
}

pub struct StrMap<V> {
    keys: Vec<String>,
    vals: Vec<V>,
}

impl<V: View> View for StrMap<V> {
    type V = Map<Seq<char>, V::V>;

    open spec fn view(&self) -> Map<Seq<char>, V::V> {
        to_map(self.entries())
    }
}

/// The keys of `to_map(s)` are the keys of `s`, each with its value.
pub proof fn to_map_entries<T>(s: Seq<(Seq<char>, T)>)
    requires
        sorted(s),
    ensures
        forall|i: int|
            0 <= i < s.len() ==> to_map(s).dom().contains(#[trigger] s[i].0) && to_map(s)[s[i].0]
                == s[i].1,
        forall|k: Seq<char>| #[trigger]
            to_map(s).dom().contains(k) ==> exists|i: int| 0 <= i < s.len() && s[i].0 == k,
        to_map(s).dom().finite(),
        to_map(s).dom().len() == s.len(),
    decreases s.len(),
{
    if s.len() > 0 {
        let t = s.drop_last();
        assert(sorted(t)) by {
            assert forall|i: int, j: int| 0 <= i < j < t.len() implies text::lt(
                #[trigger] t[i].0,
                #[trigger] t[j].0,
            ) by {
                assert(text::lt(s[i].0, s[j].0));
            }
        }
        to_map_entries(t);
        let n = s.len() - 1;
        assert forall|i: int| 0 <= i < t.len() implies #[trigger] s[i].0 != s[n].0 by {
            assert(text::lt(s[i].0, s[n].0));
            text::lt_irreflexive(s[n].0);
        }
        assert forall|i: int| 0 <= i < s.len() implies to_map(s).dom().contains(#[trigger] s[i].0)
            && to_map(s)[s[i].0] == s[i].1 by {
            if i < n {
                assert(s[i] == t[i]);
            }
        }
        assert forall|k: Seq<char>| #[trigger] to_map(s).dom().contains(k) implies exists|i: int|
            0 <= i < s.len() && s[i].0 == k by {
            if k == s[n].0 {
            } else {
                assert(to_map(t).dom().contains(k));
                let i = choose|i: int| 0 <= i < t.len() && t[i].0 == k;
                assert(s[i].0 == k);
            }
        }
        assert(!to_map(t).dom().contains(s[n].0)) by {
            if to_map(t).dom().contains(s[n].0) {
                let i = choose|i: int| 0 <= i < t.len() && t[i].0 == s[n].0;
                assert(s[i].0 == s[n].0);
            }
        }
        assert(to_map(s).dom() =~= to_map(t).dom().insert(s[n].0));
    }
}

/// Sorted lists of entries that stand for one map are the same list, so
/// whatever is rendered from them depends on the map alone.
pub proof fn listing_is_canonical<T>(a: Seq<(Seq<char>, T)>, b: Seq<(Seq<char>, T)>)
    requires
        sorted(a),
        sorted(b),
        to_map(a) == to_map(b),
    ensures
        a == b,
    decreases a.len(),
{
    to_map_entries(a);
    to_map_entries(b);
    if a.len() > 0 {
        let x = a.last();
        let y = b.last();
        let n = a.len() - 1;
        assert(a[n].0 == x.0);
        assert(b[n].0 == y.0);
        assert(x.0 == y.0) by {
            assert(to_map(b).dom().contains(x.0));
            let i = choose|i: int| 0 <= i < b.len() && b[i].0 == x.0;
            assert(to_map(a).dom().contains(y.0));
            let j = choose|j: int| 0 <= j < a.len() && a[j].0 == y.0;
            if i < n && j < n {
                assert(text::lt(b[i].0, b[n].0));
                assert(text::lt(a[j].0, a[n].0));
                text::lt_transitive(x.0, y.0, x.0);
                text::lt_irreflexive(x.0);
            }
        }
        assert(x.1 == y.1);
        let ta = a.drop_last();
        let tb = b.drop_last();
        assert(sorted(ta)) by {
            assert forall|i: int, j: int| 0 <= i < j < ta.len() implies text::lt(
                #[trigger] ta[i].0,
                #[trigger] ta[j].0,
            ) by {
                assert(text::lt(a[i].0, a[j].0));
            }
        }
        assert(sorted(tb)) by {
            assert forall|i: int, j: int| 0 <= i < j < tb.len() implies text::lt(
                #[trigger] tb[i].0,
                #[trigger] tb[j].0,
            ) by {
                assert(text::lt(b[i].0, b[j].0));
            }
        }
        assert(to_map(ta) =~= to_map(a).remove(x.0)) by {
            drop_last_removes(a);
        }
        assert(to_map(tb) =~= to_map(b).remove(x.0)) by {
            drop_last_removes(b);
        }
        listing_is_canonical(ta, tb);
        assert(a =~= ta.push(x));
        assert(b =~= tb.push(y));
    } else {
        assert(a =~= b);
    }
}

/// The entries of a map in key order.
pub open spec fn listing<T>(m: Map<Seq<char>, T>) -> Seq<(Seq<char>, T)> {
    choose|s: Seq<(Seq<char>, T)>| sorted(s) && #[trigger] to_map(s) == m
}

/// A sorted list of entries is the listing of the map that it stands for.
pub proof fn listing_of_sorted<T>(s: Seq<(Seq<char>, T)>)
    requires
        sorted(s),
    ensures
        listing(to_map(s)) == s,
{
    listing_is_canonical(s, listing(to_map(s)));
}

proof fn drop_last_removes<T>(a: Seq<(Seq<char>, T)>)
    requires
        sorted(a),
        a.len() > 0,
    ensures
        to_map(a.drop_last()) == to_map(a).remove(a.last().0),
{
    let t = a.drop_last();
    let n = a.len() - 1;
    assert(sorted(t)) by {
        assert forall|i: int, j: int| 0 <= i < j < t.len() implies text::lt(
            #[trigger] t[i].0,
            #[trigger] t[j].0,
        ) by {
            assert(text::lt(a[i].0, a[j].0));
        }
    }
    to_map_entries(t);
    assert(!to_map(t).dom().contains(a[n].0)) by {
        if to_map(t).dom().contains(a[n].0) {
            let i = choose|i: int| 0 <= i < t.len() && t[i].0 == a[n].0;
            assert(text::lt(a[i].0, a[n].0));
            text::lt_irreflexive(a[n].0);
        }
    }
    assert(to_map(t) =~= to_map(a).remove(a.last().0));
}

/// Two sorted lists stand for one map as soon as they have the same keys
/// with the same values.
proof fn maps_agree<T>(s: Seq<(Seq<char>, T)>, m: Map<Seq<char>, T>)
    requires
        sorted(s),
        forall|i: int|
            0 <= i < s.len() ==> m.dom().contains(#[trigger] s[i].0) && m[s[i].0] == s[i].1,
        forall|k: Seq<char>| #[trigger]
            m.dom().contains(k) ==> exists|i: int| 0 <= i < s.len() && s[i].0 == k,
    ensures
        to_map(s) == m,
{
    to_map_entries(s);
    assert forall|k: Seq<char>| #[trigger] to_map(s).dom().contains(k) implies m.dom().contains(k)
        && to_map(s)[k] == m[k] by {
        let i = choose|i: int| 0 <= i < s.len() && s[i].0 == k;
        assert(m.dom().contains(s[i].0));
    }
    assert forall|k: Seq<char>| #[trigger] m.dom().contains(k) implies to_map(s).dom().contains(
        k,
    ) by {
        let i = choose|i: int| 0 <= i < s.len() && s[i].0 == k;
        assert(to_map(s).dom().contains(s[i].0));
    }
    assert(to_map(s) =~= m);
}

impl<V: View> StrMap<V> {
    /// The entries in key order.
    pub closed spec fn entries(&self) -> Seq<(Seq<char>, V::V)> {
        Seq::new(self.keys@.len(), |i: int| (self.keys@[i]@, self.vals@[i]@))
    }

    /// The values, in key order.
    pub closed spec fn values(&self) -> Seq<V> {
        self.vals@
    }

    pub open spec fn wf(&self) -> bool {
        &&& sorted(self.entries())
        &&& self.values().len() == self.entries().len()
        &&& forall|i: int|
            0 <= i < self.entries().len() ==> (#[trigger] self.entries()[i]).1 == self.values()[i]@
    }

    pub fn new() -> (r: Self)
        ensures
            r.wf(),
            r@ == Map::<Seq<char>, V::V>::empty(),
            r.entries().len() == 0,
    {
        StrMap { keys: Vec::new(), vals: Vec::new() }
    }

    pub fn len(&self) -> (r: usize)
        requires
            self.wf(),
        ensures
            r == self.entries().len(),
            r == self@.dom().len(),
    {
        proof {
            to_map_entries(self.entries());
        }
        self.keys.len()
    }

    pub fn is_empty(&self) -> (r: bool)
        requires
            self.wf(),
        ensures
            r == (self@ == Map::<Seq<char>, V::V>::empty()),
            r == (self.entries().len() == 0),
    {
        proof {
            to_map_entries(self.entries());
            if self.entries().len() > 0 {
                assert(self@.dom().contains(self.entries()[0].0));
            }
        }
        self.keys.len() == 0
    }

    /// The key at a position of the key order.
    pub fn key_at(&self, i: usize) -> (r: &String)
        requires
            self.wf(),
            i < self.entries().len(),
        ensures
            r@ == self.entries()[i as int].0,
    {
        &self.keys[i]
    }

    /// The value at a position of the key order.
    pub fn value_at(&self, i: usize) -> (r: &V)
        requires
            self.wf(),
            i < self.entries().len(),
        ensures
            *r == self.values()[i as int],
            r@ == self.entries()[i as int].1,
    {
        &self.vals[i]
    }

    /// The first position whose key does not come before `key`.
    fn lower_bound(&self, key: &str) -> (r: usize)
        requires
            self.wf(),
        ensures
            r <= self.entries().len(),
            forall|j: int| 0 <= j < r ==> text::lt(#[trigger] self.entries()[j].0, key@),
            forall|j: int|
                r <= j < self.entries().len() ==> !text::lt(#[trigger] self.entries()[j].0, key@),
    {
        let mut i: usize = 0;
        while i < self.keys.len()
            invariant
                self.wf(),
                i <= self.keys@.len(),
                forall|j: int| 0 <= j < i ==> text::lt(#[trigger] self.entries()[j].0, key@),
            decreases self.keys@.len() - i,
        {
            if !text::less(self.keys[i].as_str(), key) {
                proof {
                    assert forall|j: int| i <= j < self.entries().len() implies !text::lt(
                        #[trigger] self.entries()[j].0,
                        key@,
                    ) by {
                        if i < j && text::lt(self.entries()[j].0, key@) {
                            assert(text::lt(self.entries()[i as int].0, self.entries()[j].0));
                            text::lt_transitive(
                                self.entries()[i as int].0,
                                self.entries()[j].0,
                                key@,
                            );
                        }
                    }
                }
                return i;
            }
            i = i + 1;
        }
        i
    }

    /// The position of `key`, if it is there.
    fn position(&self, key: &str) -> (r: Option<usize>)
        requires
            self.wf(),
        ensures
            match r {
                Some(i) => i < self.entries().len() && self.entries()[i as int].0 == key@
                    && self@.dom().contains(key@) && self@[key@] == self.entries()[i as int].1,
                None => !self@.dom().contains(key@),
            },
    {
        let i: usize = self.lower_bound(key);
        proof {
            to_map_entries(self.entries());
        }
        if i < self.keys.len() && text::same(self.keys[i].as_str(), key) {
            Some(i)
        } else {
            proof {
                if self@.dom().contains(key@) {
                    let j = choose|j: int|
                        0 <= j < self.entries().len() && self.entries()[j].0 == key@;
                    text::lt_irreflexive(key@);
                    assert(i <= j);
                    if i < j {
                        assert(text::lt(self.entries()[i as int].0, self.entries()[j].0));
                    }
                }
            }
            None
        }
    }

    pub fn contains_key(&self, key: &str) -> (r: bool)
        requires
            self.wf(),
        ensures
            r == self@.dom().contains(key@),
    {
        self.position(key).is_some()
    }

    pub fn get(&self, key: &str) -> (r: Option<&V>)
        requires
            self.wf(),
        ensures
            match r {
                Some(v) => self@.dom().contains(key@) && v@ == self@[key@]
                    && self.values().contains(*v),
                None => !self@.dom().contains(key@),
            },
    {
        match self.position(key) {
            Some(i) => {
                assert(self.values()[i as int] == self.vals@[i as int]);
                Some(&self.vals[i])
            },
            None => None,
        }
    }

    /// Sets the value of `key`.
    pub fn insert(&mut self, key: String, value: V)
        requires
            old(self).wf(),
        ensures
            final(self).wf(),
            final(self)@ == old(self)@.insert(key@, value@),
            forall|v: V|
                final(self).values().contains(v) ==> v == value || old(self).values().contains(v),
    {
        let i: usize = self.lower_bound(key.as_str());
        let ghost s = self.entries();
        let ghost vs = self.values();
        proof {
            to_map_entries(s);
            text::lt_irreflexive(key@);
        }
        if i < self.keys.len() && self.keys[i] == key {
            self.vals[i] = value;
            proof {
                let t = self.entries();
                assert(t =~= s.update(i as int, (key@, value@)));
                assert(sorted(t)) by {
                    assert forall|a: int, b: int| 0 <= a < b < t.len() implies text::lt(
                        #[trigger] t[a].0,
                        #[trigger] t[b].0,
                    ) by {
                        assert(text::lt(s[a].0, s[b].0));
                    }
                }
                let m = to_map(s).insert(key@, value@);
                assert forall|a: int| 0 <= a < t.len() implies m.dom().contains(#[trigger] t[a].0)
                    && m[t[a].0] == t[a].1 by {
                    if a != i {
                        assert(t[a] == s[a]);
                        assert(s[a].0 != key@) by {
                            if a < i {
                                assert(text::lt(s[a].0, s[i as int].0));
                            } else {
                                assert(text::lt(s[i as int].0, s[a].0));
                            }
                        }
                    }
                }
                assert forall|k: Seq<char>| #[trigger] m.dom().contains(k) implies exists|a: int|
                    0 <= a < t.len() && t[a].0 == k by {
                    if k == key@ {
                        assert(t[i as int].0 == k);
                    } else {
                        let a = choose|a: int| 0 <= a < s.len() && s[a].0 == k;
                        assert(t[a].0 == k);
                    }
                }
                maps_agree(t, m);
                assert forall|v: V| self.values().contains(v) implies v == value || vs.contains(
                    v,
                ) by {
                    let a = choose|a: int| 0 <= a < self.values().len() && self.values()[a] == v;
                    if a != i {
                        assert(vs[a] == v);
                    }
                }
            }
        } else {
            self.keys.insert(i, key);
            self.vals.insert(i, value);
            proof {
                let t = self.entries();
                assert(t =~= s.insert(i as int, (key@, value@)));
                assert forall|a: int| i <= a < s.len() implies text::lt(key@, #[trigger] s[a].0) by {
                    text::lt_total(s[a].0, key@);
                    if s[a].0 == key@ {
                        if a > i {
                            assert(text::lt(s[i as int].0, s[a].0));
                        }
                    }
                }
                assert(sorted(t)) by {
                    assert forall|a: int, b: int| 0 <= a < b < t.len() implies text::lt(
                        #[trigger] t[a].0,
                        #[trigger] t[b].0,
                    ) by {
                        let x = if a < i { a } else { a - 1 };
                        let y = if b < i { b } else { b - 1 };
                        if a == i {
                            assert(t[b] == s[y]);
                        } else if b == i {
                            assert(t[a] == s[a]);
                        } else {
                            assert(t[a] == s[x]);
                            assert(t[b] == s[y]);
                            assert(text::lt(s[x].0, s[y].0));
                        }
                    }
                }
                let m = to_map(s).insert(key@, value@);
                assert forall|a: int| 0 <= a < t.len() implies m.dom().contains(#[trigger] t[a].0)
                    && m[t[a].0] == t[a].1 by {
                    if a < i {
                        assert(t[a] == s[a]);
                    } else if a > i {
                        assert(t[a] == s[a - 1]);
                    }
                }
                assert forall|k: Seq<char>| #[trigger] m.dom().contains(k) implies exists|a: int|
                    0 <= a < t.len() && t[a].0 == k by {
                    if k == key@ {
                        assert(t[i as int].0 == k);
                    } else {
                        let a = choose|a: int| 0 <= a < s.len() && s[a].0 == k;
                        let b = if a < i { a } else { a + 1 };
                        assert(t[b].0 == k);
                    }
                }
                maps_agree(t, m);
                assert forall|v: V| self.values().contains(v) implies v == value || vs.contains(
                    v,
                ) by {
                    let a = choose|a: int| 0 <= a < self.values().len() && self.values()[a] == v;
                    if a < i {
                        assert(vs[a] == v);
                    } else if a > i {
                        assert(vs[a - 1] == v);
                    }
                }
            }
        }
    }

    /// Removes `key`; says whether it was there.
    pub fn remove(&mut self, key: &str) -> (r: bool)
        requires
            old(self).wf(),
        ensures
            final(self).wf(),
            r == old(self)@.dom().contains(key@),
            final(self)@ == old(self)@.remove(key@),
            forall|v: V| final(self).values().contains(v) ==> old(self).values().contains(v),
    {
        let ghost s = self.entries();
        let ghost vs = self.values();
        proof {
            to_map_entries(s);
        }
        match self.position(key) {
            None => {
                assert(self@ =~= old(self)@.remove(key@));
                false
            },
            Some(i) => {
                let _k: String = self.keys.remove(i);
                let _v: V = self.vals.remove(i);
                proof {
                    let t = self.entries();
                    assert(t =~= s.remove(i as int));
                    text::lt_irreflexive(key@);
                    assert(sorted(t)) by {
                        assert forall|a: int, b: int| 0 <= a < b < t.len() implies text::lt(
                            #[trigger] t[a].0,
                            #[trigger] t[b].0,
                        ) by {
                            let x = if a < i { a } else { a + 1 };
                            let y = if b < i { b } else { b + 1 };
                            assert(t[a] == s[x]);
                            assert(t[b] == s[y]);
                            assert(text::lt(s[x].0, s[y].0));
                        }
                    }
                    let m = to_map(s).remove(key@);
                    assert forall|a: int| 0 <= a < t.len() implies m.dom().contains(
                        #[trigger] t[a].0,
                    ) && m[t[a].0] == t[a].1 by {
                        let x = if a < i { a } else { a + 1 };
                        assert(t[a] == s[x]);
                        if a < i {
                            assert(text::lt(s[x].0, s[i as int].0));
                        } else {
                            assert(text::lt(s[i as int].0, s[x].0));
                        }
                    }
                    assert forall|k: Seq<char>| #[trigger] m.dom().contains(k) implies exists|
                        a: int,
                    |
                        0 <= a < t.len() && t[a].0 == k by {
                        let a = choose|a: int| 0 <= a < s.len() && s[a].0 == k;
                        let b = if a < i { a } else { a - 1 };
                        assert(t[b].0 == k);
                    }
                    maps_agree(t, m);
                    assert forall|v: V| self.values().contains(v) implies vs.contains(v) by {
                        let a = choose|a: int|
                            0 <= a < self.values().len() && self.values()[a] == v;
                        let x = if a < i { a } else { a + 1 };
                        assert(vs[x] == v);
                    }
                }
                true
            },
        }
    }
}

impl StrMap<String> {
    /// An owned copy.
    pub fn dup(&self) -> (r: Self)
        requires
            self.wf(),
        ensures
            r.wf(),
            r@ == self@,
            r.entries() == self.entries(),
    {
        let r = StrMap { keys: text::dup_texts(&self.keys), vals: text::dup_texts(&self.vals) };
        proof {
            assert(r.entries() =~= self.entries());
        }
        r
    }

    /// Whether the two maps hold the same entries.
    pub fn same(&self, other: &Self) -> (r: bool)
        requires
            self.wf(),
            other.wf(),
        ensures
            r == (self@ == other@),
    {
        if self.keys.len() != other.keys.len() {
            proof {
                if self@ == other@ {
                    listing_is_canonical(self.entries(), other.entries());
                    assert(self.entries().len() == other.entries().len());
                }
            }
            return false;
        }
        let mut i: usize = 0;
        while i < self.keys.len()
            invariant
                i <= self.keys@.len(),
                self.wf(),
                other.wf(),
                self.keys@.len() == other.keys@.len(),
                forall|j: int| 0 <= j < i ==> #[trigger] self.entries()[j] == other.entries()[j],
            decreases self.keys@.len() - i,
        {
            if self.keys[i] != other.keys[i] || self.vals[i] != other.vals[i] {
                proof {
                    assert(self.entries()[i as int] != other.entries()[i as int]);
                    if self@ == other@ {
                        listing_is_canonical(self.entries(), other.entries());
                    }
                }
                return false;
            }
            i = i + 1;
        }
        proof {
            assert(self.entries() =~= other.entries());
        }
        true
    }
}

impl StrMap<StrMap<String>> {
    /// Well-formed, with well-formed values.
    pub open spec fn deep_wf(&self) -> bool {
        &&& self.wf()
        &&& forall|m: StrMap<String>| self.values().contains(m) ==> #[trigger] m.wf()
    }

    /// An owned copy.
    pub fn dup(&self) -> (r: Self)
        requires
            self.deep_wf(),
        ensures
            r.deep_wf(),
            r@ == self@,
    {
        let keys: Vec<String> = text::dup_texts(&self.keys);
        let mut vals: Vec<StrMap<String>> = Vec::new();
        let mut i: usize = 0;
        while i < self.vals.len()
            invariant
                i <= self.vals@.len(),
                self.deep_wf(),
                vals@.len() == i,
                forall|j: int| 0 <= j < i ==> (#[trigger] vals@[j])@ == self.vals@[j]@,
                forall|j: int| 0 <= j < i ==> (#[trigger] vals@[j]).wf(),
            decreases self.vals@.len() - i,
        {
            assert(self.values().contains(self.vals@[i as int]));
            vals.push(self.vals[i].dup());
            i = i + 1;
        }
        let r = StrMap { keys, vals };
        proof {
            assert(r.entries() =~= self.entries());
        }
        r
    }

    /// Whether the two maps hold the same entries.
    pub fn same(&self, other: &Self) -> (r: bool)
        requires
            self.deep_wf(),
            other.deep_wf(),
        ensures
            r == (self@ == other@),
    {
        if self.keys.len() != other.keys.len() {
            proof {
                if self@ == other@ {
                    listing_is_canonical(self.entries(), other.entries());
                    assert(self.entries().len() == other.entries().len());
                }
            }
            return false;
        }
        let mut i: usize = 0;
        while i < self.keys.len()
            invariant
                i <= self.keys@.len(),
                self.deep_wf(),
                other.deep_wf(),
                self.keys@.len() == other.keys@.len(),
                forall|j: int| 0 <= j < i ==> #[trigger] self.entries()[j] == other.entries()[j],
            decreases self.keys@.len() - i,
        {
            assert(self.values().contains(self.vals@[i as int]));
            assert(other.values().contains(other.vals@[i as int]));
            if self.keys[i] != other.keys[i] || !self.vals[i].same(&other.vals[i]) {
                proof {
                    assert(self.entries()[i as int] != other.entries()[i as int]);
                    if self@ == other@ {
                        listing_is_canonical(self.entries(), other.entries());
                    }
                }
                return false;
            }
            i = i + 1;
        }
        proof {
            assert(self.entries() =~= other.entries());
        }
        true
    }
}

} // verus!
