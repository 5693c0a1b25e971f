//! Association lists with unique keys, viewed as mathematical maps, and a
//! string set viewed as a mathematical set.
//!
//! Every map the engine keeps (rooms by id, state events by type and state
//! key, profiles by user, …) is one of these. Keys are strings or small
//! tuples of strings; a linear scan is enough at the scale of one client.

use vstd::prelude::*;

use crate::util::DupView;

verus! {

/// A key of an association list: executable equality agrees with view
/// equality, and a key can be duplicated without changing its view.
pub trait MapKey: View + Sized {
    /// Executable equality, agreeing with equality of views.
    fn key_eq(&self, other: &Self) -> (r: bool)
        ensures
            r == (self@ == other@),
    ;

    /// An owned copy with the same view.
    fn dup(&self) -> (r: Self)
        ensures
            r@ == self@,
    ;
}

impl MapKey for String {
    fn key_eq(&self, other: &Self) -> (r: bool) {
        self.eq(other)
    }

    fn dup(&self) -> (r: Self) {
        self.clone()
    }
}

impl MapKey for (String, String) {
    fn key_eq(&self, other: &Self) -> (r: bool) {
        self.0.eq(&other.0) && self.1.eq(&other.1)
    }

    fn dup(&self) -> (r: Self) {
        (self.0.clone(), self.1.clone())
    }
}

impl MapKey for (String, String, String) {
    fn key_eq(&self, other: &Self) -> (r: bool) {
        self.0.eq(&other.0) && self.1.eq(&other.1) && self.2.eq(&other.2)
    }

    fn dup(&self) -> (r: Self) {
        (self.0.clone(), self.1.clone(), self.2.clone())
    }
}

/// An association list with unique keys.
pub struct KMap<K, V> {
    pub entries: Vec<(K, V)>,
}

impl<K: MapKey, V: DeepView> View for KMap<K, V> {
    type V = Map<<K as View>::V, <V as DeepView>::V>;

    open spec fn view(&self) -> Map<<K as View>::V, <V as DeepView>::V> {
        Self::map_of(self.entries@)
    }
}

impl<K: MapKey, V: DeepView> KMap<K, V> {
    /// The mathematical map an entry sequence denotes; later entries win.
    pub open spec fn map_of(entries: Seq<(K, V)>) -> Map<<K as View>::V, <V as DeepView>::V>
        decreases entries.len(),
    {
        if entries.len() == 0 {
            Map::empty()
        } else {
            Self::map_of(entries.drop_last()).insert(
                entries.last().0@,
                entries.last().1.deep_view(),
            )
        }
    }

    /// Keys occur at most once.
    pub open spec fn key_seq_unique(entries: Seq<(K, V)>) -> bool {
        forall|i: int, j: int|
            0 <= i < j < entries.len() ==> entries[i].0@ != entries[j].0@
    }

    pub open spec fn wf(&self) -> bool {
        Self::key_seq_unique(self.entries@)
    }

    pub proof fn lemma_contains(entries: Seq<(K, V)>, k: <K as View>::V)
        ensures
            Self::map_of(entries).contains_key(k) <==> (exists|i: int|
                0 <= i < entries.len() && entries[i].0@ == k),
        decreases entries.len(),
    {
        if entries.len() > 0 {
            Self::lemma_contains(entries.drop_last(), k);
            if Self::map_of(entries).contains_key(k) {
                if entries.last().0@ == k {
                    assert(entries[entries.len() - 1].0@ == k);
                } else {
                    let i = choose|i: int|
                        0 <= i < entries.drop_last().len() && entries.drop_last()[i].0@ == k;
                    assert(entries[i].0@ == k);
                }
            }
            if exists|i: int| 0 <= i < entries.len() && entries[i].0@ == k {
                let i = choose|i: int| 0 <= i < entries.len() && entries[i].0@ == k;
                if i < entries.len() - 1 {
                    assert(entries.drop_last()[i].0@ == k);
                }
            }
        }
    }

    pub proof fn lemma_at(entries: Seq<(K, V)>, i: int)
        requires
            0 <= i < entries.len(),
            Self::key_seq_unique(entries),
        ensures
            Self::map_of(entries).contains_key(entries[i].0@),
            Self::map_of(entries)[entries[i].0@] == entries[i].1.deep_view(),
        decreases entries.len(),
    {
        if i < entries.len() - 1 {
            assert(entries.drop_last()[i] == entries[i]);
            Self::lemma_at(entries.drop_last(), i);
            assert(entries.last().0@ != entries[i].0@);
        }
    }

    pub proof fn lemma_remove_index(entries: Seq<(K, V)>, i: int)
        requires
            0 <= i < entries.len(),
            Self::key_seq_unique(entries),
        ensures
            Self::map_of(entries.remove(i)) == Self::map_of(entries).remove(entries[i].0@),
            Self::key_seq_unique(entries.remove(i)),
        decreases entries.len(),
    {
        entries.remove_ensures(i);
        let k = entries[i].0@;
        if i == entries.len() - 1 {
            assert(entries.remove(i) =~= entries.drop_last());
            Self::lemma_contains(entries.drop_last(), k);
            assert(Self::map_of(entries.drop_last()) =~= Self::map_of(
                entries.drop_last(),
            ).insert(k, entries[i].1.deep_view()).remove(k));
        } else {
            let s = entries;
            let short = s.drop_last();
            short.remove_ensures(i);
            assert(s.remove(i).drop_last() =~= short.remove(i));
            assert(s.remove(i).last() == s.last());
            Self::lemma_remove_index(short, i);
            assert(s.last().0@ != k);
            assert(Self::map_of(short).remove(k).insert(s.last().0@, s.last().1.deep_view())
                =~= Self::map_of(short).insert(s.last().0@, s.last().1.deep_view()).remove(k));
        }
    }

    /// Index of the entry holding `k`, if any.
    pub fn find(&self, k: &K) -> (r: Option<usize>)
        ensures
            match r {
                Some(i) => i < self.entries@.len() && self.entries@[i as int].0@ == k@,
                None => forall|i: int| 0 <= i < self.entries@.len() ==> self.entries@[i].0@ != k@,
            },
    {
        let n = self.entries.len();
        for i in 0..n
            invariant
                n == self.entries@.len(),
                forall|j: int| 0 <= j < i ==> self.entries@[j].0@ != k@,
        {
            if self.entries[i].0.key_eq(k) {
                return Some(i);
            }
        }
        None
    }

    pub fn contains(&self, k: &K) -> (r: bool)
        requires
            self.wf(),
        ensures
            r == self@.contains_key(k@),
    {
        let r = self.find(k);
        proof {
            Self::lemma_contains(self.entries@, k@);
        }
        r.is_some()
    }

    pub fn get(&self, k: &K) -> (r: Option<&V>)
        requires
            self.wf(),
        ensures
            match r {
                Some(v) => self@.contains_key(k@) && v.deep_view() == self@[k@],
                None => !self@.contains_key(k@),
            },
    {
        proof {
            Self::lemma_contains(self.entries@, k@);
        }
        match self.find(k) {
            Some(i) => {
                proof {
                    Self::lemma_at(self.entries@, i as int);
                }
                Some(&self.entries[i].1)
            },
            None => None,
        }
    }

    /// Insert `v` under `k`, replacing any earlier entry for `k`.
    pub fn insert(&mut self, k: K, v: V)
        requires
            old(self).wf(),
        ensures
            final(self).wf(),
            final(self)@ == old(self)@.insert(k@, v.deep_view()),
    {
        match self.find(&k) {
            Some(i) => {
                proof {
                    Self::lemma_remove_index(self.entries@, i as int);
                    Self::lemma_contains(self.entries@.remove(i as int), k@);
                }
                self.entries.remove(i);
                let ghost pre = self.entries@;
                self.entries.push((k, v));
                proof {
                    assert(self.entries@.drop_last() =~= pre);
                    assert(Self::map_of(pre).insert(k@, self.entries@.last().1.deep_view())
                        =~= old(self)@.insert(k@, self.entries@.last().1.deep_view()));
                }
            },
            None => {
                let ghost pre = self.entries@;
                proof {
                    Self::lemma_contains(pre, k@);
                }
                self.entries.push((k, v));
                proof {
                    assert(self.entries@.drop_last() =~= pre);
                }
            },
        }
    }

    /// Remove the entry for `k`, if present.
    pub fn remove(&mut self, k: &K)
        requires
            old(self).wf(),
        ensures
            final(self).wf(),
            final(self)@ == old(self)@.remove(k@),
    {
        match self.find(k) {
            Some(i) => {
                proof {
                    Self::lemma_remove_index(self.entries@, i as int);
                }
                self.entries.remove(i);
            },
            None => {
                proof {
                    Self::lemma_contains(self.entries@, k@);
                    assert(self@ =~= self@.remove(k@));
                }
            },
        }
    }

    pub fn new() -> (r: Self)
        ensures
            r.wf(),
            r@ == Map::<<K as View>::V, <V as DeepView>::V>::empty(),
            r.entries@.len() == 0,
    {
        KMap { entries: Vec::new() }
    }

    pub fn len(&self) -> (r: usize)
        ensures
            r == self.entries@.len(),
    {
        self.entries.len()
    }
}

impl<K: MapKey, V: DeepView + DupView> KMap<K, V> {
    /// Copy every entry of `other` into this map; entries of `other` win.
    pub fn absorb_from(&mut self, other: &KMap<K, V>)
        requires
            old(self).wf(),
            other.wf(),
        ensures
            final(self).wf(),
            final(self)@ == old(self)@.union_prefer_right(other@),
    {
        let n = other.entries.len();
        proof {
            assert(other.entries@.take(0) =~= Seq::<(K, V)>::empty());
            assert(old(self)@.union_prefer_right(Self::map_of(other.entries@.take(0))) =~= old(
                self,
            )@);
        }
        for i in 0..n
            invariant
                n == other.entries@.len(),
                self.wf(),
                self@ == old(self)@.union_prefer_right(Self::map_of(other.entries@.take(i as int))),
        {
            let k = other.entries[i].0.dup();
            let v = other.entries[i].1.dup();
            let ghost prev = self@;
            self.insert(k, v);
            proof {
                assert(other.entries@.take(i + 1).drop_last() =~= other.entries@.take(i as int));
                assert(other.entries@.take(i + 1).last() == other.entries@[i as int]);
                assert(self@ =~= old(self)@.union_prefer_right(
                    Self::map_of(other.entries@.take(i + 1)),
                ));
            }
        }
        proof {
            assert(other.entries@.take(n as int) =~= other.entries@);
        }
    }
}

/// A set of strings, kept as a duplicate-free vector.
pub struct StrSet {
    pub items: Vec<String>,
}

impl View for StrSet {
    type V = Set<Seq<char>>;

    open spec fn view(&self) -> Set<Seq<char>> {
        Self::set_of(self.items@)
    }
}

impl DeepView for StrSet {
    type V = Set<Seq<char>>;

    open spec fn deep_view(&self) -> Set<Seq<char>> {
        Self::set_of(self.items@)
    }
}

impl DupView for StrSet {
    fn dup(&self) -> (r: Self) {
        self.dup_set()
    }
}

impl StrSet {
    pub open spec fn set_of(items: Seq<String>) -> Set<Seq<char>>
        decreases items.len(),
    {
        if items.len() == 0 {
            Set::empty()
        } else {
            Self::set_of(items.drop_last()).insert(items.last()@)
        }
    }

    pub open spec fn item_seq_unique(items: Seq<String>) -> bool {
        forall|i: int, j: int| 0 <= i < j < items.len() ==> items[i]@ != items[j]@
    }

    pub open spec fn wf(&self) -> bool {
        Self::item_seq_unique(self.items@)
    }

    pub proof fn lemma_set_contains(items: Seq<String>, k: Seq<char>)
        ensures
            Self::set_of(items).contains(k) <==> (exists|i: int|
                0 <= i < items.len() && items[i]@ == k),
        decreases items.len(),
    {
        if items.len() > 0 {
            Self::lemma_set_contains(items.drop_last(), k);
            if Self::set_of(items).contains(k) {
                if items.last()@ == k {
                    assert(items[items.len() - 1]@ == k);
                } else {
                    let i = choose|i: int|
                        0 <= i < items.drop_last().len() && items.drop_last()[i]@ == k;
                    assert(items[i]@ == k);
                }
            }
            if exists|i: int| 0 <= i < items.len() && items[i]@ == k {
                let i = choose|i: int| 0 <= i < items.len() && items[i]@ == k;
                if i < items.len() - 1 {
                    assert(items.drop_last()[i]@ == k);
                }
            }
        }
    }

    pub proof fn lemma_set_remove_index(items: Seq<String>, i: int)
        requires
            0 <= i < items.len(),
            Self::item_seq_unique(items),
        ensures
            Self::set_of(items.remove(i)) == Self::set_of(items).remove(items[i]@),
            Self::item_seq_unique(items.remove(i)),
        decreases items.len(),
    {
        items.remove_ensures(i);
        let k = items[i]@;
        if i == items.len() - 1 {
            assert(items.remove(i) =~= items.drop_last());
            Self::lemma_set_contains(items.drop_last(), k);
            assert(Self::set_of(items.drop_last()) =~= Self::set_of(items.drop_last()).insert(
                k,
            ).remove(k));
        } else {
            let shorter = items.drop_last();
            shorter.remove_ensures(i);
            assert(items.remove(i).drop_last() =~= shorter.remove(i));
            assert(items.remove(i).last() == items.last());
            Self::lemma_set_remove_index(shorter, i);
            assert(items.last()@ != k);
            assert(Self::set_of(shorter).remove(k).insert(items.last()@) =~= Self::set_of(
                shorter,
            ).insert(items.last()@).remove(k));
        }
    }

    pub fn find(&self, k: &String) -> (r: Option<usize>)
        ensures
            match r {
                Some(i) => i < self.items@.len() && self.items@[i as int]@ == k@,
                None => forall|i: int| 0 <= i < self.items@.len() ==> self.items@[i]@ != k@,
            },
    {
        let n = self.items.len();
        for i in 0..n
            invariant
                n == self.items@.len(),
                forall|j: int| 0 <= j < i ==> self.items@[j]@ != k@,
        {
            if self.items[i].eq(k) {
                return Some(i);
            }
        }
        None
    }

    pub fn contains(&self, k: &String) -> (r: bool)
        ensures
            r == self@.contains(k@),
    {
        let r = self.find(k);
        proof {
            Self::lemma_set_contains(self.items@, k@);
        }
        r.is_some()
    }

    pub fn insert(&mut self, k: String)
        requires
            old(self).wf(),
        ensures
            final(self).wf(),
            final(self)@ == old(self)@.insert(k@),
    {
        match self.find(&k) {
            Some(i) => {
                proof {
                    Self::lemma_set_contains(self.items@, k@);
                    assert(self@ =~= self@.insert(k@));
                }
            },
            None => {
                let ghost pre = self.items@;
                self.items.push(k);
                proof {
                    assert(self.items@.drop_last() =~= pre);
                }
            },
        }
    }

    pub fn remove(&mut self, k: &String)
        requires
            old(self).wf(),
        ensures
            final(self).wf(),
            final(self)@ == old(self)@.remove(k@),
    {
        match self.find(k) {
            Some(i) => {
                proof {
                    Self::lemma_set_remove_index(self.items@, i as int);
                }
                self.items.remove(i);
            },
            None => {
                proof {
                    Self::lemma_set_contains(self.items@, k@);
                    assert(self@ =~= self@.remove(k@));
                }
            },
        }
    }

    pub fn new() -> (r: Self)
        ensures
            r.wf(),
            r@ == Set::<Seq<char>>::empty(),
            r.items@.len() == 0,
    {
        StrSet { items: Vec::new() }
    }

    pub fn len(&self) -> (r: usize)
        ensures
            r == self.items@.len(),
    {
        self.items.len()
    }

    /// Insert without tracking duplicate-freedom: a member already present
    /// is left alone.
    pub fn insert_any(&mut self, k: String)
        ensures
            final(self)@ == old(self)@.insert(k@),
    {
        match self.find(&k) {
            Some(i) => {
                proof {
                    Self::lemma_set_contains(self.items@, k@);
                    assert(self@ =~= self@.insert(k@));
                }
            },
            None => {
                let ghost pre = self.items@;
                self.items.push(k);
                proof {
                    assert(self.items@.drop_last() =~= pre);
                }
            },
        }
    }

    /// How one removal changes the denoted set, with no duplicate-freedom
    /// assumed: every other element survives.
    pub proof fn lemma_set_remove_one(items: Seq<String>, i: int)
        requires
            0 <= i < items.len(),
        ensures
            forall|x: Seq<char>|
                #![trigger Self::set_of(items.remove(i)).contains(x)]
                Self::set_of(items.remove(i)).contains(x) ==> Self::set_of(items).contains(x),
            forall|x: Seq<char>|
                #![trigger Self::set_of(items).contains(x)]
                Self::set_of(items).contains(x) && x != items[i]@ ==> Self::set_of(
                    items.remove(i),
                ).contains(x),
    {
        items.remove_ensures(i);
        assert forall|x: Seq<char>|
            #![trigger Self::set_of(items.remove(i)).contains(x)]
            Self::set_of(items.remove(i)).contains(x) implies Self::set_of(items).contains(
            x,
        ) by {
            Self::lemma_set_contains(items.remove(i), x);
            Self::lemma_set_contains(items, x);
            let w = choose|w: int| 0 <= w < items.remove(i).len() && items.remove(i)[w]@ == x;
            if w < i {
                assert(items[w]@ == x);
            } else {
                assert(items[w + 1]@ == x);
            }
        }
        assert forall|x: Seq<char>|
            #![trigger Self::set_of(items).contains(x)]
            Self::set_of(items).contains(x) && x != items[i]@ implies Self::set_of(
            items.remove(i),
        ).contains(x) by {
            Self::lemma_set_contains(items.remove(i), x);
            Self::lemma_set_contains(items, x);
            let w = choose|w: int| 0 <= w < items.len() && items[w]@ == x;
            if w < i {
                assert(items.remove(i)[w]@ == x);
            } else {
                assert(w > i);
                assert(items.remove(i)[w - 1]@ == x);
            }
        }
    }

    /// Remove every occurrence, with no duplicate-freedom assumed.
    pub fn remove_all(&mut self, k: &String)
        ensures
            final(self)@ == old(self)@.remove(k@),
        decreases old(self).items@.len(),
    {
        loop
            invariant_except_break
                self@ == old(self)@ || self@ == old(self)@.remove(k@),
            ensures
                self@ == old(self)@.remove(k@),
            decreases self.items@.len(),
        {
            match self.find(k) {
                Some(i) => {
                    let ghost pre = self.items@;
                    proof {
                        Self::lemma_set_remove_one(pre, i as int);
                        assert(pre[i as int]@ == k@);
                        Self::lemma_set_contains(pre, k@);
                    }
                    self.items.remove(i);
                    proof {
                        assert(self.items@ == pre.remove(i as int));
                        if Self::set_of(pre.remove(i as int)).contains(k@) {
                            assert(self@ =~= Self::set_of(pre));
                        } else {
                            assert(self@ =~= Self::set_of(pre).remove(k@));
                            assert(Self::set_of(pre).remove(k@) =~= old(self)@.remove(k@));
                        }
                    }
                },
                None => {
                    proof {
                        Self::lemma_set_contains(self.items@, k@);
                        assert(!self@.contains(k@));
                        assert(self@ =~= old(self)@.remove(k@));
                    }
                    break;
                },
            }
        }
    }

    /// Whether the set is empty.
    pub fn is_empty(&self) -> (r: bool)
        ensures
            r == (self@ == Set::<Seq<char>>::empty()),
    {
        if self.items.len() == 0 {
            proof {
                assert(self@ =~= Set::<Seq<char>>::empty());
            }
            true
        } else {
            proof {
                Self::lemma_set_contains(self.items@, self.items@[0]@);
            }
            false
        }
    }

    /// An owned copy with the same view and well-formedness.
    pub fn dup_set(&self) -> (r: Self)
        ensures
            r@ == self@,
            r.items@.len() == self.items@.len(),
            self.wf() ==> r.wf(),
    {
        let items = self.to_vec();
        let r = StrSet { items };
        proof {
            assert(r.items.deep_view() =~= self.items.deep_view());
            Self::lemma_set_of_views(r.items@, self.items@);
        }
        r
    }

    /// Two item vectors with the same element views denote the same set.
    pub proof fn lemma_set_of_views(a: Seq<String>, b: Seq<String>)
        requires
            a.len() == b.len(),
            forall|i: int| 0 <= i < a.len() ==> a[i]@ == b[i]@,
        ensures
            Self::set_of(a) == Self::set_of(b),
        decreases a.len(),
    {
        if a.len() > 0 {
            Self::lemma_set_of_views(a.drop_last(), b.drop_last());
            assert(Self::set_of(a) =~= Self::set_of(b));
        }
    }

    /// The members as a vector of owned strings, in insertion order.
    pub fn to_vec(&self) -> (r: Vec<String>)
        ensures
            r@.len() == self.items@.len(),
            forall|i: int| 0 <= i < r@.len() ==> r@[i]@ == self.items@[i]@,
    {
        let mut out: Vec<String> = Vec::new();
        let n = self.items.len();
        for i in 0..n
            invariant
                n == self.items@.len(),
                out@.len() == i,
                forall|j: int| 0 <= j < i ==> out@[j]@ == self.items@[j]@,
        {
            out.push(self.items[i].clone());
        }
        out
    }
}

} // verus!
