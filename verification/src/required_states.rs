//! The state events a sync request asked to be returned.
//!
//! Knowing what was requested is what lets the engine read meaning into
//! absence: a room whose response carries no encryption event is known
//! unencrypted only if the encryption event was asked for.

use vstd::prelude::*;

use crate::kmap::KMap;
use crate::util::DupView;

verus! {

/// Lexicographic order on character sequences, by code point.
pub open spec fn spec_str_lt(a: Seq<char>, b: Seq<char>) -> bool
    decreases a.len(),
{
    if b.len() == 0 {
        false
    } else if a.len() == 0 {
        true
    } else if (a[0] as u32) < (b[0] as u32) {
        true
    } else if (b[0] as u32) < (a[0] as u32) {
        false
    } else {
        spec_str_lt(a.skip(1), b.skip(1))
    }
}

/// Strict order on (event type, state key) pairs.
pub open spec fn spec_pair_lt(p: (Seq<char>, Seq<char>), q: (Seq<char>, Seq<char>)) -> bool {
    spec_str_lt(p.0, q.0) || (p.0 == q.0 && spec_str_lt(p.1, q.1))
}

/// Two characters with the same code point are the same character.
pub proof fn lemma_char_cast_injective(c1: char, c2: char)
    requires
        c1 as u32 == c2 as u32,
    ensures
        c1 == c2,
{
}

pub proof fn lemma_str_lt_total(a: Seq<char>, b: Seq<char>)
    ensures
        a == b || spec_str_lt(a, b) || spec_str_lt(b, a),
    decreases a.len(),
{
    if b.len() == 0 {
        if a.len() == 0 {
            assert(a =~= b);
        }
    } else if a.len() != 0 {
        let x = a[0] as u32;
        let y = b[0] as u32;
        if !(x < y) && !(y < x) {
            lemma_char_cast_injective(a[0], b[0]);
            assert(a[0] == b[0]);
            lemma_str_lt_total(a.skip(1), b.skip(1));
            if a.skip(1) == b.skip(1) {
                assert(a.skip(1).len() == b.skip(1).len());
                assert(a.len() == b.len());
                assert forall|i: int| 0 <= i < a.len() implies a[i] == b[i] by {
                    if i > 0 {
                        assert(a.skip(1)[i - 1] == a[i]);
                        assert(b.skip(1)[i - 1] == b[i]);
                    }
                }
                assert(a =~= b);
            }
        }
    }
}

pub proof fn lemma_str_lt_irrefl(a: Seq<char>)
    ensures
        !spec_str_lt(a, a),
    decreases a.len(),
{
    if a.len() != 0 {
        lemma_str_lt_irrefl(a.skip(1));
    }
}

pub proof fn lemma_str_lt_asymm(a: Seq<char>, b: Seq<char>)
    ensures
        !(spec_str_lt(a, b) && spec_str_lt(b, a)),
        spec_str_lt(a, b) ==> a != b,
    decreases a.len(),
{
    lemma_str_lt_irrefl(a);
    if a.len() != 0 && b.len() != 0 {
        lemma_str_lt_asymm(a.skip(1), b.skip(1));
    }
}

pub proof fn lemma_str_lt_trans(a: Seq<char>, b: Seq<char>, c: Seq<char>)
    requires
        spec_str_lt(a, b),
        spec_str_lt(b, c),
    ensures
        spec_str_lt(a, c),
    decreases a.len(),
{
    if a.len() != 0 && b.len() != 0 && c.len() != 0 {
        let xa = a[0] as u32;
        let xb = b[0] as u32;
        let xc = c[0] as u32;
        if !(xa < xb) && !(xb < xa) && !(xb < xc) && !(xc < xb) {
            lemma_str_lt_trans(a.skip(1), b.skip(1), c.skip(1));
        }
    }
}

pub proof fn lemma_pair_lt_trans(
    a: (Seq<char>, Seq<char>),
    b: (Seq<char>, Seq<char>),
    c: (Seq<char>, Seq<char>),
)
    requires
        spec_pair_lt(a, b),
        spec_pair_lt(b, c),
    ensures
        spec_pair_lt(a, c),
{
    if spec_str_lt(a.0, b.0) && spec_str_lt(b.0, c.0) {
        lemma_str_lt_trans(a.0, b.0, c.0);
    } else if a.0 == b.0 && b.0 == c.0 {
        lemma_str_lt_trans(a.1, b.1, c.1);
    }
}

/// Three-way comparison result.
#[derive(Clone, Copy, Debug, PartialEq, Eq, Structural)]
pub enum StrOrder {
    Less,
    Equal,
    Greater,
}

/// Three-way lexicographic comparison of two strings.
pub fn str_compare(a: &String, b: &String) -> (r: StrOrder)
    ensures
        (r == StrOrder::Equal) == (a@ == b@),
        (r == StrOrder::Less) == spec_str_lt(a@, b@),
        (r == StrOrder::Greater) == spec_str_lt(b@, a@),
{
    let sa = a.as_str();
    let sb = b.as_str();
    let na = sa.unicode_len();
    let nb = sb.unicode_len();
    let mut i: usize = 0;
    proof {
        assert(a@.skip(0) =~= a@);
        assert(b@.skip(0) =~= b@);
        lemma_str_lt_asymm(a@, b@);
        lemma_str_lt_total(a@, b@);
    }
    loop
        invariant_except_break
            sa@ == a@,
            sb@ == b@,
            na == a@.len(),
            nb == b@.len(),
            i <= na,
            i <= nb,
            forall|j: int| 0 <= j < i ==> a@[j] == b@[j],
            spec_str_lt(a@, b@) == spec_str_lt(a@.skip(i as int), b@.skip(i as int)),
            spec_str_lt(b@, a@) == spec_str_lt(b@.skip(i as int), a@.skip(i as int)),
        ensures
            i <= na && i <= nb,
            forall|j: int| 0 <= j < i ==> a@[j] == b@[j],
            spec_str_lt(a@, b@) == spec_str_lt(a@.skip(i as int), b@.skip(i as int)),
            spec_str_lt(b@, a@) == spec_str_lt(b@.skip(i as int), a@.skip(i as int)),
            i == na || i == nb || (a@[i as int] as u32) != (b@[i as int] as u32),
        decreases na - i,
    {
        if i == na || i == nb {
            break;
        }
        let ca = sa.get_char(i);
        let cb = sb.get_char(i);
        if ca as u32 != cb as u32 {
            proof {
                assert(a@.skip(i as int)[0] == a@[i as int]);
                assert(b@.skip(i as int)[0] == b@[i as int]);
            }
            break;
        }
        proof {
            assert(a@.skip(i as int)[0] == a@[i as int]);
            assert(b@.skip(i as int)[0] == b@[i as int]);
            assert(a@.skip(i as int).skip(1) =~= a@.skip(i as int + 1));
            assert(b@.skip(i as int).skip(1) =~= b@.skip(i as int + 1));
        }
        i += 1;
    }
    let ghost ra = a@.skip(i as int);
    let ghost rb = b@.skip(i as int);
    if i == na && i == nb {
        proof {
            assert(ra =~= Seq::<char>::empty());
            assert(rb =~= Seq::<char>::empty());
            assert(a@ =~= b@);
        }
        StrOrder::Equal
    } else if i == na {
        proof {
            assert(ra =~= Seq::<char>::empty());
            assert(rb.len() > 0);
        }
        StrOrder::Less
    } else if i == nb {
        proof {
            assert(rb =~= Seq::<char>::empty());
            assert(ra.len() > 0);
        }
        StrOrder::Greater
    } else {
        let ca = sa.get_char(i);
        let cb = sb.get_char(i);
        proof {
            assert(ra[0] == a@[i as int]);
            assert(rb[0] == b@[i as int]);
            assert(ra.len() > 0 && rb.len() > 0);
        }
        if (ca as u32) < (cb as u32) {
            proof {
                assert(a@[i as int] != b@[i as int]);
                assert(a@ != b@);
            }
            StrOrder::Less
        } else {
            proof {
                assert(a@[i as int] != b@[i as int]);
                assert(a@ != b@);
            }
            StrOrder::Greater
        }
    }
}

/// Three-way comparison of (event type, state key) pairs.
pub fn pair_compare(p: &(String, String), q: &(String, String)) -> (r: StrOrder)
    ensures
        (r == StrOrder::Equal) == (p.deep_view() == q.deep_view()),
        (r == StrOrder::Less) == spec_pair_lt(p.deep_view(), q.deep_view()),
        (r == StrOrder::Greater) == spec_pair_lt(q.deep_view(), p.deep_view()),
{
    proof {
        lemma_str_lt_asymm(p.0@, q.0@);
        lemma_str_lt_asymm(p.1@, q.1@);
    }
    match str_compare(&p.0, &q.0) {
        StrOrder::Less => StrOrder::Less,
        StrOrder::Greater => StrOrder::Greater,
        StrOrder::Equal => str_compare(&p.1, &q.1),
    }
}

/// Whether a pair occurs in a pair vector.
pub open spec fn spec_has_pair(v: Seq<(Seq<char>, Seq<char>)>, p: (Seq<char>, Seq<char>)) -> bool {
    exists|w: int| 0 <= w < v.len() && v[w] == p
}

/// Strictly sorted: the order of the union the engine hands back.
pub open spec fn spec_pairs_sorted(v: Seq<(Seq<char>, Seq<char>)>) -> bool {
    forall|i: int, j: int| 0 <= i < j < v.len() ==> spec_pair_lt(v[i], v[j])
}

/// Insert a pair into a strictly sorted vector, keeping it strictly sorted;
/// a pair already present is left alone.
pub fn insert_required(out: &mut Vec<(String, String)>, p: &(String, String))
    requires
        spec_pairs_sorted(old(out).deep_view()),
    ensures
        spec_pairs_sorted(final(out).deep_view()),
        forall|q: (Seq<char>, Seq<char>)|
            #![trigger spec_has_pair(final(out).deep_view(), q)]
            spec_has_pair(final(out).deep_view(), q) == (spec_has_pair(
                old(out).deep_view(),
                q,
            ) || q == p.deep_view()),
{
    let n = out.len();
    let mut i: usize = 0;
    while i < n
        invariant_except_break
            n == out@.len(),
            i <= n,
            spec_pairs_sorted(out.deep_view()),
            out == old(out),
            forall|j: int| 0 <= j < i ==> spec_pair_lt(#[trigger] out.deep_view()[j], p.deep_view()),
        ensures
            out == old(out),
            i <= n,
            n == out@.len(),
            forall|j: int| 0 <= j < i ==> spec_pair_lt(#[trigger] out.deep_view()[j], p.deep_view()),
            i < n ==> !spec_pair_lt(out.deep_view()[i as int], p.deep_view()),
        decreases n - i,
    {
        match pair_compare(&out[i], p) {
            StrOrder::Less => {
                i += 1;
            },
            StrOrder::Equal => {
                proof {
                    lemma_str_lt_asymm(out.deep_view()[i as int].0, p.deep_view().0);
                    lemma_str_lt_asymm(out.deep_view()[i as int].1, p.deep_view().1);
                }
                break;
            },
            StrOrder::Greater => {
                proof {
                    lemma_str_lt_asymm(out.deep_view()[i as int].0, p.deep_view().0);
                    lemma_str_lt_asymm(out.deep_view()[i as int].1, p.deep_view().1);
                }
                break;
            },
        }
    }
    if i < n {
        let same = match pair_compare(&out[i], p) {
            StrOrder::Equal => true,
            _ => false,
        };
        if same {
            proof {
                assert(out.deep_view()[i as int] == p.deep_view());
                assert forall|q: (Seq<char>, Seq<char>)|
                    #![trigger spec_has_pair(out.deep_view(), q)]
                    spec_has_pair(out.deep_view(), q) == (spec_has_pair(old(out).deep_view(), q)
                        || q == p.deep_view()) by {
                    if q == p.deep_view() {
                        assert(out.deep_view()[i as int] == q);
                    }
                }
            }
            return;
        }
    }
    let ghost pre = out.deep_view();
    out.insert(i, p.dup());
    proof {
        out@.insert_ensures(i as int, out@[i as int]);
        assert(out.deep_view() =~= pre.insert(i as int, p.deep_view()));
        pre.insert_ensures(i as int, p.deep_view());
        assert forall|a: int, b: int|
            0 <= a < b < out.deep_view().len() implies spec_pair_lt(
            out.deep_view()[a],
            out.deep_view()[b],
        ) by {
            let v = out.deep_view();
            if b < i {
                assert(v[a] == pre[a] && v[b] == pre[b]);
            } else if a > i {
                assert(v[a] == pre[a - 1] && v[b] == pre[b - 1]);
            } else if a < i && b == i {
                assert(v[a] == pre[a]);
            } else if a == i && b > i {
                assert(v[b] == pre[b - 1]);
                // p is not less than pre[i - 1 .. ]; order follows from the
                // scan having stopped at i
                if i < pre.len() {
                    lemma_str_lt_total(p.deep_view().0, pre[i as int].0);
                    lemma_str_lt_total(p.deep_view().1, pre[i as int].1);
                    lemma_str_lt_asymm(p.deep_view().0, pre[i as int].0);
                    lemma_str_lt_asymm(p.deep_view().1, pre[i as int].1);
                    assert(spec_pair_lt(p.deep_view(), pre[i as int]));
                    if b - 1 > i {
                        lemma_pair_lt_trans(p.deep_view(), pre[i as int], pre[b - 1]);
                    }
                }
            } else if a < i && b > i {
                assert(v[a] == pre[a] && v[b] == pre[b - 1]);
            }
        }
        assert forall|q: (Seq<char>, Seq<char>)|
            #![trigger spec_has_pair(out.deep_view(), q)]
            spec_has_pair(out.deep_view(), q) == (spec_has_pair(pre, q) || q
                == p.deep_view()) by {
            let v = out.deep_view();
            if spec_has_pair(v, q) {
                let w = choose|w: int| 0 <= w < v.len() && v[w] == q;
                if w < i {
                    assert(pre[w] == q);
                } else if w > i {
                    assert(pre[w - 1] == q);
                }
            }
            if spec_has_pair(pre, q) {
                let w = choose|w: int| 0 <= w < pre.len() && pre[w] == q;
                if w < i {
                    assert(v[w] == q);
                } else {
                    assert(v[w + 1] == q);
                }
            }
            if q == p.deep_view() {
                assert(v[i as int] == q);
            }
        }
    }
}

/// A lookup from room id to the (event type, state key) pairs the sync
/// request asked for, with a default for rooms without their own list.
pub struct RequestedRequiredStates {
    pub default: Vec<(String, String)>,
    pub for_rooms: KMap<String, Vec<(String, String)>>,
}

impl RequestedRequiredStates {
    pub open spec fn wf(&self) -> bool {
        self.for_rooms.wf()
    }

    /// A lookup with the given default and per-room lists.
    pub fn new(default: Vec<(String, String)>, for_rooms: KMap<String, Vec<(String, String)>>) -> (r:
        Self)
        requires
            for_rooms.wf(),
        ensures
            r.wf(),
            r.default == default,
            r.for_rooms@ == for_rooms@,
    {
        RequestedRequiredStates { default, for_rooms }
    }

    /// An empty lookup: nothing was asked for.
    pub fn none() -> (r: Self)
        ensures
            r.wf(),
            r.default.deep_view() == Seq::<(Seq<char>, Seq<char>)>::empty(),
            r.for_rooms@ == Map::<Seq<char>, Seq<(Seq<char>, Seq<char>)>>::empty(),
    {
        let r = RequestedRequiredStates { default: Vec::new(), for_rooms: KMap::new() };
        proof {
            assert(r.default.deep_view() =~= Seq::<(Seq<char>, Seq<char>)>::empty());
        }
        r
    }

    /// The pairs requested for a room: its own list, or the default.
    pub fn for_room(&self, room_id: &String) -> (r: &Vec<(String, String)>)
        requires
            self.wf(),
        ensures
            r.deep_view() == self.spec_for_room(room_id@),
    {
        match self.for_rooms.get(room_id) {
            Some(v) => v,
            None => &self.default,
        }
    }

    pub open spec fn spec_for_room(&self, room_id: Seq<char>) -> Seq<(Seq<char>, Seq<char>)> {
        if self.for_rooms@.contains_key(room_id) {
            self.for_rooms@[room_id]
        } else {
            self.default.deep_view()
        }
    }
}

/// A version-five sync request, reduced to its required-state lists: the
/// named sliding-window lists and the per-room subscriptions.
pub struct SyncV5Request {
    pub lists: Vec<(String, Vec<(String, String)>)>,
    pub room_subscriptions: Vec<(String, Vec<(String, String)>)>,
}

/// Whether a pair is required anywhere in a table of named lists.
pub open spec fn spec_in_tables(
    tables: Seq<(Seq<char>, Seq<(Seq<char>, Seq<char>)>)>,
    p: (Seq<char>, Seq<char>),
) -> bool {
    exists|i: int, j: int|
        0 <= i < tables.len() && 0 <= j < tables[i].1.len() && tables[i].1[j] == p
}

impl SyncV5Request {
    /// The union of the required states over all lists and all room
    /// subscriptions, sorted and without duplicates; it becomes the default
    /// of the lookup, which keeps no per-room lists.
    pub fn requested_required_states(&self) -> (r: RequestedRequiredStates)
        ensures
            r.wf(),
            spec_pairs_sorted(r.default.deep_view()),
            forall|p: (Seq<char>, Seq<char>)|
                #![trigger spec_has_pair(r.default.deep_view(), p)]
                spec_has_pair(r.default.deep_view(), p) == (spec_in_tables(
                    self.lists.deep_view(),
                    p,
                ) || spec_in_tables(self.room_subscriptions.deep_view(), p)),
            r.for_rooms@ == Map::<Seq<char>, Seq<(Seq<char>, Seq<char>)>>::empty(),
    {
        let mut out: Vec<(String, String)> = Vec::new();
        proof {
            assert(out.deep_view() =~= Seq::<(Seq<char>, Seq<char>)>::empty());
        }
        absorb_tables(&mut out, &self.lists);
        proof {
            assert forall|p: (Seq<char>, Seq<char>)|
                #![trigger spec_has_pair(out.deep_view(), p)]
                spec_has_pair(out.deep_view(), p) == spec_in_tables(
                self.lists.deep_view(),
                p,
            ) by {}
        }
        let ghost mid = out.deep_view();
        absorb_tables(&mut out, &self.room_subscriptions);
        RequestedRequiredStates { default: out, for_rooms: KMap::new() }
    }
}

/// Fold every pair of every named list into the sorted union.
pub fn absorb_tables(out: &mut Vec<(String, String)>, tables: &Vec<(String, Vec<(String, String)>)>)
    requires
        spec_pairs_sorted(old(out).deep_view()),
    ensures
        spec_pairs_sorted(final(out).deep_view()),
        forall|p: (Seq<char>, Seq<char>)|
            #![trigger spec_has_pair(final(out).deep_view(), p)]
            spec_has_pair(final(out).deep_view(), p) == (spec_has_pair(old(out).deep_view(), p)
                || spec_in_tables(tables.deep_view(), p)),
{
    let n = tables.len();
    let mut i: usize = 0;
    while i < n
        invariant
            n == tables.deep_view().len(),
            i <= n,
            spec_pairs_sorted(out.deep_view()),
            forall|p: (Seq<char>, Seq<char>)|
                #![trigger spec_has_pair(out.deep_view(), p)]
                spec_has_pair(out.deep_view(), p) == (spec_has_pair(old(out).deep_view(), p) || (
                exists|a: int, b: int|
                    0 <= a < i && 0 <= b < tables.deep_view()[a].1.len()
                        && tables.deep_view()[a].1[b] == p)),
        decreases n - i,
    {
        let row = &tables[i].1;
        let m = row.len();
        let mut j: usize = 0;
        while j < m
            invariant
                n == tables.deep_view().len(),
                i < n,
                m == tables.deep_view()[i as int].1.len(),
                row.deep_view() == tables.deep_view()[i as int].1,
                j <= m,
                spec_pairs_sorted(out.deep_view()),
                forall|p: (Seq<char>, Seq<char>)|
                    #![trigger spec_has_pair(out.deep_view(), p)]
                    spec_has_pair(out.deep_view(), p) == (spec_has_pair(old(out).deep_view(), p)
                        || (exists|a: int, b: int|
                        0 <= a < i && 0 <= b < tables.deep_view()[a].1.len()
                            && tables.deep_view()[a].1[b] == p) || (exists|b: int|
                        0 <= b < j && tables.deep_view()[i as int].1[b] == p)),
            decreases m - j,
        {
            insert_required(out, &row[j]);
            proof {
                assert(row.deep_view()[j as int] == tables.deep_view()[i as int].1[j as int]);
            }
            j += 1;
        }
        i += 1;
    }
    proof {
        assert forall|p: (Seq<char>, Seq<char>)|
            #![trigger spec_has_pair(out.deep_view(), p)]
            spec_has_pair(out.deep_view(), p) == (spec_has_pair(old(out).deep_view(), p)
                || spec_in_tables(tables.deep_view(), p)) by {}
    }
}

} // verus!
