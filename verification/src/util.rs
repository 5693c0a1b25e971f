//! Small verified helpers: duplication that preserves views, and a few
//! string operations the engine needs.

use vstd::prelude::*;

verus! {

/// A value that can be duplicated without changing its deep view.
///
/// Model values are copied into several places (the pending change set, the
/// room updates handed back to the host, the store); every contract about
/// them speaks of deep views, which duplication preserves.
pub trait DupView: DeepView + Sized {
    fn dup(&self) -> (r: Self)
        ensures
            r.deep_view() == self.deep_view(),
    ;
}

impl DupView for String {
    fn dup(&self) -> (r: Self) {
        self.clone()
    }
}

impl DupView for bool {
    fn dup(&self) -> (r: Self) {
        *self
    }
}

impl DupView for u64 {
    fn dup(&self) -> (r: Self) {
        *self
    }
}

impl DupView for i64 {
    fn dup(&self) -> (r: Self) {
        *self
    }
}

impl<T: DupView> DupView for Option<T> {
    fn dup(&self) -> (r: Self) {
        match self {
            Some(v) => Some(v.dup()),
            None => None,
        }
    }
}

impl<T: DupView> DupView for Vec<T> {
    fn dup(&self) -> (r: Self) {
        let mut out: Vec<T> = Vec::new();
        let n = self.len();
        for i in 0..n
            invariant
                n == self@.len(),
                out@.len() == i,
                forall|j: int|
                    0 <= j < i ==> #[trigger] out@[j].deep_view() == self@[j].deep_view(),
        {
            out.push(self[i].dup());
        }
        proof {
            assert(out.deep_view() =~= self.deep_view());
        }
        out
    }
}

impl<A: DupView, B: DupView> DupView for (A, B) {
    fn dup(&self) -> (r: Self) {
        (self.0.dup(), self.1.dup())
    }
}

/// Equality of a string with a literal.
pub fn str_is(a: &String, lit: &str) -> (r: bool)
    ensures
        r == (a@ == lit@),
{
    a.eq(&lit.to_owned())
}

/// The view of an optional string.
pub open spec fn opt_str_view(o: Option<String>) -> Option<Seq<char>> {
    match o {
        Some(s) => Some(s@),
        None => None,
    }
}

/// Equality of two optional strings, by view.
pub fn opt_str_eq(a: &Option<String>, b: &Option<String>) -> (r: bool)
    ensures
        r == (opt_str_view(*a) == opt_str_view(*b)),
{
    match (a, b) {
        (Some(x), Some(y)) => x.eq(y),
        (None, None) => true,
        _ => false,
    }
}

/// Whether `lit` is a prefix of `a`.
pub fn str_has_prefix(a: &String, lit: &str) -> (r: bool)
    ensures
        r == lit@.is_prefix_of(a@),
{
    let s = a.as_str();
    let an = s.unicode_len();
    let ln = lit.unicode_len();
    if ln > an {
        proof {
            assert(!lit@.is_prefix_of(a@));
        }
        return false;
    }
    for i in 0..ln
        invariant
            s@ == a@,
            an == a@.len(),
            ln == lit@.len(),
            ln <= an,
            forall|j: int| 0 <= j < i ==> a@[j] == lit@[j],
    {
        if s.get_char(i) != lit.get_char(i) {
            proof {
                assert(!lit@.is_prefix_of(a@));
            }
            return false;
        }
    }
    proof {
        assert(lit@ =~= a@.subrange(0, lit@.len() as int));
    }
    true
}

/// The index of the first colon in `s`, or its length when there is none.
pub open spec fn spec_colon_split(s: Seq<char>) -> int
    decreases s.len(),
{
    if s.len() == 0 {
        0
    } else if s[0] == ':' {
        0
    } else {
        1 + spec_colon_split(s.skip(1))
    }
}

pub proof fn lemma_colon_split(s: Seq<char>)
    ensures
        0 <= spec_colon_split(s) <= s.len(),
        forall|j: int| 0 <= j < spec_colon_split(s) ==> s[j] != ':',
        spec_colon_split(s) < s.len() ==> s[spec_colon_split(s)] == ':',
    decreases s.len(),
{
    if s.len() > 0 && s[0] != ':' {
        lemma_colon_split(s.skip(1));
        assert forall|j: int| 0 <= j < spec_colon_split(s) implies s[j] != ':' by {
            if j > 0 {
                assert(s.skip(1)[j - 1] == s[j]);
            }
        }
        if spec_colon_split(s) < s.len() {
            assert(s.skip(1)[spec_colon_split(s) - 1] == s[spec_colon_split(s)]);
        }
    }
}

/// The localpart of a user id: the characters between the leading sigil and
/// the first colon.
pub open spec fn spec_localpart(s: Seq<char>) -> Seq<char> {
    if s.len() == 0 {
        s
    } else {
        s.skip(1).take(spec_colon_split(s.skip(1)))
    }
}

pub fn localpart(user_id: &String) -> (r: String)
    ensures
        r@ == spec_localpart(user_id@),
{
    let s = user_id.as_str();
    let n = s.unicode_len();
    if n == 0 {
        return String::new();
    }
    let ghost rest = user_id@.skip(1);
    proof {
        lemma_colon_split(rest);
    }
    let mut i: usize = 1;
    while i < n
        invariant_except_break
            s@ == user_id@,
            n == user_id@.len(),
            n >= 1,
            1 <= i <= n,
            rest == user_id@.skip(1),
            forall|j: int| 0 <= j < i - 1 ==> rest[j] != ':',
            0 <= spec_colon_split(rest) <= rest.len(),
            forall|j: int| 0 <= j < spec_colon_split(rest) ==> rest[j] != ':',
            spec_colon_split(rest) < rest.len() ==> rest[spec_colon_split(rest)] == ':',
        ensures
            1 <= i <= n,
            spec_colon_split(rest) == i - 1,
        decreases n - i,
    {
        proof {
            assert(rest[i - 1] == user_id@[i as int]);
        }
        if s.get_char(i) == ':' {
            proof {
                assert(rest[i - 1] == ':');
            }
            break;
        }
        i += 1;
    }
    let r = s.substring_char(1, i).to_owned();
    proof {
        assert(user_id@.subrange(1, i as int) =~= rest.take(spec_colon_split(rest)));
    }
    r
}

/// Equality of two string vectors, by view.
pub fn str_vec_eq(a: &Vec<String>, b: &Vec<String>) -> (r: bool)
    ensures
        r == (a.deep_view() == b.deep_view()),
{
    if a.len() != b.len() {
        proof {
            assert(a.deep_view().len() != b.deep_view().len());
        }
        return false;
    }
    let n = a.len();
    for i in 0..n
        invariant
            n == a@.len(),
            n == b@.len(),
            forall|j: int| 0 <= j < i ==> a.deep_view()[j] == b.deep_view()[j],
    {
        if !a[i].eq(&b[i]) {
            proof {
                assert(a.deep_view()[i as int] != b.deep_view()[i as int]);
            }
            return false;
        }
    }
    proof {
        assert(a.deep_view() =~= b.deep_view());
    }
    true
}

} // verus!
