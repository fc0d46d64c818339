//! Lodash-like reads of a value by paths of strings: a step reads a key of an
//! object, or an index (written in decimal) of an array.
use vstd::prelude::*;
use crate::json::{Json, JsonV};
use crate::text::chars_of;

verus! {

/// A decimal digit.
pub open spec fn is_digit(c: char) -> bool {
    '0' <= c && c <= '9'
}

/// Every character is a decimal digit.
pub open spec fn all_digits(s: Seq<char>) -> bool {
    forall|i: int| 0 <= i < s.len() ==> is_digit(#[trigger] s[i])
}

/// The number that decimal digits write.
pub open spec fn digits_value(s: Seq<char>) -> int
    decreases s.len(),
{
    if s.len() == 0 {
        0
    } else {
        digits_value(s.drop_last()) * 10 + (s.last() as int - 48)
    }
}

/// What `s.parse::<usize>()` gives: an optional `+`, then one digit or more,
/// whose number fits `usize`; anything else is an error (`None`).
pub open spec fn parse_usize(s: Seq<char>) -> Option<int> {
    let d = if s.len() > 0 && s[0] == '+' {
        s.skip(1)
    } else {
        s
    };
    if d.len() > 0 && all_digits(d) && digits_value(d) <= usize::MAX {
        Some(digits_value(d))
    } else {
        None
    }
}

/// The index that a step names in an array: its number, or 0 when it is not
/// one.
pub open spec fn step_index(p: Seq<char>) -> int {
    match parse_usize(p) {
        Some(n) => n,
        None => 0,
    }
}

/// One step: an array is indexed by the step's number, anything else reads
/// the step as a key.
pub open spec fn got_step(v: JsonV, p: Seq<char>) -> JsonV {
    if v is Array {
        v.at(step_index(p))
    } else {
        v.get(p)
    }
}

/// The value reached from `v` by the steps of `path`, in order.
pub open spec fn got_spec(v: JsonV, path: Seq<Seq<char>>) -> JsonV
    decreases path.len(),
{
    if path.len() == 0 {
        v
    } else {
        got_step(got_spec(v, path.drop_last()), path.last())
    }
}

/// The empty path reads the value itself.
pub proof fn law_got_empty(v: JsonV)
    ensures
        got_spec(v, Seq::empty()) == v,
{
}

/// A path of one step reads that step.
pub proof fn law_got_one(v: JsonV, s: Seq<char>)
    ensures
        got_spec(v, seq![s]) == got_step(v, s),
{
    assert(seq![s].drop_last() =~= Seq::<Seq<char>>::empty());
    assert(got_spec(v, Seq::<Seq<char>>::empty()) == v);
}

/// A path split in two reads the same as the first part, then the second
/// from there.
pub proof fn law_got_append(v: JsonV, p: Seq<Seq<char>>, q: Seq<Seq<char>>)
    ensures
        got_spec(v, p + q) == got_spec(got_spec(v, p), q),
    decreases q.len(),
{
    if q.len() == 0 {
        assert(p + q =~= p);
    } else {
        assert((p + q).drop_last() =~= p + q.drop_last());
        law_got_append(v, p, q.drop_last());
    }
}

/// The views of a path of borrowed strings.
pub open spec fn path_views(path: Seq<&str>) -> Seq<Seq<char>> {
    Seq::new(path.len(), |i: int| path[i]@)
}

/// A number of decimal digits is at least the number of any of its prefixes.
pub proof fn lemma_digits_prefix(s: Seq<char>, k: int)
    requires
        all_digits(s),
        0 <= k <= s.len(),
    ensures
        digits_value(s) >= digits_value(s.take(k)),
        digits_value(s.take(k)) >= 0,
    decreases s.len(),
{
    if k == s.len() {
        assert(s.take(k) =~= s);
        lemma_digits_nonneg(s);
    } else {
        assert(all_digits(s.drop_last()));
        lemma_digits_prefix(s.drop_last(), k);
        assert(s.drop_last().take(k) =~= s.take(k));
        lemma_digits_nonneg(s.drop_last());
    }
}

/// Decimal digits write a number of zero or more.
pub proof fn lemma_digits_nonneg(s: Seq<char>)
    requires
        all_digits(s),
    ensures
        digits_value(s) >= 0,
    decreases s.len(),
{
    if s.len() > 0 {
        assert(all_digits(s.drop_last()));
        lemma_digits_nonneg(s.drop_last());
    }
}

/// `s.parse::<usize>()`.
pub fn parse_usize_str(s: &str) -> (r: Option<usize>)
    ensures
        match (r, parse_usize(s@)) {
            (Some(a), Some(b)) => a == b,
            (None, None) => true,
            _ => false,
        },
{
    let cs = chars_of(s);
    let start: usize = if cs.len() > 0 && cs[0] == '+' {
        1
    } else {
        0
    };
    let ghost d = cs@.skip(start as int);
    proof {
        let sd = if s@.len() > 0 && s@[0] == '+' { s@.skip(1) } else { s@ };
        assert(sd =~= d);
    }
    if start == cs.len() {
        return None;
    }
    let mut acc: usize = 0;
    let mut i: usize = start;
    while i < cs.len()
        invariant
            start <= i <= cs.len(),
            cs@ == s@,
            d == cs@.skip(start as int),
            d == (if s@.len() > 0 && s@[0] == '+' { s@.skip(1) } else { s@ }),
            start < cs.len(),
            all_digits(cs@.subrange(start as int, i as int)),
            acc == digits_value(cs@.subrange(start as int, i as int)),
        decreases cs.len() - i,
    {
        let c = cs[i];
        let ghost pre = cs@.subrange(start as int, i as int);
        let ghost next = cs@.subrange(start as int, i + 1);
        assert(next.drop_last() =~= pre);
        assert(d.take(i + 1 - start) =~= next);
        assert(next.last() == c);
        assert(d[i - start] == c);
        if !(c >= '0' && c <= '9') {
            assert(!is_digit(d[i - start]));
            return None;
        }
        assert(all_digits(next));
        let dv: usize = (c as u32 - 48) as usize;
        match acc.checked_mul(10) {
            None => {
                proof {
                    lemma_digits_nonneg(pre);
                    if all_digits(d) {
                        lemma_digits_prefix(d, i + 1 - start);
                    }
                }
                return None;
            },
            Some(m) => match m.checked_add(dv) {
                None => {
                    proof {
                        if all_digits(d) {
                            lemma_digits_prefix(d, i + 1 - start);
                        }
                    }
                    return None;
                },
                Some(a) => {
                    acc = a;
                },
            },
        }
        i = i + 1;
    }
    assert(cs@.subrange(start as int, cs.len() as int) =~= d);
    assert(d.len() > 0);
    Some(acc)
}

/// Lodash-like get, with paths of strings.
pub trait Lodash: Sized {
    /// The value at `path`.
    fn got(&self, path: Vec<&str>) -> &Self;

    /// The values at each of `paths`.
    fn at(&self, paths: Vec<Vec<&str>>) -> Vec<&Self>;
}

impl Lodash for Json {
    fn got(&self, path: Vec<&str>) -> (r: &Json)
        ensures
            r@ == got_spec(self@, path_views(path@)),
    {
        let mut v: &Json = self;
        let mut i: usize = 0;
        while i < path.len()
            invariant
                i <= path.len(),
                v@ == got_spec(self@, path_views(path@).take(i as int)),
            decreases path.len() - i,
        {
            let p = path[i];
            assert(path_views(path@).take(i + 1).drop_last() =~= path_views(path@).take(i as int));
            v = if v.is_array() {
                let n = match parse_usize_str(p) {
                    Some(n) => n,
                    None => 0,
                };
                v.get_index(n)
            } else {
                v.get_key(p)
            };
            i = i + 1;
        }
        assert(path_views(path@).take(path.len() as int) =~= path_views(path@));
        v
    }

    fn at(&self, paths: Vec<Vec<&str>>) -> (r: Vec<&Json>)
        ensures
            r@.len() == paths@.len(),
            forall|i: int|
                0 <= i < paths@.len() ==> (#[trigger] r@[i])@ == got_spec(
                    self@,
                    path_views(paths@[i]@),
                ),
    {
        let mut r: Vec<&Json> = Vec::new();
        let mut paths = paths;
        let ghost all = paths@;
        let mut i: usize = 0;
        let n = paths.len();
        while i < n
            invariant
                n == all.len(),
                i <= n,
                paths@ == all.skip(i as int),
                r@.len() == i,
                forall|j: int| 0 <= j < i ==> (#[trigger] r@[j])@ == got_spec(self@, path_views(all[j]@)),
            decreases n - i,
        {
            let p = paths.remove(0);
            assert(p == all[i as int]);
            let got = self.got(p);
            r.push(got);
            assert(paths@ =~= all.skip(i + 1));
            i = i + 1;
        }
        r
    }
}

} // verus!
