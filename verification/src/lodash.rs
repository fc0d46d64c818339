//! Reading a value by a path of keys and indices, lodash's `_.at`.
use vstd::prelude::*;
use crate::json::{Json, JsonNumber, JsonV};

verus! {

/// A path step that can be taken: an index must be an integer that fits
/// `usize`; any other step reads null.
pub open spec fn step_ok(p: JsonV) -> bool {
    match p {
        JsonV::Int(n) => 0 <= n <= usize::MAX,
        JsonV::Float(_) => false,
        _ => true,
    }
}

/// One step: an integer indexes an array, a string reads a key, anything
/// else gives null.
pub open spec fn step(v: JsonV, p: JsonV) -> JsonV {
    match p {
        JsonV::Int(n) => v.at(n),
        JsonV::Str(s) => v.get(s),
        _ => JsonV::Null,
    }
}

/// The value reached from `v` by the steps of `ps`, in order.
pub open spec fn walk(v: JsonV, ps: Seq<JsonV>) -> JsonV
    decreases ps.len(),
{
    if ps.len() == 0 {
        v
    } else {
        step(walk(v, ps.drop_last()), ps.last())
    }
}

/// Every step of the path can be taken (a path that is not an array has
/// no steps).
pub open spec fn path_ok(path: JsonV) -> bool {
    match path {
        JsonV::Array(ps) => forall|i: int| 0 <= i < ps.len() ==> step_ok(#[trigger] ps[i]),
        _ => true,
    }
}

/// The value at `path`: null when the path is not an array, `v` itself for
/// an empty path.
pub open spec fn get_path(v: JsonV, path: JsonV) -> JsonV {
    match path {
        JsonV::Array(ps) => walk(v, ps),
        _ => JsonV::Null,
    }
}

/// The inputs that `at` takes without a panic: every step of every path
/// can be taken.
pub open spec fn at_ok(paths: JsonV) -> bool {
    match paths {
        JsonV::Array(a) => if a.len() > 0 && a[0] is Array {
            forall|i: int| 0 <= i < a.len() ==> path_ok(#[trigger] a[i])
        } else {
            path_ok(paths)
        },
        _ => true,
    }
}

/// What `at` gives: for a matrix (its first item an array) the array of the
/// values at each of its paths, else the value at the path itself (`v` for
/// the empty path); null when `paths` is not an array.
pub open spec fn at_spec(v: JsonV, paths: JsonV) -> JsonV {
    match paths {
        JsonV::Array(a) => if a.len() > 0 && a[0] is Array {
            JsonV::Array(Seq::new(a.len(), |i: int| get_path(v, a[i])))
        } else {
            get_path(v, paths)
        },
        _ => JsonV::Null,
    }
}

/// The empty path reads the value itself.
pub proof fn law_at_empty_path(v: JsonV)
    ensures
        at_ok(JsonV::Array(Seq::empty())),
        at_spec(v, JsonV::Array(Seq::empty())) == v,
{
}

/// Whether a step can be taken.
pub fn step_is_ok(p: &Json) -> (r: bool)
    ensures
        r == step_ok(p@),
{
    match p {
        Json::Number(JsonNumber::Int(n)) => 0 <= *n && *n <= usize::MAX as i128,
        Json::Number(JsonNumber::Float(_)) => false,
        _ => true,
    }
}

/// Whether every step of a path can be taken.
pub fn path_is_ok(path: &Json) -> (r: bool)
    ensures
        r == path_ok(path@),
{
    match path {
        Json::Array(ps) => {
            proof {
                crate::json::lemma_array_view(*ps);
            }
            let mut i: usize = 0;
            while i < ps.len()
                invariant
                    path@ == JsonV::Array(crate::json::views(ps@)),
                    i <= ps.len(),
                    forall|j: int| 0 <= j < i ==> step_ok(#[trigger] path@->Array_0[j]),
                decreases ps.len() - i,
            {
                if !step_is_ok(&ps[i]) {
                    assert(!step_ok(path@->Array_0[i as int]));
                    return false;
                }
                i = i + 1;
            }
            true
        },
        _ => true,
    }
}

/// Whether `at` takes `paths` without a panic.
pub fn at_is_ok(paths: &Json) -> (r: bool)
    ensures
        r == at_ok(paths@),
{
    match paths {
        Json::Array(a) => {
            proof {
                crate::json::lemma_array_view(*a);
            }
            if a.len() > 0 && a[0].is_array() {
                assert(paths@->Array_0[0] == a@[0]@);
                let mut i: usize = 0;
                while i < a.len()
                    invariant
                        paths@ == JsonV::Array(crate::json::views(a@)),
                        a.len() > 0,
                        paths@->Array_0[0] is Array,
                        i <= a.len(),
                        forall|j: int| 0 <= j < i ==> path_ok(#[trigger] paths@->Array_0[j]),
                    decreases a.len() - i,
                {
                    if !path_is_ok(&a[i]) {
                        assert(!path_ok(paths@->Array_0[i as int]));
                        return false;
                    }
                    i = i + 1;
                }
                true
            } else {
                path_is_ok(paths)
            }
        },
        _ => true,
    }
}

/// One step of a path.
pub fn lodash_step<'a>(v: &'a Json, p: &Json) -> (r: &'a Json)
    requires
        step_ok(p@),
    ensures
        r@ == step(v@, p@),
{
    match p {
        Json::Number(JsonNumber::Int(n)) => v.get_index(*n as usize),
        Json::String(s) => v.get_key(s.as_str()),
        _ => &Json::Null,
    }
}

/// The value at `path`, which is an array of steps.
pub fn lodash_get<'a>(v: &'a Json, path: &Json) -> (r: &'a Json)
    requires
        path_ok(path@),
    ensures
        r@ == get_path(v@, path@),
{
    match path {
        Json::Array(ps) => {
            proof {
                crate::json::lemma_array_view(*ps);
            }
            let ghost steps = path@->Array_0;
            let mut cur: &Json = v;
            let mut i: usize = 0;
            while i < ps.len()
                invariant
                    steps == crate::json::views(ps@),
                    forall|j: int| 0 <= j < steps.len() ==> step_ok(#[trigger] steps[j]),
                    i <= ps.len(),
                    cur@ == walk(v@, steps.take(i as int)),
                decreases ps.len() - i,
            {
                assert(steps[i as int] == ps@[i as int]@);
                cur = lodash_step(cur, &ps[i]);
                assert(steps.take(i + 1).drop_last() =~= steps.take(i as int));
                i = i + 1;
            }
            assert(steps.take(ps.len() as int) =~= steps);
            cur
        },
        _ => &Json::Null,
    }
}

/// Lodash-like reading of a value by paths.
pub trait Lodash: Sized {
    /// Input a matrix, output a vector; input a vector, output single one value.
    fn at(&self, paths: Json) -> Self
        requires
            at_ok(paths@),
    ;
}

impl Lodash for Json {
    fn at(&self, paths: Json) -> (r: Json)
        ensures
            r@ == at_spec(self@, paths@),
    {
        match paths.as_array() {
            None => Json::Null,
            Some(a) => {
                if a.len() > 0 && a[0].is_array() {
                    let mut out: Vec<Json> = Vec::new();
                    let mut i: usize = 0;
                    while i < a.len()
                        invariant
                            paths@ == JsonV::Array(crate::json::views(a@)),
                            at_ok(paths@),
                            a@[0]@ is Array,
                            i <= a.len(),
                            out.len() == i,
                            forall|j: int| 0 <= j < i ==> (#[trigger] out@[j])@ == get_path(self@, a@[j]@),
                        decreases a.len() - i,
                    {
                        assert(path_ok(paths@->Array_0[i as int]));
                        let x = lodash_get(self, &a[i]);
                        out.push(x.deep_clone());
                        i = i + 1;
                    }
                    proof {
                        crate::json::lemma_array_view(out);
                        assert(crate::json::views(out@) =~= Seq::new(a@.len(), |j: int| get_path(self@, paths@->Array_0[j])));
                    }
                    Json::Array(out)
                } else {
                    lodash_get(self, &paths).deep_clone()
                }
            },
        }
    }
}

} // verus!
