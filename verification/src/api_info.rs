//! Reading the API tables by slash-separated paths.
use vstd::prelude::*;
use crate::json::{Json, JsonV};
use crate::text::{lemma_split_join, lemma_split_single, split_on, split_str};

verus! {

/// The value reached from `v` by reading each key of `keys` in turn.
pub open spec fn walk_keys(v: JsonV, keys: Seq<Seq<char>>) -> JsonV
    decreases keys.len(),
{
    if keys.len() == 0 {
        v
    } else {
        walk_keys(v, keys.drop_last()).get(keys.last())
    }
}

/// Reading by a path of keys separated by `/`.
pub trait GetFromPath {
    /// The value at `path`.
    fn get_from_path(&self, path: &str) -> &Json;
}

impl GetFromPath for Json {
    /// The value reached by reading each `/`-separated piece of `path` as a
    /// key: null where a key is missing.
    fn get_from_path(&self, path: &str) -> (r: &Json)
        ensures
            r@ == walk_keys(self@, split_on(path@, '/')),
    {
        let keys = split_str(path, '/');
        let ghost ks = split_on(path@, '/');
        let mut cur: &Json = self;
        let mut i: usize = 0;
        while i < keys.len()
            invariant
                Seq::new(keys@.len(), |j: int| keys@[j]@) == ks,
                i <= keys.len(),
                cur@ == walk_keys(self@, ks.take(i as int)),
            decreases keys.len() - i,
        {
            assert(ks.take(i + 1).drop_last() =~= ks.take(i as int));
            assert(ks[i as int] == keys@[i as int]@);
            cur = cur.get_key(keys[i].as_str());
            i = i + 1;
        }
        assert(ks.take(keys.len() as int) =~= ks);
        cur
    }
}

/// Reading by two lists of keys in turn is reading by the two joined.
pub proof fn lemma_walk_keys_append(v: JsonV, p: Seq<Seq<char>>, q: Seq<Seq<char>>)
    ensures
        walk_keys(v, p + q) == walk_keys(walk_keys(v, p), q),
    decreases q.len(),
{
    if q.len() == 0 {
        assert(p + q =~= p);
    } else {
        assert((p + q).drop_last() =~= p + q.drop_last());
        lemma_walk_keys_append(v, p, q.drop_last());
    }
}

/// Reading the path `a/b` is reading `a`, then `b` from there.
pub proof fn law_path_join(v: JsonV, a: Seq<char>, b: Seq<char>)
    ensures
        walk_keys(v, split_on(a + seq!['/'] + b, '/')) == walk_keys(walk_keys(v, split_on(a, '/')), split_on(b, '/')),
{
    lemma_split_join(a, b, '/');
    lemma_walk_keys_append(v, split_on(a, '/'), split_on(b, '/'));
}

/// A path without `/` reads one key: `v[x]`, null where it is missing.
pub proof fn law_path_single_key(v: JsonV, x: Seq<char>)
    requires
        !x.contains('/'),
    ensures
        walk_keys(v, split_on(x, '/')) == v.get(x),
{
    lemma_split_single(x, '/');
    assert(seq![x].drop_last() =~= Seq::<Seq<char>>::empty());
    assert(walk_keys(v, Seq::<Seq<char>>::empty()) == v);
}

} // verus!
