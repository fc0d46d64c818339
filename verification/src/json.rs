//! A JSON value of the library's own, the model that the library's logic reads
//! and builds in place of `serde_json::Value`.
use vstd::prelude::*;
use crate::text::{join, lemma_join_step, chars_of, digit_char, int_text, int_to_string, push_char, push_str, seq_lt, lemma_seq_lt_total, lemma_seq_lt_transitive, str_less, digit_of};

verus! {

/// A JSON number: an integer (each integer that serde_json holds as `i64` or
/// `u64`), or a floating-point number kept as the text that serde_json prints
/// for it.
#[derive(Debug)]
pub enum JsonNumber {
    Int(i128),
    Float(String),
}

/// A JSON value. An object is its keys and its values, at the same positions;
/// the keys are sorted, each one once, in every object that the library builds
/// (see [`JsonV::wf`]), as serde_json keeps them.
#[derive(Debug)]
pub enum Json {
    Null,
    Bool(bool),
    Number(JsonNumber),
    String(String),
    Array(Vec<Json>),
    Object(Vec<String>, Vec<Json>),
}

/// The mathematical model of a JSON value.
pub enum JsonV {
    Null,
    Bool(bool),
    Int(int),
    Float(Seq<char>),
    Str(Seq<char>),
    Array(Seq<JsonV>),
    /// The keys, and the values at the same positions.
    Object(Seq<Seq<char>>, Seq<JsonV>),
}

impl View for Json {
    type V = JsonV;

    open spec fn view(&self) -> JsonV
        decreases self,
    {
        match self {
            Json::Null => JsonV::Null,
            Json::Bool(b) => JsonV::Bool(*b),
            Json::Number(JsonNumber::Int(i)) => JsonV::Int(*i as int),
            Json::Number(JsonNumber::Float(t)) => JsonV::Float(t@),
            Json::String(s) => JsonV::Str(s@),
            Json::Array(v) => JsonV::Array(
                Seq::new(
                    v@.len(),
                    |i: int|
                        if 0 <= i < v@.len() {
                            proof {
                                assert(decreases_to!(v => v@[i]));
                            }
                            v@[i].view()
                        } else {
                            JsonV::Null
                        },
                ),
            ),
            Json::Object(ks, vs) => JsonV::Object(
                Seq::new(ks@.len(), |i: int| ks@[i]@),
                Seq::new(
                    vs@.len(),
                    |i: int|
                        if 0 <= i < vs@.len() {
                            proof {
                                assert(decreases_to!(vs => vs@[i]));
                            }
                            vs@[i].view()
                        } else {
                            JsonV::Null
                        },
                ),
            ),
        }
    }
}

/// The models of a sequence of values.
pub open spec fn views(s: Seq<Json>) -> Seq<JsonV> {
    Seq::new(s.len(), |i: int| s[i]@)
}

/// The model of an array is the models of its items.
pub proof fn lemma_array_view(v: Vec<Json>)
    ensures
        Json::Array(v)@ == JsonV::Array(views(v@)),
{
    assert(Json::Array(v)@->Array_0 =~= views(v@));
}

/// The views of a sequence of strings.
pub open spec fn str_views(s: Seq<String>) -> Seq<Seq<char>> {
    Seq::new(s.len(), |i: int| s[i]@)
}

/// The model of an object is its keys and the models of its values.
pub proof fn lemma_object_view(ks: Vec<String>, vs: Vec<Json>)
    ensures
        Json::Object(ks, vs)@ == JsonV::Object(str_views(ks@), views(vs@)),
{
    assert(Json::Object(ks, vs)@->Object_0 =~= str_views(ks@));
    assert(Json::Object(ks, vs)@->Object_1 =~= views(vs@));
}

// ---------------------------------------------------------------------------
// Sorted keys with values at the same positions: the entries of an object.

/// The first index at or after `i` that holds `k`, or -1.
pub open spec fn find_from(keys: Seq<Seq<char>>, k: Seq<char>, i: int) -> int
    decreases keys.len() - i,
{
    if i < 0 || i >= keys.len() {
        -1
    } else if keys[i] == k {
        i
    } else {
        find_from(keys, k, i + 1)
    }
}

/// The first index that holds `k`, or -1.
pub open spec fn key_index(keys: Seq<Seq<char>>, k: Seq<char>) -> int {
    find_from(keys, k, 0)
}

/// The value for `k`: the one at the first index that holds `k`.
pub open spec fn lookup<V>(keys: Seq<Seq<char>>, vals: Seq<V>, k: Seq<char>) -> Option<V> {
    let i = key_index(keys, k);
    if i >= 0 {
        Some(vals[i])
    } else {
        None
    }
}

/// The first index at or after `i` whose key comes after `k`, or the length:
/// where `k` goes in sorted keys.
pub open spec fn insert_pos_from(keys: Seq<Seq<char>>, k: Seq<char>, i: int) -> int
    decreases keys.len() - i,
{
    if i < 0 || i >= keys.len() {
        keys.len() as int
    } else if seq_lt(k, keys[i]) {
        i
    } else {
        insert_pos_from(keys, k, i + 1)
    }
}

/// The keys after `k` is mapped to a value: unchanged when `k` is there,
/// else with `k` before the first key that comes after it.
pub open spec fn assoc_keys(keys: Seq<Seq<char>>, k: Seq<char>) -> Seq<Seq<char>> {
    if key_index(keys, k) >= 0 {
        keys
    } else {
        keys.insert(insert_pos_from(keys, k, 0), k)
    }
}

/// The values after `k` is mapped to `v`: the value of the first entry for
/// `k` is replaced, or `v` goes where [`assoc_keys`] puts `k`. Together this is
/// what inserting into a `BTreeMap` does to its sorted entries.
pub open spec fn assoc_vals<V>(keys: Seq<Seq<char>>, vals: Seq<V>, k: Seq<char>, v: V) -> Seq<V> {
    let i = key_index(keys, k);
    if i >= 0 {
        vals.update(i, v)
    } else {
        vals.insert(insert_pos_from(keys, k, 0), v)
    }
}

/// Keys strictly increase.
pub open spec fn keys_sorted(keys: Seq<Seq<char>>) -> bool {
    forall|i: int, j: int| 0 <= i < j < keys.len() ==> seq_lt(#[trigger] keys[i], #[trigger] keys[j])
}

pub proof fn lemma_find_from(keys: Seq<Seq<char>>, k: Seq<char>, i: int)
    requires
        0 <= i,
    ensures
        ({
            let r = find_from(keys, k, i);
            &&& r == -1 || (i <= r < keys.len() && keys[r] == k)
            &&& forall|j: int| i <= j < keys.len() && (r == -1 || j < r) ==> keys[j] != k
        }),
    decreases keys.len() - i,
{
    if i < keys.len() && keys[i] != k {
        lemma_find_from(keys, k, i + 1);
    }
}

pub proof fn lemma_insert_pos_from(keys: Seq<Seq<char>>, k: Seq<char>, i: int)
    requires
        0 <= i <= keys.len(),
    ensures
        ({
            let r = insert_pos_from(keys, k, i);
            &&& i <= r <= keys.len()
            &&& r < keys.len() ==> seq_lt(k, keys[r])
            &&& forall|j: int| i <= j < r ==> !seq_lt(k, #[trigger] keys[j])
        }),
    decreases keys.len() - i,
{
    if i < keys.len() && !seq_lt(k, keys[i]) {
        lemma_insert_pos_from(keys, k, i + 1);
    }
}

/// Keys and values keep the same length.
pub proof fn lemma_assoc_len<V>(keys: Seq<Seq<char>>, vals: Seq<V>, k: Seq<char>, v: V)
    requires
        keys.len() == vals.len(),
    ensures
        assoc_keys(keys, k).len() == assoc_vals(keys, vals, k, v).len(),
{
    lemma_find_from(keys, k, 0);
    lemma_insert_pos_from(keys, k, 0);
}

/// A read of the key just written gives the written value.
pub proof fn law_assoc_same<V>(keys: Seq<Seq<char>>, vals: Seq<V>, k: Seq<char>, v: V)
    requires
        keys.len() == vals.len(),
    ensures
        lookup(assoc_keys(keys, k), assoc_vals(keys, vals, k, v), k) == Some(v),
{
    let i = key_index(keys, k);
    lemma_find_from(keys, k, 0);
    let k2 = assoc_keys(keys, k);
    lemma_find_from(k2, k, 0);
    if i >= 0 {
        assert(k2[i] == k);
    } else {
        let p = insert_pos_from(keys, k, 0);
        lemma_insert_pos_from(keys, k, 0);
        assert(k2[p] == k);
        assert forall|j: int| 0 <= j < p implies k2[j] != k by {
            assert(k2[j] == keys[j]);
        }
    }
}

/// A write to one key leaves what every other key reads unchanged.
pub proof fn law_assoc_other<V>(keys: Seq<Seq<char>>, vals: Seq<V>, k: Seq<char>, v: V, k2: Seq<char>)
    requires
        keys.len() == vals.len(),
        k2 != k,
    ensures
        lookup(assoc_keys(keys, k), assoc_vals(keys, vals, k, v), k2) == lookup(keys, vals, k2),
{
    let nk = assoc_keys(keys, k);
    let nv = assoc_vals(keys, vals, k, v);
    lemma_find_from(keys, k, 0);
    lemma_find_from(keys, k2, 0);
    lemma_find_from(nk, k2, 0);
    let i = key_index(keys, k);
    let r = key_index(keys, k2);
    let r2 = key_index(nk, k2);
    if i >= 0 {
        if r >= 0 {
            assert(nk[r] == k2);
        }
        if r2 >= 0 {
            assert(keys[r2] == k2);
        }
    } else {
        let p = insert_pos_from(keys, k, 0);
        lemma_insert_pos_from(keys, k, 0);
        if r >= 0 {
            let rr = if r < p { r } else { r + 1 };
            assert(nk[rr] == k2);
            assert(nv[rr] == vals[r]);
            assert forall|j: int| 0 <= j < rr implies nk[j] != k2 by {
                if j < p {
                    assert(nk[j] == keys[j]);
                } else if j > p {
                    assert(nk[j] == keys[j - 1]);
                }
            }
        } else {
            assert forall|j: int| 0 <= j < nk.len() implies nk[j] != k2 by {
                if j < p {
                    assert(nk[j] == keys[j]);
                } else if j > p {
                    assert(nk[j] == keys[j - 1]);
                }
            }
        }
    }
}

/// Writing into sorted keys keeps them sorted.
pub proof fn law_assoc_sorted(keys: Seq<Seq<char>>, k: Seq<char>)
    requires
        keys_sorted(keys),
    ensures
        keys_sorted(assoc_keys(keys, k)),
{
    let nk = assoc_keys(keys, k);
    lemma_find_from(keys, k, 0);
    if key_index(keys, k) < 0 {
        let p = insert_pos_from(keys, k, 0);
        lemma_insert_pos_from(keys, k, 0);
        assert forall|a: int, b: int| 0 <= a < b < nk.len() implies seq_lt(
            #[trigger] nk[a],
            #[trigger] nk[b],
        ) by {
            if a < p {
                assert(nk[a] == keys[a]);
                lemma_seq_lt_total(k, keys[a]);
                if b < p {
                    assert(nk[b] == keys[b]);
                } else if b > p {
                    assert(nk[b] == keys[b - 1]);
                }
            } else if a == p {
                assert(nk[b] == keys[b - 1]);
                if b - 1 > p {
                    lemma_seq_lt_transitive(k, keys[p], keys[b - 1]);
                }
            } else {
                assert(nk[a] == keys[a - 1]);
                assert(nk[b] == keys[b - 1]);
            }
        }
    }
}


/// Whether `a` and `b` hold the same characters.
pub fn str_equal(a: &str, b: &str) -> (r: bool)
    ensures
        r == (a@ == b@),
{
    let x = chars_of(a);
    let y = chars_of(b);
    if x.len() != y.len() {
        return false;
    }
    let mut i: usize = 0;
    while i < x.len()
        invariant
            x@ == a@,
            y@ == b@,
            x.len() == y.len(),
            i <= x.len(),
            forall|j: int| 0 <= j < i ==> x@[j] == y@[j],
        decreases x.len() - i,
    {
        if x[i] != y[i] {
            return false;
        }
        i = i + 1;
    }
    assert(a@ =~= b@);
    true
}

/// The first index of `keys` that holds `k`.
pub fn find_key(keys: &Vec<String>, k: &str) -> (r: Option<usize>)
    ensures
        match r {
            Some(i) => i as int == key_index(str_views(keys@), k@) && i < keys.len(),
            None => key_index(str_views(keys@), k@) == -1,
        },
{
    let ghost ks = str_views(keys@);
    let mut i: usize = 0;
    while i < keys.len()
        invariant
            ks == str_views(keys@),
            i <= keys.len(),
            find_from(ks, k@, 0) == find_from(ks, k@, i as int),
        decreases keys.len() - i,
    {
        if str_equal(keys[i].as_str(), k) {
            return Some(i);
        }
        i = i + 1;
    }
    None
}

/// Where `k` goes in sorted `keys`: the first index whose key comes after `k`.
pub fn insert_position(keys: &Vec<String>, k: &str) -> (r: usize)
    ensures
        r as int == insert_pos_from(str_views(keys@), k@, 0),
{
    let ghost ks = str_views(keys@);
    let mut i: usize = 0;
    while i < keys.len()
        invariant
            ks == str_views(keys@),
            i <= keys.len(),
            insert_pos_from(ks, k@, 0) == insert_pos_from(ks, k@, i as int),
        decreases keys.len() - i,
    {
        if str_less(k, keys[i].as_str()) {
            return i;
        }
        i = i + 1;
    }
    i
}

/// Maps `k` to `v` in the sorted entries `ks`, `vs`: the value of the first
/// entry for `k` is replaced, or a new entry goes in key order.
pub fn assoc_insert<V>(ks: &mut Vec<String>, vs: &mut Vec<V>, k: String, v: V)
    requires
        old(ks).len() == old(vs).len(),
    ensures
        str_views(final(ks)@) == assoc_keys(str_views(old(ks)@), k@),
        final(vs)@ == assoc_vals(str_views(old(ks)@), old(vs)@, k@, v),
        final(ks).len() == final(vs).len(),
{
    let ghost k0 = str_views(ks@);
    match find_key(ks, k.as_str()) {
        Some(i) => {
            vs.set(i, v);
        },
        None => {
            let p = insert_position(ks, k.as_str());
            proof {
                lemma_insert_pos_from(k0, k@, 0);
            }
            ks.insert(p, k);
            vs.insert(p, v);
        },
    }
    assert(str_views(ks@) =~= assoc_keys(k0, k@));
}

impl JsonV {
    /// A well-formed value: every object has as many keys as values, and
    /// its keys sorted, each once, as serde_json keeps an object.
    pub open spec fn wf(self) -> bool
        decreases self,
    {
        match self {
            JsonV::Array(a) => forall|i: int| 0 <= i < a.len() ==> (#[trigger] a[i]).wf(),
            JsonV::Object(ks, vs) => {
                &&& ks.len() == vs.len()
                &&& keys_sorted(ks)
                &&& forall|i: int| 0 <= i < vs.len() ==> (#[trigger] vs[i]).wf()
            },
            _ => true,
        }
    }

    /// `v[k]`: the value of key `k` of an object, else null.
    pub open spec fn get(self, k: Seq<char>) -> JsonV {
        match self {
            JsonV::Object(ks, vs) => {
                let i = key_index(ks, k);
                if 0 <= i < vs.len() {
                    vs[i]
                } else {
                    JsonV::Null
                }
            },
            _ => JsonV::Null,
        }
    }

    /// `v[i]`: item `i` of an array, else null.
    pub open spec fn at(self, i: int) -> JsonV {
        match self {
            JsonV::Array(a) => if 0 <= i < a.len() {
                a[i]
            } else {
                JsonV::Null
            },
            _ => JsonV::Null,
        }
    }

    /// `v[k] = x` on an object or on null (which becomes an object first).
    pub open spec fn set(self, k: Seq<char>, x: JsonV) -> JsonV {
        match self {
            JsonV::Object(ks, vs) => JsonV::Object(assoc_keys(ks, k), assoc_vals(ks, vs, k, x)),
            _ => JsonV::Object(seq![k], seq![x]),
        }
    }

    /// `as_i64`.
    pub open spec fn as_i64(self) -> Option<i64> {
        match self {
            JsonV::Int(n) => if i64::MIN <= n <= i64::MAX {
                Some(n as i64)
            } else {
                None
            },
            _ => None,
        }
    }

    /// `as_u64`.
    pub open spec fn as_u64(self) -> Option<u64> {
        match self {
            JsonV::Int(n) => if 0 <= n <= u64::MAX {
                Some(n as u64)
            } else {
                None
            },
            _ => None,
        }
    }
}

impl Json {
    /// `v[k]`: the value of key `k` of an object; null for a missing key or
    /// a value that is not an object.
    pub fn get_key<'a>(&'a self, k: &str) -> (r: &'a Json)
        ensures
            r@ == self@.get(k@),
    {
        match self {
            Json::Object(ks, vs) => {
                proof {
                    lemma_object_view(*ks, *vs);
                }
                match find_key(ks, k) {
                    Some(i) => if i < vs.len() {
                        &vs[i]
                    } else {
                        &Json::Null
                    },
                    None => &Json::Null,
                }
            },
            _ => &Json::Null,
        }
    }

    /// `v[i]`: item `i` of an array; null when out of range or not an array.
    pub fn get_index<'a>(&'a self, i: usize) -> (r: &'a Json)
        ensures
            r@ == self@.at(i as int),
    {
        match self {
            Json::Array(a) => {
                proof {
                    lemma_array_view(*a);
                }
                if i < a.len() {
                    &a[i]
                } else {
                    &Json::Null
                }
            },
            _ => &Json::Null,
        }
    }

    /// `as_i64`: an integer that fits `i64`.
    pub fn as_i64(&self) -> (r: Option<i64>)
        ensures
            r == self@.as_i64(),
    {
        match self {
            Json::Number(JsonNumber::Int(n)) => if i64::MIN as i128 <= *n && *n <= i64::MAX as i128 {
                Some(*n as i64)
            } else {
                None
            },
            _ => None,
        }
    }

    /// `as_u64`: an integer that fits `u64`.
    pub fn as_u64(&self) -> (r: Option<u64>)
        ensures
            r == self@.as_u64(),
    {
        match self {
            Json::Number(JsonNumber::Int(n)) => if 0 <= *n && *n <= u64::MAX as i128 {
                Some(*n as u64)
            } else {
                None
            },
            _ => None,
        }
    }

    /// `as_str`: the text of a string.
    pub fn as_str(&self) -> (r: Option<&str>)
        ensures
            match r {
                Some(s) => self@ == JsonV::Str(s@),
                None => !(self@ is Str),
            },
    {
        match self {
            Json::String(s) => Some(s.as_str()),
            _ => None,
        }
    }

    /// `as_bool`.
    pub fn as_bool(&self) -> (r: Option<bool>)
        ensures
            match r {
                Some(b) => self@ == JsonV::Bool(b),
                None => !(self@ is Bool),
            },
    {
        match self {
            Json::Bool(b) => Some(*b),
            _ => None,
        }
    }

    /// `is_null`.
    pub fn is_null(&self) -> (r: bool)
        ensures
            r == (self@ is Null),
    {
        match self {
            Json::Null => true,
            _ => false,
        }
    }

    /// `is_string`.
    pub fn is_string(&self) -> (r: bool)
        ensures
            r == (self@ is Str),
    {
        match self {
            Json::String(_) => true,
            _ => false,
        }
    }

    /// `is_array`.
    pub fn is_array(&self) -> (r: bool)
        ensures
            r == (self@ is Array),
    {
        match self {
            Json::Array(_) => true,
            _ => false,
        }
    }

    /// `as_array`: the items of an array.
    pub fn as_array(&self) -> (r: Option<&Vec<Json>>)
        ensures
            match r {
                Some(a) => self@ == JsonV::Array(views(a@)),
                None => !(self@ is Array),
            },
    {
        match self {
            Json::Array(a) => {
                proof {
                    lemma_array_view(*a);
                }
                Some(a)
            },
            _ => None,
        }
    }

    /// `v[k].take()` on a value that is dropped afterwards: the value of key
    /// `k`, or null.
    pub fn take_key(self, k: &str) -> (r: Json)
        ensures
            r@ == self@.get(k@),
    {
        match self {
            Json::Object(ks, mut vs) => {
                proof {
                    lemma_object_view(ks, vs);
                }
                match find_key(&ks, k) {
                    Some(i) => if i < vs.len() {
                        vs.remove(i)
                    } else {
                        Json::Null
                    },
                    None => Json::Null,
                }
            },
            _ => Json::Null,
        }
    }

    /// `v[k] = x`: on an object, the entry of `k` gets `x` or a new entry goes
    /// in key order; null first becomes an empty object.
    pub fn set_key(&mut self, k: String, x: Json)
        requires
            writable(old(self)@),
        ensures
            final(self)@ == old(self)@.set(k@, x@),
    {
        let mut cur = Json::Null;
        std::mem::swap(&mut cur, self);
        let ghost before = cur@;
        match cur {
            Json::Object(mut ks, mut vs) => {
                proof {
                    lemma_object_view(ks, vs);
                }
                let ghost vv = vs@;
                assoc_insert(&mut ks, &mut vs, k, x);
                proof {
                    lemma_object_view(ks, vs);
                    lemma_find_from(before->Object_0, k@, 0);
                    lemma_insert_pos_from(before->Object_0, k@, 0);
                    assert(views(vs@) =~= assoc_vals(before->Object_0, before->Object_1, k@, x@));
                }
                *self = Json::Object(ks, vs);
            },
            _ => {
                let mut ks: Vec<String> = Vec::new();
                let mut vs: Vec<Json> = Vec::new();
                ks.push(k);
                vs.push(x);
                proof {
                    lemma_object_view(ks, vs);
                    assert(str_views(ks@) =~= seq![k@]);
                    assert(views(vs@) =~= seq![x@]);
                }
                *self = Json::Object(ks, vs);
            },
        }
    }
}


// ---------------------------------------------------------------------------
// The compact text of a value, as serde_json writes it.

/// One character of a string's text: `"` and `\` behind a backslash, the
/// control characters that have a short escape with it, other control
/// characters as `\u00XX`, everything else as it is.
pub open spec fn escape_char(c: char) -> Seq<char> {
    if c == '"' {
        seq!['\\', '"']
    } else if c == '\\' {
        seq!['\\', '\\']
    } else if c == '\x08' {
        seq!['\\', 'b']
    } else if c == '\x0C' {
        seq!['\\', 'f']
    } else if c == '\n' {
        seq!['\\', 'n']
    } else if c == '\r' {
        seq!['\\', 'r']
    } else if c == '\t' {
        seq!['\\', 't']
    } else if '\x20' > c {
        seq!['\\', 'u', '0', '0', digit_char((((c as u32) / 16) % 16) as nat), digit_char(((c as u32) % 16) as nat)]
    } else {
        seq![c]
    }
}

/// The escaped characters of a string.
pub open spec fn escape_text(s: Seq<char>) -> Seq<char>
    decreases s.len(),
{
    if s.len() == 0 {
        Seq::empty()
    } else {
        escape_text(s.drop_last()) + escape_char(s.last())
    }
}

/// A string in quotes, escaped.
pub open spec fn quoted(s: Seq<char>) -> Seq<char> {
    seq!['"'] + escape_text(s) + seq!['"']
}

/// The key of entry `i` of an object, or the empty key past the keys.
pub open spec fn key_at(ks: Seq<Seq<char>>, i: int) -> Seq<char> {
    if 0 <= i < ks.len() {
        ks[i]
    } else {
        Seq::empty()
    }
}

/// The texts of the items of an array or the values of an object.
pub open spec fn item_texts(a: Seq<JsonV>) -> Seq<Seq<char>>
    decreases a,
{
    Seq::new(
        a.len(),
        |i: int|
            if 0 <= i < a.len() {
                proof {
                    assert(decreases_to!(a => a[i]));
                }
                json_text(a[i])
            } else {
                Seq::empty()
            },
    )
}

/// The compact text of a value: what `to_string()` gives for a
/// `serde_json::Value`. An object's members come in the order of its entries.
pub open spec fn json_text(v: JsonV) -> Seq<char>
    decreases v,
{
    match v {
        JsonV::Null => seq!['n', 'u', 'l', 'l'],
        JsonV::Bool(b) => if b {
            seq!['t', 'r', 'u', 'e']
        } else {
            seq!['f', 'a', 'l', 's', 'e']
        },
        JsonV::Int(n) => int_text(n),
        JsonV::Float(t) => t,
        JsonV::Str(s) => quoted(s),
        JsonV::Array(a) => {
            seq!['['] + join(item_texts(a), seq![',']) + seq![']']
        },
        JsonV::Object(ks, vs) => {
            let texts = item_texts(vs);
            let members = Seq::new(vs.len(), |i: int| quoted(key_at(ks, i)) + seq![':'] + texts[i]);
            seq!['{'] + join(members, seq![',']) + seq!['}']
        },
    }
}

/// Appends the quoted, escaped text of `s` to `out`.
pub fn write_quoted(s: &str, out: &mut String)
    ensures
        final(out)@ == old(out)@ + quoted(s@),
{
    let cs = chars_of(s);
    push_char(out, '"');
    let mut i: usize = 0;
    while i < cs.len()
        invariant
            cs@ == s@,
            i <= cs.len(),
            out@ == old(out)@ + seq!['"'] + escape_text(s@.take(i as int)),
        decreases cs.len() - i,
    {
        let c = cs[i];
        let ghost before = out@;
        if c == '"' {
            push_char(out, '\\');
            push_char(out, '"');
        } else if c == '\\' {
            push_char(out, '\\');
            push_char(out, '\\');
        } else if c == '\x08' {
            push_char(out, '\\');
            push_char(out, 'b');
        } else if c == '\x0C' {
            push_char(out, '\\');
            push_char(out, 'f');
        } else if c == '\n' {
            push_char(out, '\\');
            push_char(out, 'n');
        } else if c == '\r' {
            push_char(out, '\\');
            push_char(out, 'r');
        } else if c == '\t' {
            push_char(out, '\\');
            push_char(out, 't');
        } else if '\x20' > c {
            let code: u32 = c as u32;
            push_char(out, '\\');
            push_char(out, 'u');
            push_char(out, '0');
            push_char(out, '0');
            push_char(out, digit_of(((code / 16) % 16) as u128));
            push_char(out, digit_of((code % 16) as u128));
        } else {
            push_char(out, c);
        }
        assert(out@ =~= before + escape_char(c));
        assert(s@.take(i + 1).drop_last() =~= s@.take(i as int));
        i = i + 1;
    }
    assert(s@.take(cs.len() as int) =~= s@);
    push_char(out, '"');
}

impl Json {
    /// A copy of this value.
    pub fn deep_clone(&self) -> (r: Json)
        ensures
            r@ == self@,
        decreases self,
    {
        match self {
            Json::Null => Json::Null,
            Json::Bool(b) => Json::Bool(*b),
            Json::Number(JsonNumber::Int(n)) => Json::Number(JsonNumber::Int(*n)),
            Json::Number(JsonNumber::Float(t)) => Json::Number(JsonNumber::Float(t.clone())),
            Json::String(s) => Json::String(s.clone()),
            Json::Array(a) => {
                let mut out: Vec<Json> = Vec::new();
                let mut i: usize = 0;
                #[verifier::loop_isolation(false)]
                while i < a.len()
                    invariant
                        i <= a.len(),
                        out.len() == i,
                        forall|j: int| 0 <= j < i ==> (#[trigger] out@[j])@ == a@[j]@,
                    decreases a.len() - i,
                {
                    out.push(a[i].deep_clone());
                    i = i + 1;
                }
                proof {
                    lemma_array_view(*a);
                    lemma_array_view(out);
                    assert(views(out@) =~= views(a@));
                }
                Json::Array(out)
            },
            Json::Object(ks, vs) => {
                let mut nk: Vec<String> = Vec::new();
                let mut nv: Vec<Json> = Vec::new();
                let mut i: usize = 0;
                while i < ks.len()
                    invariant
                        i <= ks.len(),
                        nk.len() == i,
                        forall|j: int| 0 <= j < i ==> (#[trigger] nk@[j])@ == ks@[j]@,
                    decreases ks.len() - i,
                {
                    nk.push(ks[i].clone());
                    i = i + 1;
                }
                let mut i: usize = 0;
                #[verifier::loop_isolation(false)]
                while i < vs.len()
                    invariant
                        i <= vs.len(),
                        nv.len() == i,
                        forall|j: int| 0 <= j < i ==> (#[trigger] nv@[j])@ == vs@[j]@,
                    decreases vs.len() - i,
                {
                    nv.push(vs[i].deep_clone());
                    i = i + 1;
                }
                proof {
                    lemma_object_view(*ks, *vs);
                    lemma_object_view(nk, nv);
                    assert(views(nv@) =~= views(vs@));
                    assert(str_views(nk@) =~= str_views(ks@));
                }
                Json::Object(nk, nv)
            },
        }
    }

    /// Appends the compact text of this value to `out`.
    pub fn write_text(&self, out: &mut String)
        ensures
            final(out)@ == old(out)@ + json_text(self@),
        decreases self,
    {
        match self {
            Json::Null => {
                push_str(out, "null");
                proof {
                    reveal_strlit("null");
                    assert("null"@ =~= seq!['n', 'u', 'l', 'l']);
                }
            },
            Json::Bool(b) => {
                if *b {
                    push_str(out, "true");
                    proof {
                        reveal_strlit("true");
                        assert("true"@ =~= seq!['t', 'r', 'u', 'e']);
                    }
                } else {
                    push_str(out, "false");
                    proof {
                        reveal_strlit("false");
                        assert("false"@ =~= seq!['f', 'a', 'l', 's', 'e']);
                    }
                }
            },
            Json::Number(JsonNumber::Int(n)) => {
                let t = int_to_string(*n);
                push_str(out, t.as_str());
            },
            Json::Number(JsonNumber::Float(t)) => {
                push_str(out, t.as_str());
            },
            Json::String(s) => {
                write_quoted(s.as_str(), out);
            },
            Json::Array(a) => {
                Self::write_array(a, out);
            },
            Json::Object(ks, vs) => {
                Self::write_object(ks, vs, out);
            },
        }
    }

    fn write_array(a: &Vec<Json>, out: &mut String)
        ensures
            final(out)@ == old(out)@ + json_text(Json::Array(*a)@),
        decreases a,
    {
        proof {
            lemma_array_view(*a);
        }
        let ghost v = Json::Array(*a)@->Array_0;
        let ghost texts = item_texts(v);
        let ghost start = old(out)@;
        push_char(out, '[');
        let mut i: usize = 0;
        #[verifier::loop_isolation(false)]
        while i < a.len()
            invariant
                v == views(a@),
                texts.len() == a.len(),
                forall|j: int| 0 <= j < a.len() ==> texts[j] == json_text(#[trigger] v[j]),
                i <= a.len(),
                out@ == start + seq!['['] + join(texts.take(i as int), seq![',']),
            decreases a.len() - i,
        {
            if i > 0 {
                push_char(out, ',');
            }
            a[i].write_text(out);
            proof {
                if i > 0 {
                    lemma_join_step(texts, seq![','], i as int);
                } else {
                    assert(texts.take(1) =~= seq![texts[0]]);
                }
                assert(json_text(v[i as int]) == texts[i as int]);
            }
            i = i + 1;
        }
        assert(texts.take(a.len() as int) =~= texts);
        push_char(out, ']');
    }

    fn write_object(ks: &Vec<String>, vs: &Vec<Json>, out: &mut String)
        ensures
            final(out)@ == old(out)@ + json_text(Json::Object(*ks, *vs)@),
        decreases vs,
    {
        proof {
            lemma_object_view(*ks, *vs);
        }
        let ghost kv = Json::Object(*ks, *vs)@->Object_0;
        let ghost v = Json::Object(*ks, *vs)@->Object_1;
        let ghost texts = item_texts(v);
        let ghost members = Seq::new(
            v.len(),
            |j: int| quoted(key_at(kv, j)) + seq![':'] + texts[j],
        );
        let ghost start = old(out)@;
        push_char(out, '{');
        let mut i: usize = 0;
        #[verifier::loop_isolation(false)]
        while i < vs.len()
            invariant
                kv == str_views(ks@),
                v == views(vs@),
                texts.len() == vs.len(),
                members.len() == vs.len(),
                forall|j: int| 0 <= j < vs.len() ==> texts[j] == json_text(#[trigger] v[j]),
                forall|j: int| 0 <= j < vs.len() ==> #[trigger] members[j] == quoted(key_at(kv, j)) + seq![':'] + texts[j],
                i <= vs.len(),
                out@ == start + seq!['{'] + join(members.take(i as int), seq![',']),
            decreases vs.len() - i,
        {
            if i > 0 {
                push_char(out, ',');
            }
            let ghost mid = out@;
            if i < ks.len() {
                write_quoted(ks[i].as_str(), out);
            } else {
                write_quoted("", out);
                proof {
                    reveal_strlit("");
                    assert(""@ =~= Seq::<char>::empty());
                }
            }
            push_char(out, ':');
            vs[i].write_text(out);
            proof {
                assert(texts[i as int] == json_text(v[i as int]));
                assert(out@ =~= mid + members[i as int]);
                if i > 0 {
                    lemma_join_step(members, seq![','], i as int);
                } else {
                    assert(members.take(1) =~= seq![members[0]]);
                }
            }
            i = i + 1;
        }
        assert(members.take(vs.len() as int) =~= members);
        push_char(out, '}');
    }

    /// The compact text of this value: what `to_string()` gives for a
    /// `serde_json::Value`.
    pub fn to_text(&self) -> (r: String)
        ensures
            r@ == json_text(self@),
    {
        let mut out = String::new();
        self.write_text(&mut out);
        out
    }
}


/// An object, or null (which a write turns into an object).
pub open spec fn writable(v: JsonV) -> bool {
    v is Null || (v is Object && v->Object_0.len() == v->Object_1.len())
}

/// A write leaves something that can be written again.
pub proof fn lemma_set_writable(v: JsonV, k: Seq<char>, x: JsonV)
    requires
        writable(v),
    ensures
        writable(v.set(k, x)),
{
    if v is Object {
        lemma_assoc_len(v->Object_0, v->Object_1, k, x);
    }
}

/// What a key reads is what the entries hold for it, or null.
proof fn lemma_get_lookup(v: JsonV, k: Seq<char>)
    requires
        v is Object,
        v->Object_0.len() == v->Object_1.len(),
    ensures
        v.get(k) == (match lookup(v->Object_0, v->Object_1, k) {
            Some(x) => x,
            None => JsonV::Null,
        }),
{
    lemma_find_from(v->Object_0, k, 0);
}

/// A read of the key just written gives the written value: `v[k] = x` then
/// `v[k]` is `x`.
pub proof fn law_set_then_get(v: JsonV, k: Seq<char>, x: JsonV)
    requires
        writable(v),
    ensures
        v.set(k, x).get(k) == x,
{
    let (ks, vs) = match v {
        JsonV::Object(ks, vs) => (ks, vs),
        _ => (Seq::<Seq<char>>::empty(), Seq::<JsonV>::empty()),
    };
    if v is Null {
        assert(v.set(k, x) == JsonV::Object(seq![k], seq![x]));
        assert(assoc_keys(ks, k) =~= seq![k]);
        assert(assoc_vals(ks, vs, k, x) =~= seq![x]);
    }
    law_assoc_same(ks, vs, k, x);
    lemma_assoc_len(ks, vs, k, x);
    assert(v.set(k, x) == JsonV::Object(assoc_keys(ks, k), assoc_vals(ks, vs, k, x)));
    lemma_get_lookup(v.set(k, x), k);
}

/// A write to one key leaves what every other key reads unchanged.
pub proof fn law_set_other(v: JsonV, k: Seq<char>, x: JsonV, k2: Seq<char>)
    requires
        writable(v),
        k2 != k,
    ensures
        v.set(k, x).get(k2) == v.get(k2),
{
    let (ks, vs) = match v {
        JsonV::Object(ks, vs) => (ks, vs),
        _ => (Seq::<Seq<char>>::empty(), Seq::<JsonV>::empty()),
    };
    if v is Null {
        assert(assoc_keys(ks, k) =~= seq![k]);
        assert(assoc_vals(ks, vs, k, x) =~= seq![x]);
        lemma_find_from(seq![k], k2, 0);
    } else {
        lemma_get_lookup(v, k2);
    }
    law_assoc_other(ks, vs, k, x, k2);
    lemma_assoc_len(ks, vs, k, x);
    assert(v.set(k, x) == JsonV::Object(assoc_keys(ks, k), assoc_vals(ks, vs, k, x)));
    lemma_get_lookup(v.set(k, x), k2);
    lemma_find_from(ks, k2, 0);
}

/// A write of a well-formed value into a well-formed object (or into null)
/// gives a well-formed object: its keys stay sorted, each once.
pub proof fn law_set_keeps_wf(v: JsonV, k: Seq<char>, x: JsonV)
    requires
        v is Null || (v is Object && v.wf()),
        x.wf(),
    ensures
        v.set(k, x).wf(),
{
    match v {
        JsonV::Object(ks, vs) => {
            law_assoc_sorted(ks, k);
            lemma_assoc_len(ks, vs, k, x);
            lemma_find_from(ks, k, 0);
            let nv = assoc_vals(ks, vs, k, x);
            if key_index(ks, k) < 0 {
                lemma_insert_pos_from(ks, k, 0);
            }
            assert forall|i: int| 0 <= i < nv.len() implies (#[trigger] nv[i]).wf() by {
                if key_index(ks, k) < 0 {
                    let p = insert_pos_from(ks, k, 0);
                    if i < p {
                        assert(nv[i] == vs[i]);
                    } else if i > p {
                        assert(nv[i] == vs[i - 1]);
                    }
                }
            }
        },
        _ => {
            let nk: Seq<Seq<char>> = seq![k];
            let nv: Seq<JsonV> = seq![x];
            assert(keys_sorted(nk));
            assert forall|i: int| 0 <= i < nv.len() implies (#[trigger] nv[i]).wf() by {}
        },
    }
}

} // verus!
