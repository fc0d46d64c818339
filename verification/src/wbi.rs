//! WBI means "web bibilili interface": signing of queries, the salt that signs
//! them, the session state that requests need, and the client handles.
use vstd::prelude::*;
use vstd::string::StrSliceExecFns;
use crate::bench::{Bench, Received, StateData, bench_data_spec, state_map, state_get, state_try_recv};
use crate::json::{
    Json, JsonNumber, JsonV, assoc_insert, assoc_keys, assoc_vals, json_text, lemma_object_view,
    str_views, views,
};
use crate::lodash::{Lodash, at_ok, at_spec, at_is_ok};
use crate::text::{bytes_hex, bytes_to_hex, int_text, int_to_string, join, join_strings, push_str};

verus! {

/// The 16-byte md5 digest of a byte sequence.
pub uninterp spec fn md5_digest(data: Seq<u8>) -> Seq<u8>;

/// `md5::compute`: the md5 digest of `data`.
#[verifier::external_body]
fn md5_compute(data: &[u8]) -> (r: [u8; 16])
    ensures
        r@ == md5_digest(data@),
{
    md5::compute(data).0
}

/// The errors of the signed API, each with the text it reports.
pub enum WbiError {
    /// The API answered with a code that is not 0, or with none (-1).
    Reject { code: i64, message: String },
    /// The session state was missing something and has been committed; the
    /// request has to be made again.
    RetryForState,
    /// The uvid answer has no string at `data.b_3`.
    UvidInvalid,
    /// The nav answer has no string at `data.wbi_img.img_url`.
    ImgUrlInvalid,
    /// The nav answer has no string at `data.wbi_img.sub_url`.
    SubUrlInvalid,
    /// The image urls do not give a salt of 32 characters (where the salt
    /// computation would otherwise panic).
    SaltUnavailable,
}

/// The text of an error.
pub open spec fn wbi_error_text(e: WbiError) -> Seq<char> {
    match e {
        WbiError::Reject { code, message } => "bilibili api reject: "@ + int_text(code as int) + " "@
            + message@,
        WbiError::RetryForState => "Require retry for update state"@,
        WbiError::UvidInvalid => "fetch_uvid: b_3 invalid"@,
        WbiError::ImgUrlInvalid => "fetch_wbi_salt: wbi_img/img_url invalid"@,
        WbiError::SubUrlInvalid => "fetch_wbi_salt: wbi_img/sub_url invalid"@,
        WbiError::SaltUnavailable => "fetch_wbi_salt: salt unavailable"@,
    }
}

impl WbiError {
    /// The text of the error.
    pub fn message(&self) -> (r: String)
        ensures
            r@ == wbi_error_text(*self),
    {
        match self {
            WbiError::Reject { code, message } => {
                let mut r = String::new();
                push_str(&mut r, "bilibili api reject: ");
                let c = int_to_string(*code as i128);
                push_str(&mut r, c.as_str());
                push_str(&mut r, " ");
                push_str(&mut r, message.as_str());
                r
            },
            WbiError::RetryForState => String::from_str("Require retry for update state"),
            WbiError::UvidInvalid => String::from_str("fetch_uvid: b_3 invalid"),
            WbiError::ImgUrlInvalid => String::from_str("fetch_wbi_salt: wbi_img/img_url invalid"),
            WbiError::SubUrlInvalid => String::from_str("fetch_wbi_salt: wbi_img/sub_url invalid"),
            WbiError::SaltUnavailable => String::from_str("fetch_wbi_salt: salt unavailable"),
        }
    }
}

/// What `api_result_validate` gives: `data` when `code` is 0, else the
/// rejection with the code (-1 when there is none) and the message
/// ("unknown" when there is none).
pub open spec fn validate_spec(resp: JsonV) -> Result<JsonV, (i64, Seq<char>)> {
    if resp.get("code"@).as_i64() == Some(0i64) {
        Ok(resp.get("data"@))
    } else {
        Err(
            (
                match resp.get("code"@).as_i64() {
                    Some(c) => c,
                    None => -1i64,
                },
                match resp.get("message"@) {
                    JsonV::Str(m) => m,
                    _ => "unknown"@,
                },
            ),
        )
    }
}

/// An answer is accepted exactly when its code is 0, and then gives its
/// `data`, whatever else it carries; any other answer is rejected with its
/// code, or -1 when it has none.
pub proof fn law_validate_by_code(resp: JsonV)
    ensures
        (validate_spec(resp) is Ok) <==> resp.get("code"@).as_i64() == Some(0i64),
        validate_spec(resp) is Ok ==> validate_spec(resp)->Ok_0 == resp.get("data"@),
        validate_spec(resp) is Err ==> validate_spec(resp)->Err_0.0 == match resp.get("code"@).as_i64() {
            Some(c) => c,
            None => -1i64,
        },
{
}

/// Checks an API answer: its `data` when `code` is 0, else the rejection.
pub fn api_result_validate(resp: Json) -> (r: Result<Json, WbiError>)
    ensures
        match (r, validate_spec(resp@)) {
            (Ok(d), Ok(s)) => d@ == s,
            (Err(WbiError::Reject { code, message }), Err((c, m))) => code == c && message@ == m,
            _ => false,
        },
{
    let code = resp.get_key("code").as_i64();
    match code {
        Some(0) => Ok(resp.take_key("data")),
        _ => {
            let c = match code {
                Some(c) => c,
                None => -1,
            };
            let m = match resp.get_key("message").as_str() {
                Some(m) => String::from_str(m),
                None => String::from_str("unknown"),
            };
            Err(WbiError::Reject { code: c, message: m })
        },
    }
}


// ---------------------------------------------------------------------------
// Signing a query.

/// How a query value goes into the text that is signed: a string as it is,
/// anything else as its JSON text.
pub open spec fn render_value(v: JsonV) -> Seq<char> {
    match v {
        JsonV::Str(s) => s,
        _ => json_text(v),
    }
}

/// The sorted entries to sign after the first `n` query entries: `wts`
/// first, then each query entry in turn, a later one replacing an earlier
/// one of the same key (what the `BTreeMap` of the signing holds).
pub open spec fn sign_entries(qk: Seq<Seq<char>>, qv: Seq<JsonV>, ts: Seq<char>, n: int) -> (
    Seq<Seq<char>>,
    Seq<Seq<char>>,
)
    decreases n,
{
    if n <= 0 {
        (seq![seq!['w', 't', 's']], seq![ts])
    } else {
        let prev = sign_entries(qk, qv, ts, n - 1);
        (
            assoc_keys(prev.0, qk[n - 1]),
            assoc_vals(prev.0, prev.1, qk[n - 1], render_value(qv[n - 1])),
        )
    }
}

/// `k=v` for each entry, joined by `&`.
pub open spec fn query_string(ks: Seq<Seq<char>>, vs: Seq<Seq<char>>) -> Seq<char> {
    join(Seq::new(ks.len(), |i: int| ks[i] + seq!['='] + vs[i]), seq!['&'])
}

/// The unsigned query text of a query object at time `ts`.
pub open spec fn unsigned_query(query: JsonV, ts: i64) -> Seq<char> {
    let e = sign_entries(query->Object_0, query->Object_1, int_text(ts as int), query->Object_0.len() as int);
    query_string(e.0, e.1)
}

/// The signature of an unsigned query text with a salt: the lower-case hex
/// of the md5 of the UTF-8 bytes of the text followed by the salt.
pub open spec fn w_rid_of(uq: Seq<char>, salt: Seq<char>) -> Seq<char> {
    bytes_hex(md5_digest(vstd::utf8::encode_utf8(uq + salt)))
}

/// What signing gives: `opts` with `_uq` the unsigned query text, and its
/// query with `wts` the time and `w_rid` the signature.
pub open spec fn enc_wbi_spec(opts: JsonV, ts: i64, salt: Seq<char>) -> JsonV {
    let query = opts.get("query"@);
    let uq = unsigned_query(query, ts);
    let signed = query.set("wts"@, JsonV::Int(ts as int)).set("w_rid"@, JsonV::Str(w_rid_of(uq, salt)));
    opts.set("_uq"@, JsonV::Str(uq)).set("query"@, signed)
}

/// The options that signing takes: an object whose `query` is an object,
/// both with as many keys as values.
pub open spec fn sign_ok(opts: JsonV) -> bool {
    &&& opts is Object
    &&& opts->Object_0.len() == opts->Object_1.len()
    &&& opts.get("query"@) is Object
    &&& opts.get("query"@)->Object_0.len() == opts.get("query"@)->Object_1.len()
}

/// The unsigned query text of a query object at time `ts`.
pub fn unsigned_query_text(query: &Json, ts: i64) -> (r: String)
    requires
        query@ is Object,
        query@->Object_0.len() == query@->Object_1.len(),
    ensures
        r@ == unsigned_query(query@, ts),
{
    match query {
        Json::Object(qk, qv) => {
            proof {
                lemma_object_view(*qk, *qv);
            }
            let ghost qkv = query@->Object_0;
            let ghost qvv = query@->Object_1;
            let ghost tsv = int_text(ts as int);
            let mut ks: Vec<String> = Vec::new();
            let mut vs: Vec<String> = Vec::new();
            ks.push(String::from_str("wts"));
            vs.push(int_to_string(ts as i128));
            proof {
                reveal_strlit("wts");
                assert("wts"@ =~= seq!['w', 't', 's']);
                assert(str_views(ks@) =~= seq![seq!['w', 't', 's']]);
                assert(str_views(vs@) =~= seq![tsv]);
            }
            let mut i: usize = 0;
            while i < qk.len()
                invariant
                    qkv == str_views(qk@),
                    qvv == views(qv@),
                    qk.len() == qv.len(),
                    i <= qk.len(),
                    ks.len() == vs.len(),
                    str_views(ks@) == sign_entries(qkv, qvv, tsv, i as int).0,
                    str_views(vs@) == sign_entries(qkv, qvv, tsv, i as int).1,
                decreases qk.len() - i,
            {
                let rendered = match qv[i].as_str() {
                    Some(t) => String::from_str(t),
                    None => qv[i].to_text(),
                };
                let ghost k0 = str_views(ks@);
                let ghost v0 = vs@;
                assoc_insert(&mut ks, &mut vs, qk[i].clone(), rendered);
                proof {
                    crate::json::lemma_find_from(k0, qkv[i as int], 0);
                    crate::json::lemma_insert_pos_from(k0, qkv[i as int], 0);
                    assert(str_views(vs@) =~= assoc_vals(k0, str_views(v0), qkv[i as int], render_value(qvv[i as int])));
                }
                i = i + 1;
            }
            let mut parts: Vec<String> = Vec::new();
            let mut j: usize = 0;
            while j < ks.len()
                invariant
                    ks.len() == vs.len(),
                    j <= ks.len(),
                    parts.len() == j,
                    forall|m: int| 0 <= m < j ==> (#[trigger] parts@[m])@ == ks@[m]@ + seq!['='] + vs@[m]@,
                decreases ks.len() - j,
            {
                let mut p = ks[j].clone();
                push_str(&mut p, "=");
                push_str(&mut p, vs[j].as_str());
                proof {
                    reveal_strlit("=");
                    assert("="@ =~= seq!['=']);
                }
                parts.push(p);
                j = j + 1;
            }
            let r = join_strings(&parts, "&");
            proof {
                reveal_strlit("&");
                assert("&"@ =~= seq!['&']);
                let e = sign_entries(qkv, qvv, tsv, qkv.len() as int);
                assert(Seq::new(parts@.len(), |m: int| parts@[m]@) =~= Seq::new(e.0.len(), |m: int| e.0[m] + seq!['='] + e.1[m]));
            }
            r
        },
        _ => String::new(),
    }
}

/// The signature of `uq` with `salt`.
pub fn w_rid(uq: &str, salt: &str) -> (r: String)
    ensures
        r@ == w_rid_of(uq@, salt@),
{
    let mut t = String::from_str(uq);
    push_str(&mut t, salt);
    let digest = md5_compute(t.as_str().as_bytes());
    bytes_to_hex(&digest)
}

/// Signs `opts` with `salt` at time `ts`.
pub fn enc_wbi_with_salt(opts: Json, ts: i64, salt: &str) -> (r: Json)
    requires
        sign_ok(opts@),
    ensures
        r@ == enc_wbi_spec(opts@, ts, salt@),
{
    let query = opts.get_key("query").deep_clone();
    let uq = unsigned_query_text(&query, ts);
    let sig = w_rid(uq.as_str(), salt);
    let mut signed = query;
    signed.set_key(String::from_str("wts"), Json::Number(JsonNumber::Int(ts as i128)));
    proof {
        crate::json::lemma_assoc_len(query@->Object_0, query@->Object_1, "wts"@, JsonV::Int(ts as int));
    }
    signed.set_key(String::from_str("w_rid"), Json::String(sig));
    let mut out = opts;
    out.set_key(String::from_str("_uq"), Json::String(uq));
    proof {
        crate::json::lemma_assoc_len(opts@->Object_0, opts@->Object_1, "_uq"@, JsonV::Str(uq@));
    }
    out.set_key(String::from_str("query"), signed);
    out
}

/// Signing fills in the query: its `wts` is the time, its `w_rid` the
/// signature of the unsigned text kept in `_uq`, and every other query
/// entry is kept.
pub proof fn law_enc_wbi_signs(opts: JsonV, ts: i64, salt: Seq<char>, k: Seq<char>)
    requires
        sign_ok(opts),
        k != "wts"@,
        k != "w_rid"@,
    ensures
        ({
            let r = enc_wbi_spec(opts, ts, salt);
            &&& r.get("query"@).get("wts"@) == JsonV::Int(ts as int)
            &&& r.get("_uq"@) == JsonV::Str(unsigned_query(opts.get("query"@), ts))
            &&& r.get("query"@).get("w_rid"@) == JsonV::Str(w_rid_of(r.get("_uq"@)->Str_0, salt))
            &&& r.get("query"@).get(k) == opts.get("query"@).get(k)
        }),
{
    reveal_strlit("wts");
    reveal_strlit("w_rid");
    reveal_strlit("_uq");
    reveal_strlit("query");
    let query = opts.get("query"@);
    let uq = unsigned_query(query, ts);
    let q1 = query.set("wts"@, JsonV::Int(ts as int));
    let signed = q1.set("w_rid"@, JsonV::Str(w_rid_of(uq, salt)));
    let o1 = opts.set("_uq"@, JsonV::Str(uq));
    assert("wts"@ != "w_rid"@);
    assert("_uq"@.len() != "query"@.len());
    assert("_uq"@ != "query"@);
    crate::json::law_set_then_get(query, "wts"@, JsonV::Int(ts as int));
    crate::json::lemma_set_writable(query, "wts"@, JsonV::Int(ts as int));
    crate::json::law_set_other(q1, "w_rid"@, JsonV::Str(w_rid_of(uq, salt)), "wts"@);
    crate::json::law_set_then_get(q1, "w_rid"@, JsonV::Str(w_rid_of(uq, salt)));
    crate::json::law_set_other(q1, "w_rid"@, JsonV::Str(w_rid_of(uq, salt)), k);
    crate::json::law_set_other(query, "wts"@, JsonV::Int(ts as int), k);
    crate::json::law_set_then_get(opts, "_uq"@, JsonV::Str(uq));
    crate::json::lemma_set_writable(opts, "_uq"@, JsonV::Str(uq));
    crate::json::law_set_then_get(o1, "query"@, signed);
    crate::json::law_set_other(o1, "query"@, signed, "_uq"@);
}

/// Signs `opts` with the salt of the session state at time `ts`.
pub fn enc_wbi(bench: &Bench, opts: Json, ts: i64) -> (r: Json)
    requires
        sign_ok(opts@),
        state_map(bench.state).contains_key("wbi_salt"@),
    ensures
        r@ == enc_wbi_spec(opts@, ts, state_map(bench.state)["wbi_salt"@]),
{
    match state_get(&bench.state, "wbi_salt") {
        Some(salt) => enc_wbi_with_salt(opts, ts, salt.as_str()),
        None => opts,
    }
}


// ---------------------------------------------------------------------------
// The salt.

/// The group `group` of the leftmost match of the regular expression
/// `pattern` in `haystack`: none when the pattern does not compile, does not
/// match, or the group takes no part in the match.
pub uninterp spec fn regex_group(pattern: Seq<char>, haystack: Seq<char>, group: nat) -> Option<Seq<char>>;

/// `s` stands somewhere in `t`.
pub open spec fn is_infix(s: Seq<char>, t: Seq<char>) -> bool {
    exists|i: int| 0 <= i && i + s.len() <= t.len() && #[trigger] t.subrange(i, i + s.len()) == s
}

/// `regex::Regex::new` then `Regex::captures` and `Captures::get`: the text of
/// group `group` of the leftmost match of `pattern` in `haystack`. A matched
/// group is a piece of the haystack.
#[verifier::external_body]
fn regex_capture(pattern: &str, haystack: &str, group: usize) -> (r: Option<String>)
    ensures
        match r {
            Some(s) => regex_group(pattern@, haystack@, group as nat) == Some(s@) && is_infix(s@, haystack@),
            None => regex_group(pattern@, haystack@, group as nat) is None,
        },
{
    let re = regex::Regex::new(pattern).ok()?;
    let caps = re.captures(haystack)?;
    Some(caps.get(group)?.as_str().to_owned())
}

/// The pattern of an image url whose file name is a key.
pub const WBI_KEY_PATTERN: &'static str = "https://i0\\.hdslb\\.com/bfs/wbi/(\\w+)\\.png";

/// The keys in the two image urls, joined, when both match the pattern.
pub open spec fn parse_ae_spec(img: Seq<char>, sub: Seq<char>) -> Option<Seq<char>> {
    match (regex_group(WBI_KEY_PATTERN@, img, 1), regex_group(WBI_KEY_PATTERN@, sub, 1)) {
        (Some(a), Some(b)) => Some(a + b),
        _ => None,
    }
}

/// The keys of the two image urls, joined, when both urls match.
pub fn wbi_parse_ae(imgurl: &str, suburl: &str) -> (r: Option<String>)
    ensures
        match r {
            Some(s) => parse_ae_spec(imgurl@, suburl@) == Some(s@),
            None => parse_ae_spec(imgurl@, suburl@) is None,
        },
{
    let img = regex_capture(WBI_KEY_PATTERN, imgurl, 1)?;
    let sub = regex_capture(WBI_KEY_PATTERN, suburl, 1)?;
    let mut r = img;
    push_str(&mut r, sub.as_str());
    Some(r)
}

/// The UTF-8 bytes of a text.
pub open spec fn utf8(s: Seq<char>) -> Seq<u8> {
    vstd::utf8::encode_utf8(s)
}

/// A url whose bytes `n-36 .. n-4` can be cut out (`n` its byte length): the
/// place of the key when the url does not match the pattern.
pub open spec fn fallback_ok(u: Seq<char>) -> bool {
    let b = utf8(u);
    &&& b.len() >= 36
    &&& vstd::utf8::is_char_boundary(b, b.len() - 36)
    &&& vstd::utf8::is_char_boundary(b, b.len() - 4)
}

/// Bytes `n-36 .. n-4` of a url.
pub open spec fn fallback_key(u: Seq<char>) -> Seq<u8> {
    let b = utf8(u);
    b.subrange(b.len() - 36, b.len() - 4)
}

/// The bytes of the raw key: the keys of both urls when both match the
/// pattern, else the pieces of both urls where the keys stand.
pub open spec fn raw_key(img: Seq<char>, sub: Seq<char>) -> Seq<u8> {
    match parse_ae_spec(img, sub) {
        Some(a) => utf8(a),
        None => fallback_key(img) + fallback_key(sub),
    }
}

/// The bytes of `ae` at the positions listed in `oe`, in that order, for the
/// positions that fall inside `ae`.
pub open spec fn mixin(ae: Seq<u8>, oe: Seq<i64>) -> Seq<u8>
    decreases oe.len(),
{
    if oe.len() == 0 {
        Seq::empty()
    } else {
        let x = oe.last();
        mixin(ae, oe.drop_last()) + if 0 <= x < ae.len() {
            seq![ae[x as int]]
        } else {
            Seq::<u8>::empty()
        }
    }
}

/// Bytes below 128, read as characters.
pub open spec fn ascii_text(bs: Seq<u8>) -> Seq<char> {
    Seq::new(bs.len(), |i: int| bs[i] as char)
}

/// The mixing table of the workbench data: `wbi_oe`, read as `i64`s.
pub open spec fn oe_table(data: JsonV) -> Seq<i64> {
    let a = data.get("wbi_oe"@)->Array_0;
    Seq::new(a.len(), |i: int| a[i].as_i64().unwrap())
}

/// The workbench data has a mixing table: an array of integers that fit `i64`.
pub open spec fn oe_ok(data: JsonV) -> bool {
    &&& data.get("wbi_oe"@) is Array
    &&& forall|i: int| 0 <= i < data.get("wbi_oe"@)->Array_0.len() ==> (#[trigger] data.get("wbi_oe"@)->Array_0[i]).as_i64() is Some
}

/// The mixed bytes can be read one character each and give 32 of them.
pub open spec fn mixin_ok(ae: Seq<u8>, oe: Seq<i64>) -> bool {
    &&& mixin(ae, oe).len() >= 32
    &&& forall|i: int| 0 <= i < mixin(ae, oe).len() ==> #[trigger] mixin(ae, oe)[i] < 128
}

/// The inputs on which the salt is computed without a panic.
pub open spec fn salt_ok(img: Seq<char>, sub: Seq<char>, oe: Seq<i64>) -> bool {
    &&& parse_ae_spec(img, sub) is None ==> fallback_ok(img) && fallback_ok(sub)
    &&& mixin_ok(raw_key(img, sub), oe)
}

/// The salt: the first 32 mixed characters of the raw key.
pub open spec fn salt_spec(img: Seq<char>, sub: Seq<char>, oe: Seq<i64>) -> Seq<char> {
    ascii_text(mixin(raw_key(img, sub), oe).take(32))
}

/// A salt is 32 characters long, on every input that gives one.
pub proof fn law_salt_is_32_chars(img: Seq<char>, sub: Seq<char>, oe: Seq<i64>)
    requires
        salt_ok(img, sub, oe),
    ensures
        salt_spec(img, sub, oe).len() == 32,
{
}

/// The mixing table of the workbench data, when it has one.
pub fn wbi_oe(data: &Json) -> (r: Option<Vec<i64>>)
    ensures
        match r {
            Some(v) => oe_ok(data@) && v@ == oe_table(data@),
            None => !oe_ok(data@),
        },
{
    match data.get_key("wbi_oe").as_array() {
        None => None,
        Some(a) => {
            let ghost items = data@.get("wbi_oe"@)->Array_0;
            let mut out: Vec<i64> = Vec::new();
            let mut i: usize = 0;
            while i < a.len()
                invariant
                    items == crate::json::views(a@),
                    items == data@.get("wbi_oe"@)->Array_0,
                    i <= a.len(),
                    out@ == Seq::new(i as nat, |j: int| items[j].as_i64().unwrap()),
                    forall|j: int| 0 <= j < i ==> (#[trigger] items[j]).as_i64() is Some,
                decreases a.len() - i,
            {
                match a[i].as_i64() {
                    Some(x) => {
                        out.push(x);
                        assert(out@ =~= Seq::new((i + 1) as nat, |j: int| items[j].as_i64().unwrap()));
                    },
                    None => {
                        assert(items[i as int] == a@[i as int]@);
                        assert(!((data@.get("wbi_oe"@)->Array_0[i as int]).as_i64() is Some));
                        return None;
                    },
                }
                i = i + 1;
            }
            Some(out)
        },
    }
}

/// The raw key bytes, or none where cutting the fallback pieces would panic.
pub fn raw_key_bytes(imgurl: &str, suburl: &str) -> (r: Option<Vec<u8>>)
    ensures
        match r {
            Some(b) => (parse_ae_spec(imgurl@, suburl@) is None ==> fallback_ok(imgurl@) && fallback_ok(suburl@))
                && b@ == raw_key(imgurl@, suburl@),
            None => parse_ae_spec(imgurl@, suburl@) is None && !(fallback_ok(imgurl@) && fallback_ok(suburl@)),
        },
{
    match wbi_parse_ae(imgurl, suburl) {
        Some(ae) => Some(ae.as_str().as_bytes_vec()),
        None => {
            let a = fallback_bytes(imgurl)?;
            let b = fallback_bytes(suburl)?;
            let mut r = a;
            let mut bb = b;
            r.append(&mut bb);
            Some(r)
        },
    }
}

/// Bytes `n-36 .. n-4` of `u`, when they can be cut out.
fn fallback_bytes(u: &str) -> (r: Option<Vec<u8>>)
    ensures
        match r {
            Some(b) => fallback_ok(u@) && b@ == fallback_key(u@),
            None => !fallback_ok(u@),
        },
{
    let bytes = u.as_bytes();
    let n = bytes.len();
    if n < 36 || !u.is_char_boundary(n - 36) || !u.is_char_boundary(n - 4) {
        return None;
    }
    let mut out: Vec<u8> = Vec::new();
    let mut i: usize = n - 36;
    while i < n - 4
        invariant
            n == utf8(u@).len(),
            bytes@ == utf8(u@),
            n >= 36,
            n - 36 <= i <= n - 4,
            out@ == utf8(u@).subrange(n - 36, i as int),
        decreases n - 4 - i,
    {
        out.push(bytes[i]);
        assert(out@ =~= utf8(u@).subrange(n - 36, i + 1));
        i = i + 1;
    }
    Some(out)
}

/// The salt that signs queries, from the two image urls and the mixing table.
pub fn salt_from_key(ae: &Vec<u8>, oe: &Vec<i64>) -> (r: String)
    requires
        mixin_ok(ae@, oe@),
    ensures
        r@ == ascii_text(mixin(ae@, oe@).take(32)),
{
    let mut mixed: Vec<u8> = Vec::new();
    let mut i: usize = 0;
    while i < oe.len()
        invariant
            i <= oe.len(),
            mixed@ == mixin(ae@, oe@.take(i as int)),
        decreases oe.len() - i,
    {
        let x = oe[i];
        assert(oe@.take(i + 1).drop_last() =~= oe@.take(i as int));
        if 0 <= x && (x as u64) < (ae.len() as u64) {
            mixed.push(ae[x as usize]);
        }
        proof {
            let prev = mixin(ae@, oe@.take(i as int));
            if 0 <= x < ae.len() {
                assert(mixed@ =~= prev + seq![ae@[x as int]]);
            } else {
                assert(mixed@ =~= prev + Seq::<u8>::empty());
            }
        }
        i = i + 1;
    }
    assert(oe@.take(oe.len() as int) =~= oe@);
    let mut r = String::new();
    let mut j: usize = 0;
    while j < 32
        invariant
            mixed@ == mixin(ae@, oe@),
            mixin_ok(ae@, oe@),
            j <= 32,
            r@ == ascii_text(mixed@.take(j as int)),
        decreases 32 - j,
    {
        let b = mixed[j];
        assert(b < 128);
        crate::text::push_char(&mut r, b as char);
        assert(r@ =~= ascii_text(mixed@.take(j + 1)));
        j = j + 1;
    }
    r
}

/// The salt that signs queries, computed from the urls of the two images of
/// the nav answer and the mixing table of the workbench.
pub fn wbi_salt_compute(bench: &Bench, imgurl: &str, suburl: &str) -> (r: String)
    requires
        oe_ok(bench.data@),
        salt_ok(imgurl@, suburl@, oe_table(bench.data@)),
    ensures
        r@ == salt_spec(imgurl@, suburl@, oe_table(bench.data@)),
{
    match (raw_key_bytes(imgurl, suburl), wbi_oe(&bench.data)) {
        (Some(ae), Some(oe)) => salt_from_key(&ae, &oe),
        _ => String::new(),
    }
}

/// The salt from the mixing table of `data`, or none on the inputs where computing it would panic: the
/// mixing table is missing, the fallback pieces cannot be cut, or the mixed
/// characters are not 32 single-byte ones.
pub fn try_salt_of_data(data: &Json, imgurl: &str, suburl: &str) -> (r: Option<String>)
    ensures
        match r {
            Some(s) => oe_ok(data@) && salt_ok(imgurl@, suburl@, oe_table(data@))
                && s@ == salt_spec(imgurl@, suburl@, oe_table(data@)),
            None => !(oe_ok(data@) && salt_ok(imgurl@, suburl@, oe_table(data@))),
        },
{
    let oe = wbi_oe(data)?;
    let ae = raw_key_bytes(imgurl, suburl)?;
    let ghost m = mixin(ae@, oe@);
    let mut mixed_len: usize = 0;
    let mut i: usize = 0;
    #[verifier::loop_isolation(false)]
    while i < oe.len()
        invariant
            i <= oe.len(),
            mixed_len as int == mixin(ae@, oe@.take(i as int)).len(),
            mixed_len <= i,
            forall|j: int| 0 <= j < mixed_len ==> #[trigger] mixin(ae@, oe@.take(i as int))[j] < 128,
        decreases oe.len() - i,
    {
        let x = oe[i];
        assert(oe@.take(i + 1).drop_last() =~= oe@.take(i as int));
        let ghost prev = mixin(ae@, oe@.take(i as int));
        if 0 <= x && (x as u64) < (ae.len() as u64) {
            if ae[x as usize] >= 128 {
                proof {
                    lemma_mixin_prefix(ae@, oe@, i as int + 1);
                    let b = mixin(ae@, oe@.take(i + 1));
                    assert(b =~= prev + seq![ae@[x as int]]);
                    assert(b[mixed_len as int] == ae@[x as int]);
                    assert(mixin(ae@, oe@).take(b.len() as int)[mixed_len as int] == mixin(ae@, oe@)[mixed_len as int]);
                    assert(mixin(ae@, oe@)[mixed_len as int] == ae@[x as int]);
                    assert(mixed_len < mixin(ae@, oe@).len());
                    assert(!mixin_ok(ae@, oe@));
                }
                return None;
            }
            mixed_len = mixed_len + 1;
            proof {
                assert(mixin(ae@, oe@.take(i + 1)) =~= prev + seq![ae@[x as int]]);
            }
        } else {
            proof {
                assert(mixin(ae@, oe@.take(i + 1)) =~= prev + Seq::<u8>::empty());
            }
        }
        i = i + 1;
    }
    assert(oe@.take(oe.len() as int) =~= oe@);
    if mixed_len < 32 {
        return None;
    }
    Some(salt_from_key(&ae, &oe))
}

/// The salt, or none on the inputs where computing it would panic: the
/// mixing table is missing, the fallback pieces cannot be cut, or the mixed
/// characters are not 32 single-byte ones.
pub fn try_wbi_salt_compute(bench: &Bench, imgurl: &str, suburl: &str) -> (r: Option<String>)
    ensures
        match r {
            Some(s) => oe_ok(bench.data@) && salt_ok(imgurl@, suburl@, oe_table(bench.data@))
                && s@ == salt_spec(imgurl@, suburl@, oe_table(bench.data@)),
            None => !(oe_ok(bench.data@) && salt_ok(imgurl@, suburl@, oe_table(bench.data@))),
        },
{
    try_salt_of_data(&bench.data, imgurl, suburl)
}

/// What is mixed from a prefix of the table is a prefix of what is mixed.
pub proof fn lemma_mixin_prefix(ae: Seq<u8>, oe: Seq<i64>, n: int)
    requires
        0 <= n <= oe.len(),
    ensures
        mixin(ae, oe.take(n)).len() <= mixin(ae, oe).len(),
        mixin(ae, oe.take(n)) == mixin(ae, oe).take(mixin(ae, oe.take(n)).len() as int),
    decreases oe.len() - n,
{
    if n < oe.len() {
        lemma_mixin_prefix(ae, oe, n + 1);
        assert(oe.take(n + 1).drop_last() =~= oe.take(n));
        let a = mixin(ae, oe.take(n));
        let b = mixin(ae, oe.take(n + 1));
        assert(b.take(a.len() as int) =~= a);
        assert(mixin(ae, oe).take(b.len() as int).take(a.len() as int) =~= mixin(ae, oe).take(a.len() as int));
    } else {
        assert(oe.take(n) =~= oe);
        assert(mixin(ae, oe).take(mixin(ae, oe).len() as int) =~= mixin(ae, oe));
    }
}


// ---------------------------------------------------------------------------
// The cookie and the session state.

/// The workbench data names the cookies in `cookie_state`, an array of strings.
pub open spec fn cookie_ok(data: JsonV) -> bool {
    &&& data.get("cookie_state"@) is Array
    &&& forall|i: int| 0 <= i < data.get("cookie_state"@)->Array_0.len() ==> (#[trigger] data.get("cookie_state"@)->Array_0[i]) is Str
}

/// `name=value` for each named cookie that the state holds, in order.
pub open spec fn cookie_parts(names: Seq<JsonV>, st: Map<Seq<char>, Seq<char>>) -> Seq<Seq<char>>
    decreases names.len(),
{
    if names.len() == 0 {
        Seq::empty()
    } else {
        let prev = cookie_parts(names.drop_last(), st);
        let k = names.last()->Str_0;
        if st.contains_key(k) {
            prev.push(k + "="@ + st[k])
        } else {
            prev
        }
    }
}

/// The cookie header: the parts joined by `; `.
pub open spec fn cookie_spec(data: JsonV, st: Map<Seq<char>, Seq<char>>) -> Seq<char> {
    join(cookie_parts(data.get("cookie_state"@)->Array_0, st), "; "@)
}

/// The cookie header for a request: each cookie named in the workbench data
/// that the session state holds, as `name=value`, joined by `; `.
pub fn gen_cookie(bench: &Bench) -> (r: String)
    requires
        cookie_ok(bench.data@),
    ensures
        r@ == cookie_spec(bench.data@, state_map(bench.state)),
{
    let ghost st = state_map(bench.state);
    let names = match bench.data.get_key("cookie_state").as_array() {
        Some(a) => a,
        None => {
            return String::new();
        },
    };
    let ghost ns = bench.data@.get("cookie_state"@)->Array_0;
    let mut parts: Vec<String> = Vec::new();
    let mut i: usize = 0;
    while i < names.len()
        invariant
            ns == crate::json::views(names@),
            cookie_ok(bench.data@),
            ns == bench.data@.get("cookie_state"@)->Array_0,
            st == state_map(bench.state),
            i <= names.len(),
            Seq::new(parts@.len(), |j: int| parts@[j]@) == cookie_parts(ns.take(i as int), st),
        decreases names.len() - i,
    {
        let ghost before = Seq::new(parts@.len(), |j: int| parts@[j]@);
        assert(ns.take(i + 1).drop_last() =~= ns.take(i as int));
        assert(ns[i as int] is Str);
        match names[i].as_str() {
            Some(k) => {
                match state_get(&bench.state, k) {
                    Some(v) => {
                        let mut p = String::from_str(k);
                        push_str(&mut p, "=");
                        push_str(&mut p, v.as_str());
                        parts.push(p);
                        assert(Seq::new(parts@.len(), |j: int| parts@[j]@) =~= before.push(k@ + "="@ + v@));
                    },
                    None => {},
                }
            },
            None => {},
        }
        i = i + 1;
    }
    assert(ns.take(names.len() as int) =~= ns);
    join_strings(&parts, "; ")
}

/// What the session state still lacks before a request can be made.
pub struct StateNeeds {
    /// No `Domain`.
    pub domain: bool,
    /// No `wbi_salt`: the salt has to be fetched.
    pub wbi_salt: bool,
    /// No `buvid3`: a uvid has to be fetched.
    pub buvid3: bool,
}

/// What the session state lacks.
pub fn state_needs(state: &StateData) -> (r: StateNeeds)
    ensures
        r.domain == !state_map(*state).contains_key("Domain"@),
        r.wbi_salt == !state_map(*state).contains_key("wbi_salt"@),
        r.buvid3 == !state_map(*state).contains_key("buvid3"@),
{
    StateNeeds {
        domain: state_get(state, "Domain").is_none(),
        wbi_salt: state_get(state, "wbi_salt").is_none(),
        buvid3: state_get(state, "buvid3").is_none(),
    }
}

/// The state with what it lacked filled in: `Domain` as `.bilibili.com`,
/// then the fetched salt, then the fetched uvid.
pub open spec fn filled_state(
    m: Map<Seq<char>, Seq<char>>,
    salt: Seq<char>,
    uvid: Seq<char>,
) -> Map<Seq<char>, Seq<char>> {
    let m1 = if m.contains_key("Domain"@) {
        m
    } else {
        m.insert("Domain"@, ".bilibili.com"@)
    };
    let m2 = if m.contains_key("wbi_salt"@) {
        m1
    } else {
        m1.insert("wbi_salt"@, salt)
    };
    if m.contains_key("buvid3"@) {
        m2
    } else {
        m2.insert("buvid3"@, uvid)
    }
}

/// The state is complete: a request can go.
pub open spec fn state_complete(m: Map<Seq<char>, Seq<char>>) -> bool {
    m.contains_key("Domain"@) && m.contains_key("wbi_salt"@) && m.contains_key("buvid3"@)
}

/// The state to commit before a request is retried: none when the state is
/// complete (the request goes ahead), else the state with what it lacked
/// filled in from the fetched salt and uvid (each fetched only when lacking).
pub fn fill_state(state: &StateData, salt: Option<String>, uvid: Option<String>) -> (r: Option<StateData>)
    requires
        !state_map(*state).contains_key("wbi_salt"@) ==> salt is Some,
        !state_map(*state).contains_key("buvid3"@) ==> uvid is Some,
    ensures
        match r {
            None => state_complete(state_map(*state)),
            Some(s) => !state_complete(state_map(*state)) && state_map(s) == filled_state(
                state_map(*state),
                match salt {
                    Some(x) => x@,
                    None => Seq::empty(),
                },
                match uvid {
                    Some(x) => x@,
                    None => Seq::empty(),
                },
            ),
        },
{
    let needs = state_needs(state);
    if !needs.domain && !needs.wbi_salt && !needs.buvid3 {
        return None;
    }
    let mut s = crate::bench::state_clone(state);
    if needs.domain {
        s = crate::bench::state_update(&s, String::from_str("Domain"), String::from_str(".bilibili.com"));
    }
    if needs.wbi_salt {
        match salt {
            Some(x) => {
                s = crate::bench::state_update(&s, String::from_str("wbi_salt"), x);
            },
            None => {},
        }
    }
    if needs.buvid3 {
        match uvid {
            Some(x) => {
                s = crate::bench::state_update(&s, String::from_str("buvid3"), x);
            },
            None => {},
        }
    }
    Some(s)
}

/// The uvid of a `spi` answer: the string at `data.b_3`.
pub fn uvid_from_spi(spi: Json) -> (r: Result<String, WbiError>)
    ensures
        match r {
            Ok(u) => spi@.get("data"@).get("b_3"@) == JsonV::Str(u@),
            Err(e) => e is UvidInvalid && !(spi@.get("data"@).get("b_3"@) is Str),
        },
{
    match spi.get_key("data").get_key("b_3").as_str() {
        Some(u) => Ok(String::from_str(u)),
        None => Err(WbiError::UvidInvalid),
    }
}

/// The salt from a `nav` answer and the mixing table of `data`: computed from the urls at
/// `data.wbi_img.img_url` and `data.wbi_img.sub_url`.
pub fn salt_from_nav_data(data: &Json, nav: &Json) -> (r: Result<String, WbiError>)
    ensures
        ({
            let img = nav@.get("data"@).get("wbi_img"@).get("img_url"@);
            let sub = nav@.get("data"@).get("wbi_img"@).get("sub_url"@);
            match r {
                Ok(salt) => img is Str && sub is Str && oe_ok(data@) && salt_ok(
                    img->Str_0,
                    sub->Str_0,
                    oe_table(data@),
                ) && salt@ == salt_spec(img->Str_0, sub->Str_0, oe_table(data@)),
                Err(WbiError::ImgUrlInvalid) => !(img is Str),
                Err(WbiError::SubUrlInvalid) => img is Str && !(sub is Str),
                Err(WbiError::SaltUnavailable) => img is Str && sub is Str && !(oe_ok(data@)
                    && salt_ok(img->Str_0, sub->Str_0, oe_table(data@))),
                _ => false,
            }
        }),
{
    let w = nav.get_key("data").get_key("wbi_img");
    let img = match w.get_key("img_url").as_str() {
        Some(x) => x,
        None => {
            return Err(WbiError::ImgUrlInvalid);
        },
    };
    let sub = match w.get_key("sub_url").as_str() {
        Some(x) => x,
        None => {
            return Err(WbiError::SubUrlInvalid);
        },
    };
    match try_salt_of_data(data, img, sub) {
        Some(salt) => Ok(salt),
        None => Err(WbiError::SaltUnavailable),
    }
}

/// The salt from a `nav` answer: computed from the urls at
/// `data.wbi_img.img_url` and `data.wbi_img.sub_url`.
pub fn wbi_salt_from_nav(bench: &Bench, nav: &Json) -> (r: Result<String, WbiError>)
    ensures
        ({
            let img = nav@.get("data"@).get("wbi_img"@).get("img_url"@);
            let sub = nav@.get("data"@).get("wbi_img"@).get("sub_url"@);
            match r {
                Ok(salt) => img is Str && sub is Str && oe_ok(bench.data@) && salt_ok(
                    img->Str_0,
                    sub->Str_0,
                    oe_table(bench.data@),
                ) && salt@ == salt_spec(img->Str_0, sub->Str_0, oe_table(bench.data@)),
                Err(WbiError::ImgUrlInvalid) => !(img is Str),
                Err(WbiError::SubUrlInvalid) => img is Str && !(sub is Str),
                Err(WbiError::SaltUnavailable) => img is Str && sub is Str && !(oe_ok(bench.data@)
                    && salt_ok(img->Str_0, sub->Str_0, oe_table(bench.data@))),
                _ => false,
            }
        }),
{
    salt_from_nav_data(&bench.data, nav)
}


// ---------------------------------------------------------------------------
// A request.

/// A request ready to be sent: what the network layer needs.
pub struct RequestPlan {
    /// The HTTP method.
    pub method: String,
    /// The url, without the query.
    pub url: String,
    /// The `Cookie` header.
    pub cookie: String,
    /// The `Referer` header.
    pub referer: String,
    /// The `User-Agent` header.
    pub user_agent: String,
    /// The query parameters.
    pub query: Json,
}

/// The API table entry at `api_path` under `api` of the workbench data.
pub open spec fn api_entry(data: JsonV, api_path: JsonV) -> JsonV {
    at_spec(data.get("api"@), api_path)
}

/// The entry asks for signed queries.
pub open spec fn uses_wbi(api: JsonV) -> bool {
    api.get("wbi"@) == JsonV::Bool(true)
}

/// The inputs on which a request is prepared without a panic.
pub open spec fn request_ok(data: JsonV, st: Map<Seq<char>, Seq<char>>, api_path: JsonV, opts: JsonV) -> bool {
    let api = api_entry(data, api_path);
    &&& at_ok(api_path)
    &&& api.get("url"@) is Str
    &&& cookie_ok(data)
    &&& data.get("headers"@).get("REFERER"@) is Str
    &&& data.get("headers"@).get("USER_AGENT"@) is Str
    &&& uses_wbi(api) ==> sign_ok(opts) && st.contains_key("wbi_salt"@)
}

/// The options after signing, when the entry asks for it.
pub open spec fn signed_opts(data: JsonV, st: Map<Seq<char>, Seq<char>>, api_path: JsonV, opts: JsonV, ts: i64) -> JsonV {
    if uses_wbi(api_entry(data, api_path)) {
        enc_wbi_spec(opts, ts, st["wbi_salt"@])
    } else {
        opts
    }
}

/// The request for the API at `api_path` with `opts`, at time `ts`: the method
/// of the entry (`GET` when it names none), its url, the cookie header, the
/// referer and user agent of the workbench, and the query of the options,
/// signed when the entry asks for it.
pub open spec fn plan_spec(
    data: JsonV,
    st: Map<Seq<char>, Seq<char>>,
    api_path: JsonV,
    opts: JsonV,
    ts: i64,
    r: RequestPlan,
) -> bool {
    let api = api_entry(data, api_path);
    &&& r.method@ == match api.get("method"@) {
        JsonV::Str(m) => m,
        _ => "GET"@,
    }
    &&& r.url@ == api.get("url"@)->Str_0
    &&& r.cookie@ == cookie_spec(data, st)
    &&& r.referer@ == data.get("headers"@).get("REFERER"@)->Str_0
    &&& r.user_agent@ == data.get("headers"@).get("USER_AGENT"@)->Str_0
    &&& r.query@ == signed_opts(data, st, api_path, opts, ts).get("query"@)
}

/// Prepares the request for the API at `api_path` with `opts` at time `ts`.
pub fn prepare_request(bench: &Bench, api_path: Json, opts: Json, ts: i64) -> (r: RequestPlan)
    requires
        request_ok(bench.data@, state_map(bench.state), api_path@, opts@),
    ensures
        plan_spec(bench.data@, state_map(bench.state), api_path@, opts@, ts, r),
{
    let ghost path = api_path@;
    let api = bench.data.get_key("api").at(api_path);
    let wbi = match api.get_key("wbi").as_bool() {
        Some(b) => b,
        None => false,
    };
    let opts = if wbi {
        enc_wbi(bench, opts, ts)
    } else {
        opts
    };
    let method = match api.get_key("method").as_str() {
        Some(m) => String::from_str(m),
        None => String::from_str("GET"),
    };
    let url = match api.get_key("url").as_str() {
        Some(u) => String::from_str(u),
        None => String::new(),
    };
    let headers = bench.data.get_key("headers");
    let referer = match headers.get_key("REFERER").as_str() {
        Some(x) => String::from_str(x),
        None => String::new(),
    };
    let user_agent = match headers.get_key("USER_AGENT").as_str() {
        Some(x) => String::from_str(x),
        None => String::new(),
    };
    let cookie = gen_cookie(bench);
    let query = opts.get_key("query").deep_clone();
    RequestPlan { method, url, cookie, referer, user_agent, query }
}

/// Prepares the request, or none on the inputs where preparing it would
/// panic.
pub fn try_prepare_request(bench: &Bench, api_path: Json, opts: Json, ts: i64) -> (r: Option<RequestPlan>)
    ensures
        match r {
            Some(p) => request_ok(bench.data@, state_map(bench.state), api_path@, opts@)
                && plan_spec(bench.data@, state_map(bench.state), api_path@, opts@, ts, p),
            None => !request_ok(bench.data@, state_map(bench.state), api_path@, opts@),
        },
{
    if !at_is_ok(&api_path) {
        return None;
    }
    let api = bench.data.get_key("api").at(api_path.deep_clone());
    if !api.get_key("url").is_string() {
        return None;
    }
    let headers = bench.data.get_key("headers");
    if !headers.get_key("REFERER").is_string() || !headers.get_key("USER_AGENT").is_string() {
        return None;
    }
    if !cookie_is_ok(&bench.data) {
        return None;
    }
    let wbi = match api.get_key("wbi").as_bool() {
        Some(b) => b,
        None => false,
    };
    if wbi && (!sign_is_ok(&opts) || state_get(&bench.state, "wbi_salt").is_none()) {
        return None;
    }
    Some(prepare_request(bench, api_path, opts, ts))
}

/// Whether the workbench data names its cookies as it should.
pub fn cookie_is_ok(data: &Json) -> (r: bool)
    ensures
        r == cookie_ok(data@),
{
    match data.get_key("cookie_state").as_array() {
        None => false,
        Some(a) => {
            let mut i: usize = 0;
            while i < a.len()
                invariant
                    data@.get("cookie_state"@) == JsonV::Array(crate::json::views(a@)),
                    i <= a.len(),
                    forall|j: int| 0 <= j < i ==> (#[trigger] data@.get("cookie_state"@)->Array_0[j]) is Str,
                decreases a.len() - i,
            {
                if !a[i].is_string() {
                    assert(!(data@.get("cookie_state"@)->Array_0[i as int] is Str));
                    return false;
                }
                i = i + 1;
            }
            true
        },
    }
}

/// Whether signing takes `opts`.
pub fn sign_is_ok(opts: &Json) -> (r: bool)
    ensures
        r == sign_ok(opts@),
{
    match opts {
        Json::Object(ks, vs) => {
            proof {
                lemma_object_view(*ks, *vs);
            }
            if ks.len() != vs.len() {
                return false;
            }
            match opts.get_key("query") {
                Json::Object(qk, qv) => {
                    proof {
                        lemma_object_view(*qk, *qv);
                    }
                    qk.len() == qv.len()
                },
                _ => false,
            }
        },
        _ => false,
    }
}


// ---------------------------------------------------------------------------
// The client and its API handles.

/// The root client base.
pub struct Client {
    /// The workbench that the handles share.
    pub bench: Bench,
    /// Where requests hand state updates back.
    pub rx: tokio::sync::mpsc::Receiver<StateData>,
}

/// Remember user id and do GETs.
pub struct User(pub Bench, pub i64);

/// Remember parent area id and sub area id then do GETs.
pub struct Xlive(pub Bench, pub i64, pub i64);

impl Client {
    /// A client around the API tables `api`.
    pub fn new(api: Json) -> (r: Client)
        ensures
            r.bench.data@ == bench_data_spec(api@),
            state_map(r.bench.state) == crate::bench::no_entries(),
    {
        let (bench, rx) = Bench::new(api);
        Client { bench, rx }
    }

    /// `mid` is *uid*: a handle on the user, with the latest committed state.
    pub fn user(&mut self, mid: i64) -> (r: User)
        ensures
            r.1 == mid,
            r.0.data == final(self).bench.data,
            final(self).bench.data == old(self).bench.data,
            state_map(r.0.state) == state_map(final(self).bench.state),
            r.0.tx == final(self).bench.tx,
            final(self).bench.tx == old(self).bench.tx,
    {
        self.do_sync();
        User(self.bench.share(), mid)
    }

    /// Renaming for logical. `area` is *`parent_area_id`*, `sub` is
    /// *`area_id`*: a handle on the live list, with the latest committed state.
    pub fn xlive(&mut self, area: i64, sub: i64) -> (r: Xlive)
        ensures
            r.1 == area,
            r.2 == sub,
            r.0.data == final(self).bench.data,
            final(self).bench.data == old(self).bench.data,
            state_map(r.0.state) == state_map(final(self).bench.state),
            r.0.tx == final(self).bench.tx,
            final(self).bench.tx == old(self).bench.tx,
    {
        self.do_sync();
        Xlive(self.bench.share(), area, sub)
    }

    /// Takes the state that a request committed, if one waits. (The client
    /// holds a sender of its own channel, so the channel cannot be found
    /// disconnected; the state stays as it is then.)
    fn do_sync(&mut self)
        ensures
            final(self).bench.data == old(self).bench.data,
            final(self).bench.tx == old(self).bench.tx,
    {
        let got = state_try_recv(&mut self.rx);
        self.take_received(got);
    }

    /// Takes `got`, what a look at the channel found: a state that a request
    /// committed replaces the session state; when nothing waits, or every
    /// sender is gone, the state stays. Nothing else changes.
    pub fn take_received(&mut self, got: Received)
        ensures
            final(self).bench.data == old(self).bench.data,
            final(self).bench.tx == old(self).bench.tx,
            final(self).rx == old(self).rx,
            match got {
                Received::State(s) => final(self).bench.state == s,
                _ => final(self).bench.state == old(self).bench.state,
            },
    {
        match got {
            Received::State(s) => {
                self.bench.state = s;
            },
            Received::Empty => {},
            Received::Disconnected => {},
        }
    }
}

/// A path of keys in the API tables, as a JSON array of strings.
pub open spec fn path_spec(a: Seq<char>, b: Seq<char>, c: Seq<char>) -> JsonV {
    JsonV::Array(seq![JsonV::Str(a), JsonV::Str(b), JsonV::Str(c)])
}

fn api_path(a: &str, b: &str, c: &str) -> (r: Json)
    ensures
        r@ == path_spec(a@, b@, c@),
{
    let v: Vec<Json> = vec![
        Json::String(String::from_str(a)),
        Json::String(String::from_str(b)),
        Json::String(String::from_str(c)),
    ];
    proof {
        crate::json::lemma_array_view(v);
        assert(views(v@) =~= seq![JsonV::Str(a@), JsonV::Str(b@), JsonV::Str(c@)]);
    }
    Json::Array(v)
}

fn int_json(n: i64) -> (r: Json)
    ensures
        r@ == JsonV::Int(n as int),
{
    Json::Number(JsonNumber::Int(n as i128))
}

fn str_json(t: &str) -> (r: Json)
    ensures
        r@ == JsonV::Str(t@),
{
    Json::String(String::from_str(t))
}

/// `{"query": q}`.
pub open spec fn with_query(q: JsonV) -> JsonV {
    JsonV::Null.set("query"@, q)
}

fn query_opts(q: Json) -> (r: Json)
    ensures
        r@ == with_query(q@),
{
    let mut o = Json::Null;
    o.set_key(String::from_str("query"), q);
    o
}

/// Sets one more key of an object under construction.
fn put(obj: &mut Json, k: &str, v: Json)
    requires
        crate::json::writable(old(obj)@),
    ensures
        final(obj)@ == old(obj)@.set(k@, v@),
        crate::json::writable(final(obj)@),
{
    proof {
        crate::json::lemma_set_writable(obj@, k@, v@);
    }
    obj.set_key(String::from_str(k), v);
}

/// The options of the user info request.
pub open spec fn info_opts_spec(mid: i64) -> JsonV {
    with_query(
        JsonV::Null.set("mid"@, JsonV::Int(mid as int)).set("token"@, JsonV::Str(""@)).set(
            "platform"@,
            JsonV::Str("web"@),
        ).set("web_location"@, JsonV::Int(1550101)),
    )
}

/// The options of the latest videos request.
pub open spec fn latest_videos_opts_spec(mid: i64) -> JsonV {
    with_query(
        JsonV::Null.set("mobi_app"@, JsonV::Str("web"@)).set("type"@, JsonV::Int(1)).set(
            "biz_id"@,
            JsonV::Int(mid as int),
        ).set("oid"@, JsonV::Str(""@)).set("otype"@, JsonV::Int(2)).set("ps"@, JsonV::Int(2)).set(
            "direction"@,
            JsonV::Bool(false),
        ).set("desc"@, JsonV::Bool(true)).set("sort_field"@, JsonV::Int(1)).set("tid"@, JsonV::Int(0)).set(
            "with_current"@,
            JsonV::Bool(false),
        ),
    )
}

/// The options of the recent posts request.
pub open spec fn recent_posts_opts_spec(mid: i64) -> JsonV {
    with_query(
        JsonV::Null.set("host_uid"@, JsonV::Int(mid as int)).set("offset_dynamic_id"@, JsonV::Int(0)).set(
            "need_top"@,
            JsonV::Int(0),
        ),
    )
}

/// The options of the live list request.
pub open spec fn list_opts_spec(area: i64, sub: i64, pn: i64) -> JsonV {
    with_query(
        JsonV::Null.set("parent_area_id"@, JsonV::Int(area as int)).set("area_id"@, JsonV::Int(sub as int)).set(
            "page"@,
            JsonV::Int(pn as int),
        ).set("sort_type"@, JsonV::Str("sort_type_291"@)).set("platform"@, JsonV::Str("web"@)),
    )
}

/// The options of the user info request of user `mid`.
pub fn info_opts(mid: i64) -> (r: Json)
    ensures
        r@ == info_opts_spec(mid),
{
    let mut q = Json::Null;
    put(&mut q, "mid", int_json(mid));
    put(&mut q, "token", str_json(""));
    put(&mut q, "platform", str_json("web"));
    put(&mut q, "web_location", int_json(1550101));
    query_opts(q)
}

/// The options of the live list request of area `area`, sub-area `sub`,
/// page `pn`.
pub fn list_opts(area: i64, sub: i64, pn: i64) -> (r: Json)
    ensures
        r@ == list_opts_spec(area, sub, pn),
{
    let mut q = Json::Null;
    put(&mut q, "parent_area_id", int_json(area));
    put(&mut q, "area_id", int_json(sub));
    put(&mut q, "page", int_json(pn));
    put(&mut q, "sort_type", str_json("sort_type_291"));
    put(&mut q, "platform", str_json("web"));
    query_opts(q)
}

impl User {
    /// The API path and options of the user info request (see
    /// *api_info/user:info/info*).
    pub fn info(&self) -> (r: (Json, Json))
        ensures
            r.0@ == path_spec("user"@, "info"@, "info"@),
            r.1@ == info_opts_spec(self.1),
    {
        (api_path("user", "info", "info"), info_opts(self.1))
    }

    /// The API path and options of the latest videos request.
    pub fn latest_videos(&self) -> (r: (Json, Json))
        ensures
            r.0@ == JsonV::Array(seq![JsonV::Str("unstable"@), JsonV::Str("videos"@)]),
            r.1@ == latest_videos_opts_spec(self.1),
    {
        let mut q = Json::Null;
        put(&mut q, "mobi_app", str_json("web"));
        put(&mut q, "type", int_json(1));
        put(&mut q, "biz_id", int_json(self.1));
        put(&mut q, "oid", str_json(""));
        put(&mut q, "otype", int_json(2));
        put(&mut q, "ps", int_json(2));
        put(&mut q, "direction", Json::Bool(false));
        put(&mut q, "desc", Json::Bool(true));
        put(&mut q, "sort_field", int_json(1));
        put(&mut q, "tid", int_json(0));
        put(&mut q, "with_current", Json::Bool(false));
        let v: Vec<Json> = vec![str_json("unstable"), str_json("videos")];
        proof {
            crate::json::lemma_array_view(v);
            assert(views(v@) =~= seq![JsonV::Str("unstable"@), JsonV::Str("videos"@)]);
        }
        (Json::Array(v), query_opts(q))
    }

    /// The API path and options of the recent posts request (see
    /// *api_info/user:info/dynamic*).
    pub fn recent_posts(&self) -> (r: (Json, Json))
        ensures
            r.0@ == path_spec("user"@, "info"@, "dynamic"@),
            r.1@ == recent_posts_opts_spec(self.1),
    {
        let mut q = Json::Null;
        put(&mut q, "host_uid", int_json(self.1));
        put(&mut q, "offset_dynamic_id", int_json(0));
        put(&mut q, "need_top", int_json(0));
        (api_path("user", "info", "dynamic"), query_opts(q))
    }
}

impl Xlive {
    /// The API path and options of the live list request for page `pn` (see
    /// *api_info/xlive:info/get_list*).
    pub fn list(&self, pn: i64) -> (r: (Json, Json))
        ensures
            r.0@ == path_spec("xlive"@, "info"@, "get_list"@),
            r.1@ == list_opts_spec(self.1, self.2, pn),
    {
        (api_path("xlive", "info", "get_list"), list_opts(self.1, self.2, pn))
    }
}

} // verus!
