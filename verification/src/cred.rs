//! Credentials of a browser session: the device fingerprint (`buvid_fp`) and
//! the payload that announces it.
use vstd::prelude::*;
use crate::error::{ApiError, ApiResult};
use crate::json::{Json, JsonNumber, JsonV, json_text};
use crate::text::{push_char, radix_chars, radix_text};
use crate::wbi::utf8;

verus! {

#[verifier::external_type_specification]
#[verifier::external_body]
pub struct ExIoError(std::io::Error);

/// The x64 128-bit murmur3 hash of a byte sequence with a seed.
pub uninterp spec fn murmur3_x64_128_of(data: Seq<u8>, seed: u32) -> u128;

/// `murmur3::murmur3_x64_128` reading from the byte slice `data`: the hash of
/// `data` with `seed`. A slice never fails to be read, so the crate's source
/// gives `Ok` for every input.
#[verifier::external_body]
fn murmur3_hash(data: &[u8], seed: u32) -> (r: Result<u128, std::io::Error>)
    ensures
        r is Ok,
        r->Ok_0 == murmur3_x64_128_of(data@, seed),
{
    let mut source = data;
    murmur3::murmur3_x64_128(&mut source, seed)
}

/// `chrono::Local::now().timestamp_millis()`: the milliseconds since the epoch
/// now. Nothing is stated of it: it is the time.
#[verifier::external_body]
fn local_now_millis() -> i64 {
    chrono::Local::now().timestamp_millis()
}

/// The low 64 bits of a hash.
pub open spec fn low_half(m: u128) -> nat {
    (m % 0x1_0000_0000_0000_0000) as nat
}

/// The high 64 bits of a hash.
pub open spec fn high_half(m: u128) -> nat {
    (m / 0x1_0000_0000_0000_0000) as nat
}

/// The fingerprint text of a hash: the hexadecimal text of its low half, then
/// that of its high half, each without its first two digits.
pub open spec fn buvid_fp_of(m: u128) -> Seq<char> {
    radix_text(low_half(m), true).skip(2) + radix_text(high_half(m), true).skip(2)
}

/// Both halves of the hash have at least two hexadecimal digits, so that the
/// first two of each can be dropped.
pub open spec fn fp_hash_ok(m: u128) -> bool {
    low_half(m) >= 16 && high_half(m) >= 16
}

/// The seed of the fingerprint hash.
pub open spec fn fp_seed() -> u32 {
    31
}

/// The hash that the fingerprint of `payload` is made from: that of the bytes
/// of its compact text.
pub open spec fn payload_hash(payload: JsonV) -> u128 {
    murmur3_x64_128_of(utf8(json_text(payload)), fp_seed())
}

/// A number has two hexadecimal digits or more exactly when it is 16 or more.
pub proof fn lemma_hex_len(n: nat)
    ensures
        radix_text(n, true).len() >= 1,
        (radix_text(n, true).len() >= 2) == (n >= 16),
    decreases n,
{
    if n >= 16 {
        lemma_hex_len(n / 16);
    }
}

/// The characters of `v` from position `start` on, as a `String`.
fn string_from(v: &Vec<char>, start: usize) -> (r: String)
    requires
        start <= v.len(),
    ensures
        r@ == v@.skip(start as int),
{
    let mut r = String::new();
    let mut i: usize = start;
    while i < v.len()
        invariant
            start <= i <= v.len(),
            r@ == v@.subrange(start as int, i as int),
        decreases v.len() - i,
    {
        push_char(&mut r, v[i]);
        assert(v@.subrange(start as int, i + 1) == v@.subrange(start as int, i as int).push(v@[i as int]));
        i = i + 1;
    }
    assert(v@.subrange(start as int, v.len() as int) == v@.skip(start as int));
    r
}

/// The fingerprint of a hash `m` whose halves have two digits or more.
pub fn buvid_fp_from_hash(m: u128) -> (r: String)
    requires
        fp_hash_ok(m),
    ensures
        r@ == buvid_fp_of(m),
{
    let lo: u128 = m & 0xffff_ffff_ffff_ffff;
    let hi: u128 = m >> 64u32;
    assert(m & 0xffff_ffff_ffff_ffff == m % 0x1_0000_0000_0000_0000) by (bit_vector);
    assert(m >> 64u32 == m / 0x1_0000_0000_0000_0000) by (bit_vector);
    proof {
        lemma_hex_len(lo as nat);
        lemma_hex_len(hi as nat);
    }
    let hd = radix_chars(lo, true);
    let tl = radix_chars(hi, true);
    let mut r = string_from(&hd, 2);
    let t = string_from(&tl, 2);
    crate::text::push_str(&mut r, t.as_str());
    r
}

/// The device fingerprint of a payload: the murmur3 hash (seed 31) of its
/// compact text, turned into text by [`buvid_fp_of`].
pub fn gen_buvid_fp(payload: &Json) -> (r: ApiResult<String>)
    requires
        fp_hash_ok(payload_hash(payload@)),
    ensures
        r matches Ok(s) && s@ == buvid_fp_of(payload_hash(payload@)),
{
    let text = payload.to_text();
    match murmur3_hash(text.as_str().as_bytes(), 31) {
        Ok(m) => Ok(buvid_fp_from_hash(m)),
        Err(_) => Err(ApiError::general("payload could not be read")),
    }
}

/// [`gen_buvid_fp`] where the hash allows it, else `None`.
pub fn try_gen_buvid_fp(payload: &Json) -> (r: Option<String>)
    ensures
        fp_hash_ok(payload_hash(payload@)) ==> (r matches Some(s) && s@ == buvid_fp_of(
            payload_hash(payload@),
        )),
        !fp_hash_ok(payload_hash(payload@)) ==> r is None,
{
    let text = payload.to_text();
    match murmur3_hash(text.as_str().as_bytes(), 31) {
        Ok(m) => {
            let lo: u128 = m & 0xffff_ffff_ffff_ffff;
            let hi: u128 = m >> 64u32;
            assert(m & 0xffff_ffff_ffff_ffff == m % 0x1_0000_0000_0000_0000) by (bit_vector);
            assert(m >> 64u32 == m / 0x1_0000_0000_0000_0000) by (bit_vector);
            if lo >= 16 && hi >= 16 {
                Some(buvid_fp_from_hash(m))
            } else {
                None
            }
        },
        Err(_) => None,
    }
}

/// The payload that announces a session: the credential data `data` with
/// `df35` set to the session's uuid, `54ef` to `key_54ef` and `5062` to the
/// time in milliseconds, as the compact text under the key `payload`.
pub open spec fn payload_spec(data: JsonV, uuid: Seq<char>, key_54ef: Seq<char>, now_ms: int) -> JsonV {
    let d = data.set("df35"@, JsonV::Str(uuid)).set("54ef"@, JsonV::Str(key_54ef)).set(
        "5062"@,
        JsonV::Int(now_ms),
    );
    JsonV::Object(seq!["payload"@], seq![JsonV::Str(json_text(d))])
}

/// The payload of a session at time `now_ms`, from the credential data
/// `data` (an object, or null).
pub fn gen_payload_at(data: Json, uuid: &str, key_54ef: &str, now_ms: i64) -> (r: Json)
    requires
        crate::json::writable(data@),
    ensures
        r@ == payload_spec(data@, uuid@, key_54ef@, now_ms as int),
{
    let mut d = data;
    let k1 = String::from_str("df35");
    let x1 = Json::String(String::from_str(uuid));
    proof { crate::json::lemma_set_writable(d@, k1@, x1@); }
    d.set_key(k1, x1);
    let k2 = String::from_str("54ef");
    let x2 = Json::String(String::from_str(key_54ef));
    proof { crate::json::lemma_set_writable(d@, k2@, x2@); }
    d.set_key(k2, x2);
    d.set_key(String::from_str("5062"), Json::Number(JsonNumber::Int(now_ms as i128)));
    let text = d.to_text();
    let mut keys: Vec<String> = Vec::new();
    keys.push(String::from_str("payload"));
    let mut vals: Vec<Json> = Vec::new();
    vals.push(Json::String(text));
    proof {
        crate::json::lemma_object_view(keys, vals);
        assert(crate::json::str_views(keys@) =~= seq!["payload"@]);
        assert(crate::json::views(vals@) =~= seq![JsonV::Str(text@)]);
    }
    Json::Object(keys, vals)
}

/// The payload of a session now, from the credential data `data`.
pub fn gen_payload(data: Json, uuid: &str, key_54ef: &str) -> (r: Json)
    requires
        crate::json::writable(data@),
    ensures
        exists|t: i64| r@ == payload_spec(data@, uuid@, key_54ef@, t as int),
{
    let now = local_now_millis();
    gen_payload_at(data, uuid, key_54ef, now)
}

} // verus!
