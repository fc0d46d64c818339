//! The shared workbench of a client: the API tables, the session state, and
//! the channel on which requests hand state updates back to the client.
use std::sync::Arc;
use vstd::prelude::*;
use crate::json::{Json, JsonNumber, JsonV, lemma_array_view, views};

verus! {

/// The session state: cookie values and the signing salt, by name.
pub type StateData = im::HashMap<String, String>;

#[verifier::external_type_specification]
#[verifier::external_body]
#[verifier::reject_recursive_types(K)]
#[verifier::reject_recursive_types(V)]
#[verifier::reject_recursive_types(S)]
pub struct ExImHashMap<K, V, S>(im::HashMap<K, V, S>);

#[verifier::external_type_specification]
#[verifier::external_body]
#[verifier::reject_recursive_types(T)]
pub struct ExStateSender<T>(tokio::sync::mpsc::Sender<T>);

#[verifier::external_type_specification]
#[verifier::external_body]
#[verifier::reject_recursive_types(T)]
pub struct ExStateReceiver<T>(tokio::sync::mpsc::Receiver<T>);

/// What an `im::HashMap<String, String>` maps each key to.
pub uninterp spec fn state_map(m: im::HashMap<String, String>) -> Map<Seq<char>, Seq<char>>;

/// The map with no keys.
pub open spec fn no_entries() -> Map<Seq<char>, Seq<char>> {
    Map::empty()
}

/// `im::HashMap::new`: an empty map.
#[verifier::external_body]
pub(crate) fn state_new() -> (r: StateData)
    ensures
        state_map(r) == no_entries(),
{
    im::HashMap::new()
}

/// `im::HashMap::get`, with the value copied out: the value that `k` maps to.
#[verifier::external_body]
pub(crate) fn state_get(m: &StateData, k: &str) -> (r: Option<String>)
    ensures
        match r {
            Some(v) => state_map(*m).contains_key(k@) && state_map(*m)[k@] == v@,
            None => !state_map(*m).contains_key(k@),
        },
{
    m.get(k).cloned()
}

/// `im::HashMap::update`: a new map, `m` with `k` mapped to `v`.
#[verifier::external_body]
pub(crate) fn state_update(m: &StateData, k: String, v: String) -> (r: StateData)
    ensures
        state_map(r) == state_map(*m).insert(k@, v@),
{
    m.update(k, v)
}

/// `im::HashMap::clone`: a map with the same entries.
#[verifier::external_body]
pub(crate) fn state_clone(m: &StateData) -> (r: StateData)
    ensures
        state_map(r) == state_map(*m),
{
    m.clone()
}

/// `tokio::sync::mpsc::channel` with room for one state.
#[verifier::external_body]
fn state_channel() -> (r: (tokio::sync::mpsc::Sender<StateData>, tokio::sync::mpsc::Receiver<StateData>))
{
    tokio::sync::mpsc::channel(1)
}

/// `Sender::try_send`: offers a state to the client without waiting; whether
/// it is taken depends on the channel (it holds one state), so nothing is
/// stated of it.
#[verifier::external_body]
fn state_try_send(tx: &tokio::sync::mpsc::Sender<StateData>, s: StateData) {
    let _ = tx.try_send(s);
}

/// `Sender::clone`: another handle on the same channel (the clone holds the
/// same shared channel).
#[verifier::external_body]
fn sender_clone(tx: &tokio::sync::mpsc::Sender<StateData>) -> (r: tokio::sync::mpsc::Sender<StateData>)
    ensures
        r == *tx,
{
    tx.clone()
}

/// What a look at the channel found.
pub enum Received {
    /// A state that a request committed.
    State(StateData),
    /// Nothing waiting.
    Empty,
    /// Every sender is gone.
    Disconnected,
}

/// `Receiver::try_recv`: takes a waiting state, if there is one. What it finds
/// depends on the other holders of the channel, so nothing is stated of it.
#[verifier::external_body]
pub(crate) fn state_try_recv(rx: &mut tokio::sync::mpsc::Receiver<StateData>) -> Received {
    match rx.try_recv() {
        Ok(s) => Received::State(s),
        Err(tokio::sync::mpsc::error::TryRecvError::Empty) => Received::Empty,
        Err(tokio::sync::mpsc::error::TryRecvError::Disconnected) => Received::Disconnected,
    }
}

/// `Arc::clone`: another handle on the same value.
#[verifier::external_body]
fn arc_clone(a: &Arc<Json>) -> (r: Arc<Json>)
    ensures
        r == *a,
{
    a.clone()
}

/// The workbench that a client and its API handles share.
pub struct Bench {
    /// The API tables, the cookie names, the salt mixing table and the
    /// request headers.
    pub data: Arc<Json>,
    /// The session state.
    pub state: StateData,
    /// Where requests hand state updates to the client.
    pub tx: tokio::sync::mpsc::Sender<StateData>,
}


/// The order in which the characters of the image keys are mixed into the salt.
pub open spec fn wbi_oe_spec() -> Seq<int> {
    seq![46, 47, 18, 2, 53, 8, 23, 32, 15, 50, 10, 31, 58, 3, 45, 35, 27, 43, 5, 49, 33, 9, 42, 19, 29, 28, 14, 39, 12, 38, 41, 13, 37, 48, 7, 16, 24, 55, 40, 61, 26, 17, 0, 1, 60, 51, 30, 4, 22, 25, 54, 21, 56, 59, 6, 63, 57, 62, 11, 36, 20, 34, 44, 52]
}

/// The mixing order.
pub fn wbi_oe_table() -> (r: Vec<i64>)
    ensures
        r@.len() == wbi_oe_spec().len(),
        forall|i: int| 0 <= i < r@.len() ==> r@[i] as int == #[trigger] wbi_oe_spec()[i],
{
    let r: Vec<i64> = vec![46, 47, 18, 2, 53, 8, 23, 32, 15, 50, 10, 31, 58, 3, 45, 35, 27, 43, 5, 49, 33, 9, 42, 19, 29, 28, 14, 39, 12, 38, 41, 13, 37, 48, 7, 16, 24, 55, 40, 61, 26, 17, 0, 1, 60, 51, 30, 4, 22, 25, 54, 21, 56, 59, 6, 63, 57, 62, 11, 36, 20, 34, 44, 52];
    assert(r@ =~= seq![46, 47, 18, 2, 53, 8, 23, 32, 15, 50, 10, 31, 58, 3, 45, 35, 27, 43, 5, 49, 33, 9, 42, 19, 29, 28, 14, 39, 12, 38, 41, 13, 37, 48, 7, 16, 24, 55, 40, 61, 26, 17, 0, 1, 60, 51, 30, 4, 22, 25, 54, 21, 56, 59, 6, 63, 57, 62, 11, 36, 20, 34, 44, 52]);
    r
}

/// The login cookies of a workbench that has not logged in: `SESSDATA`,
/// `bili_jct` and `DedeUserID`, all empty.
pub open spec fn login_cookies() -> JsonV {
    JsonV::Null.set("SESSDATA"@, JsonV::Str(Seq::empty())).set("bili_jct"@, JsonV::Str(Seq::empty())).set(
        "DedeUserID"@,
        JsonV::Str(Seq::empty()),
    )
}

/// The workbench data: the API tables under `api`, the cookie names, the
/// mixing order of the salt, the login cookies, and the request headers.
pub open spec fn bench_data_spec(api: JsonV) -> JsonV {
    JsonV::Null.set("api"@, api).set(
        "cookie_state"@,
        JsonV::Array(seq![JsonV::Str("buvid3"@)]),
    ).set(
        "wbi_oe"@,
        JsonV::Array(Seq::new(wbi_oe_spec().len(), |i: int| JsonV::Int(wbi_oe_spec()[i]))),
    ).set("cookies"@, login_cookies()).set(
        "headers"@,
        JsonV::Null.set("REFERER"@, JsonV::Str("https://www.bilibili.com"@)).set(
            "USER_AGENT"@,
            JsonV::Str("Mozilla/5.0"@),
        ),
    )
}

/// `v[k] = x` on an object under construction.
fn put(v: &mut Json, k: &str, x: Json)
    requires
        crate::json::writable(old(v)@),
    ensures
        final(v)@ == old(v)@.set(k@, x@),
        crate::json::writable(final(v)@),
{
    proof {
        crate::json::lemma_set_writable(v@, k@, x@);
    }
    v.set_key(String::from_str(k), x);
}

/// The workbench data built around the API tables `api`.
pub fn bench_data(api: Json) -> (r: Json)
    ensures
        r@ == bench_data_spec(api@),
{
    let mut data = Json::Null;
    data.set_key(String::from_str("api"), api);
    let ghost d1 = data@;
    proof {
        crate::json::lemma_assoc_len(Seq::empty(), Seq::<JsonV>::empty(), "api"@, api@);
    }
    let mut names: Vec<Json> = Vec::new();
    names.push(Json::String(String::from_str("buvid3")));
    proof {
        lemma_array_view(names);
        assert(views(names@) =~= seq![JsonV::Str("buvid3"@)]);
    }
    data.set_key(String::from_str("cookie_state"), Json::Array(names));
    proof {
        crate::json::lemma_assoc_len(d1->Object_0, d1->Object_1, "cookie_state"@, JsonV::Array(seq![JsonV::Str("buvid3"@)]));
    }
    let ghost d2 = data@;
    let table = wbi_oe_table();
    let mut oe: Vec<Json> = Vec::new();
    let mut i: usize = 0;
    while i < table.len()
        invariant
            table@.len() == wbi_oe_spec().len(),
            forall|j: int| 0 <= j < table@.len() ==> table@[j] as int == #[trigger] wbi_oe_spec()[j],
            i <= table.len(),
            oe.len() == i,
            forall|j: int| 0 <= j < i ==> (#[trigger] oe@[j])@ == JsonV::Int(wbi_oe_spec()[j]),
        decreases table.len() - i,
    {
        oe.push(Json::Number(JsonNumber::Int(table[i] as i128)));
        i = i + 1;
    }
    proof {
        lemma_array_view(oe);
        assert(views(oe@) =~= Seq::new(wbi_oe_spec().len(), |j: int| JsonV::Int(wbi_oe_spec()[j])));
    }
    let ghost oev = views(oe@);
    data.set_key(String::from_str("wbi_oe"), Json::Array(oe));
    proof {
        crate::json::lemma_assoc_len(d2->Object_0, d2->Object_1, "wbi_oe"@, JsonV::Array(oev));
    }
    let mut cookies = Json::Null;
    put(&mut cookies, "SESSDATA", Json::String(String::new()));
    put(&mut cookies, "bili_jct", Json::String(String::new()));
    put(&mut cookies, "DedeUserID", Json::String(String::new()));
    proof {
        crate::json::lemma_set_writable(data@, "cookies"@, cookies@);
    }
    data.set_key(String::from_str("cookies"), cookies);
    let mut headers = Json::Null;
    headers.set_key(String::from_str("REFERER"), Json::String(String::from_str("https://www.bilibili.com")));
    proof {
        crate::json::lemma_assoc_len(Seq::empty(), Seq::<JsonV>::empty(), "REFERER"@, JsonV::Str("https://www.bilibili.com"@));
    }
    headers.set_key(String::from_str("USER_AGENT"), Json::String(String::from_str("Mozilla/5.0")));
    data.set_key(String::from_str("headers"), headers);
    data
}

impl Bench {
    /// A workbench around the API tables `api`, with an empty session state
    /// (the first request fills it in), and the receiving end of its state
    /// channel.
    pub fn new(api: Json) -> (r: (Bench, tokio::sync::mpsc::Receiver<StateData>))
        ensures
            r.0.data@ == bench_data_spec(api@),
            state_map(r.0.state) == no_entries(),
    {
        let data = bench_data(api);
        let state = state_new();
        let (tx, rx) = state_channel();
        (Bench { data: Arc::new(data), state, tx }, rx)
    }

    /// Offers `s` as the new session state to the client (the channel holds
    /// one state; an offer to a full channel is dropped).
    pub fn update_state(&self, s: StateData) {
        state_try_send(&self.tx, s);
    }

    /// Changes the session state of this workbench by `change`, and offers
    /// the changed state to the client.
    pub fn commit_state<F: Fn(StateData) -> StateData>(&mut self, change: F)
        requires
            forall|s: StateData| change.requires((s,)),
        ensures
            final(self).data == old(self).data,
            final(self).tx == old(self).tx,
            call_ensures(change, (old(self).state,), final(self).state),
    {
        let mut base = state_new();
        std::mem::swap(&mut base, &mut self.state);
        let changed = change(base);
        self.state = changed;
        let s = state_clone(&self.state);
        state_try_send(&self.tx, s);
    }

    /// Another handle on this workbench: the same data and state, and the
    /// same channel.
    pub fn share(&self) -> (r: Bench)
        ensures
            r.data == self.data,
            state_map(r.state) == state_map(self.state),
            r.tx == self.tx,
    {
        Bench { data: arc_clone(&self.data), state: state_clone(&self.state), tx: sender_clone(&self.tx) }
    }
}

} // verus!
