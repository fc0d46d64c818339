//! Workbench data that carries the session cookies itself, under `cookies`,
//! and the cookie header made from them.
use vstd::prelude::*;
use crate::bench::{wbi_oe_spec, wbi_oe_table};
use crate::json::{Json, JsonNumber, JsonV, lemma_array_view, lemma_set_writable, views, writable};
use crate::path_lodash::{Lodash, got_spec, path_views};
use crate::text::{join, join_strings, push_str};
use crate::wbi::{RequestPlan, enc_wbi_spec, enc_wbi_with_salt, sign_is_ok, sign_ok, uses_wbi};

verus! {

/// The cookies that a fresh workbench carries: `buvid3` with the session's
/// id, and the empty login cookies.
pub open spec fn fresh_cookies(buvid3: Seq<char>) -> JsonV {
    JsonV::Null.set("buvid3"@, JsonV::Str(buvid3)).set("SESSDATA"@, JsonV::Str(Seq::empty())).set(
        "bili_jct"@,
        JsonV::Str(Seq::empty()),
    ).set("DedeUserID"@, JsonV::Str(Seq::empty()))
}

/// The headers that every request carries.
pub open spec fn headers_spec() -> JsonV {
    JsonV::Null.set("REFERER"@, JsonV::Str("https://www.bilibili.com"@)).set(
        "USER_AGENT"@,
        JsonV::Str("Mozilla/5.0"@),
    )
}

/// The workbench data: the API tables under `api`, the mixing order of the
/// salt, the cookies, and the request headers.
pub open spec fn cookie_bench_data_spec(api: JsonV, buvid3: Seq<char>) -> JsonV {
    JsonV::Null.set("api"@, api).set(
        "wbi_oe"@,
        JsonV::Array(Seq::new(wbi_oe_spec().len(), |i: int| JsonV::Int(wbi_oe_spec()[i]))),
    ).set("cookies"@, fresh_cookies(buvid3)).set("headers"@, headers_spec())
}

/// `v[k] = x` on an object or on null.
fn put(v: &mut Json, k: &str, x: Json)
    requires
        writable(old(v)@),
    ensures
        final(v)@ == old(v)@.set(k@, x@),
        writable(final(v)@),
{
    proof {
        lemma_set_writable(v@, k@, x@);
    }
    v.set_key(String::from_str(k), x);
}

/// The workbench data built around the API tables `api`, for a session with
/// id `buvid3`.
pub fn cookie_bench_data(api: Json, buvid3: &str) -> (r: Json)
    ensures
        r@ == cookie_bench_data_spec(api@, buvid3@),
{
    let mut data = Json::Null;
    put(&mut data, "api", api);
    let table = wbi_oe_table();
    let mut oe: Vec<Json> = Vec::new();
    let mut i: usize = 0;
    while i < table.len()
        invariant
            table@.len() == wbi_oe_spec().len(),
            forall|j: int| 0 <= j < table@.len() ==> table@[j] as int == #[trigger] wbi_oe_spec()[j],
            i <= table.len(),
            oe.len() == i,
            forall|j: int| 0 <= j < i ==> (#[trigger] oe@[j])@ == JsonV::Int(wbi_oe_spec()[j]),
        decreases table.len() - i,
    {
        oe.push(Json::Number(JsonNumber::Int(table[i] as i128)));
        i = i + 1;
    }
    proof {
        lemma_array_view(oe);
        assert(views(oe@) =~= Seq::new(wbi_oe_spec().len(), |j: int| JsonV::Int(wbi_oe_spec()[j])));
    }
    put(&mut data, "wbi_oe", Json::Array(oe));
    let mut cookies = Json::Null;
    put(&mut cookies, "buvid3", Json::String(String::from_str(buvid3)));
    put(&mut cookies, "SESSDATA", Json::String(String::new()));
    put(&mut cookies, "bili_jct", Json::String(String::new()));
    put(&mut cookies, "DedeUserID", Json::String(String::new()));
    put(&mut data, "cookies", cookies);
    let mut headers = Json::Null;
    put(&mut headers, "REFERER", Json::String(String::from_str("https://www.bilibili.com")));
    put(&mut headers, "USER_AGENT", Json::String(String::from_str("Mozilla/5.0")));
    put(&mut data, "headers", headers);
    data
}

/// The cookies can be read: `cookies` is an object whose values are strings.
pub open spec fn cookies_ok(data: JsonV) -> bool {
    &&& data.get("cookies"@) is Object
    &&& data.get("cookies"@)->Object_0.len() == data.get("cookies"@)->Object_1.len()
    &&& forall|i: int|
        0 <= i < data.get("cookies"@)->Object_1.len() ==> (#[trigger] data.get(
            "cookies"@,
        )->Object_1[i]) is Str
}

/// The `name=value` part of each cookie, in the order of the object.
pub open spec fn cookie_pairs(ks: Seq<Seq<char>>, vs: Seq<JsonV>) -> Seq<Seq<char>> {
    Seq::new(ks.len(), |i: int| ks[i] + "="@ + vs[i]->Str_0)
}

/// The cookie header: the parts of the cookies joined by `; `.
pub open spec fn cookie_header(data: JsonV) -> Seq<char> {
    join(cookie_pairs(data.get("cookies"@)->Object_0, data.get("cookies"@)->Object_1), "; "@)
}

/// The cookie header for a request: each cookie of the data as
/// `name=value`, joined by `; `.
pub fn gen_cookie(data: &Json) -> (r: String)
    requires
        cookies_ok(data@),
    ensures
        r@ == cookie_header(data@),
{
    let ghost ks = data@.get("cookies"@)->Object_0;
    let ghost vs = data@.get("cookies"@)->Object_1;
    let mut parts: Vec<String> = Vec::new();
    match data.get_key("cookies") {
        Json::Object(names, values) => {
            proof {
                crate::json::lemma_object_view(*names, *values);
            }
            let mut i: usize = 0;
            while i < names.len()
                invariant
                    ks == crate::json::str_views(names@),
                    vs == views(values@),
                    ks.len() == vs.len(),
                    forall|j: int| 0 <= j < vs.len() ==> (#[trigger] vs[j]) is Str,
                    i <= names.len(),
                    Seq::new(parts@.len(), |j: int| parts@[j]@) == cookie_pairs(ks, vs).take(
                        i as int,
                    ),
                decreases names.len() - i,
            {
                let ghost before = Seq::new(parts@.len(), |j: int| parts@[j]@);
                assert(vs[i as int] is Str);
                let v = match values[i].as_str() {
                    Some(t) => t,
                    None => "",
                };
                let mut p = String::from_str(names[i].as_str());
                push_str(&mut p, "=");
                push_str(&mut p, v);
                assert(p@ == ks[i as int] + "="@ + vs[i as int]->Str_0);
                let ghost old_parts = parts@;
                parts.push(p);
                assert forall|j: int| 0 <= j < old_parts.len() implies parts@[j]@ == before[j] by {
                    assert(parts@[j] == old_parts[j]);
                }
                assert(ks.len() == names@.len());
                assert(cookie_pairs(ks, vs).len() == names@.len());
                assert(before.len() == i);
                assert(parts@.len() == i + 1);
                assert(cookie_pairs(ks, vs).take(i + 1).len() == i + 1);
                assert(Seq::new(parts@.len(), |j: int| parts@[j]@) =~= cookie_pairs(ks, vs).take(
                    i + 1,
                ));
                i = i + 1;
            }
            assert(cookie_pairs(ks, vs).take(names.len() as int) =~= cookie_pairs(ks, vs));
        },
        _ => {},
    }
    join_strings(&parts, "; ")
}

/// The API table entry at `api_path` under `api` of the data.
pub open spec fn cookie_api_entry(data: JsonV, api_path: Seq<Seq<char>>) -> JsonV {
    got_spec(data.get("api"@), api_path)
}

/// The inputs on which a request is prepared without a panic: the entry has
/// a url, the cookies and headers can be read, and a signed entry has its
/// options and a salt.
pub open spec fn cookie_request_ok(data: JsonV, salt: Option<Seq<char>>, api_path: Seq<Seq<char>>, opts: JsonV) -> bool {
    let api = cookie_api_entry(data, api_path);
    &&& api.get("url"@) is Str
    &&& cookies_ok(data)
    &&& data.get("headers"@).get("REFERER"@) is Str
    &&& data.get("headers"@).get("USER_AGENT"@) is Str
    &&& uses_wbi(api) ==> sign_ok(opts) && salt is Some
}

/// The request for the API at `api_path` with `opts` at time `ts`: the method
/// of the entry (`GET` when it names none), its url, the cookie header of the
/// data, its referer and user agent, and the query of the options, signed
/// with `salt` when the entry asks for it.
pub open spec fn cookie_plan_spec(
    data: JsonV,
    salt: Option<Seq<char>>,
    api_path: Seq<Seq<char>>,
    opts: JsonV,
    ts: i64,
    r: RequestPlan,
) -> bool {
    let api = cookie_api_entry(data, api_path);
    &&& r.method@ == match api.get("method"@) {
        JsonV::Str(m) => m,
        _ => "GET"@,
    }
    &&& r.url@ == api.get("url"@)->Str_0
    &&& r.cookie@ == cookie_header(data)
    &&& r.referer@ == data.get("headers"@).get("REFERER"@)->Str_0
    &&& r.user_agent@ == data.get("headers"@).get("USER_AGENT"@)->Str_0
    &&& r.query@ == (if uses_wbi(api) {
        enc_wbi_spec(opts, ts, salt->0)
    } else {
        opts
    }).get("query"@)
}

/// Prepares the request for the API at `api_path` of the data with `opts` at
/// time `ts`, signing with `salt` where the entry asks for it.
pub fn prepare_cookie_request(data: &Json, salt: Option<&str>, api_path: Vec<&str>, opts: Json, ts: i64) -> (r: RequestPlan)
    requires
        cookie_request_ok(
            data@,
            match salt {
                Some(t) => Some(t@),
                None => None,
            },
            path_views(api_path@),
            opts@,
        ),
    ensures
        cookie_plan_spec(
            data@,
            match salt {
                Some(t) => Some(t@),
                None => None,
            },
            path_views(api_path@),
            opts@,
            ts,
            r,
        ),
{
    let api = data.get_key("api").got(api_path);
    let wbi = match api.get_key("wbi").as_bool() {
        Some(b) => b,
        None => false,
    };
    let opts = if wbi {
        match salt {
            Some(t) => enc_wbi_with_salt(opts, ts, t),
            None => opts,
        }
    } else {
        opts
    };
    let method = match api.get_key("method").as_str() {
        Some(m) => String::from_str(m),
        None => String::from_str("GET"),
    };
    let url = match api.get_key("url").as_str() {
        Some(u) => String::from_str(u),
        None => String::new(),
    };
    let headers = data.get_key("headers");
    let referer = match headers.get_key("REFERER").as_str() {
        Some(x) => String::from_str(x),
        None => String::new(),
    };
    let user_agent = match headers.get_key("USER_AGENT").as_str() {
        Some(x) => String::from_str(x),
        None => String::new(),
    };
    let cookie = gen_cookie(data);
    let query = opts.get_key("query").deep_clone();
    RequestPlan { method, url, cookie, referer, user_agent, query }
}

/// Whether the cookies of the data can be read.
pub fn cookies_are_ok(data: &Json) -> (r: bool)
    ensures
        r == cookies_ok(data@),
{
    match data.get_key("cookies") {
        Json::Object(names, values) => {
            proof {
                crate::json::lemma_object_view(*names, *values);
            }
            if names.len() != values.len() {
                return false;
            }
            let ghost vs = data@.get("cookies"@)->Object_1;
            let mut i: usize = 0;
            while i < values.len()
                invariant
                    vs == views(values@),
                    vs == data@.get("cookies"@)->Object_1,
                    i <= values.len(),
                    forall|j: int| 0 <= j < i ==> (#[trigger] vs[j]) is Str,
                decreases values.len() - i,
            {
                if !values[i].is_string() {
                    assert(!(vs[i as int] is Str));
                    return false;
                }
                i = i + 1;
            }
            true
        },
        _ => false,
    }
}

/// Prepares the request, or none on the inputs where preparing it would
/// panic.
pub fn try_prepare_cookie_request(data: &Json, salt: Option<&str>, api_path: Vec<&str>, opts: Json, ts: i64) -> (r:
    Option<RequestPlan>)
    ensures
        ({
            let sv = match salt {
                Some(t) => Some(t@),
                None => None,
            };
            match r {
                Some(p) => cookie_request_ok(data@, sv, path_views(api_path@), opts@) && cookie_plan_spec(
                    data@,
                    sv,
                    path_views(api_path@),
                    opts@,
                    ts,
                    p,
                ),
                None => !cookie_request_ok(data@, sv, path_views(api_path@), opts@),
            }
        }),
{
    let ghost path = path_views(api_path@);
    let mut probe: Vec<&str> = Vec::new();
    let mut i: usize = 0;
    while i < api_path.len()
        invariant
            i <= api_path.len(),
            path_views(probe@) == path_views(api_path@).take(i as int),
        decreases api_path.len() - i,
    {
        let ghost before = probe@;
        probe.push(api_path[i]);
        assert(path_views(probe@) =~= path_views(api_path@).take(i + 1)) by {
            assert forall|j: int| 0 <= j < before.len() implies probe@[j] == before[j] by {}
            assert(path_views(before) == path_views(api_path@).take(i as int));
            assert(path_views(before).len() == i);
            assert(path_views(api_path@).len() == api_path@.len());
            assert(path_views(api_path@).take(i + 1).len() == i + 1);
            assert(path_views(probe@).len() == i + 1);
        }
        i = i + 1;
    }
    assert(path_views(api_path@).take(api_path.len() as int) =~= path_views(api_path@));
    let api = data.get_key("api").got(probe);
    if !api.get_key("url").is_string() {
        return None;
    }
    if !cookies_are_ok(data) {
        return None;
    }
    let headers = data.get_key("headers");
    if !headers.get_key("REFERER").is_string() || !headers.get_key("USER_AGENT").is_string() {
        return None;
    }
    let wbi = match api.get_key("wbi").as_bool() {
        Some(b) => b,
        None => false,
    };
    if wbi && (!sign_is_ok(&opts) || salt.is_none()) {
        return None;
    }
    Some(prepare_cookie_request(data, salt, api_path, opts, ts))
}

/// The options of the video list request of user `mid`: the first page of
/// thirty, of every type, newest first, with no keyword.
pub open spec fn video_list_opts_spec(mid: i64) -> JsonV {
    JsonV::Null.set(
        "query"@,
        JsonV::Null.set("mid"@, JsonV::Int(mid as int)).set("ps"@, JsonV::Int(30)).set("tid"@, JsonV::Int(0)).set(
            "pn"@,
            JsonV::Int(1),
        ).set("order"@, JsonV::Str("pubdate"@)).set("keyword"@, JsonV::Str(Seq::empty())),
    )
}

/// The options of the video list request of user `mid`.
pub fn video_list_opts(mid: i64) -> (r: Json)
    ensures
        r@ == video_list_opts_spec(mid),
{
    let mut q = Json::Null;
    put(&mut q, "mid", Json::Number(JsonNumber::Int(mid as i128)));
    put(&mut q, "ps", Json::Number(JsonNumber::Int(30)));
    put(&mut q, "tid", Json::Number(JsonNumber::Int(0)));
    put(&mut q, "pn", Json::Number(JsonNumber::Int(1)));
    put(&mut q, "order", Json::String(String::from_str("pubdate")));
    put(&mut q, "keyword", Json::String(String::new()));
    let mut o = Json::Null;
    put(&mut o, "query", q);
    o
}

/// Where a request that may refresh its salt once stands.
#[derive(Clone, Copy)]
pub enum TwiceStage {
    /// Nothing done yet.
    Begin,
    /// The salt is missing and is being fetched.
    FetchingSalt,
    /// The request went out once.
    FirstTry,
    /// The first answer failed; the salt is being fetched again.
    Refreshing,
    /// The request went out a second time.
    SecondTry,
    /// The last answer is the result.
    Done,
}

/// What happened since the last step.
#[derive(Clone, Copy)]
pub enum TwiceEvent {
    /// The request begins; the session state has a salt or not.
    Start { has_salt: bool },
    /// A salt was fetched and committed.
    SaltFetched,
    /// An answer came back, good or not.
    Answered { ok: bool },
}

/// What to do next.
#[derive(Clone, Copy)]
pub enum TwiceAction {
    /// Fetch the salt and commit it.
    FetchSalt,
    /// Send the request.
    Send,
    /// Give back the last answer.
    Finish,
}

/// The next stage and action: a missing salt is fetched first; the request
/// goes out; a failed first answer has the salt fetched again and the
/// request sent once more, whose answer is final; a good answer is final.
pub open spec fn twice_next(stage: TwiceStage, ev: TwiceEvent) -> (TwiceStage, TwiceAction) {
    match (stage, ev) {
        (TwiceStage::Begin, TwiceEvent::Start { has_salt }) => if has_salt {
            (TwiceStage::FirstTry, TwiceAction::Send)
        } else {
            (TwiceStage::FetchingSalt, TwiceAction::FetchSalt)
        },
        (TwiceStage::FetchingSalt, TwiceEvent::SaltFetched) => (TwiceStage::FirstTry, TwiceAction::Send),
        (TwiceStage::FirstTry, TwiceEvent::Answered { ok }) => if ok {
            (TwiceStage::Done, TwiceAction::Finish)
        } else {
            (TwiceStage::Refreshing, TwiceAction::FetchSalt)
        },
        (TwiceStage::Refreshing, TwiceEvent::SaltFetched) => (TwiceStage::SecondTry, TwiceAction::Send),
        (TwiceStage::SecondTry, TwiceEvent::Answered { .. }) => (TwiceStage::Done, TwiceAction::Finish),
        _ => (TwiceStage::Done, TwiceAction::Finish),
    }
}

/// One step of a request that may refresh its salt once.
pub fn twice_step(stage: TwiceStage, ev: TwiceEvent) -> (r: (TwiceStage, TwiceAction))
    ensures
        r == twice_next(stage, ev),
{
    let done = (TwiceStage::Done, TwiceAction::Finish);
    match stage {
        TwiceStage::Begin => match ev {
            TwiceEvent::Start { has_salt: true } => (TwiceStage::FirstTry, TwiceAction::Send),
            TwiceEvent::Start { has_salt: false } => (TwiceStage::FetchingSalt, TwiceAction::FetchSalt),
            _ => done,
        },
        TwiceStage::FetchingSalt => match ev {
            TwiceEvent::SaltFetched => (TwiceStage::FirstTry, TwiceAction::Send),
            _ => done,
        },
        TwiceStage::FirstTry => match ev {
            TwiceEvent::Answered { ok: true } => done,
            TwiceEvent::Answered { ok: false } => (TwiceStage::Refreshing, TwiceAction::FetchSalt),
            _ => done,
        },
        TwiceStage::Refreshing => match ev {
            TwiceEvent::SaltFetched => (TwiceStage::SecondTry, TwiceAction::Send),
            _ => done,
        },
        TwiceStage::SecondTry => done,
        TwiceStage::Done => done,
    }
}

/// A request goes out only when a salt is known: either the session state
/// had one at the start, or one was just fetched. A start without a salt
/// fetches it first.
pub proof fn law_send_needs_salt(stage: TwiceStage, ev: TwiceEvent)
    ensures
        twice_next(stage, ev).1 is Send ==> (stage is Begin && ev == (TwiceEvent::Start { has_salt: true }))
            || ev is SaltFetched,
        stage is Begin && ev == (TwiceEvent::Start { has_salt: false }) ==> twice_next(stage, ev).1 is FetchSalt,
{
}

/// A good first answer is final; a failed one has the salt fetched again.
pub proof fn law_first_answer(ok: bool)
    ensures
        twice_next(TwiceStage::FirstTry, TwiceEvent::Answered { ok }).1 is Finish <==> ok,
        !ok ==> twice_next(TwiceStage::FirstTry, TwiceEvent::Answered { ok }).1 is FetchSalt,
{
}

/// The request goes out at most twice: once it has gone out a second time,
/// whatever happens next finishes, and a finished request stays finished.
pub proof fn law_at_most_two_sends(ev: TwiceEvent)
    ensures
        twice_next(TwiceStage::SecondTry, ev) == (TwiceStage::Done, TwiceAction::Finish),
        twice_next(TwiceStage::Done, ev) == (TwiceStage::Done, TwiceAction::Finish),
{
}

/// What a commit on a state shared behind a lock does once it holds the
/// lock for writing.
#[derive(Clone, Copy)]
pub enum CommitStep {
    /// Store the changed state.
    Store,
    /// Read the state again and make the change anew.
    Retry,
}

/// The changed state is stored when no other writer changed the state since
/// it was read (`unchanged`); otherwise the change is made again.
pub fn commit_step(unchanged: bool) -> (r: CommitStep)
    ensures
        r is Store <==> unchanged,
{
    if unchanged {
        CommitStep::Store
    } else {
        CommitStep::Retry
    }
}

} // verus!
