//! Building API requests from the API tables, and reading their answers.
pub mod user;
pub mod xlive;

use vstd::prelude::*;
use crate::api_info::{GetFromPath, walk_keys};
use crate::error::{ApiError, ApiResult};
use crate::json::{Json, JsonV, json_text};
use crate::text::{int_text, int_to_string, push_str, split_on};

verus! {

/// Builds a request from an API table: first the table, then a path in it.
pub struct ApiRequestBuilder {
    /// The API table (`None` until [`ApiRequestBuilder::api`]).
    pub api_info: Option<Json>,
}

/// A request whose method and url are known, taking query parameters.
pub struct ApiRequestParamsBuilder {
    /// The HTTP method, as the table names it.
    pub method: String,
    /// The url.
    pub url: String,
    /// The query parameters, in order.
    pub query: Vec<(String, String)>,
}

/// Store api request that is going to emit.
#[derive(Clone)]
pub struct ApiRequest {
    /// The HTTP method, as the table names it.
    pub method: String,
    /// The url, without the query.
    pub url: String,
    /// The query parameters, in order.
    pub query: Vec<(String, String)>,
    /// Its answer may be cached.
    pub bufferable: bool,
    /// A cached answer must not be used.
    pub invalidate_flag: bool,
}

/// The text at a `/`-separated path of a table.
pub open spec fn text_at(info: JsonV, path: Seq<char>) -> JsonV {
    walk_keys(info, split_on(path, '/'))
}

/// A table entry that can be requested: its method is `get` or `GET` and its
/// url is a string.
pub open spec fn entry_ok(info: JsonV, p: Seq<char>) -> bool {
    &&& text_at(info, p + "/method"@) is Str
    &&& (text_at(info, p + "/method"@)->Str_0 == "get"@ || text_at(info, p + "/method"@)->Str_0 == "GET"@)
    &&& text_at(info, p + "/url"@) is Str
}

/// The views of query pairs.
pub open spec fn pair_views(q: Seq<(String, String)>) -> Seq<(Seq<char>, Seq<char>)> {
    Seq::new(q.len(), |i: int| (q[i].0@, q[i].1@))
}

/// The views of borrowed query pairs.
pub open spec fn ref_pair_views(q: Seq<(&str, &str)>) -> Seq<(Seq<char>, Seq<char>)> {
    Seq::new(q.len(), |i: int| (q[i].0@, q[i].1@))
}

impl ApiRequestBuilder {
    /// A builder without a table.
    pub fn new() -> (r: Self)
        ensures
            r.api_info is None,
    {
        ApiRequestBuilder { api_info: None }
    }

    /// Assign the api table.
    pub fn api(self, info: Json) -> (r: Self)
        ensures
            r.api_info == Some(info),
    {
        ApiRequestBuilder { api_info: Some(info) }
    }

    /// The request of the entry at path `p` of the table: its method at
    /// `p/method` and url at `p/url`.
    pub fn path(self, p: &str) -> (r: ApiRequestParamsBuilder)
        requires
            self.api_info is Some,
            entry_ok(self.api_info->0@, p@),
        ensures
            r.method@ == text_at(self.api_info->0@, p@ + "/method"@)->Str_0,
            r.url@ == text_at(self.api_info->0@, p@ + "/url"@)->Str_0,
            r.query@.len() == 0,
    {
        let mut mpath = String::from_str(p);
        push_str(&mut mpath, "/method");
        let mut upath = String::from_str(p);
        push_str(&mut upath, "/url");
        self.path2(mpath.as_str(), upath.as_str())
    }

    /// The request whose method is at `method_path` and url at `url_path`.
    pub fn path2(self, method_path: &str, url_path: &str) -> (r: ApiRequestParamsBuilder)
        requires
            self.api_info is Some,
            text_at(self.api_info->0@, method_path@) is Str,
            text_at(self.api_info->0@, method_path@)->Str_0 == "get"@ || text_at(self.api_info->0@, method_path@)->Str_0 == "GET"@,
            text_at(self.api_info->0@, url_path@) is Str,
        ensures
            r.method@ == text_at(self.api_info->0@, method_path@)->Str_0,
            r.url@ == text_at(self.api_info->0@, url_path@)->Str_0,
            r.query@.len() == 0,
    {
        let method = self.get_from_path(method_path);
        let url = self.get_from_path(url_path);
        ApiRequestParamsBuilder { method, url, query: Vec::new() }
    }

    /// The text at `path` of the table.
    fn get_from_path(&self, path: &str) -> (r: String)
        requires
            self.api_info is Some,
            text_at(self.api_info->0@, path@) is Str,
        ensures
            r@ == text_at(self.api_info->0@, path@)->Str_0,
    {
        match &self.api_info {
            Some(info) => match info.get_from_path(path).as_str() {
                Some(t) => String::from_str(t),
                None => String::new(),
            },
            None => String::new(),
        }
    }
}

impl ApiRequestParamsBuilder {
    /// Appends the query parameters `query`.
    pub fn query(self, query: &[(&str, &str)]) -> (r: ApiRequestParamsBuilder)
        ensures
            r.method == self.method,
            r.url == self.url,
            pair_views(r.query@) == pair_views(self.query@) + ref_pair_views(query@),
    {
        let ApiRequestParamsBuilder { method, url, query: mut q } = self;
        let ghost start = pair_views(q@);
        let mut i: usize = 0;
        while i < query.len()
            invariant
                i <= query.len(),
                pair_views(q@) == start + ref_pair_views(query@).take(i as int),
            decreases query.len() - i,
        {
            let pair = query[i];
            let k = String::from_str(pair.0);
            let v = String::from_str(pair.1);
            let ghost before = q@;
            q.push((k, v));
            let ghost rhs = start + ref_pair_views(query@).take(i + 1);
            assert(query@.len() == query.len());
            assert(ref_pair_views(query@).take(i + 1).len() == i + 1);
            assert(pair_views(before).len() == before.len());
            assert(rhs.len() == pair_views(q@).len());
            assert forall|j: int| 0 <= j < q@.len() implies rhs[j] == pair_views(q@)[j] by {
                if j < before.len() {
                    assert(q@[j] == before[j]);
                    assert(pair_views(before)[j] == rhs[j]);
                }
            }
            assert(pair_views(q@) =~= rhs);
            i = i + 1;
        }
        assert(ref_pair_views(query@).take(query.len() as int) =~= ref_pair_views(query@));
        ApiRequestParamsBuilder { method, url, query: q }
    }

    fn build(self, bufferable: bool) -> (r: ApiResult<ApiRequest>)
        ensures
            r matches Ok(req) && req.method == self.method && req.url == self.url && req.query
                == self.query && req.bufferable == bufferable && !req.invalidate_flag,
    {
        Ok(
            ApiRequest {
                method: self.method,
                url: self.url,
                query: self.query,
                bufferable,
                invalidate_flag: false,
            },
        )
    }

    /// Finish build progress: a request whose answer may be cached.
    pub fn bufferable(self) -> (r: ApiResult<ApiRequest>)
        ensures
            r matches Ok(req) && req.method == self.method && req.url == self.url && req.query
                == self.query && req.bufferable && !req.invalidate_flag,
    {
        self.build(true)
    }

    /// Finish build progress: a request whose answer is never cached.
    pub fn nobuffer(self) -> (r: ApiResult<ApiRequest>)
        ensures
            r matches Ok(req) && req.method == self.method && req.url == self.url && req.query
                == self.query && !req.bufferable && !req.invalidate_flag,
    {
        self.build(false)
    }
}

/// The message of an answer with an error code: its `msg`, else its
/// `message`, else "detail missed".
pub open spec fn bad_resp_message(resp: JsonV) -> Seq<char> {
    match resp.get("msg"@) {
        JsonV::Str(m) => m,
        _ => match resp.get("message"@) {
            JsonV::Str(m) => m,
            _ => "detail missed"@,
        },
    }
}

/// What an answer gives: with code 0 its `data`, or its `result` when `data`
/// is null; with another code the text "bad resp, code:{code} msg:{msg}";
/// with no code the text "empty response".
pub open spec fn filter_spec(resp: JsonV) -> Result<JsonV, Seq<char>> {
    match resp.get("code"@).as_i64() {
        Some(code) => if code != 0 {
            Err("bad resp, code:"@ + int_text(code as int) + " msg:"@ + bad_resp_message(resp))
        } else if resp.get("data"@) is Null {
            Ok(resp.get("result"@))
        } else {
            Ok(resp.get("data"@))
        },
        None => Err("empty response"@),
    }
}

/// An answer is accepted exactly when its code is 0; it then gives its
/// `data`, or its `result` when `data` is null. Without a code it is an
/// empty response.
pub proof fn law_filter_by_code(resp: JsonV)
    ensures
        (filter_spec(resp) is Ok) <==> resp.get("code"@).as_i64() == Some(0i64),
        resp.get("code"@).as_i64() == Some(0i64) && !(resp.get("data"@) is Null) ==> filter_spec(resp)
            == Ok::<JsonV, Seq<char>>(resp.get("data"@)),
        resp.get("code"@).as_i64() == Some(0i64) && resp.get("data"@) is Null ==> filter_spec(resp)
            == Ok::<JsonV, Seq<char>>(resp.get("result"@)),
        resp.get("code"@).as_i64() is None ==> filter_spec(resp) == Err::<JsonV, Seq<char>>(
            "empty response"@,
        ),
{
}

impl ApiRequest {
    /// Whether a cached answer may be used.
    pub fn reads_cache(&self) -> (r: bool)
        ensures
            r == (self.bufferable && !self.invalidate_flag),
    {
        self.bufferable && !self.invalidate_flag
    }

    /// Whether the answer goes into the cache.
    pub fn writes_cache(&self) -> (r: bool)
        ensures
            r == self.bufferable,
    {
        self.bufferable
    }

    /// The result data of an answer, or the error it reports.
    pub fn filter_result(resp: Json) -> (r: ApiResult<Json>)
        ensures
            match (r, filter_spec(resp@)) {
                (Ok(d), Ok(s)) => d@ == s,
                (Err(ApiError::General(m)), Err(t)) => m@ == t,
                _ => false,
            },
    {
        match resp.get_key("code").as_i64() {
            Some(code) => {
                if code != 0 {
                    let msg = match resp.get_key("msg").as_str() {
                        Some(m) => m,
                        None => match resp.get_key("message").as_str() {
                            Some(m) => m,
                            None => "detail missed",
                        },
                    };
                    let mut text = String::from_str("bad resp, code:");
                    let n = int_to_string(code as i128);
                    push_str(&mut text, n.as_str());
                    push_str(&mut text, " msg:");
                    push_str(&mut text, msg);
                    Err(ApiError::General(text))
                } else if resp.get_key("data").is_null() {
                    Ok(resp.take_key("result"))
                } else {
                    Ok(resp.take_key("data"))
                }
            },
            None => Err(ApiError::general("empty response")),
        }
    }

    /// The answer that a query gives from the cache: the cached answer
    /// `cached` (the cache entry of the request, read as JSON) where a cached
    /// answer may be used, else none, and the request goes out.
    pub fn cached_answer(&self, cached: Option<Json>) -> (r: Option<Json>)
        ensures
            match (r, cached) {
                (Some(a), Some(c)) => self.bufferable && !self.invalidate_flag && a@ == c@,
                (None, Some(_)) => !(self.bufferable && !self.invalidate_flag),
                (None, None) => true,
                _ => false,
            },
    {
        if self.reads_cache() {
            cached
        } else {
            None
        }
    }

    /// What a query gives for the answer `resp`: the result of
    /// [`ApiRequest::filter_result`], and the text that goes into the cache
    /// (the result's compact text, for a successful request whose answer may
    /// be cached).
    pub fn answer(&self, resp: Json) -> (r: (ApiResult<Json>, Option<String>))
        ensures
            match (r.0, filter_spec(resp@)) {
                (Ok(d), Ok(s)) => d@ == s,
                (Err(ApiError::General(m)), Err(t)) => m@ == t,
                _ => false,
            },
            match (r.0, r.1) {
                (Ok(d), Some(t)) => self.bufferable && t@ == json_text(d@),
                (Ok(_), None) => !self.bufferable,
                (Err(_), None) => true,
                _ => false,
            },
    {
        let res = Self::filter_result(resp);
        match res {
            Ok(d) => {
                if self.writes_cache() {
                    let t = d.to_text();
                    (Ok(d), Some(t))
                } else {
                    (Ok(d), None)
                }
            },
            Err(e) => (Err(e), None),
        }
    }

    /// Invalidate cache: the request will not use a cached answer.
    pub fn invalidate(self) -> (r: Self)
        ensures
            r.invalidate_flag,
            r.bufferable == self.bufferable,
            r.method == self.method,
            r.url == self.url,
            r.query == self.query,
    {
        ApiRequest { invalidate_flag: true, ..self }
    }
}

} // verus!
