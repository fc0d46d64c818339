//! Calls of the web API through a prepared HTTP request, and what their
//! answers give.
use vstd::prelude::*;
use crate::error::{ApiError, ApiResult};
use crate::json::{Json, JsonV};
use crate::text::{int_text, int_to_string, push_str};

verus! {

#[verifier::external_type_specification]
#[verifier::external_body]
pub struct ExRequestBuilder(reqwest::RequestBuilder);

/// A prepared request whose answer is a web API answer.
pub struct NetApiCall {
    /// The request.
    pub req: reqwest::RequestBuilder,
}

/// Turns a prepared request into an API call.
pub trait NetApi: Sized {
    /// The API call of this request.
    fn api_call(self) -> NetApiCall;
}

impl NetApi for reqwest::RequestBuilder {
    fn api_call(self) -> (r: NetApiCall)
        ensures
            r.req == self,
    {
        NetApiCall { req: self }
    }
}

/// The message of an answer with an error code: its `msg`, else its
/// `message`, else "detail missed".
pub open spec fn answer_message(resp: JsonV) -> Seq<char> {
    match resp.get("msg"@) {
        JsonV::Str(m) => m,
        _ => match resp.get("message"@) {
            JsonV::Str(m) => m,
            _ => "detail missed"@,
        },
    }
}

/// What an answer gives: with code 0 its `data`, or its `result` when `data`
/// is null; with another code the text "api return code {code}: {message}";
/// with no code the text "api return code null".
pub open spec fn call_outcome(resp: JsonV) -> Result<JsonV, Seq<char>> {
    match resp.get("code"@).as_i64() {
        Some(code) => if code != 0 {
            Err("api return code "@ + int_text(code as int) + ": "@ + answer_message(resp))
        } else if resp.get("data"@) is Null {
            Ok(resp.get("result"@))
        } else {
            Ok(resp.get("data"@))
        },
        None => Err("api return code null"@),
    }
}

impl NetApiCall {
    /// The result of an answer `resp`: its data, or a remote error that
    /// carries the text of [`call_outcome`].
    pub fn outcome(resp: Json) -> (r: ApiResult<Json>)
        ensures
            match (r, call_outcome(resp@)) {
                (Ok(d), Ok(s)) => d@ == s,
                (Err(ApiError::Remote(None, Some(m))), Err(t)) => m@ == t,
                _ => false,
            },
    {
        match resp.get_key("code").as_i64() {
            Some(code) => {
                if code != 0 {
                    let msg = match resp.get_key("msg").as_str() {
                        Some(m) => m,
                        None => match resp.get_key("message").as_str() {
                            Some(m) => m,
                            None => "detail missed",
                        },
                    };
                    let mut text = String::from_str("api return code ");
                    let n = int_to_string(code as i128);
                    push_str(&mut text, n.as_str());
                    push_str(&mut text, ": ");
                    push_str(&mut text, msg);
                    Err(ApiError::remote_err(None, Some(text.as_str())))
                } else if resp.get_key("data").is_null() {
                    Ok(resp.take_key("result"))
                } else {
                    Ok(resp.take_key("data"))
                }
            },
            None => Err(ApiError::remote_err(None, Some("api return code null"))),
        }
    }
}

/// An answer succeeds exactly when its code is 0; it then gives its `data`,
/// or its `result` when `data` is null. Any other code, or none, fails.
pub proof fn law_outcome_by_code(resp: JsonV)
    ensures
        (call_outcome(resp) is Ok) <==> resp.get("code"@).as_i64() == Some(0i64),
        resp.get("code"@).as_i64() == Some(0i64) && !(resp.get("data"@) is Null) ==> call_outcome(resp)
            == Ok::<JsonV, Seq<char>>(resp.get("data"@)),
        resp.get("code"@).as_i64() == Some(0i64) && resp.get("data"@) is Null ==> call_outcome(resp)
            == Ok::<JsonV, Seq<char>>(resp.get("result"@)),
        resp.get("code"@).as_i64() is None ==> call_outcome(resp) == Err::<JsonV, Seq<char>>(
            "api return code null"@,
        ),
{
}

} // verus!
