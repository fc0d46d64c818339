//! Tagged API requests handed to a task runner, and the tagged results that
//! come back.
use vstd::prelude::*;
use crate::api::ApiRequest;
use crate::error::ApiResult;
use crate::json::Json;

verus! {

/// The tag that pairs a request with its result.
#[derive(Clone)]
pub enum ApiRequestTag {
    Num(i64),
    UNum(u64),
    Str(String),
}

/// Event that emit api request
pub struct ApiRequestEvent {
    /// The request, or the error met while building it.
    pub req: ApiResult<ApiRequest>,
    /// Its tag.
    pub tag: ApiRequestTag,
}

/// Event that report the api result
pub struct ApiTaskResultEvent {
    /// The result.
    pub result: ApiResult<Json>,
    /// The tag of the request.
    pub tag: ApiRequestTag,
}

/// What happens to an emitted request.
pub enum Emitted {
    /// The request goes out as a task, carrying its tag.
    Spawn(ApiRequest, ApiRequestTag),
    /// The request could not be built: its error is reported at once.
    Report(ApiTaskResultEvent),
}

/// What happens to an emitted request: a request that was built goes out as a
/// task; the error of one that was not is reported with its tag.
pub fn emit(ev: ApiRequestEvent) -> (r: Emitted)
    ensures
        match (ev.req, r) {
            (Ok(q), Emitted::Spawn(q2, t)) => q2 == q && t == ev.tag,
            (Err(e), Emitted::Report(res)) => res.result == Err::<Json, _>(e) && res.tag == ev.tag,
            _ => false,
        },
{
    match ev.req {
        Ok(q) => Emitted::Spawn(q, ev.tag),
        Err(e) => Emitted::Report(ApiTaskResultEvent { result: Err(e), tag: ev.tag }),
    }
}

/// The event that reports the result of a finished task.
pub fn finished(result: ApiResult<Json>, tag: ApiRequestTag) -> (r: ApiTaskResultEvent)
    ensures
        r.result == result,
        r.tag == tag,
{
    ApiTaskResultEvent { result, tag }
}

} // verus!
