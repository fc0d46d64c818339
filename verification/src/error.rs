//! The errors of the request API.
use vstd::prelude::*;
use crate::text::{int_text, int_to_string, push_str};

verus! {

#[verifier::external_type_specification]
#[verifier::external_body]
pub struct ExReqwestError(reqwest::Error);

#[verifier::external_type_specification]
#[verifier::external_body]
pub struct ExJoinError(tokio::task::JoinError);

/// The result of an API call.
pub type ApiResult<T> = Result<T, ApiError>;

/// What went wrong with an API call.
#[derive(Debug)]
pub enum ApiError {
    /// The network failed.
    Network(reqwest::Error),
    /// The API answered with an error code and message.
    Remote(Option<i64>, Option<String>),
    /// A task could not be joined.
    Join(tokio::task::JoinError),
    /// Anything else.
    General(String),
}

impl ApiError {
    /// A remote error with the code and message.
    pub fn remote_err(code: Option<i64>, msg: Option<&str>) -> (r: Self)
        ensures
            r matches ApiError::Remote(c, m) && c == code && match (m, msg) {
                (Some(a), Some(b)) => a@ == b@,
                (None, None) => true,
                _ => false,
            },
    {
        ApiError::Remote(
            code,
            match msg {
                Some(m) => Some(String::from_str(m)),
                None => None,
            },
        )
    }

    /// A general error with the message.
    pub fn general(msg: &str) -> (r: Self)
        ensures
            r matches ApiError::General(m) && m@ == msg@,
    {
        ApiError::General(String::from_str(msg))
    }

    /// Whether the network failed.
    pub fn is_network(&self) -> (r: bool)
        ensures
            r == (*self is Network),
    {
        match self {
            ApiError::Network(_) => true,
            _ => false,
        }
    }

    /// The network error, if the network failed.
    pub fn as_network(&self) -> (r: Option<&reqwest::Error>)
        ensures
            match r {
                Some(e) => *self == ApiError::Network(*e),
                None => !(*self is Network),
            },
    {
        match self {
            ApiError::Network(e) => Some(e),
            _ => None,
        }
    }
}

/// What `{:?}` prints for a string: the string quoted, with escapes.
pub uninterp spec fn debug_str(s: Seq<char>) -> Seq<char>;

/// `format!("{:?}", s)` on a string: its quoted text, named by [`debug_str`].
#[verifier::external_body]
fn debug_text(s: &str) -> (r: String)
    ensures
        r@ == debug_str(s@),
{
    format!("{:?}", s)
}

/// `format!("{}", e)` on a network error: its message. Nothing is stated of
/// it: the message is made by the HTTP client from what it met.
#[verifier::external_body]
fn network_text(e: &reqwest::Error) -> String {
    format!("{}", e)
}

/// `format!("{}", e)` on a task that could not be joined: its message.
/// Nothing is stated of it: it tells how the task ended.
#[verifier::external_body]
fn join_text(e: &tokio::task::JoinError) -> String {
    format!("{}", e)
}

/// What `{:?}` prints for an optional code.
pub open spec fn debug_code(c: Option<i64>) -> Seq<char> {
    match c {
        Some(n) => "Some("@ + int_text(n as int) + ")"@,
        None => "None"@,
    }
}

/// What `{:?}` prints for an optional message.
pub open spec fn debug_message(m: Option<Seq<char>>) -> Seq<char> {
    match m {
        Some(t) => "Some("@ + debug_str(t) + ")"@,
        None => "None"@,
    }
}

/// The text of a remote or general error (the other two are the texts of
/// the errors they carry).
pub open spec fn error_text(e: ApiError) -> Seq<char> {
    match e {
        ApiError::Remote(c, m) => "Remote api error code "@ + debug_code(c) + ": "@
            + debug_message(
            match m {
                Some(t) => Some(t@),
                None => None,
            },
        ),
        ApiError::General(m) => m@,
        _ => Seq::empty(),
    }
}

impl ApiError {
    /// The text of the error, as it is displayed.
    pub fn to_text(&self) -> (r: String)
        ensures
            (self is Remote || self is General) ==> r@ == error_text(*self),
    {
        match self {
            ApiError::Network(e) => network_text(e),
            ApiError::Join(e) => join_text(e),
            ApiError::Remote(c, m) => {
                let mut r = String::from_str("Remote api error code ");
                match c {
                    Some(n) => {
                        push_str(&mut r, "Some(");
                        let t = int_to_string(*n as i128);
                        push_str(&mut r, t.as_str());
                        push_str(&mut r, ")");
                    },
                    None => push_str(&mut r, "None"),
                }
                push_str(&mut r, ": ");
                match m {
                    Some(t) => {
                        push_str(&mut r, "Some(");
                        let q = debug_text(t.as_str());
                        push_str(&mut r, q.as_str());
                        push_str(&mut r, ")");
                    },
                    None => push_str(&mut r, "None"),
                }
                r
            },
            ApiError::General(m) => String::from_str(m.as_str()),
        }
    }
}

impl From<reqwest::Error> for ApiError {
    fn from(error: reqwest::Error) -> (r: Self) {
        ApiError::Network(error)
    }
}

impl vstd::std_specs::convert::FromSpecImpl<reqwest::Error> for ApiError {
    open spec fn obeys_from_spec() -> bool {
        true
    }

    open spec fn from_spec(v: reqwest::Error) -> Self {
        ApiError::Network(v)
    }
}

impl From<tokio::task::JoinError> for ApiError {
    fn from(error: tokio::task::JoinError) -> (r: Self) {
        ApiError::Join(error)
    }
}

impl vstd::std_specs::convert::FromSpecImpl<tokio::task::JoinError> for ApiError {
    open spec fn obeys_from_spec() -> bool {
        true
    }

    open spec fn from_spec(v: tokio::task::JoinError) -> Self {
        ApiError::Join(v)
    }
}

} // verus!
