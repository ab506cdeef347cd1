//! The uniform success/failure envelope of the desktop commands.

use vstd::prelude::*;

use crate::text::owned;

verus! {

/// serde_json's JSON value, carried through as optional error details.
#[verifier::external_type_specification]
#[verifier::external_body]
pub struct ExJsonValue(serde_json::Value);

/// The error payload returned to the desktop UI when `ok` is false.
#[derive(Debug, Clone)]
pub struct ApiErrorBody {
    pub code: String,
    pub message: String,
    pub details: Option<serde_json::Value>,
}

/// The envelope of one command's answer: the data on success, the error on
/// failure.
#[derive(Debug, Clone)]
pub struct ApiResponse<T> {
    pub ok: bool,
    pub data: Option<T>,
    pub error: Option<ApiErrorBody>,
}

impl<T> ApiResponse<T> {
    /// A successful answer carrying `data`.
    pub fn success(data: T) -> (r: ApiResponse<T>)
        ensures
            r.ok,
            r.data == Some(data),
            r.error is None,
    {
        ApiResponse { ok: true, data: Some(data), error: None }
    }

    /// A failed answer with the error `code` and `message` and no details.
    pub fn failure(code: &str, message: String) -> (r: ApiResponse<T>)
        ensures
            !r.ok,
            r.data is None,
            r.error matches Some(e) && e.code@ == code@ && e.message == message && e.details is None,
    {
        ApiResponse {
            ok: false,
            data: None,
            error: Some(ApiErrorBody { code: owned(code), message, details: None }),
        }
    }
}

/// The message the UI shows for an error whose chain of causes is `chain`
/// (outermost first): the root cause, the last of the chain.
pub open spec fn root_cause(chain: Seq<String>) -> Seq<char> {
    if chain.len() > 0 {
        chain.last()@
    } else {
        Seq::empty()
    }
}

/// The root cause of an error, so that the UI shows one line rather than the
/// whole chain.
pub fn user_visible_error(chain: &Vec<String>) -> (m: String)
    ensures
        m@ == root_cause(chain@),
{
    if chain.len() > 0 {
        owned(chain[chain.len() - 1].as_str())
    } else {
        String::new()
    }
}

/// A service result as the UI receives it: the data, or an `INTERNAL` error
/// whose message is the root cause of the failure (`chain` lists the error and
/// its causes, outermost first).
pub fn from_anyhow<T>(result: Result<T, Vec<String>>) -> (r: ApiResponse<T>)
    ensures
        match result {
            Ok(d) => r.ok && r.data == Some(d) && r.error is None,
            Err(chain) => {
                &&& !r.ok
                &&& r.data is None
                &&& r.error matches Some(e) && e.code@ == "INTERNAL"@ && e.message@ == root_cause(chain@)
                    && e.details is None
            },
        },
{
    match result {
        Ok(data) => ApiResponse::success(data),
        Err(chain) => {
            let message = user_visible_error(&chain);
            ApiResponse::failure("INTERNAL", message)
        },
    }
}

} // verus!
