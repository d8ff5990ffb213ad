use crate::parsing::{TransformCaseInput, TransformCaseInputView};
use vstd::prelude::*;

verus! {

/// The status of a response that carries the transformed markup.
pub const STATUS_OK: u16 = 200;

/// The status of a response to a request that could not be served.
pub const STATUS_BAD_REQUEST: u16 = 400;

/// The body of the response to a request that names no case.
pub open spec fn invalid_case_message() -> Seq<char> {
    "Invalid value received for target case."@
}

/// The body of the response to a request whose transformation failed.
pub open spec fn failure_message() -> Seq<char> {
    "Failed to parse html content"@
}

/// The response to a request: status and body. A request that names no case
/// is refused whatever its markup holds.
pub open spec fn response_to(request: TransformCaseInputView) -> (u16, Seq<char>) {
    if !request.valid() {
        (STATUS_BAD_REQUEST, invalid_case_message())
    } else {
        match request.outcome() {
            Ok(html) => (STATUS_OK, html),
            Err(_) => (STATUS_BAD_REQUEST, failure_message()),
        }
    }
}

/// Answers one request with a status and a body.
pub fn transform_case_handler(payload: &TransformCaseInput) -> (response: (u16, String))
    ensures
        response.0 == response_to(payload@).0,
        response.1@ == response_to(payload@).1,
{
    if !payload.validate_transform() {
        return (STATUS_BAD_REQUEST, "Invalid value received for target case.".to_owned());
    }
    match payload.transform_case() {
        Ok(html) => (STATUS_OK, html),
        Err(_) => (STATUS_BAD_REQUEST, "Failed to parse html content".to_owned()),
    }
}

} // verus!
