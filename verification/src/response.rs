//! The answers that end a request at this stage.

use crate::pool::{all_overloaded, is_all_overloaded};
use crate::worker::Worker;
use std::sync::Arc;
use vstd::prelude::*;
use vstd::string::StringExecFns;

verus! {

/// The error code of a request for which the prefill queue has no place.
pub const PD_PREFILL_QUEUE_FULL: &'static str = "pd_prefill_queue_full";

/// The error code of a request that waited too long for a prefill worker.
pub const PD_PREFILL_QUEUE_TIMEOUT: &'static str = "pd_prefill_queue_timeout";

/// An error answer.
#[derive(Debug)]
pub struct Response {
    /// The HTTP status.
    pub status: u16,
    /// The error code.
    pub code: String,
    /// The message for people.
    pub message: String,
    /// The gateway sheds load: the answer is terminal, and the request is not tried again.
    pub shed: bool,
}

/// The contents of a [`Response`].
pub struct ResponseView {
    pub status: u16,
    pub code: Seq<char>,
    pub message: Seq<char>,
    pub shed: bool,
}

impl View for Response {
    type V = ResponseView;

    open spec fn view(&self) -> ResponseView {
        ResponseView {
            status: self.status,
            code: self.code@,
            message: self.message@,
            shed: self.shed,
        }
    }
}

/// An answer that is no shed.
pub open spec fn error_view(status: u16, code: Seq<char>, message: Seq<char>) -> ResponseView {
    ResponseView { status, code, message, shed: false }
}

/// The answer for a model that nobody serves.
pub open spec fn not_found_view(model: Seq<char>) -> ResponseView {
    error_view(404, "model_not_found"@, "No available workers for model: "@ + model)
}

/// The answer for a model whose workers are all vetoed for overload.
pub open spec fn shed_view(model: Seq<char>) -> ResponseView {
    ResponseView {
        status: 503,
        code: "no_available_workers"@,
        message: "All workers are overloaded for model: "@ + model,
        shed: true,
    }
}

fn error_response(status: u16, code: &str, message: &str) -> (response: Response)
    ensures
        response@ == error_view(status, code@, message@),
{
    Response { status, code: code.to_owned(), message: message.to_owned(), shed: false }
}

/// The gateway failed.
pub fn internal_error(code: &str, message: &str) -> (response: Response)
    ensures
        response@ == error_view(500, code@, message@),
{
    error_response(500, code, message)
}

/// The request cannot be served as it is.
pub fn bad_request(code: &str, message: &str) -> (response: Response)
    ensures
        response@ == error_view(400, code@, message@),
{
    error_response(400, code, message)
}

/// There is no room for the request now.
pub fn too_many_requests(code: &str, message: &str) -> (response: Response)
    ensures
        response@ == error_view(429, code@, message@),
{
    error_response(429, code, message)
}

/// Nobody serves the model.
pub fn model_not_found(model_id: &str) -> (response: Response)
    ensures
        response@ == not_found_view(model_id@),
{
    let mut message: String = "No available workers for model: ".to_owned();
    message.append(model_id);
    error_response(404, "model_not_found", message.as_str())
}

/// The shed of a pool that is wholly vetoed for overload. An empty pool is not shed.
pub fn shed_if_all_overloaded(candidates: &Vec<Arc<Worker>>, model_id: &str) -> (shed: Option<
    Response,
>)
    ensures
        shed is Some <==> all_overloaded(candidates@),
        shed matches Some(response) ==> response@ == shed_view(model_id@),
{
    if !is_all_overloaded(candidates) {
        return None;
    }
    let mut message: String = "All workers are overloaded for model: ".to_owned();
    message.append(model_id);
    Some(Response { status: 503, code: "no_available_workers".to_owned(), message, shed: true })
}

} // verus!
