use crate::api::post_pod;
use crate::api::message_views;
use crate::api::Request;
use crate::api::RequestView;
use crate::database::MemDatabase;
use crate::database::Message;
use crate::database::MessageView;
use crate::json::json_string;
use crate::json::json_string_text;
use crate::text::same_text;
use vstd::prelude::*;
use vstd::string::StringExecFns;

verus! {

/// What a request to the admin surface asks for.
#[derive(Debug, Clone, Copy, PartialEq, Eq, Structural)]
pub enum Route {
    /// To change the records of a pod.
    PostPod,
    /// The records of the registry.
    QueryPod,
    /// The rules of the control plane.
    QueryTasks,
    /// Something that is not there.
    NotFound,
}

/// What a request with method `method` for `path` asks for.
pub open spec fn routed(method: Seq<char>, path: Seq<char>) -> Route {
    if method == "POST"@ && path == "/pod"@ {
        Route::PostPod
    } else if method == "GET"@ && path == "/pod"@ {
        Route::QueryPod
    } else if method == "GET"@ && (path == "/rules"@ || path == "/tasks"@) {
        Route::QueryTasks
    } else {
        Route::NotFound
    }
}

/// Finds out what a request with method `method` for `path` asks for.
pub fn route(method: &str, path: &str) -> (r: Route)
    ensures
        r == routed(method@, path@),
{
    if same_text(method, "POST") && same_text(path, "/pod") {
        Route::PostPod
    } else if same_text(method, "GET") && same_text(path, "/pod") {
        Route::QueryPod
    } else if same_text(method, "GET") && (same_text(path, "/rules") || same_text(path, "/tasks")) {
        Route::QueryTasks
    } else {
        Route::NotFound
    }
}

/// The answer to a request that was carried out.
pub open spec fn ok_text() -> Seq<char> {
    "{\"status\":\"ok\"}"@
}

/// The answer to a request that failed, where `reason` is the reason as
/// a JSON string literal.
pub open spec fn framed_error(reason: Seq<char>) -> Seq<char> {
    "{\"status\":\"error\",\"reason\":"@ + reason + "}"@
}

/// The answer to a request that failed for `reason`.
pub open spec fn error_text(reason: Seq<char>) -> Seq<char> {
    framed_error(json_string_text(reason))
}

/// Puts together the answer to a request that failed, where `reason` is
/// the reason as a JSON string literal.
pub fn frame_error(reason: &str) -> (r: String)
    ensures
        r@ == framed_error(reason@),
{
    let mut r = String::from_str("{\"status\":\"error\",\"reason\":");
    r.append(reason);
    r.append("}");
    r
}

/// The answer to a request that was carried out.
pub fn status_ok() -> (r: String)
    ensures
        r@ == ok_text(),
{
    String::from_str("{\"status\":\"ok\"}")
}

/// The answer to a request that failed for `reason`.
pub fn status_error(reason: &str) -> (r: String)
    ensures
        r@ == error_text(reason@),
{
    frame_error(json_string(reason).as_str())
}

/// The answer to a request for something that is not there.
pub fn not_found() -> (r: String)
    ensures
        r@ == error_text("Resource was not found."@),
{
    status_error("Resource was not found.")
}

/// The answer to a request of an operator.
pub open spec fn reply_text(req: RequestView) -> Seq<char> {
    if req.valid() {
        ok_text()
    } else {
        error_text(req.reason())
    }
}

/// The commands that a request of an operator stands for.
pub open spec fn reply_commands(pods: Seq<crate::pod::PodView>, req: RequestView) -> Seq<MessageView> {
    if req.valid() {
        req.commands(pods)
    } else {
        Seq::empty()
    }
}

/// Answers the request of an operator: the commands to send to the
/// registry, and what to tell the operator.
pub fn answer_post_pod(db: &MemDatabase, req: &Request) -> (r: (Vec<Message>, String))
    ensures
        message_views(r.0@) == reply_commands(db@, req@),
        r.1@ == reply_text(req@),
{
    match post_pod(db, req) {
        Ok(messages) => (messages, status_ok()),
        Err(reason) => {
            let none: Vec<Message> = Vec::new();
            assert(message_views(none@) =~= Seq::<MessageView>::empty());
            (none, status_error(reason.as_str()))
        },
    }
}

} // verus!
