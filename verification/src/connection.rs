//! One connection, from the bytes of its request to what has to happen next.
//! Reading the request, reading a file and writing the answer are left to the
//! caller; the decisions between them are taken here.

use crate::request::{parse_request_line, request_path, text_of, REQUEST_LIMIT};
use crate::response::{HttpResult, HttpResultView};
use crate::route::{
    lookup, match_route, no_match, Route, RouteAction, RouteActionView, RouteTable, RouteView,
};
use vstd::prelude::*;
use vstd::slice::slice_subrange;
use vstd::string::StringExecFns;

verus! {

/// What the handler of a connection has to do once the request is read.
#[derive(Debug, Clone, PartialEq, Eq)]
pub enum Step {
    /// The request has no request line that is understood: write nothing.
    Ignore,
    /// Write this result.
    Reply(HttpResult),
    /// Read the named file, then write what [`crate::response::serve_file`]
    /// makes of it.
    ReadFile(String),
    /// The rule that covers the path has no meaning. The connection gets no
    /// answer; the failure is reported and touches no other connection. The
    /// payload is the path that was asked for.
    Abandon(String),
}

/// A [`Step`] with its texts as sequences of characters.
pub enum StepView {
    Ignore,
    Reply(HttpResultView),
    ReadFile(Seq<char>),
    Abandon(Seq<char>),
}

impl View for Step {
    type V = StepView;

    open spec fn view(&self) -> StepView {
        match self {
            Step::Ignore => StepView::Ignore,
            Step::Reply(result) => StepView::Reply(result@),
            Step::ReadFile(file) => StepView::ReadFile(file@),
            Step::Abandon(path) => StepView::Abandon(path@),
        }
    }
}

/// What is said of a path that no rule covers.
pub open spec fn unknown_route_message(path: Seq<char>) -> Seq<char> {
    "Route at "@ + path + ", not found!"@
}

/// The step that follows for a request path, given the rule that answers
/// for it: a 404 where there is none, else what the rule asks for.
pub open spec fn step_for_route(path: Seq<char>, found: Option<RouteView>) -> StepView {
    match found {
        None => StepView::Reply(HttpResultView::HttpNotFound(unknown_route_message(path))),
        Some(route) => match route.action {
            RouteActionView::Open(file) => StepView::ReadFile(file),
            RouteActionView::Unhandled => StepView::Abandon(path),
        },
    }
}

/// The step that follows for a request path under a table of rules.
pub open spec fn step_for_path(path: Seq<char>, routes: Seq<RouteView>) -> StepView {
    step_for_route(path, lookup(routes, path))
}

/// The part of a request that is looked at: its first [`REQUEST_LIMIT`]
/// bytes, or all of it where it is shorter.
pub open spec fn head_of(request: Seq<u8>) -> Seq<u8> {
    if request.len() > REQUEST_LIMIT {
        request.subrange(0, REQUEST_LIMIT as int)
    } else {
        request
    }
}

/// The step that follows for the bytes of a request under a table of rules.
pub open spec fn next_step(request: Seq<u8>, routes: Seq<RouteView>) -> StepView {
    match request_path(text_of(head_of(request))) {
        None => StepView::Ignore,
        Some(path) => step_for_path(path, routes),
    }
}

/// Decides what to do about a request path, given the rule that was found
/// to answer for it.
pub fn follow_route(path: String, found: Option<&Route>) -> (step: Step)
    ensures
        step@ == step_for_route(
            path@,
            match found {
                Some(route) => Some(route@),
                None => None,
            },
        ),
{
    match found {
        None => Step::Reply(
            HttpResult::HttpNotFound(
                String::from_str("Route at ").concat(path.as_str()).concat(", not found!"),
            ),
        ),
        Some(route) => match &route.action {
            RouteAction::Open(file) => Step::ReadFile(file.clone()),
            RouteAction::Unhandled => Step::Abandon(path),
        },
    }
}

/// Decides what to do with a connection whose request has been read into
/// `request`: nothing where its head holds no request line, a 404 where no
/// rule covers the path, and otherwise what the first rule that covers it
/// asks for.
pub fn handle_connection(request: &[u8], routes: &RouteTable) -> (step: Step)
    ensures
        step@ == next_step(request@, routes@),
{
    let head = if request.len() > REQUEST_LIMIT {
        slice_subrange(request, 0, REQUEST_LIMIT)
    } else {
        request
    };
    let path = match parse_request_line(head) {
        Some(path) => path,
        None => {
            return Step::Ignore;
        },
    };
    let found = match_route(path.as_str(), routes);
    follow_route(path, found)
}

/// A request for a path that no rule covers is answered with status 404 and
/// a message that names the path.
pub proof fn law_unmatched_path_is_not_found(
    request: Seq<u8>,
    routes: Seq<RouteView>,
    path: Seq<char>,
)
    requires
        request_path(text_of(head_of(request))) == Some(path),
        no_match(routes, path),
    ensures
        next_step(request, routes) == StepView::Reply(
            HttpResultView::HttpNotFound("Route at "@ + path + ", not found!"@),
        ),
        next_step(request, routes)->Reply_0.rendered() == "HTTP/1.1 404 Not Found\r\n\r\n"@ + (
        "Route at "@ + path + ", not found!"@),
{
}

/// A rule without a meaning is never passed over in silence: a request that
/// it answers for gets no result at all, neither a 404 nor a file, and the
/// connection is abandoned.
pub proof fn law_unhandled_rule_abandons(
    request: Seq<u8>,
    routes: Seq<RouteView>,
    path: Seq<char>,
    pattern: Seq<char>,
)
    requires
        request_path(text_of(head_of(request))) == Some(path),
        lookup(routes, path) == Some(
            RouteView { pattern, action: RouteActionView::Unhandled },
        ),
    ensures
        next_step(request, routes) == StepView::Abandon(path),
{
}

} // verus!
