//! The service behind a listening socket: it routes a request and says
//! what to answer, leaving the sending to the transport.

use std::sync::Arc;
use vstd::prelude::*;
use vstd::string::StringExecFns;
use vstd::view::View as _;
use crate::error::Result;
use crate::method::Method;
use crate::mime::Mime;
use crate::mime::MimeModel;
use crate::request_handler::outcome_model;
use crate::request_handler::RequestHandler;
use crate::resolution::Resolver;
use crate::routing::dispatched;
use crate::routing::Router;
use crate::text::segments;
use crate::view::View;

verus! {

/// The status of a response.
#[derive(Clone, Copy, Debug, PartialEq, Eq, Structural)]
pub enum Status {
    /// 200: the request was routed and handled.
    Success,
    /// 404: no route accepted the request.
    NotFound,
    /// 500: the handler failed.
    InternalServerError,
}

impl Status {
    /// The status code.
    pub open spec fn spec_code(self) -> u16 {
        match self {
            Status::Success => 200,
            Status::NotFound => 404,
            Status::InternalServerError => 500,
        }
    }

    /// The status code.
    #[verifier::when_used_as_spec(spec_code)]
    pub fn code(self) -> (code: u16)
        ensures
            code == self.spec_code(),
    {
        match self {
            Status::Success => 200,
            Status::NotFound => 404,
            Status::InternalServerError => 500,
        }
    }
}

/// What to answer to a request.
pub struct Response {
    /// The status of the answer.
    pub status: Status,
    /// The body of the answer.
    pub body: String,
    /// The media type of the body, where one is to be sent.
    pub content_type: Option<Mime>,
}

/// What a [`Response`] is, with its body as a sequence of characters.
pub struct ResponseModel {
    pub status: Status,
    pub body: Seq<char>,
    pub content_type: Option<MimeModel>,
}

impl vstd::view::View for Response {
    type V = ResponseModel;

    open spec fn view(&self) -> ResponseModel {
        ResponseModel {
            status: self.status,
            body: self.body@,
            content_type: self.content_type.deep_view(),
        }
    }
}

/// The body of the answer to a request that no route accepted.
pub open spec fn not_found_body() -> Seq<char> {
    "404\nRequested file not found"@
}

/// The answer that stands for the outcome of routing a request:
/// * no route accepted it: status 404;
/// * the handler failed: status 500, with the text of the error;
/// * the handler gave a view: status 200, with the view's content and
///   media type.
pub open spec fn response_for(
    outcome: Option<core::result::Result<crate::view::ViewModel, crate::error::ErrorModel>>,
) -> ResponseModel {
    match outcome {
        None => ResponseModel {
            status: Status::NotFound,
            body: not_found_body(),
            content_type: None,
        },
        Some(Err(error)) => ResponseModel {
            status: Status::InternalServerError,
            body: error.text(),
            content_type: None,
        },
        Some(Ok(view)) => ResponseModel {
            status: Status::Success,
            body: view.content,
            content_type: Some(view.mime),
        },
    }
}

/// What the outcome of routing a request is: nothing, or what its handler
/// gave.
pub open spec fn routed_model(outcome: Option<Result<View>>) -> Option<
    core::result::Result<crate::view::ViewModel, crate::error::ErrorModel>,
> {
    match outcome {
        None => None,
        Some(result) => Some(outcome_model(result)),
    }
}

/// Says what to answer for the outcome of routing a request.
pub fn respond(outcome: Option<Result<View>>) -> (response: Response)
    ensures
        response@ == response_for(routed_model(outcome)),
{
    match outcome {
        None => Response {
            status: Status::NotFound,
            body: String::from_str("404\nRequested file not found"),
            content_type: None,
        },
        Some(Err(error)) => Response {
            status: Status::InternalServerError,
            body: error.to_string(),
            content_type: None,
        },
        Some(Ok(view)) => Response {
            status: Status::Success,
            body: view.content,
            content_type: Some(view.mime),
        },
    }
}

/// The service of a server: it uses a router to find the page for a
/// request.
pub struct Server<R, H> {
    router: Arc<Router<R, H>>,
}

impl<R: Resolver, H: RequestHandler> Server<R, H> {
    /// The router that this service asks.
    pub closed spec fn router(&self) -> Router<R, H> {
        *self.router
    }

    /// Creates a service that uses `router` to find a page.
    pub fn new(router: Arc<Router<R, H>>) -> (server: Self)
        ensures
            server.router() == *router,
    {
        Server { router }
    }

    /// Routes a request for `path` made with `method`, and says what to
    /// answer.
    pub fn call(&self, method: Method, path: &str) -> (response: Response)
        ensures
            exists|outcome: Option<Result<View>>|
                {
                    &&& #[trigger] dispatched(
                        self.router().entries(),
                        method@,
                        segments(path@),
                        outcome,
                    )
                    &&& response@ == response_for(routed_model(outcome))
                },
    {
        let outcome = self.router.handle(method, path);
        let ghost seen = outcome;
        let response = respond(outcome);
        assert(dispatched(self.router().entries(), method@, segments(path@), seen));
        response
    }
}

} // verus!
