//! A set of pages served whatever the method of the request, with a page
//! of its own for the routes that none of them accepts.

use vstd::prelude::*;
use vstd::string::StringExecFns;
use vstd::view::View as _;
use crate::error::ErrorModel;
use crate::error::Result;
use crate::method::Method;
use crate::method::MethodModel;
use crate::mime::MimeModel;
use crate::request_handler::outcome_model;
use crate::request_handler::RequestHandler;
use crate::resolution::ResolveParams;
use crate::resolution::RouteMap;
use crate::resolution::StandardResolver;
use crate::routing::dispatched;
use crate::routing::Router;
use crate::server::respond;
use crate::server::response_for;
use crate::server::Response;
use crate::server::ResponseModel;
use crate::server::Status;
use crate::text::join_segments;
use crate::text::joined;
use crate::text::segments;
use crate::text::split_segments;
use crate::view::View;
use crate::view::ViewModel;

verus! {

/// The handler that answers with the text `Page Not Found`, for use where
/// no page of its own is set for the routes that are not found.
pub struct PageNotFound;

impl RequestHandler for PageNotFound {
    open spec fn handles(
        &self,
        bindings: Map<Seq<char>, Seq<char>>,
        outcome: core::result::Result<ViewModel, ErrorModel>,
    ) -> bool {
        outcome == Ok::<ViewModel, ErrorModel>(
            ViewModel { content: "Page Not Found"@, mime: MimeModel::text_plain() },
        )
    }

    fn handle(&self, route_map: RouteMap) -> (outcome: Result<View>) {
        Ok(View::raw("Page Not Found"))
    }
}

/// The bindings handed to the handler of the routes that are not found:
/// the requested path, under the name `path`.
pub open spec fn not_found_bindings(route: Seq<Seq<char>>) -> Map<Seq<char>, Seq<char>> {
    Map::<Seq<char>, Seq<char>>::empty().insert("path"@, joined(route))
}

/// The answer to a route that is not found, given what the handler for
/// such routes made of it: its view with status 404, or status 500 with
/// the text of its error.
pub open spec fn not_found_response(
    shown: core::result::Result<ViewModel, ErrorModel>,
) -> ResponseModel {
    match shown {
        Ok(view) => ResponseModel {
            status: Status::NotFound,
            body: view.content,
            content_type: Some(view.mime),
        },
        Err(error) => ResponseModel {
            status: Status::InternalServerError,
            body: error.text(),
            content_type: None,
        },
    }
}

/// Says what to answer to a route that is not found, given what the
/// handler for such routes made of it.
pub fn respond_not_found(shown: Result<View>) -> (response: Response)
    ensures
        response@ == not_found_response(outcome_model(shown)),
{
    match shown {
        Ok(view) => Response {
            status: Status::NotFound,
            body: view.content,
            content_type: Some(view.mime),
        },
        Err(error) => Response {
            status: Status::InternalServerError,
            body: error.to_string(),
            content_type: None,
        },
    }
}

/// The pages of a site and the handler for the routes that none of them
/// accepts.
pub struct WebFramework<H, N> {
    pages: Router<StandardResolver, H>,
    page_not_found: N,
}

impl<H: RequestHandler, N: RequestHandler> WebFramework<H, N> {
    /// The pages, in the order in which they are tried.
    pub closed spec fn pages(&self) -> Router<StandardResolver, H> {
        self.pages
    }

    /// The handler for the routes that no page accepts.
    pub closed spec fn page_not_found(&self) -> N {
        self.page_not_found
    }

    /// Whether `response` may answer a request for `route`: the answer
    /// to what the first page that accepts the route made of it or, where
    /// no page accepts it, to what the handler for such routes made of the
    /// requested path.
    pub open spec fn answers(&self, route: Seq<Seq<char>>, response: ResponseModel) -> bool {
        exists|outcome: Option<Result<View>>|
            {
                &&& #[trigger] dispatched(self.pages().entries(), MethodModel::Get, route, outcome)
                &&& match outcome {
                    Some(result) => response == response_for(Some(outcome_model(result))),
                    None => exists|shown: Result<View>|
                        {
                            &&& self.page_not_found().handles(
                                not_found_bindings(route),
                                #[trigger] outcome_model(shown),
                            )
                            &&& response == not_found_response(outcome_model(shown))
                        },
                }
            }
    }

    /// Serves `pages`, which are to be bound for GET requests, and hands
    /// what none of them accepts to `page_not_found`.
    pub fn new(pages: Router<StandardResolver, H>, page_not_found: N) -> (framework: Self)
        ensures
            framework.pages() == pages,
            framework.page_not_found() == page_not_found,
    {
        WebFramework { pages, page_not_found }
    }

    /// Handles a request for `path`, whatever its method, and says what
    /// to answer. The path is split on `/`, and empty segments are
    /// dropped.
    pub fn handle(&self, path: &str) -> (response: Response)
        ensures
            self.answers(segments(path@), response@),
    {
        let ghost route = segments(path@);
        let pieces = split_segments(path);
        let whole = join_segments(&pieces);
        let params = ResolveParams { method: Method::Get, route: pieces };
        let outcome = self.pages.dispatch(&params);
        let ghost seen = outcome;
        match outcome {
            Some(result) => {
                let response = respond(Some(result));
                assert(dispatched(self.pages().entries(), MethodModel::Get, route, seen));
                response
            },
            None => {
                let mut map = RouteMap::new();
                map.insert(String::from_str("path"), whole);
                let shown = self.page_not_found.handle(map);
                let ghost kept = shown;
                let response = respond_not_found(shown);
                assert(dispatched(self.pages().entries(), MethodModel::Get, route, seen));
                assert(self.page_not_found().handles(
                    not_found_bindings(route),
                    outcome_model(kept),
                ));
                response
            },
        }
    }
}

} // verus!
