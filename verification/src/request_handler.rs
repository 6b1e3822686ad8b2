//! The handlers to which a router hands the requests it has resolved.

use vstd::prelude::*;
use vstd::view::View as _;
use crate::error::ErrorModel;
use crate::error::Result;
use crate::resolution::RouteMap;
use crate::view::View;
use crate::view::ViewModel;

verus! {

/// What the result of a handler is: the view it made, or its failure.
pub open spec fn outcome_model(outcome: Result<View>) -> core::result::Result<
    ViewModel,
    ErrorModel,
> {
    match outcome {
        Ok(view) => Ok(view@),
        Err(error) => Err(error@),
    }
}

/// The handler for a request. It is only called if the resolver it is
/// bound with has accepted the requested route.
pub trait RequestHandler: Send + Sync {
    /// Whether `outcome` is a result that this handler may give for a
    /// route resolved to `bindings`.
    open spec fn handles(
        &self,
        bindings: Map<Seq<char>, Seq<char>>,
        outcome: core::result::Result<ViewModel, ErrorModel>,
    ) -> bool {
        true
    }

    /// Handles the request and returns the view to display.
    fn handle(&self, route_map: RouteMap) -> (outcome: Result<View>)
        ensures
            self.handles(route_map@, outcome_model(outcome)),
    ;
}

} // verus!
