use mwf::respond;
use mwf::Error;
use mwf::Method;
use mwf::RequestHandler;
use mwf::ResolveParams;
use mwf::RouteMap;
use mwf::Router;
use mwf::RouterBuilder;
use mwf::Server;
use mwf::StandardResolver;
use mwf::Status;
use mwf::View;
use std::sync::Arc;

/// A handler that answers with its own name and the value of one variable.
struct Named {
    name: &'static str,
    variable: &'static str,
}

impl RequestHandler for Named {
    fn handle(&self, route_map: RouteMap) -> mwf::Result<View> {
        let value = match route_map.get(self.variable) {
            Some(value) => value.clone(),
            None => String::from("-"),
        };
        Ok(View::raw(format!("{}:{}", self.name, value)))
    }
}

/// A handler that always fails.
struct Failing;

impl RequestHandler for Failing {
    fn handle(&self, _route_map: RouteMap) -> mwf::Result<View> {
        Err(Error::Other(String::from("out of order")))
    }
}

fn named(name: &'static str, variable: &'static str) -> Named {
    Named { name, variable }
}

fn content(outcome: Option<mwf::Result<View>>) -> String {
    outcome.expect("no route matched").expect("the handler failed").content
}

/// Registration order decides: the first entry that matches is the one
/// whose handler runs.
#[test]
fn first_registered_route_wins() {
    let mut builder: RouterBuilder<StandardResolver, Named> = RouterBuilder::new();
    builder.bind(Method::Get, "foo", named("literal", ":x")).expect("a valid route");
    builder.bind(Method::Get, ":x", named("variable", ":x")).expect("a valid route");
    let router: Router<StandardResolver, Named> = builder.into();

    assert_eq!("literal:-", content(router.handle(Method::Get, "foo")));
    assert_eq!("variable:bar", content(router.handle(Method::Get, "bar")));
}

/// With the order reversed the variable route shadows the literal one.
#[test]
fn registration_order_can_shadow_a_route() {
    let mut builder: RouterBuilder<StandardResolver, Named> = RouterBuilder::new();
    builder.bind(Method::Get, ":x", named("variable", ":x")).expect("a valid route");
    builder.bind(Method::Get, "foo", named("literal", ":x")).expect("a valid route");
    let router = Router::from(builder);

    assert_eq!("variable:foo", content(router.handle(Method::Get, "foo")));
}

/// No entry, or no matching entry, gives nothing.
#[test]
fn unmatched_request_gives_none() {
    let builder: RouterBuilder<StandardResolver, Named> = RouterBuilder::new();
    let router = Router::from(builder);
    assert!(router.handle(Method::Get, "/").is_none());

    let mut builder: RouterBuilder<StandardResolver, Named> = RouterBuilder::new();
    builder.bind(Method::Get, "/a/b", named("ab", ":x")).expect("a valid route");
    let router = Router::from(builder);
    assert!(router.handle(Method::Get, "/a").is_none());
    assert!(router.handle(Method::Get, "/a/b/c").is_none());
    assert!(router.handle(Method::Post, "/a/b").is_none());
    assert!(router.handle(Method::Get, "/a/b").is_some());
}

/// The path of a request is split on slashes, and empty segments dropped.
#[test]
fn handle_normalises_the_path() {
    let mut builder: RouterBuilder<StandardResolver, Named> = RouterBuilder::new();
    builder.bind(Method::Get, "/", named("root", ":x")).expect("a valid route");
    builder.bind(Method::Get, "/user/:name", named("user", ":name")).expect("a valid route");
    let router = Router::from(builder);

    assert_eq!("root:-", content(router.handle(Method::Get, "/")));
    assert_eq!("root:-", content(router.handle(Method::Get, "")));
    assert_eq!("root:-", content(router.handle(Method::Get, "///")));
    assert_eq!("user:ann", content(router.handle(Method::Get, "/user/ann")));
    assert_eq!("user:ann", content(router.handle(Method::Get, "user//ann/")));
}

/// Dispatch takes the segments as they are given.
#[test]
fn dispatch_takes_segments() {
    let mut builder: RouterBuilder<StandardResolver, Named> = RouterBuilder::new();
    builder.bind(Method::Post, "item/:id?", named("item", ":id?")).expect("a valid route");
    let router = Router::from(builder);

    let params = ResolveParams { method: Method::Post, route: vec!["item", "9"] };
    assert_eq!("item:9", content(router.dispatch(&params)));
    let params = ResolveParams { method: Method::Post, route: vec!["item"] };
    assert_eq!("item:", content(router.dispatch(&params)));
    let params = ResolveParams { method: Method::Post, route: vec!["item", "9", "x"] };
    assert!(router.dispatch(&params).is_none());
}

/// The error of a handler is handed on as it is.
#[test]
fn handler_error_is_forwarded() {
    let mut builder: RouterBuilder<StandardResolver, Failing> = RouterBuilder::new();
    builder.bind(Method::Get, "broken", Failing).expect("a valid route");
    let router = Router::from(builder);
    match router.handle(Method::Get, "/broken") {
        Some(Err(Error::Other(text))) => assert_eq!("out of order", text),
        _ => panic!("the error of the handler was not handed on"),
    }
}

/// A route that repeats a variable binds nothing.
#[test]
fn bind_refuses_a_repeated_variable() {
    let mut builder: RouterBuilder<StandardResolver, Named> = RouterBuilder::new();
    let bound = builder.bind(Method::Get, ":a/:a", named("twice", ":a"));
    match bound {
        Ok(()) => panic!("a repeated variable was bound"),
        Err(error) => assert_eq!(":a", error.variable()),
    }
    let router = Router::from(builder);
    assert!(router.handle(Method::Get, "/x/x").is_none());
    assert!(router.handle(Method::Get, "/x").is_none());
}

/// A resolver made by the caller can be bound as it is, or made by a
/// constructor of the caller's.
#[test]
fn bind_with_a_constructor() {
    let mut builder: RouterBuilder<StandardResolver, Named> = RouterBuilder::new();
    let resolver = StandardResolver::compile(Method::Get, "made/by/hand").expect("a valid route");
    builder.bind_resolver(resolver, named("hand", ":x"));
    builder
        .bind_with(
            |_method: Method, spec: Vec<String>| StandardResolver::new(Method::Put, spec),
            Method::Get,
            "always/put",
            named("put", ":x"),
        )
        .expect("a valid route");
    let refused = builder.bind_with(StandardResolver::new, Method::Get, ":v/:v", named("no", ":v"));
    assert!(refused.is_err());
    let router = Router::from(builder);

    assert_eq!("hand:-", content(router.handle(Method::Get, "made/by/hand")));
    assert_eq!("put:-", content(router.handle(Method::Put, "always/put")));
    assert!(router.handle(Method::Get, "always/put").is_none());
}

/// What to answer for each outcome of routing.
#[test]
fn respond_maps_each_outcome() {
    let response = respond(None);
    assert_eq!(Status::NotFound, response.status);
    assert_eq!(404, response.status.code());
    assert_eq!("404\nRequested file not found", response.body);
    assert!(response.content_type.is_none());

    let response = respond(Some(Err(Error::Io(String::from("file not found")))));
    assert_eq!(Status::InternalServerError, response.status);
    assert_eq!(500, response.status.code());
    assert_eq!("file not found", response.body);
    assert!(response.content_type.is_none());

    let response = respond(Some(Ok(View::html(String::from("<p>hi</p>")))));
    assert_eq!(Status::Success, response.status);
    assert_eq!(200, response.status.code());
    assert_eq!("<p>hi</p>", response.body);
    assert_eq!("text/html", response.content_type.expect("a media type").essence());
}

/// The service routes a request and says what to answer.
#[test]
fn server_call_routes_and_answers() {
    let mut builder: RouterBuilder<StandardResolver, Named> = RouterBuilder::new();
    builder.bind(Method::Get, "/hello/:who", named("hello", ":who")).expect("a valid route");
    let server = Server::new(Arc::new(Router::from(builder)));

    let response = server.call(Method::Get, "/hello/world");
    assert_eq!(Status::Success, response.status);
    assert_eq!("hello:world", response.body);
    assert_eq!("text/plain", response.content_type.expect("a media type").essence());

    let response = server.call(Method::Get, "/goodbye");
    assert_eq!(Status::NotFound, response.status);
    assert_eq!("404\nRequested file not found", response.body);
}

/// The text of an error is what is displayed for it.
#[test]
fn error_text() {
    let error = Error::Io(String::from("disk on fire"));
    assert_eq!("disk on fire", error.description());
    assert_eq!("disk on fire", error.to_string());
    let error = Error::Other(String::from("no luck"));
    assert_eq!("no luck", error.description());
    assert_eq!("no luck", error.to_string());
}
