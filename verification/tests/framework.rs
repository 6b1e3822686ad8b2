use mwf::Address;
use mwf::Error;
use mwf::Host;
use mwf::Method;
use mwf::PageNotFound;
use mwf::Protocol;
use mwf::RequestHandler;
use mwf::RouteMap;
use mwf::RouterBuilder;
use mwf::Router;
use mwf::ServerBuilder;
use mwf::StandardResolver;
use mwf::Status;
use mwf::View;
use mwf::WebFramework;

/// A handler that shows the value bound to one name.
struct Show(&'static str);

impl RequestHandler for Show {
    fn handle(&self, route_map: RouteMap) -> mwf::Result<View> {
        match route_map.get(self.0) {
            Some(value) => Ok(View::raw(format!("{}={}", self.0, value))),
            None => Err(Error::Other(format!("{} is not bound", self.0))),
        }
    }
}

fn pages() -> Router<StandardResolver, Show> {
    let mut builder: RouterBuilder<StandardResolver, Show> = RouterBuilder::new();
    builder.bind(Method::Get, "/user/:name", Show(":name")).expect("a valid route");
    builder.bind(Method::Get, "/broken", Show(":missing")).expect("a valid route");
    Router::from(builder)
}

/// A page that is found is answered with status 200.
#[test]
fn framework_serves_a_page() {
    let framework = WebFramework::new(pages(), PageNotFound);
    let response = framework.handle("/user/ann");
    assert_eq!(Status::Success, response.status);
    assert_eq!(":name=ann", response.body);
}

/// A page whose handler fails is answered with status 500 and the text of
/// the error.
#[test]
fn framework_reports_a_failing_page() {
    let framework = WebFramework::new(pages(), PageNotFound);
    let response = framework.handle("/broken");
    assert_eq!(Status::InternalServerError, response.status);
    assert_eq!(":missing is not bound", response.body);
    assert!(response.content_type.is_none());
}

/// A route that no page accepts goes to the handler for such routes, and
/// is answered with status 404.
#[test]
fn framework_default_not_found_page() {
    let framework = WebFramework::new(pages(), PageNotFound);
    let response = framework.handle("/nowhere");
    assert_eq!(Status::NotFound, response.status);
    assert_eq!("Page Not Found", response.body);
    assert_eq!("text/plain", response.content_type.expect("a media type").essence());
}

/// The handler for routes that are not found is given the requested path.
#[test]
fn framework_hands_the_path_to_the_not_found_page() {
    let framework = WebFramework::new(pages(), Show("path"));
    let response = framework.handle("/a//b/c/");
    assert_eq!(Status::NotFound, response.status);
    assert_eq!("path=a/b/c", response.body);

    let response = framework.handle("one");
    assert_eq!("path=one", response.body);

    let response = framework.handle("/");
    assert_eq!("path=", response.body);
}

/// A failing handler for routes that are not found is answered with
/// status 500.
#[test]
fn framework_reports_a_failing_not_found_page() {
    let framework = WebFramework::new(pages(), Show(":never"));
    let response = framework.handle("/nowhere");
    assert_eq!(Status::InternalServerError, response.status);
    assert_eq!(":never is not bound", response.body);
}

/// The builder starts with no routes, HTTP, and `127.0.0.1:8080`.
#[test]
fn server_builder_defaults() {
    let builder: ServerBuilder<Show> = ServerBuilder::new();
    let (router, protocol, address) = builder.finish();
    assert_eq!(Protocol::Http, protocol);
    assert_eq!(8080, address.port);
    match address.host {
        Host::V4(octets) => assert_eq!([127, 0, 0, 1], octets),
        Host::V6(_) => panic!("the default host is an IPv4 address"),
    }
    assert!(router.handle(Method::Get, "/").is_none());
}

/// `bind` registers for GET and `on` for POST, in the order of the calls.
#[test]
fn server_builder_binds_get_and_post() {
    let builder: ServerBuilder<Show> = ServerBuilder::new();
    let builder = builder.bind("/item/:id", Show(":id")).expect("a valid route");
    let builder = builder.on("/item/:key", Show(":key")).expect("a valid route");
    let builder = builder.proto(Protocol::Http);
    let builder = builder.addr(Address { host: Host::V6([0, 0, 0, 0, 0, 0, 0, 1]), port: 9000 });
    let (router, _protocol, address) = builder.finish();

    assert_eq!(9000, address.port);
    assert!(matches!(address.host, Host::V6(_)));
    let shown = router.handle(Method::Get, "/item/4").expect("a match").expect("a view");
    assert_eq!(":id=4", shown.content);
    let shown = router.handle(Method::Post, "/item/4").expect("a match").expect("a view");
    assert_eq!(":key=4", shown.content);
    assert!(router.handle(Method::Put, "/item/4").is_none());
}

/// A route that repeats a variable stops the configuration.
#[test]
fn server_builder_refuses_a_repeated_variable() {
    let builder: ServerBuilder<Show> = ServerBuilder::new();
    match builder.bind("/:id/x/:id", Show(":id")) {
        Ok(_) => panic!("a repeated variable was bound"),
        Err(error) => assert_eq!(":id", error.variable()),
    }
    let builder: ServerBuilder<Show> = ServerBuilder::new();
    assert!(builder.on(":a?/:a?", Show(":a?")).is_err());
}

/// The address of the local host.
#[test]
fn localhost_address() {
    let address = Address::localhost(80);
    assert_eq!(80, address.port);
    assert!(matches!(address.host, Host::V4([127, 0, 0, 1])));
}
