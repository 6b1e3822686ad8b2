//! A minimal web framework: route resolution, request dispatch, and views
//! whose content can be passed through a chain of decorators.

pub mod builder;
pub mod decorator;
pub mod error;
pub mod framework;
pub mod method;
pub mod mime;
pub mod request_handler;
pub mod resolution;
pub mod routing;
pub mod server;
pub mod text;
pub mod view;

pub use self::builder::{Address, Host, Protocol, ServerBuilder};
pub use self::decorator::Decorator;
pub use self::error::{Error, ErrorModel, Result, RouteSpecError, RouteSpecErrorModel};
pub use self::framework::{PageNotFound, WebFramework};
pub use self::method::{Method, MethodModel};
pub use self::mime::{Mime, MimeModel};
pub use self::request_handler::RequestHandler;
pub use self::resolution::{ResolveParams, Resolver, RouteMap, StandardResolver};
pub use self::routing::{ResolverEntry, Router, RouterBuilder};
pub use self::server::{respond, Response, ResponseModel, Server, Status};
pub use self::view::{View, ViewModel};
