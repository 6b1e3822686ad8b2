//! The configuration of a server: its routes, its protocol and the address
//! it listens on.

use vstd::prelude::*;
use vstd::view::View as _;
use crate::error::RouteSpecError;
use crate::error::RouteSpecErrorModel;
use crate::method::Method;
use crate::method::MethodModel;
use crate::request_handler::RequestHandler;
use crate::resolution::classify_all;
use crate::resolution::first_repeat;
use crate::resolution::StandardResolver;
use crate::routing::ResolverEntry;
use crate::routing::Router;
use crate::routing::RouterBuilder;
use crate::text::segments;
use crate::text::IntoText;

verus! {

/// The protocol to use for the server.
#[derive(Clone, Copy, Debug, PartialEq, Eq, Structural)]
pub enum Protocol {
    Http,
}

/// The host part of an address.
#[derive(Clone, Copy, Debug)]
pub enum Host {
    /// An IPv4 address, by its four octets.
    V4([u8; 4]),
    /// An IPv6 address, by its eight segments.
    V6([u16; 8]),
}

/// The address that a server listens on.
#[derive(Clone, Copy, Debug)]
pub struct Address {
    pub host: Host,
    pub port: u16,
}

impl Address {
    /// The address `127.0.0.1` with the given port.
    pub fn localhost(port: u16) -> (address: Address)
        ensures
            address.port == port,
            address.host matches Host::V4(octets) && octets@ == seq![127u8, 0u8, 0u8, 1u8],
    {
        Address { host: Host::V4([127, 0, 0, 1]), port }
    }
}

/// Whether `after` holds the entries of `before` and, behind them, one
/// entry that binds `handler` to the route `spec` requested with `method`.
pub open spec fn bound_after<H: RequestHandler>(
    before: Seq<ResolverEntry<StandardResolver, H>>,
    after: Seq<ResolverEntry<StandardResolver, H>>,
    method: MethodModel,
    spec: Seq<char>,
    handler: H,
) -> bool {
    &&& after.len() == before.len() + 1
    &&& after.drop_last() == before
    &&& after.last().handler == handler
    &&& after.last().resolver.method() == method
    &&& after.last().resolver.tokens() == classify_all(segments(spec))
}

/// Whether `error` names the first variable of the route `spec` that
/// repeats an earlier one.
pub open spec fn names_first_repeat(error: RouteSpecErrorModel, spec: Seq<char>) -> bool {
    exists|j: int|
        {
            &&& first_repeat(classify_all(segments(spec)), j)
            &&& error == RouteSpecErrorModel::DuplicateVariable(
                #[trigger] classify_all(segments(spec))[j].name(),
            )
        }
}

/// The server building interface: routes are bound one after the other,
/// and tried in that order.
pub struct ServerBuilder<H> {
    router: RouterBuilder<StandardResolver, H>,
    proto: Protocol,
    addr: Address,
}

impl<H: RequestHandler> ServerBuilder<H> {
    /// The entries bound so far, in the order in which they were bound.
    pub closed spec fn entries(&self) -> Seq<ResolverEntry<StandardResolver, H>> {
        self.router.entries()
    }

    /// The protocol that the server will use.
    pub closed spec fn protocol(&self) -> Protocol {
        self.proto
    }

    /// The address that the server will listen on.
    pub closed spec fn address(&self) -> Address {
        self.addr
    }

    /// Creates a builder with no routes, served over HTTP, to listen on
    /// `127.0.0.1:8080`.
    pub fn new() -> (builder: Self)
        ensures
            builder.entries() == Seq::<ResolverEntry<StandardResolver, H>>::empty(),
            builder.protocol() == Protocol::Http,
            builder.address().port == 8080,
            builder.address().host matches Host::V4(octets) && octets@ == seq![
                127u8,
                0u8,
                0u8,
                1u8,
            ],
    {
        ServerBuilder {
            router: RouterBuilder::new(),
            proto: Protocol::Http,
            addr: Address::localhost(8080),
        }
    }

    /// Binds `handler` to `route` on a request with `method`.
    fn bind_method<T: IntoText>(self, method: Method, route: T, handler: H) -> (bound:
        core::result::Result<Self, RouteSpecError>)
        ensures
            match bound {
                Ok(builder) => {
                    &&& bound_after(self.entries(), builder.entries(), method@, route.text(), handler)
                    &&& builder.protocol() == self.protocol()
                    &&& builder.address() == self.address()
                },
                Err(error) => names_first_repeat(error@, route.text()),
            },
    {
        let mut builder = self;
        match builder.router.bind(method, route, handler) {
            Ok(_) => Ok(builder),
            Err(error) => Err(error),
        }
    }

    /// Binds `handler` to `route` on a GET request. Fails if two variables
    /// of `route` share a name.
    pub fn bind<T: IntoText>(self, route: T, handler: H) -> (bound: core::result::Result<
        Self,
        RouteSpecError,
    >)
        ensures
            match bound {
                Ok(builder) => {
                    &&& bound_after(
                        self.entries(),
                        builder.entries(),
                        MethodModel::Get,
                        route.text(),
                        handler,
                    )
                    &&& builder.protocol() == self.protocol()
                    &&& builder.address() == self.address()
                },
                Err(error) => names_first_repeat(error@, route.text()),
            },
    {
        self.bind_method(Method::Get, route, handler)
    }

    /// Binds `handler` to `route` on a POST request. Fails if two
    /// variables of `route` share a name.
    pub fn on<T: IntoText>(self, route: T, handler: H) -> (bound: core::result::Result<
        Self,
        RouteSpecError,
    >)
        ensures
            match bound {
                Ok(builder) => {
                    &&& bound_after(
                        self.entries(),
                        builder.entries(),
                        MethodModel::Post,
                        route.text(),
                        handler,
                    )
                    &&& builder.protocol() == self.protocol()
                    &&& builder.address() == self.address()
                },
                Err(error) => names_first_repeat(error@, route.text()),
            },
    {
        self.bind_method(Method::Post, route, handler)
    }

    /// Makes the server listen on `address`.
    pub fn addr(self, address: Address) -> (builder: Self)
        ensures
            builder.address() == address,
            builder.protocol() == self.protocol(),
            builder.entries() == self.entries(),
    {
        ServerBuilder { router: self.router, proto: self.proto, addr: address }
    }

    /// Changes the protocol that the server uses.
    pub fn proto(self, protocol: Protocol) -> (builder: Self)
        ensures
            builder.protocol() == protocol,
            builder.address() == self.address(),
            builder.entries() == self.entries(),
    {
        ServerBuilder { router: self.router, proto: protocol, addr: self.addr }
    }

    /// Ends the configuration: the router of the bound routes, the
    /// protocol, and the address to listen on.
    pub fn finish(self) -> (parts: (Router<StandardResolver, H>, Protocol, Address))
        ensures
            parts.0.entries() == self.entries(),
            parts.1 == self.protocol(),
            parts.2 == self.address(),
    {
        (Router::from(self.router), self.proto, self.addr)
    }
}

} // verus!
