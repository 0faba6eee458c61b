//! An alternative, service-oriented description of a deployed package: a
//! named service listening on a port, exposing routes over a protocol. This
//! model sits beside the registry's package record; nothing in the sync
//! workflow depends on it.

use vstd::prelude::*;

verus! {

/// The protocol a route speaks.
#[derive(Clone, Copy, Debug, PartialEq, Eq, Structural)]
pub enum Protocol {
    MCP,
}

/// One route a service exposes: a path, over a protocol.
#[derive(Debug)]
pub struct Route {
    pub protocol: Protocol,
    pub path: String,
}

/// Mathematical image of a [`Route`].
pub struct RouteView {
    pub protocol: Protocol,
    pub path: Seq<char>,
}

impl View for Route {
    type V = RouteView;

    open spec fn view(&self) -> RouteView {
        RouteView { protocol: self.protocol, path: self.path@ }
    }
}

impl Route {
    pub fn new(protocol: Protocol, path: String) -> (r: Self)
        ensures
            r@ == (RouteView { protocol, path: path@ }),
    {
        Route { protocol, path }
    }
}

impl Clone for Route {
    fn clone(&self) -> (r: Self)
        ensures
            r@ == self@,
    {
        Route { protocol: self.protocol, path: self.path.clone() }
    }
}

/// What a service declares about itself: its name, the port it listens on,
/// and the routes it exposes.
#[derive(Debug)]
pub struct Config {
    pub name: String,
    pub port: u16,
    pub routes: Vec<Route>,
}

/// Mathematical image of a [`Config`].
pub struct ConfigView {
    pub name: Seq<char>,
    pub port: u16,
    pub routes: Seq<RouteView>,
}

impl View for Config {
    type V = ConfigView;

    open spec fn view(&self) -> ConfigView {
        ConfigView { name: self.name@, port: self.port, routes: self.routes@.map_values(|r: Route| r@) }
    }
}

impl Config {
    pub fn new(name: String, port: u16, routes: Vec<Route>) -> (r: Self)
        ensures
            r@ == (ConfigView { name: name@, port, routes: routes@.map_values(|x: Route| x@) }),
    {
        Config { name, port, routes }
    }

    /// How many routes the service exposes.
    pub fn route_count(&self) -> (r: usize)
        ensures
            r == self@.routes.len(),
    {
        self.routes.len()
    }
}

} // verus!
