use vstd::prelude::*;
use crate::routes::{open_route, route_views, Method, Route, RouteView};

verus! {

#[derive(Clone, Copy, Debug, PartialEq, Eq)]
pub struct StatusResponse {
    pub status: &'static str,
}

/// Liveness probe: answers "ok" whenever the server runs.
pub fn status() -> (response: StatusResponse)
    ensures
        response.status@ == "ok"@,
{
    StatusResponse { status: "ok" }
}

pub open spec fn table() -> Seq<RouteView> {
    seq![open_route(Method::Get, "/", "status")]
}

/// Health check route.
pub fn routes() -> (list: Vec<Route>)
    ensures
        route_views(list@) == table(),
{
    let mut list = Vec::new();
    list.push(Route { method: Method::Get, path: "/", handler: "status", guarded: false });
    assert(route_views(list@) =~= table());
    list
}

} // verus!
