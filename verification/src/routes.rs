use vstd::prelude::*;

pub mod auth;
pub mod health;
pub mod keys;
pub mod users;
pub mod utils;

verus! {

#[derive(Clone, Copy, Debug, PartialEq, Eq, Structural)]
pub enum Method {
    Get,
    Post,
    Patch,
    Delete,
}

/// One entry of a resource's route table: the method and path under the
/// resource's mount point, the handler's name, and whether the request must
/// be authenticated first.
#[derive(Clone, Copy, Debug, PartialEq, Eq)]
pub struct Route {
    pub method: Method,
    pub path: &'static str,
    pub handler: &'static str,
    pub guarded: bool,
}

pub struct RouteView {
    pub method: Method,
    pub path: Seq<char>,
    pub handler: Seq<char>,
    pub guarded: bool,
}

impl View for Route {
    type V = RouteView;

    open spec fn view(&self) -> RouteView {
        RouteView {
            method: self.method,
            path: self.path@,
            handler: self.handler@,
            guarded: self.guarded,
        }
    }
}

pub open spec fn route_views(routes: Seq<Route>) -> Seq<RouteView> {
    Seq::new(routes.len(), |i: int| routes[i]@)
}

/// Whether a table holds a route with the method, path and handler.
pub open spec fn table_has(
    table: Seq<Route>,
    method: Method,
    path: Seq<char>,
    handler: Seq<char>,
) -> bool {
    exists|i: int|
        0 <= i < table.len() && (#[trigger] table[i]).method == method && table[i].path@ == path
            && table[i].handler@ == handler
}

/// Looks a route up in a table: what is mounted is held against the table
/// with this.
pub fn describes(table: &Vec<Route>, method: Method, path: &str, handler: &str) -> (found: bool)
    ensures
        found == table_has(table@, method, path@, handler@),
{
    let mut i: usize = 0;
    while i < table.len()
        invariant
            i <= table@.len(),
            forall|j: int|
                0 <= j < i ==> !((#[trigger] table@[j]).method == method && table@[j].path@ == path@
                    && table@[j].handler@ == handler@),
        decreases table.len() - i,
    {
        if table[i].method == method && crate::utils::text::same_text(table[i].path, path)
            && crate::utils::text::same_text(table[i].handler, handler) {
            return true;
        }
        i += 1;
    }
    false
}

pub open spec fn open_route(method: Method, path: &str, handler: &str) -> RouteView {
    RouteView { method, path: path@, handler: handler@, guarded: false }
}

pub open spec fn guarded_route(method: Method, path: &str, handler: &str) -> RouteView {
    RouteView { method, path: path@, handler: handler@, guarded: true }
}

} // verus!
