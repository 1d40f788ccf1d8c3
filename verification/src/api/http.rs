//! The control API's routing decision: which endpoint a request's method
//! and path name. Serving the requests is I/O and lives outside the
//! library.

use vstd::prelude::*;

verus! {

/// The endpoints the control API serves.
#[derive(Clone, Copy, PartialEq, Eq, Structural, Debug)]
pub enum Route {
    Info,
    ChannelsPost,
    ChannelsGet,
    NotFound,
}

/// The endpoint a method and path name.
pub open spec fn route_spec(method: Seq<char>, path: Seq<char>) -> Route {
    if method == "GET"@ && path == "/info"@ {
        Route::Info
    } else if method == "POST"@ && path == "/channels"@ {
        Route::ChannelsPost
    } else if method == "GET"@ && path == "/channels"@ {
        Route::ChannelsGet
    } else {
        Route::NotFound
    }
}

/// Routes one request by its method and path; anything unrecognized is
/// not found.
pub fn route_request(method: &str, path: &str) -> (r: Route)
    ensures
        r == route_spec(method@, path@),
{
    let m = method.to_owned();
    let p = path.to_owned();
    if m == "GET".to_owned() && p == "/info".to_owned() {
        Route::Info
    } else if m == "POST".to_owned() && p == "/channels".to_owned() {
        Route::ChannelsPost
    } else if m == "GET".to_owned() && p == "/channels".to_owned() {
        Route::ChannelsGet
    } else {
        Route::NotFound
    }
}

} // verus!
