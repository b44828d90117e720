//! The routes the module declares to the kernel, relative to its namespace.
use crate::http::route::{Method, Route};
use vstd::prelude::*;

verus! {

/// `(methods, path)` pairs. The paths are relative: the kernel puts the
/// module's namespace in front.
pub const ROUTES: [(&'static str, &'static str); 6] = [
    ("POST|GET", "/directions"),
    ("POST|GET", "/schedule-blocks"),
    ("PATCH", "/schedule-blocks/{id}"),
    ("POST|GET", "/proposals"),
    ("GET", "/proposals/{id}"),
    ("POST", "/proposals/{id}/accept"),
];

/// Every declared path starts with a slash and is not under `/api/`.
pub proof fn law_routes_are_relative(i: int)
    requires
        0 <= i < ROUTES@.len(),
    ensures
        ROUTES@[i].1@[0] == '/',
        ROUTES@[i].1@.subrange(0, 5) != "/api/"@,
{
    reveal_strlit("/directions");
    reveal_strlit("/schedule-blocks");
    reveal_strlit("/schedule-blocks/{id}");
    reveal_strlit("/proposals");
    reveal_strlit("/proposals/{id}");
    reveal_strlit("/proposals/{id}/accept");
    reveal_strlit("/api/");
    let p = ROUTES@[i].1@;
    assert(p.subrange(0, 5)[1] == p[1]);
}

/// What is declared is served: each declared path is that of the routes with
/// the declared methods.
pub proof fn law_declared_routes_are_served()
    ensures
        ROUTES@.len() == 6,
        ROUTES@[0].0@ == "POST|GET"@ && ROUTES@[0].1@ == Route::CreateDirection.path_text()
            && ROUTES@[0].1@ == Route::ListDirections.path_text(),
        Route::CreateDirection.method() == Method::Post && Route::ListDirections.method()
            == Method::Get,
        ROUTES@[1].0@ == "POST|GET"@ && ROUTES@[1].1@ == Route::CreateBlock.path_text()
            && ROUTES@[1].1@ == Route::ListBlocks.path_text(),
        Route::CreateBlock.method() == Method::Post && Route::ListBlocks.method() == Method::Get,
        ROUTES@[2].0@ == "PATCH"@ && ROUTES@[2].1@ == Route::TransitionBlock.path_text(),
        Route::TransitionBlock.method() == Method::Patch,
        ROUTES@[3].0@ == "POST|GET"@ && ROUTES@[3].1@ == Route::SubmitProposal.path_text()
            && ROUTES@[3].1@ == Route::ListProposals.path_text(),
        Route::SubmitProposal.method() == Method::Post && Route::ListProposals.method()
            == Method::Get,
        ROUTES@[4].0@ == "GET"@ && ROUTES@[4].1@ == Route::GetProposal.path_text(),
        Route::GetProposal.method() == Method::Get,
        ROUTES@[5].0@ == "POST"@ && ROUTES@[5].1@ == Route::AcceptProposal.path_text(),
        Route::AcceptProposal.method() == Method::Post,
{
}

} // verus!
