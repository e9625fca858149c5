//! The per-connection core: from received bytes to the response text
//! and the keep-running decision. The caller owns the socket work
//! (receive, send, close); this module owns everything between.
//!
//! The server stops exactly on the request that resolves to the
//! shutdown route — the one whose response body is the shutdown
//! sentinel text — so no other handler's body can collide with it.

use vstd::prelude::*;
use crate::controller::delete_recipe_by_id;
use crate::controller::add_recipe;
use crate::controller::get_all_recipes;
use crate::controller::get_recipe_by_id;
use crate::controller::sp_add_recipe;
use crate::controller::sp_delete_recipe_by_id;
use crate::controller::sp_get_all_recipes;
use crate::controller::sp_get_recipe_by_id;
use crate::controller::sp_update_recipe;
use crate::controller::update_recipe;
use crate::dispatch::Route;
use crate::dispatch::get_dispatcher;
use crate::dispatch::sp_resolve;
use crate::model::RecipeView;
use crate::request::ParsedRequest;
use crate::request::RequestView;
use crate::request::parse_request;
use crate::request::sp_content_type;
use crate::request::sp_parse_request;
use crate::request::sp_request_text;
use crate::response::create_http_not_found_response;
use crate::response::create_http_success_response;
use crate::response::sp_not_found_response;
use crate::response::sp_success_response;
use crate::store::RecipeStore;

verus! {

/// The fixed receive buffer length: what a connection reads at most,
/// and past which a request is silently truncated.
pub const RECV_BUFFER_LEN: usize = 1024;

/// What a parsed request answers and leaves in the store: the
/// resolved route's response, or a 404 when no route matches.
pub open spec fn sp_build_response(req: RequestView, store: Seq<RecipeView>) -> (
    Seq<char>,
    Seq<RecipeView>,
) {
    match sp_resolve(req.method, req.path) {
        None => (sp_not_found_response(Some("404 Not Found"@)), store),
        Some(Route::GetRecipeById) => (sp_get_recipe_by_id(store, req.query), store),
        Some(Route::GetAllRecipes) => (sp_get_all_recipes(store, req.query, req.body), store),
        Some(Route::UpdateRecipe) => sp_update_recipe(
            store,
            sp_content_type(req),
            req.query,
            req.body,
        ),
        Some(Route::AddRecipe) => sp_add_recipe(store, sp_content_type(req), req.query, req.body),
        Some(Route::DeleteRecipeById) => sp_delete_recipe_by_id(store, req.query),
        Some(Route::ShutDown) => (sp_success_response("Shutting down"@), store),
    }
}

/// The request's content type, as the handlers receive it.
fn content_type_of(req: &ParsedRequest) -> (r: String)
    ensures
        r@ == sp_content_type(req@),
{
    proof {
        assert(req.headers@.take(req.headers@.len() as int) =~= req.headers@);
    }
    match crate::controller::lookup_pair(&req.headers, req.headers.len(), "Content-Type") {
        Some(v) => v,
        None => String::from_str("text/plain"),
    }
}

/// Builds the response for the first `length` received bytes:
/// parses them, resolves the route, runs the handler against the
/// store, and formats the response; unmatched routes get a 404.
pub fn build_response_from_request(store: &mut RecipeStore, buffer: &[u8], length: usize) -> (r:
    String)
    requires
        length <= buffer@.len(),
        old(store).wf(),
    ensures
        final(store).wf(),
        ({
            let out = sp_build_response(
                sp_parse_request(sp_request_text(buffer@.take(length as int))),
                old(store)@,
            );
            r@ == out.0 && final(store)@ == out.1
        }),
{
    let req = parse_request(buffer, length);
    dispatch_request(store, &req)
}

/// Resolves a parsed request to its route, runs the handler against
/// the store, and formats the response; unmatched routes get a 404.
pub fn dispatch_request(store: &mut RecipeStore, req: &ParsedRequest) -> (r: String)
    requires
        old(store).wf(),
    ensures
        final(store).wf(),
        ({
            let out = sp_build_response(req@, old(store)@);
            r@ == out.0 && final(store)@ == out.1
        }),
{
    let content_type = content_type_of(req);
    let query: Option<&str> = match &req.query {
        Some(q) => Some(q.as_str()),
        None => None,
    };
    let dispatcher = get_dispatcher();
    match dispatcher.resolve(req.method.as_str(), req.path.as_str()) {
        None => create_http_not_found_response(Some("404 Not Found")),
        Some(Route::GetRecipeById) => get_recipe_by_id(
            store,
            content_type.as_str(),
            query,
            req.body.as_str(),
        ),
        Some(Route::GetAllRecipes) => get_all_recipes(
            store,
            content_type.as_str(),
            query,
            req.body.as_str(),
        ),
        Some(Route::UpdateRecipe) => update_recipe(
            store,
            content_type.as_str(),
            query,
            req.body.as_str(),
        ),
        Some(Route::AddRecipe) => add_recipe(store, content_type.as_str(), query, req.body.as_str()),
        Some(Route::DeleteRecipeById) => delete_recipe_by_id(
            store,
            content_type.as_str(),
            query,
            req.body.as_str(),
        ),
        Some(Route::ShutDown) => create_http_success_response("Shutting down"),
    }
}

/// The request that shuts the server down: exactly the one that
/// resolves to the shutdown route.
pub open spec fn sp_should_stop(req: RequestView) -> bool {
    sp_resolve(req.method, req.path) == Some(Route::ShutDown)
}

/// Handles one received request: gives the response text to send
/// back, and whether to keep accepting connections — `false` exactly
/// when the request resolves to the shutdown route.
pub fn handle_request(store: &mut RecipeStore, buffer: &[u8], length: usize) -> (r: (String, bool))
    requires
        length <= buffer@.len(),
        old(store).wf(),
    ensures
        final(store).wf(),
        ({
            let req = sp_parse_request(sp_request_text(buffer@.take(length as int)));
            let out = sp_build_response(req, old(store)@);
            r.0@ == out.0 && final(store)@ == out.1 && r.1 == !sp_should_stop(req)
        }),
{
    let req = parse_request(buffer, length);
    let dispatcher = get_dispatcher();
    let keep_running = match dispatcher.resolve(req.method.as_str(), req.path.as_str()) {
        Some(Route::ShutDown) => false,
        _ => true,
    };
    let response = dispatch_request(store, &req);
    (response, keep_running)
}

/// Only the shutdown request stops the server: the stop decision is
/// taken exactly on the request whose method and path are
/// `GET /ShutDown`.
pub proof fn lemma_only_shutdown_stops(req: RequestView)
    ensures
        sp_should_stop(req) <==> (req.method == "GET"@ && req.path == "/ShutDown"@),
{
    reveal_strlit("GET");
    reveal_strlit("PUT");
    reveal_strlit("POST");
    reveal_strlit("DELETE");
    reveal_strlit("/RecipeService/GetRecipeById");
    reveal_strlit("/RecipeService/GetAllRecipes");
    reveal_strlit("/RecipeService/UpdateRecipe");
    reveal_strlit("/RecipeService/AddRecipe");
    reveal_strlit("/RecipeService/DeleteRecipeById");
    reveal_strlit("/ShutDown");
    assert("GET"@ != "PUT"@) by {
        if "GET"@ == "PUT"@ {
            assert("GET"@[0] == "PUT"@[0]);
        }
    }
    assert("GET"@ != "POST"@) by {
        if "GET"@ == "POST"@ {
            assert("GET"@.len() == "POST"@.len());
        }
    }
    assert("GET"@ != "DELETE"@) by {
        if "GET"@ == "DELETE"@ {
            assert("GET"@.len() == "DELETE"@.len());
        }
    }
    assert("/ShutDown"@ != "/RecipeService/GetRecipeById"@) by {
        if "/ShutDown"@ == "/RecipeService/GetRecipeById"@ {
            assert("/ShutDown"@.len() == "/RecipeService/GetRecipeById"@.len());
        }
    }
    assert("/ShutDown"@ != "/RecipeService/GetAllRecipes"@) by {
        if "/ShutDown"@ == "/RecipeService/GetAllRecipes"@ {
            assert("/ShutDown"@.len() == "/RecipeService/GetAllRecipes"@.len());
        }
    }
}

/// A request that matches no route never stops the server: it is
/// answered with the fixed 404 response and the stop decision is not
/// taken.
pub proof fn lemma_unmatched_request_keeps_serving(req: RequestView, store: Seq<RecipeView>)
    requires
        sp_resolve(req.method, req.path) is None,
    ensures
        sp_build_response(req, store).0 == sp_not_found_response(Some("404 Not Found"@)),
        !sp_should_stop(req),
{
}

/// The shutdown route stops the server, and its response is the
/// success response whose body equals the sentinel text: the stop
/// decision coincides with a response body of exactly that text.
pub proof fn lemma_shutdown_stops(req: RequestView, store: Seq<RecipeView>)
    requires
        sp_resolve(req.method, req.path) == Some(Route::ShutDown),
    ensures
        sp_should_stop(req),
        sp_build_response(req, store).0 == sp_success_response("Shutting down"@),
{
}

} // verus!
