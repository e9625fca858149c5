//! The dispatch table: an exact, case-sensitive mapping from the
//! (method, path) pair of a request to the handler route, with one
//! reserved route that shuts the server down.

use vstd::prelude::*;
use crate::text::str_eq;

verus! {

/// The handler a request resolves to.
#[derive(Clone, Copy, Debug, PartialEq, Eq, Structural)]
pub enum Route {
    GetRecipeById,
    GetAllRecipes,
    UpdateRecipe,
    AddRecipe,
    DeleteRecipeById,
    ShutDown,
}

/// The route for a (method, path) pair: exact match only, no path
/// parameters, no wildcards, no trailing-slash normalization.
pub open spec fn sp_resolve(method: Seq<char>, path: Seq<char>) -> Option<Route> {
    if method == "GET"@ && path == "/RecipeService/GetRecipeById"@ {
        Some(Route::GetRecipeById)
    } else if method == "GET"@ && path == "/RecipeService/GetAllRecipes"@ {
        Some(Route::GetAllRecipes)
    } else if method == "PUT"@ && path == "/RecipeService/UpdateRecipe"@ {
        Some(Route::UpdateRecipe)
    } else if method == "POST"@ && path == "/RecipeService/AddRecipe"@ {
        Some(Route::AddRecipe)
    } else if method == "DELETE"@ && path == "/RecipeService/DeleteRecipeById"@ {
        Some(Route::DeleteRecipeById)
    } else if method == "GET"@ && path == "/ShutDown"@ {
        Some(Route::ShutDown)
    } else {
        None
    }
}

/// The process-wide dispatch table; pure data, built once.
pub struct Dispatcher {}

/// Builds the dispatch table; its mapping is `sp_resolve`.
pub fn get_dispatcher() -> Dispatcher {
    Dispatcher {  }
}

impl Dispatcher {
    /// Resolves a (method, path) pair to its route, or to nothing
    /// when no route matches.
    pub fn resolve(&self, method: &str, path: &str) -> (r: Option<Route>)
        ensures
            r == sp_resolve(method@, path@),
    {
        let is_get = str_eq(method, "GET");
        let is_put = str_eq(method, "PUT");
        let is_post = str_eq(method, "POST");
        let is_delete = str_eq(method, "DELETE");
        if is_get && str_eq(path, "/RecipeService/GetRecipeById") {
            Some(Route::GetRecipeById)
        } else if is_get && str_eq(path, "/RecipeService/GetAllRecipes") {
            Some(Route::GetAllRecipes)
        } else if is_put && str_eq(path, "/RecipeService/UpdateRecipe") {
            Some(Route::UpdateRecipe)
        } else if is_post && str_eq(path, "/RecipeService/AddRecipe") {
            Some(Route::AddRecipe)
        } else if is_delete && str_eq(path, "/RecipeService/DeleteRecipeById") {
            Some(Route::DeleteRecipeById)
        } else if is_get && str_eq(path, "/ShutDown") {
            Some(Route::ShutDown)
        } else {
            None
        }
    }
}

} // verus!
