//! The route handlers: each takes the store, the request's content
//! type, its query text and its body, and gives back the full
//! response text. Malformed input yields a 400 response, a missed
//! lookup a 404, and a body that does not decode a 500, exactly as
//! the contracts state.

use vstd::prelude::*;
use crate::json::decode_recipe;
use crate::json::digit_run_end;
use crate::json::encode_recipe;
use crate::json::encode_recipe_list;
use crate::json::lemma_sp_digit_run_facts;
use crate::json::parse_digits;
use crate::json::sp_decode_recipe;
use crate::json::sp_json_i32;
use crate::json::sp_json_recipe;
use crate::json::sp_json_recipe_list;
use crate::model::RecipeView;
use crate::model::from_recipe_dto;
use crate::request::find_char;
use crate::request::sp_find_char;
use crate::request::sp_header_pairs;
use crate::request::sp_lookup;
use crate::response::create_http_bad_request_response;
use crate::response::create_http_created_response;
use crate::response::create_http_internal_server_error_response;
use crate::response::create_http_not_found_response;
use crate::response::create_http_success_response;
use crate::response::sp_bad_request_response;
use crate::response::sp_created_response;
use crate::response::sp_internal_server_error_response;
use crate::response::sp_not_found_response;
use crate::response::sp_success_response;
use crate::store::RecipeStore;
use crate::store::sp_find;
use crate::text::all_digits;
use crate::text::digits_val;
use crate::text::is_digit_char;
use crate::text::str_eq;

verus! {

// ---------------------------------------------------------------
// Query parameters
// ---------------------------------------------------------------

/// The key-value pair of one `key=value` query segment; a segment
/// without `=` gives no pair, and of several `=` only the first two
/// parts count.
pub open spec fn sp_param_pair(s: Seq<char>) -> Seq<(Seq<char>, Seq<char>)> {
    match sp_find_char(s, '=') {
        None => Seq::empty(),
        Some(i) => {
            let rest = s.skip(i + 1);
            let value = match sp_find_char(rest, '=') {
                Some(j) => rest.take(j),
                None => rest,
            };
            seq![(s.take(i), value)]
        },
    }
}

/// The key-value pairs of a query text: segments split on `&`, each
/// split at `=`.
pub open spec fn sp_params(q: Seq<char>) -> Seq<(Seq<char>, Seq<char>)>
    decreases q.len(),
    via sp_params_decreases
{
    match sp_find_char(q, '&') {
        None => sp_param_pair(q),
        Some(i) => sp_param_pair(q.take(i)) + sp_params(q.skip(i + 1)),
    }
}

#[via_fn]
proof fn sp_params_decreases(q: Seq<char>) {
    crate::request::lemma_sp_find_char_facts(q, '&');
}

/// The id a query text carries: its last `id` parameter read as a
/// signed 32-bit number.
pub open spec fn sp_parse_id(t: Seq<char>) -> Option<i32> {
    let neg = t.len() > 0 && t[0] == '-';
    let digs = if t.len() > 0 && (t[0] == '-' || t[0] == '+') {
        t.drop_first()
    } else {
        t
    };
    if digs.len() == 0 || !all_digits(digs) {
        None
    } else {
        let m = if neg {
            -(digits_val(digs) as int)
        } else {
            digits_val(digs) as int
        };
        if i32::MIN <= m <= i32::MAX {
            Some(m as i32)
        } else {
            None
        }
    }
}

/// One query segment split into its pair.
fn param_pair(s: &str) -> (r: Option<(String, String)>)
    ensures
        match r {
            Some(kv) => sp_param_pair(s@) == seq![(kv.0@, kv.1@)],
            None => sp_param_pair(s@) == Seq::<(Seq<char>, Seq<char>)>::empty(),
        },
{
    let n = s.unicode_len();
    match find_char(s, '=') {
        None => None,
        Some(i) => {
            let key = String::from_str(s.substring_char(0, i));
            let rest = s.substring_char(i + 1, n);
            proof {
                assert(rest@ =~= s@.skip(i + 1));
            }
            let value = match find_char(rest, '=') {
                Some(j) => String::from_str(rest.substring_char(0, j)),
                None => String::from_str(rest),
            };
            proof {
                assert(key@ =~= s@.take(i as int));
            }
            Some((key, value))
        },
    }
}

/// The key-value pairs of a query text.
fn parse_params(q: &str) -> (r: Vec<(String, String)>)
    ensures
        sp_header_pairs(r@) == sp_params(q@),
    decreases q@.len(),
{
    let n = q.unicode_len();
    match find_char(q, '&') {
        None => {
            let mut out: Vec<(String, String)> = Vec::new();
            match param_pair(q) {
                Some(kv) => {
                    out.push(kv);
                    proof {
                        assert(sp_header_pairs(out@) =~= sp_params(q@));
                    }
                },
                None => {
                    proof {
                        assert(sp_header_pairs(out@) =~= sp_params(q@));
                    }
                },
            }
            out
        },
        Some(i) => {
            let head = q.substring_char(0, i);
            let tail_str = q.substring_char(i + 1, n);
            proof {
                assert(head@ =~= q@.take(i as int));
                assert(tail_str@ =~= q@.skip(i + 1));
            }
            let mut tail = parse_params(tail_str);
            match param_pair(head) {
                Some(kv) => {
                    let ghost tail_pairs: Seq<(String, String)> = tail@;
                    tail.insert(0, kv);
                    proof {
                        assert forall|k: int|
                            0 <= k < sp_header_pairs(tail@).len() implies #[trigger] sp_header_pairs(
                            tail@,
                        )[k] == sp_params(q@)[k] by {
                            if k > 0 {
                                assert(tail@[k] == tail_pairs[k - 1]);
                                assert(sp_header_pairs(tail_pairs)[k - 1] == (tail_pairs[k - 1].0@,
                                tail_pairs[k - 1].1@));
                            }
                        }
                        assert(sp_header_pairs(tail@) =~= sp_params(q@));
                    }
                    tail
                },
                None => {
                    proof {
                        assert(sp_header_pairs(tail@) =~= sp_params(q@));
                    }
                    tail
                },
            }
        },
    }
}

/// The value under a key among the pairs before `upto`; later pairs
/// win over earlier ones.
pub(crate) fn lookup_pair(v: &Vec<(String, String)>, upto: usize, key: &str) -> (r: Option<String>)
    requires
        upto <= v@.len(),
    ensures
        match r {
            Some(s) => sp_lookup(sp_header_pairs(v@.take(upto as int)), key@) == Some(s@),
            None => sp_lookup(sp_header_pairs(v@.take(upto as int)), key@) is None,
        },
    decreases upto,
{
    if upto == 0 {
        proof {
            assert(sp_header_pairs(v@.take(0)).len() == 0);
        }
        None
    } else {
        let ghost pairs = sp_header_pairs(v@.take(upto as int));
        proof {
            assert(pairs.last() == (v@[upto - 1].0@, v@[upto - 1].1@));
            assert(pairs.drop_last() =~= sp_header_pairs(v@.take(upto - 1)));
        }
        if str_eq(v[upto - 1].0.as_str(), key) {
            Some(v[upto - 1].1.clone())
        } else {
            lookup_pair(v, upto - 1, key)
        }
    }
}

/// A text read as a signed 32-bit id: an optional sign, then digits
/// only, within the value range.
pub fn parse_id(s: &str) -> (r: Option<i32>)
    ensures
        r == sp_parse_id(s@),
{
    let n = s.unicode_len();
    let negative = n > 0 && s.get_char(0) == '-';
    let digs: &str = if n > 0 && (s.get_char(0) == '-' || s.get_char(0) == '+') {
        s.substring_char(1, n)
    } else {
        s
    };
    proof {
        if n > 0 && (s@[0] == '-' || s@[0] == '+') {
            assert(digs@ =~= s@.drop_first());
        }
    }
    let dn = digs.unicode_len();
    if dn == 0 {
        return None;
    }
    let k = digit_run_end(digs);
    proof {
        lemma_sp_digit_run_facts(digs@);
    }
    if k != dn {
        proof {
            assert(!is_digit_char(digs@[k as int]));
        }
        return None;
    }
    proof {
        assert(all_digits(digs@));
        assert(digs@.take(k as int) =~= digs@);
    }
    match parse_digits(digs) {
        None => None,
        Some((v, _rest)) => {
            if negative {
                if v <= 2147483648 {
                    Some((-(v as i64)) as i32)
                } else {
                    None
                }
            } else {
                if v <= 2147483647 {
                    Some(v as i32)
                } else {
                    None
                }
            }
        },
    }
}

// ---------------------------------------------------------------
// Handlers
// ---------------------------------------------------------------

/// What reading a recipe by id responds, given the store contents
/// and the query.
pub open spec fn sp_get_recipe_by_id(store: Seq<RecipeView>, query: Option<Seq<char>>) -> Seq<
    char,
> {
    match query {
        None => sp_bad_request_response("Query parameters are missing"@),
        Some(q) => match sp_lookup(sp_params(q), "id"@) {
            None => sp_bad_request_response("Id missing in query parameters"@),
            Some(ids) => match sp_parse_id(ids) {
                None => sp_bad_request_response("Invalid ID format"@),
                Some(id) => match sp_find(store, id) {
                    None => sp_not_found_response(Some("Could not find recipe"@)),
                    Some(i) => sp_success_response(sp_json_recipe(store[i])),
                },
            },
        },
    }
}

/// Responds with the recipe under the query's id as JSON; 400 when
/// the query or its id is missing or malformed, 404 when no recipe
/// has that id.
pub fn get_recipe_by_id(store: &RecipeStore, _req_content_type: &str, query_params: Option<&str>, _req_body: &str) -> (r: String)
    ensures
        r@ == sp_get_recipe_by_id(
            store@,
            match query_params {
                Some(q) => Some(q@),
                None => None,
            },
        ),
{
    match query_params {
        None => create_http_bad_request_response("Query parameters are missing"),
        Some(q) => {
            let params = parse_params(q);
            proof {
                assert(params@.take(params@.len() as int) =~= params@);
            }
            match lookup_pair(&params, params.len(), "id") {
                None => create_http_bad_request_response("Id missing in query parameters"),
                Some(id_text) => match parse_id(id_text.as_str()) {
                    None => create_http_bad_request_response("Invalid ID format"),
                    Some(id) => match store.get_recipe_by_id(id) {
                        None => create_http_not_found_response(Some("Could not find recipe")),
                        Some(dto) => {
                            let body = encode_recipe(&dto);
                            create_http_success_response(body.as_str())
                        },
                    },
                },
            }
        },
    }
}

/// What reading all recipes responds, given the store contents, the
/// query and the body.
pub open spec fn sp_get_all_recipes(
    store: Seq<RecipeView>,
    query: Option<Seq<char>>,
    body: Seq<char>,
) -> Seq<char> {
    if query is Some {
        sp_bad_request_response("This endpoint does not accept query parameters"@)
    } else if body.len() > 0 {
        sp_bad_request_response("Request body must be empty"@)
    } else if store.len() == 0 {
        sp_not_found_response(Some("No recipes found"@))
    } else {
        sp_success_response(sp_json_recipe_list(store))
    }
}

/// Responds with every stored recipe as a JSON array; 400 when a
/// query or a body is given, 404 when the store is empty.
pub fn get_all_recipes(store: &RecipeStore, _req_content_type: &str, query_params: Option<&str>, req_body: &str) -> (r: String)
    ensures
        r@ == sp_get_all_recipes(
            store@,
            match query_params {
                Some(q) => Some(q@),
                None => None,
            },
            req_body@,
        ),
{
    if query_params.is_some() {
        return create_http_bad_request_response("This endpoint does not accept query parameters");
    }
    if !req_body.is_empty() {
        return create_http_bad_request_response("Request body must be empty");
    }
    match store.get_all_recipes() {
        None => create_http_not_found_response(Some("No recipes found")),
        Some(recipes) => {
            let body = encode_recipe_list(&recipes);
            create_http_success_response(body.as_str())
        },
    }
}

/// The store after writing a recipe under its id: replaced in place
/// when the id is present, appended when it is new.
pub open spec fn sp_upsert(store: Seq<RecipeView>, v: RecipeView) -> Seq<RecipeView> {
    match sp_find(store, v.id) {
        Some(i) => store.update(i, v),
        None => store.push(v),
    }
}

/// What updating a recipe responds and leaves in the store.
pub open spec fn sp_update_recipe(
    store: Seq<RecipeView>,
    content_type: Seq<char>,
    query: Option<Seq<char>>,
    body: Seq<char>,
) -> (Seq<char>, Seq<RecipeView>) {
    if query is Some {
        (sp_bad_request_response("Can't update the recipe with query parameters"@), store)
    } else if content_type != "application/json"@ {
        (sp_bad_request_response("Body must contain JSON"@), store)
    } else {
        match sp_decode_recipe(body) {
            None => (sp_internal_server_error_response("Failed to deserialize the recipe"@), store),
            Some(v) => (sp_success_response(sp_json_recipe(v)), sp_upsert(store, v)),
        }
    }
}

/// Writes the body's recipe under its id, inserting or replacing,
/// and responds with the written recipe as JSON; 400 when a query is
/// given or the content type is not JSON, 500 when the body does not
/// decode.
pub fn update_recipe(store: &mut RecipeStore, req_content_type: &str, query_params: Option<&str>, req_body: &str) -> (r: String)
    requires
        old(store).wf(),
    ensures
        final(store).wf(),
        ({
            let out = sp_update_recipe(
                old(store)@,
                req_content_type@,
                match query_params {
                    Some(q) => Some(q@),
                    None => None,
                },
                req_body@,
            );
            r@ == out.0 && final(store)@ == out.1
        }),
{
    if query_params.is_some() {
        return create_http_bad_request_response("Can't update the recipe with query parameters");
    }
    if !str_eq(req_content_type, "application/json") {
        return create_http_bad_request_response("Body must contain JSON");
    }
    match decode_recipe(req_body) {
        None => create_http_internal_server_error_response("Failed to deserialize the recipe"),
        Some(dto) => {
            let recipe = from_recipe_dto(&dto);
            let updated = store.update_recipe(recipe);
            let body = encode_recipe(&updated);
            create_http_success_response(body.as_str())
        },
    }
}

/// What adding a recipe responds and leaves in the store. A new id
/// is appended and answered with 201; an existing id is overwritten
/// and answered with 500, as the store reports the id as taken.
pub open spec fn sp_add_recipe(
    store: Seq<RecipeView>,
    content_type: Seq<char>,
    query: Option<Seq<char>>,
    body: Seq<char>,
) -> (Seq<char>, Seq<RecipeView>) {
    if query is Some {
        (sp_bad_request_response("Can't add the recipe with query parameters"@), store)
    } else if content_type != "application/json"@ {
        (sp_bad_request_response("Body must contain JSON"@), store)
    } else {
        match sp_decode_recipe(body) {
            None => (sp_internal_server_error_response("Failed to deserialize the recipe"@), store),
            Some(v) => match sp_find(store, v.id) {
                None => (
                    sp_created_response(sp_json_i32(v.id), "Recipe added successfully"@),
                    store.push(v),
                ),
                Some(i) => (
                    sp_internal_server_error_response("Failed to add the recipe"@),
                    store.update(i, v),
                ),
            },
        }
    }
}

/// Adds the body's recipe and responds 201 with its id in the `Id`
/// header; 400 when a query is given or the content type is not
/// JSON, 500 when the body does not decode or the id is taken.
pub fn add_recipe(store: &mut RecipeStore, req_content_type: &str, query_params: Option<&str>, req_body: &str) -> (r: String)
    requires
        old(store).wf(),
    ensures
        final(store).wf(),
        ({
            let out = sp_add_recipe(
                old(store)@,
                req_content_type@,
                match query_params {
                    Some(q) => Some(q@),
                    None => None,
                },
                req_body@,
            );
            r@ == out.0 && final(store)@ == out.1
        }),
{
    if query_params.is_some() {
        return create_http_bad_request_response("Can't add the recipe with query parameters");
    }
    if !str_eq(req_content_type, "application/json") {
        return create_http_bad_request_response("Body must contain JSON");
    }
    match decode_recipe(req_body) {
        None => create_http_internal_server_error_response("Failed to deserialize the recipe"),
        Some(dto) => {
            let recipe = from_recipe_dto(&dto);
            let recipe_id = recipe.id;
            if store.add_recipe(recipe) {
                let id_text = crate::json::encode_json_i32(recipe_id);
                create_http_created_response(id_text.as_str(), "Recipe added successfully")
            } else {
                create_http_internal_server_error_response("Failed to add the recipe")
            }
        },
    }
}

/// What deleting a recipe by id responds and leaves in the store.
pub open spec fn sp_delete_recipe_by_id(store: Seq<RecipeView>, query: Option<Seq<char>>) -> (
    Seq<char>,
    Seq<RecipeView>,
) {
    match query {
        None => (sp_bad_request_response("Query parameters are missing"@), store),
        Some(q) => match sp_lookup(sp_params(q), "id"@) {
            None => (sp_bad_request_response("id missing in query parameters"@), store),
            Some(ids) => match sp_parse_id(ids) {
                None => (sp_bad_request_response("Invalid ID format"@), store),
                Some(id) => match sp_find(store, id) {
                    None => (sp_not_found_response(Some("Recipe not found"@)), store),
                    Some(i) => (
                        sp_success_response("Recipe deleted successfully"@),
                        store.remove(i),
                    ),
                },
            },
        },
    }
}

/// Removes the recipe under the query's id; 400 when the query or
/// its id is missing or malformed, 404 when no recipe has that id.
pub fn delete_recipe_by_id(store: &mut RecipeStore, _req_content_type: &str, query_params: Option<&str>, _req_body: &str) -> (r: String)
    requires
        old(store).wf(),
    ensures
        final(store).wf(),
        ({
            let out = sp_delete_recipe_by_id(
                old(store)@,
                match query_params {
                    Some(q) => Some(q@),
                    None => None,
                },
            );
            r@ == out.0 && final(store)@ == out.1
        }),
{
    match query_params {
        None => create_http_bad_request_response("Query parameters are missing"),
        Some(q) => {
            let params = parse_params(q);
            proof {
                assert(params@.take(params@.len() as int) =~= params@);
            }
            match lookup_pair(&params, params.len(), "id") {
                None => create_http_bad_request_response("id missing in query parameters"),
                Some(id_text) => match parse_id(id_text.as_str()) {
                    None => create_http_bad_request_response("Invalid ID format"),
                    Some(id) => {
                        if store.delete_recipe(id) {
                            create_http_success_response("Recipe deleted successfully")
                        } else {
                            create_http_not_found_response(Some("Recipe not found"))
                        }
                    },
                },
            }
        },
    }
}

} // verus!
