//! End-to-end and unit tests: the codec round trip, parser behavior
//! on malformed input, each route's success and error responses, the
//! shutdown sentinel, and truncation at the receive-buffer boundary.

use recipe_server::controller::parse_id;
use recipe_server::dispatch::get_dispatcher;
use recipe_server::dispatch::Route;
use recipe_server::json::decode_recipe;
use recipe_server::json::encode_recipe;
use recipe_server::model::from_recipe_dto;
use recipe_server::model::to_recipe_dto;
use recipe_server::model::Recipe;
use recipe_server::model::RecipeDto;
use recipe_server::model::User;
use recipe_server::model::UserDto;
use recipe_server::request::parse_request;
use recipe_server::request::parse_request_text;
use recipe_server::response::create_http_created_response;
use recipe_server::response::create_http_not_found_response;
use recipe_server::response::create_http_success_response;
use recipe_server::server::handle_request;
use recipe_server::server::RECV_BUFFER_LEN;
use recipe_server::store::RecipeStore;

fn sample_dto(id: i32) -> RecipeDto {
    RecipeDto {
        id,
        title: "Pancakes".to_string(),
        ingredients: vec!["Flour".to_string(), "Milk".to_string()],
        instructions: "Mix.".to_string(),
        comments: vec![],
        created_by: UserDto { id: 7, name: "Ann".to_string(), email: "ann@example.com".to_string() },
    }
}

fn sample_json(id: i32) -> String {
    format!(
        "{{\"id\":{},\"title\":\"Pancakes\",\"ingredients\":[\"Flour\",\"Milk\"],\"instructions\":\"Mix.\",\"comments\":[],\"created_by\":{{\"id\":7,\"name\":\"Ann\",\"email\":\"ann@example.com\"}}}}",
        id
    )
}

fn handle(store: &mut RecipeStore, request: &str) -> (String, bool) {
    let bytes = request.as_bytes();
    assert!(bytes.len() <= RECV_BUFFER_LEN);
    handle_request(store, bytes, bytes.len())
}

#[test]
fn recipe_json_roundtrip_plain() {
    let dto = sample_dto(42);
    let encoded = encode_recipe(&dto);
    assert_eq!(encoded, sample_json(42));
    let back = decode_recipe(&encoded).expect("round trip");
    assert_eq!(back.id, 42);
    assert_eq!(back.title, "Pancakes");
    assert_eq!(back.ingredients, vec!["Flour".to_string(), "Milk".to_string()]);
    assert_eq!(back.instructions, "Mix.");
    assert!(back.comments.is_empty());
    assert_eq!(back.created_by.id, 7);
    assert_eq!(back.created_by.name, "Ann");
    assert_eq!(back.created_by.email, "ann@example.com");
}

#[test]
fn recipe_json_roundtrip_escapes_and_negative_id() {
    let dto = RecipeDto {
        id: -2147483648,
        title: "A \"quoted\" \\ title\nwith\tcontrol\rchars \u{0008}\u{000C}\u{0000}\u{001F}".to_string(),
        ingredients: vec!["".to_string()],
        instructions: "".to_string(),
        comments: vec!["fine".to_string(), "al,so]".to_string()],
        created_by: UserDto { id: 0, name: "".to_string(), email: "{}".to_string() },
    };
    let encoded = encode_recipe(&dto);
    let back = decode_recipe(&encoded).expect("round trip");
    assert_eq!(back.id, dto.id);
    assert_eq!(back.title, dto.title);
    assert_eq!(back.ingredients, dto.ingredients);
    assert_eq!(back.instructions, dto.instructions);
    assert_eq!(back.comments, dto.comments);
    assert_eq!(back.created_by.name, dto.created_by.name);
    assert_eq!(back.created_by.email, dto.created_by.email);
}

#[test]
fn encoder_escapes_control_characters() {
    let mut dto = sample_dto(1);
    dto.title = "a\u{0001}b\u{0008}c\u{001F}d".to_string();
    let encoded = encode_recipe(&dto);
    assert!(encoded.contains("\"title\":\"a\\u0001b\\bc\\u001fd\""));
    let back = decode_recipe(&encoded).expect("round trip");
    assert_eq!(back.title, dto.title);
}

#[test]
fn decoder_accepts_solidus_and_hex_escapes() {
    let body = sample_json(1).replace("Mix.", "a\\/b\\u0009c\\f");
    let back = decode_recipe(&body).expect("escapes accepted");
    assert_eq!(back.instructions, "a/b\tc\u{000C}");
}

#[test]
fn decode_rejects_malformed_json() {
    assert!(decode_recipe("").is_none());
    assert!(decode_recipe("{}").is_none());
    assert!(decode_recipe("not json").is_none());
    assert!(decode_recipe("{\"id\":1}").is_none());
    let valid = sample_json(1);
    assert!(decode_recipe(&valid[..valid.len() - 1]).is_none());
    assert!(decode_recipe(&format!("{} ", valid)).is_none());
}

#[test]
fn assemblers_keep_every_field() {
    let recipe = Recipe {
        id: 5,
        title: "T".to_string(),
        ingredients: vec!["a".to_string()],
        instructions: "I".to_string(),
        comments: vec!["c".to_string()],
        created_by: User { id: 1, name: "N".to_string(), email: "E".to_string() },
    };
    let dto = to_recipe_dto(&recipe);
    assert_eq!(dto.id, 5);
    assert_eq!(dto.title, "T");
    assert_eq!(dto.ingredients, vec!["a".to_string()]);
    assert_eq!(dto.instructions, "I");
    assert_eq!(dto.comments, vec!["c".to_string()]);
    assert_eq!(dto.created_by.id, 1);
    assert_eq!(dto.created_by.name, "N");
    assert_eq!(dto.created_by.email, "E");
    let back = from_recipe_dto(&dto);
    assert_eq!(back.id, 5);
    assert_eq!(back.title, "T");
    assert_eq!(back.created_by.email, "E");
}

#[test]
fn parser_defaults_on_empty_and_blank_request_line() {
    let r = parse_request_text("");
    assert_eq!(r.method, "");
    assert_eq!(r.path, "/");
    assert!(r.query.is_none());
    assert_eq!(r.body, "");
    let r = parse_request_text("   \r\nHost: here\r\n\r\nrest");
    assert_eq!(r.method, "");
    assert_eq!(r.path, "/");
    assert!(r.query.is_none());
    assert_eq!(r.body, "rest");
}

#[test]
fn parser_splits_request_line_and_query() {
    let r = parse_request_text("GET /RecipeService/GetRecipeById?id=3&x=1 HTTP/1.1\r\n\r\n");
    assert_eq!(r.method, "GET");
    assert_eq!(r.path, "/RecipeService/GetRecipeById");
    assert_eq!(r.query.as_deref(), Some("id=3&x=1"));
    let r = parse_request_text("GET /plain HTTP/1.1\r\n\r\n");
    assert_eq!(r.path, "/plain");
    assert!(r.query.is_none());
    let r = parse_request_text("GET /q? HTTP/1.1\r\n\r\n");
    assert_eq!(r.path, "/q");
    assert_eq!(r.query.as_deref(), Some(""));
}

#[test]
fn parser_drops_header_line_without_separator() {
    let r = parse_request_text(
        "PUT /x HTTP/1.1\r\nContent-Type: application/json\r\njunk-line-no-separator\r\nAccept: any\r\n\r\nbody here",
    );
    assert_eq!(r.headers.len(), 2);
    assert_eq!(r.headers[0], ("Content-Type".to_string(), "application/json".to_string()));
    assert_eq!(r.headers[1], ("Accept".to_string(), "any".to_string()));
    assert_eq!(r.body, "body here");
}

#[test]
fn parser_keeps_last_duplicate_header_and_joins_body_lines() {
    let r = parse_request_text("POST /x H\r\nA: 1\r\nA: 2\r\n\r\nline1\r\nline2\nline3");
    assert_eq!(r.headers.len(), 2);
    assert_eq!(r.body, "line1\nline2\nline3");
}

#[test]
fn parser_decodes_multibyte_utf8() {
    let text = "POST /x HTTP/1.1\r\n\r\ncrème brûlée";
    let bytes = text.as_bytes();
    assert!(bytes.len() > text.chars().count());
    let r = parse_request(bytes, bytes.len());
    assert_eq!(r.method, "POST");
    assert_eq!(r.body, "crème brûlée");
}

#[test]
fn parser_falls_back_to_empty_text_on_invalid_utf8() {
    let bytes = [0xffu8, 0xfe, 0x41, 0x42];
    let r = parse_request(&bytes, 4);
    assert_eq!(r.method, "");
    assert_eq!(r.path, "/");
    assert!(r.query.is_none());
    assert_eq!(r.body, "");
}

#[test]
fn resolve_matches_exactly_and_case_sensitively() {
    let d = get_dispatcher();
    assert_eq!(d.resolve("GET", "/RecipeService/GetRecipeById"), Some(Route::GetRecipeById));
    assert_eq!(d.resolve("GET", "/RecipeService/GetAllRecipes"), Some(Route::GetAllRecipes));
    assert_eq!(d.resolve("PUT", "/RecipeService/UpdateRecipe"), Some(Route::UpdateRecipe));
    assert_eq!(d.resolve("POST", "/RecipeService/AddRecipe"), Some(Route::AddRecipe));
    assert_eq!(d.resolve("DELETE", "/RecipeService/DeleteRecipeById"), Some(Route::DeleteRecipeById));
    assert_eq!(d.resolve("GET", "/ShutDown"), Some(Route::ShutDown));
    assert_eq!(d.resolve("get", "/ShutDown"), None);
    assert_eq!(d.resolve("GET", "/shutdown"), None);
    assert_eq!(d.resolve("POST", "/ShutDown"), None);
    assert_eq!(d.resolve("GET", "/RecipeService/GetRecipeById/"), None);
}

#[test]
fn response_builders_produce_exact_wire_text() {
    assert_eq!(
        create_http_success_response("hi"),
        "HTTP/1.1 200 OK\r\nContent-Type: application/json\r\nContent-Length: 2\r\nConnection: close\r\n\nhi"
    );
    assert_eq!(
        create_http_not_found_response(None),
        "HTTP/1.1 404 Not Found\r\nContent-Type: text/plain\r\nContent-Length: 37\r\nConnection: close\r\n\nThe requested resource was not found."
    );
    assert_eq!(
        create_http_created_response("42", "Recipe added successfully"),
        "HTTP/1.1 201 Created\r\nContent-Type: text/plain\r\nId: 42\r\nConnection: close\r\n\nRecipe added successfully"
    );
}

#[test]
fn content_length_counts_bytes_not_chars() {
    let r = create_http_success_response("é");
    assert!(r.contains("Content-Length: 2\r\n"));
}

#[test]
fn parse_id_accepts_signs_and_rejects_junk_and_overflow() {
    assert_eq!(parse_id("42"), Some(42));
    assert_eq!(parse_id("+42"), Some(42));
    assert_eq!(parse_id("-42"), Some(-42));
    assert_eq!(parse_id("0042"), Some(42));
    assert_eq!(parse_id("2147483647"), Some(2147483647));
    assert_eq!(parse_id("-2147483648"), Some(-2147483648));
    assert_eq!(parse_id("2147483648"), None);
    assert_eq!(parse_id("-2147483649"), None);
    assert_eq!(parse_id(""), None);
    assert_eq!(parse_id("-"), None);
    assert_eq!(parse_id("4a"), None);
    assert_eq!(parse_id(" 4"), None);
    assert_eq!(parse_id("99999999999999999999999"), None);
}

#[test]
fn store_add_reports_new_ids_and_overwrites_taken_ones() {
    let mut store = RecipeStore::new();
    let first = from_recipe_dto(&sample_dto(1));
    assert!(store.add_recipe(first));
    let mut other = from_recipe_dto(&sample_dto(1));
    other.title = "Replaced".to_string();
    assert!(!store.add_recipe(other));
    let got = store.get_recipe_by_id(1).expect("present");
    assert_eq!(got.title, "Replaced");
}

#[test]
fn store_update_upserts_and_delete_reports_presence() {
    let mut store = RecipeStore::new();
    let dto = store.update_recipe(from_recipe_dto(&sample_dto(9)));
    assert_eq!(dto.id, 9);
    assert!(store.get_recipe_by_id(9).is_some());
    assert!(store.delete_recipe(9));
    assert!(!store.delete_recipe(9));
    assert!(store.get_recipe_by_id(9).is_none());
}

#[test]
fn store_get_all_is_none_only_when_empty() {
    let store = RecipeStore::new();
    assert!(store.get_all_recipes().is_none());
    let mut store = RecipeStore::new();
    store.add_recipe(from_recipe_dto(&sample_dto(1)));
    store.add_recipe(from_recipe_dto(&sample_dto(2)));
    let all = store.get_all_recipes().expect("non-empty");
    assert_eq!(all.len(), 2);
    assert_eq!(all[0].id, 1);
    assert_eq!(all[1].id, 2);
}

#[test]
fn get_recipe_without_query_is_bad_request() {
    let mut store = RecipeStore::new();
    let (resp, keep) = handle(&mut store, "GET /RecipeService/GetRecipeById HTTP/1.1\r\n\r\n");
    assert!(resp.starts_with("HTTP/1.1 400 Bad Request\r\n"));
    assert!(resp.ends_with("\r\n\nQuery parameters are missing"));
    assert!(keep);
}

#[test]
fn get_recipe_with_missing_or_bad_id_is_bad_request() {
    let mut store = RecipeStore::new();
    let (resp, _) = handle(&mut store, "GET /RecipeService/GetRecipeById?x=1 HTTP/1.1\r\n\r\n");
    assert!(resp.ends_with("\r\n\nId missing in query parameters"));
    let (resp, _) = handle(&mut store, "GET /RecipeService/GetRecipeById?id=abc HTTP/1.1\r\n\r\n");
    assert!(resp.starts_with("HTTP/1.1 400 Bad Request\r\n"));
    assert!(resp.ends_with("\r\n\nInvalid ID format"));
}

#[test]
fn delete_of_absent_id_is_not_found() {
    let mut store = RecipeStore::new();
    store.add_recipe(from_recipe_dto(&sample_dto(1)));
    let (resp, keep) = handle(
        &mut store,
        "DELETE /RecipeService/DeleteRecipeById?id=999999 HTTP/1.1\r\n\r\n",
    );
    assert!(resp.starts_with("HTTP/1.1 404 Not Found\r\n"));
    assert!(resp.ends_with("\r\n\nRecipe not found"));
    assert!(keep);
    assert!(store.get_recipe_by_id(1).is_some());
}

#[test]
fn delete_of_present_id_succeeds() {
    let mut store = RecipeStore::new();
    store.add_recipe(from_recipe_dto(&sample_dto(3)));
    let (resp, keep) = handle(
        &mut store,
        "DELETE /RecipeService/DeleteRecipeById?id=3 HTTP/1.1\r\n\r\n",
    );
    assert!(resp.starts_with("HTTP/1.1 200 OK\r\n"));
    assert!(resp.ends_with("\r\n\nRecipe deleted successfully"));
    assert!(keep);
    assert!(store.get_recipe_by_id(3).is_none());
}

#[test]
fn add_then_get_returns_the_same_recipe_json() {
    let mut store = RecipeStore::new();
    let body = sample_json(42);
    let request = format!(
        "POST /RecipeService/AddRecipe HTTP/1.1\r\nContent-Type: application/json\r\n\r\n{}",
        body
    );
    let (resp, keep) = handle(&mut store, &request);
    assert!(resp.starts_with("HTTP/1.1 201 Created\r\n"));
    assert!(resp.contains("\r\nId: 42\r\n"));
    assert!(resp.ends_with("\r\n\nRecipe added successfully"));
    assert!(keep);
    let (resp, keep) = handle(&mut store, "GET /RecipeService/GetRecipeById?id=42 HTTP/1.1\r\n\r\n");
    assert!(resp.starts_with("HTTP/1.1 200 OK\r\n"));
    assert!(resp.ends_with(&format!("\r\n\n{}", body)));
    assert!(keep);
}

#[test]
fn add_with_query_or_wrong_content_type_is_bad_request() {
    let mut store = RecipeStore::new();
    let (resp, _) = handle(
        &mut store,
        "POST /RecipeService/AddRecipe?x=1 HTTP/1.1\r\nContent-Type: application/json\r\n\r\n{}",
    );
    assert!(resp.ends_with("\r\n\nCan't add the recipe with query parameters"));
    let (resp, _) = handle(&mut store, "POST /RecipeService/AddRecipe HTTP/1.1\r\n\r\n{}");
    assert!(resp.starts_with("HTTP/1.1 400 Bad Request\r\n"));
    assert!(resp.ends_with("\r\n\nBody must contain JSON"));
}

#[test]
fn add_with_undecodable_body_is_internal_server_error() {
    let mut store = RecipeStore::new();
    let (resp, _) = handle(
        &mut store,
        "POST /RecipeService/AddRecipe HTTP/1.1\r\nContent-Type: application/json\r\n\r\nnot json",
    );
    assert!(resp.starts_with("HTTP/1.1 500 Internal Server Error\r\n"));
    assert!(resp.ends_with("\r\n\nFailed to deserialize the recipe"));
}

#[test]
fn add_of_taken_id_reports_failure_but_overwrites() {
    let mut store = RecipeStore::new();
    store.add_recipe(from_recipe_dto(&sample_dto(42)));
    let request = format!(
        "POST /RecipeService/AddRecipe HTTP/1.1\r\nContent-Type: application/json\r\n\r\n{}",
        sample_json(42).replace("Pancakes", "Waffles")
    );
    let (resp, _) = handle(&mut store, &request);
    assert!(resp.starts_with("HTTP/1.1 500 Internal Server Error\r\n"));
    assert!(resp.ends_with("\r\n\nFailed to add the recipe"));
    assert_eq!(store.get_recipe_by_id(42).unwrap().title, "Waffles");
}

#[test]
fn update_upserts_and_echoes_the_recipe() {
    let mut store = RecipeStore::new();
    let body = sample_json(8);
    let request = format!(
        "PUT /RecipeService/UpdateRecipe HTTP/1.1\r\nContent-Type: application/json\r\n\r\n{}",
        body
    );
    let (resp, keep) = handle(&mut store, &request);
    assert!(resp.starts_with("HTTP/1.1 200 OK\r\n"));
    assert!(resp.ends_with(&format!("\r\n\n{}", body)));
    assert!(keep);
    assert!(store.get_recipe_by_id(8).is_some());
    let changed = body.replace("Pancakes", "Crepes");
    let request = format!(
        "PUT /RecipeService/UpdateRecipe HTTP/1.1\r\nContent-Type: application/json\r\n\r\n{}",
        changed
    );
    let (resp, _) = handle(&mut store, &request);
    assert!(resp.ends_with(&format!("\r\n\n{}", changed)));
    assert_eq!(store.get_recipe_by_id(8).unwrap().title, "Crepes");
}

#[test]
fn get_all_rejects_query_and_body_and_misses_on_empty_store() {
    let mut store = RecipeStore::new();
    let (resp, _) = handle(&mut store, "GET /RecipeService/GetAllRecipes?x=1 HTTP/1.1\r\n\r\n");
    assert!(resp.ends_with("\r\n\nThis endpoint does not accept query parameters"));
    let (resp, _) = handle(&mut store, "GET /RecipeService/GetAllRecipes HTTP/1.1\r\n\r\nstuff");
    assert!(resp.ends_with("\r\n\nRequest body must be empty"));
    let (resp, _) = handle(&mut store, "GET /RecipeService/GetAllRecipes HTTP/1.1\r\n\r\n");
    assert!(resp.starts_with("HTTP/1.1 404 Not Found\r\n"));
    assert!(resp.ends_with("\r\n\nNo recipes found"));
    store.add_recipe(from_recipe_dto(&sample_dto(1)));
    store.add_recipe(from_recipe_dto(&sample_dto(2)));
    let (resp, _) = handle(&mut store, "GET /RecipeService/GetAllRecipes HTTP/1.1\r\n\r\n");
    assert!(resp.starts_with("HTTP/1.1 200 OK\r\n"));
    assert!(resp.ends_with(&format!("\r\n\n[{},{}]", sample_json(1), sample_json(2))));
}

#[test]
fn unknown_route_is_not_found_and_keeps_serving() {
    let mut store = RecipeStore::new();
    let (resp, keep) = handle(&mut store, "GET /nowhere HTTP/1.1\r\n\r\n");
    assert!(resp.starts_with("HTTP/1.1 404 Not Found\r\n"));
    assert!(resp.ends_with("\r\n\n404 Not Found"));
    assert!(keep);
}

#[test]
fn only_shutdown_stops_the_server() {
    let mut store = RecipeStore::new();
    let (resp, keep) = handle(&mut store, "GET /ShutDown HTTP/1.1\r\n\r\n");
    assert!(resp.starts_with("HTTP/1.1 200 OK\r\n"));
    assert!(resp.ends_with("\r\n\nShutting down"));
    assert!(!keep);
    let requests = [
        "GET /RecipeService/GetAllRecipes HTTP/1.1\r\n\r\n",
        "GET /RecipeService/GetRecipeById?id=1 HTTP/1.1\r\n\r\n",
        "DELETE /RecipeService/DeleteRecipeById?id=1 HTTP/1.1\r\n\r\n",
        "POST /RecipeService/AddRecipe HTTP/1.1\r\n\r\n",
        "PUT /RecipeService/UpdateRecipe HTTP/1.1\r\n\r\n",
        "GET /elsewhere HTTP/1.1\r\n\r\n",
        "gibberish\r\n\r\n",
    ];
    for request in requests {
        let mut store = RecipeStore::new();
        let (_, keep) = handle(&mut store, request);
        assert!(keep, "server stopped on: {request}");
    }
}

#[test]
fn sentinel_text_in_an_echoed_body_does_not_stop_the_server() {
    // The stop decision comes from the resolved route, so a recipe
    // that carries the sentinel text in a field cannot trip it.
    let mut store = RecipeStore::new();
    let body = sample_json(4).replace("Pancakes", "Shutting down");
    let request = format!(
        "PUT /RecipeService/UpdateRecipe HTTP/1.1\r\nContent-Type: application/json\r\n\r\n{}",
        body
    );
    let (resp, keep) = handle(&mut store, &request);
    assert!(resp.starts_with("HTTP/1.1 200 OK\r\n"));
    assert!(resp.contains("Shutting down"));
    assert!(keep);
}

#[test]
fn oversized_request_is_truncated_not_crashed() {
    let head = "POST /RecipeService/AddRecipe HTTP/1.1\r\nContent-Type: application/json\r\n\r\n";
    let oversized = format!("{}{}", head, sample_json(42).replace("Mix.", &"x".repeat(2000)));
    assert!(oversized.len() > RECV_BUFFER_LEN);
    // What a bounded read hands the engine: the first buffer-full only.
    let received = &oversized.as_bytes()[..RECV_BUFFER_LEN];
    let parsed = parse_request(received, RECV_BUFFER_LEN);
    assert_eq!(parsed.method, "POST");
    assert_eq!(parsed.body.len(), RECV_BUFFER_LEN - head.len());
    let mut store = RecipeStore::new();
    let (resp, keep) = handle_request(&mut store, received, RECV_BUFFER_LEN);
    // The truncated body is no longer a whole recipe: decoding fails,
    // nothing is stored, and the server keeps serving.
    assert!(resp.starts_with("HTTP/1.1 500 Internal Server Error\r\n"));
    assert!(keep);
    assert!(store.get_recipe_by_id(42).is_none());
}
