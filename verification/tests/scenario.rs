//! End-to-end scenarios: raw request bytes in, literal response bytes
//! out, with the in-memory store standing in for the relational one and
//! a JSON reader standing in for the program's body decoding.
use user_service::handlers::handle_delete_request;
use user_service::handlers::handle_get_all_request;
use user_service::handlers::handle_get_request;
use user_service::handlers::handle_post_request;
use user_service::handlers::handle_put_request;
use user_service::handlers::immediate_response;
use user_service::handlers::CreateOutcome;
use user_service::handlers::DeleteOutcome;
use user_service::handlers::UpdateOutcome;
use user_service::http::parse_request;
use user_service::http::render_response;
use user_service::num::parse_i32;
use user_service::route::get_id;
use user_service::route::route;
use user_service::route::Route;
use user_service::store::MemStore;
use user_service::user::UserInput;

const OK_HEAD: &str = "HTTP/1.1 200 OK\r\nContent-Type: application/json\r\nAccess-Control-Allow-Origin: *\r\nAccess-Control-Allow-Methods: GET, POST, PUT, DELETE\r\nAccess-Control-Allow-Headers: Content-Type\r\n\r\n";
const NOT_FOUND_HEAD: &str = "HTTP/1.1 404 NOT FOUND\r\n\r\n";
const INTERNAL_HEAD: &str = "HTTP/1.1 500 INTERNAL ERROR\r\n\r\n";

fn parse_body(body: &[u8]) -> Option<UserInput> {
    let text = String::from_utf8_lossy(body).to_string();
    let v: serde_json::Value = serde_json::from_str(&text).ok()?;
    let name = v.get("name")?.as_str()?.to_string();
    let email = v.get("email")?.as_str()?.to_string();
    Some(UserInput { name: name.into_bytes(), email: email.into_bytes() })
}

fn clone_input(i: &UserInput) -> UserInput {
    UserInput { name: i.name.clone(), email: i.email.clone() }
}

fn respond(store: &mut MemStore, raw: &[u8]) -> Vec<u8> {
    let req = parse_request(raw);
    let r = route(&req.method, &req.path);
    if let Some((status, body)) = immediate_response(r) {
        return render_response(status, &body);
    }
    let id_text = get_id(&req.path);
    let (status, body) = match r {
        Route::Create => {
            let parsed = parse_body(&req.body);
            let outcome = match &parsed {
                None => CreateOutcome::NoStore,
                Some(input) => match store.insert(clone_input(input)) {
                    Some(id) => match store.find_by_id(id) {
                        Some(u) => CreateOutcome::Created(u),
                        None => CreateOutcome::ReadBackFailed,
                    },
                    None => CreateOutcome::InsertFailed,
                },
            };
            handle_post_request(parsed, outcome)
        }
        Route::ReadOne => {
            let found = match parse_i32(&id_text) {
                Some(id) => store.find_by_id(id),
                None => None,
            };
            handle_get_request(&id_text, true, found)
        }
        Route::ReadAll => handle_get_all_request(Some(store.find_all())),
        Route::Update => {
            let parsed = parse_body(&req.body);
            let outcome = match (&parsed, parse_i32(&id_text)) {
                (Some(input), Some(id)) => UpdateOutcome::Updated(store.update(id, clone_input(input))),
                _ => UpdateOutcome::NoStore,
            };
            handle_put_request(&id_text, parsed, outcome)
        }
        Route::Delete => {
            let outcome = match parse_i32(&id_text) {
                Some(id) => DeleteOutcome::Deleted(store.delete(id)),
                None => DeleteOutcome::NoStore,
            };
            handle_delete_request(&id_text, outcome)
        }
        _ => panic!("routed request reached no handler"),
    };
    render_response(status, &body)
}

fn expect(head: &str, body: &str) -> Vec<u8> {
    let mut v = head.as_bytes().to_vec();
    v.extend_from_slice(body.as_bytes());
    v
}

#[test]
fn full_crud_round_trip() {
    let mut store = MemStore::new();
    let r = respond(
        &mut store,
        b"POST /api/x/users HTTP/1.1\r\nHost: h\r\n\r\n{\"id\":null,\"name\":\"Ann\",\"email\":\"ann@x.io\"}",
    );
    assert_eq!(
        r,
        expect(OK_HEAD, "{\"id\":1,\"name\":\"Ann\",\"email\":\"ann@x.io\"}")
    );
    let r = respond(&mut store, b"GET /api/x/users/1 HTTP/1.1\r\n\r\n");
    assert_eq!(
        r,
        expect(OK_HEAD, "{\"id\":1,\"name\":\"Ann\",\"email\":\"ann@x.io\"}")
    );
    let r = respond(
        &mut store,
        b"PUT /api/x/users/1 HTTP/1.1\r\n\r\n{\"id\":null,\"name\":\"Ann2\",\"email\":\"ann2@x.io\"}",
    );
    assert_eq!(r, expect(OK_HEAD, "User updated"));
    let r = respond(&mut store, b"GET /api/x/users/1 HTTP/1.1\r\n\r\n");
    assert_eq!(
        r,
        expect(OK_HEAD, "{\"id\":1,\"name\":\"Ann2\",\"email\":\"ann2@x.io\"}")
    );
    let r = respond(&mut store, b"DELETE /api/x/users/1 HTTP/1.1\r\n\r\n");
    assert_eq!(r, expect(OK_HEAD, "User deleted"));
    let r = respond(&mut store, b"GET /api/x/users/1 HTTP/1.1\r\n\r\n");
    assert_eq!(r, expect(NOT_FOUND_HEAD, "User not found"));
}

#[test]
fn create_then_read_matches_for_varied_payloads() {
    let cases = [
        ("Bea", "bea@x.io"),
        ("Chris O'Neil", "c@x.io"),
        ("D \"quote\" E", "d@x.io"),
        ("tab\tname", "t@x.io"),
    ];
    let mut store = MemStore::new();
    for (i, (name, email)) in cases.iter().enumerate() {
        let payload = serde_json::Value::Object({
            let mut m = serde_json::Map::new();
            m.insert("id".to_string(), serde_json::Value::Null);
            m.insert("name".to_string(), serde_json::Value::String((*name).to_string()));
            m.insert("email".to_string(), serde_json::Value::String((*email).to_string()));
            m
        });
        let mut raw = b"POST /api/x/users HTTP/1.1\r\n\r\n".to_vec();
        raw.extend_from_slice(serde_json::to_string(&payload).unwrap().as_bytes());
        let created = respond(&mut store, &raw);
        let id = i as i32 + 1;
        let read = respond(
            &mut store,
            format!("GET /api/x/users/{} HTTP/1.1\r\n\r\n", id).as_bytes(),
        );
        assert_eq!(created, read);
        let body = String::from_utf8(read[OK_HEAD.len()..].to_vec()).unwrap();
        let v: serde_json::Value = serde_json::from_str(&body).unwrap();
        assert_eq!(v.get("id").unwrap().as_i64().unwrap(), id as i64);
        assert_eq!(v.get("name").unwrap().as_str().unwrap(), *name);
        assert_eq!(v.get("email").unwrap().as_str().unwrap(), *email);
    }
}

#[test]
fn missing_id_reads_and_deletes_not_found() {
    let mut store = MemStore::new();
    let r = respond(&mut store, b"GET /api/x/users/9 HTTP/1.1\r\n\r\n");
    assert_eq!(r, expect(NOT_FOUND_HEAD, "User not found"));
    let r = respond(&mut store, b"DELETE /api/x/users/9 HTTP/1.1\r\n\r\n");
    assert_eq!(r, expect(NOT_FOUND_HEAD, "User not found"));
}

#[test]
fn read_all_empty_is_empty_array() {
    let mut store = MemStore::new();
    let r = respond(&mut store, b"GET /api/x/users HTTP/1.1\r\n\r\n");
    assert_eq!(r, expect(OK_HEAD, "[]"));
}

#[test]
fn read_all_lists_rows_in_insertion_order() {
    let mut store = MemStore::new();
    respond(&mut store, b"POST /api/x/users\r\n\r\n{\"name\":\"A\",\"email\":\"a@x\"}");
    respond(&mut store, b"POST /api/x/users\r\n\r\n{\"name\":\"B\",\"email\":\"b@x\"}");
    let r = respond(&mut store, b"GET /api/x/users HTTP/1.1\r\n\r\n");
    assert_eq!(
        r,
        expect(
            OK_HEAD,
            "[{\"id\":1,\"name\":\"A\",\"email\":\"a@x\"},{\"id\":2,\"name\":\"B\",\"email\":\"b@x\"}]"
        )
    );
}

#[test]
fn update_touches_only_its_row() {
    let mut store = MemStore::new();
    respond(&mut store, b"POST /api/x/users\r\n\r\n{\"name\":\"A\",\"email\":\"a@x\"}");
    respond(&mut store, b"POST /api/x/users\r\n\r\n{\"name\":\"B\",\"email\":\"b@x\"}");
    let r = respond(&mut store, b"PUT /api/x/users/1\r\n\r\n{\"name\":\"A2\",\"email\":\"a2@x\"}");
    assert_eq!(r, expect(OK_HEAD, "User updated"));
    let r = respond(&mut store, b"GET /api/x/users/1 HTTP/1.1\r\n\r\n");
    assert_eq!(r, expect(OK_HEAD, "{\"id\":1,\"name\":\"A2\",\"email\":\"a2@x\"}"));
    let r = respond(&mut store, b"GET /api/x/users/2 HTTP/1.1\r\n\r\n");
    assert_eq!(r, expect(OK_HEAD, "{\"id\":2,\"name\":\"B\",\"email\":\"b@x\"}"));
}

#[test]
fn update_of_absent_row_still_reports_success() {
    let mut store = MemStore::new();
    let r = respond(&mut store, b"PUT /api/x/users/7\r\n\r\n{\"name\":\"N\",\"email\":\"n@x\"}");
    assert_eq!(r, expect(OK_HEAD, "User updated"));
}

#[test]
fn delete_removes_exactly_one_and_repeat_is_not_found() {
    let mut store = MemStore::new();
    respond(&mut store, b"POST /api/x/users\r\n\r\n{\"name\":\"A\",\"email\":\"a@x\"}");
    respond(&mut store, b"POST /api/x/users\r\n\r\n{\"name\":\"B\",\"email\":\"b@x\"}");
    let r = respond(&mut store, b"DELETE /api/x/users/1 HTTP/1.1\r\n\r\n");
    assert_eq!(r, expect(OK_HEAD, "User deleted"));
    let r = respond(&mut store, b"GET /api/x/users HTTP/1.1\r\n\r\n");
    assert_eq!(r, expect(OK_HEAD, "[{\"id\":2,\"name\":\"B\",\"email\":\"b@x\"}]"));
    let r = respond(&mut store, b"DELETE /api/x/users/1 HTTP/1.1\r\n\r\n");
    assert_eq!(r, expect(NOT_FOUND_HEAD, "User not found"));
}

#[test]
fn options_answers_ok_with_cors_and_empty_body() {
    let mut store = MemStore::new();
    for raw in [
        b"OPTIONS /api/x/users HTTP/1.1\r\n\r\n".as_slice(),
        b"OPTIONS /no/such/path\r\n\r\n".as_slice(),
        b"OPTIONS *".as_slice(),
    ] {
        let r = respond(&mut store, raw);
        assert_eq!(r, OK_HEAD.as_bytes().to_vec());
        let text = String::from_utf8(r).unwrap();
        assert!(text.contains("Access-Control-Allow-Origin"));
        assert!(text.contains("Access-Control-Allow-Methods"));
        assert!(text.contains("Access-Control-Allow-Headers"));
    }
}

#[test]
fn unmatched_requests_get_the_not_found_page() {
    let mut store = MemStore::new();
    let r = respond(&mut store, b"PATCH /api/x/users/1 HTTP/1.1\r\n\r\n");
    assert_eq!(r, expect(NOT_FOUND_HEAD, "404 not found"));
    let r = respond(&mut store, b"GET /other HTTP/1.1\r\n\r\n");
    assert_eq!(r, expect(NOT_FOUND_HEAD, "404 not found"));
    let r = respond(&mut store, b"POST /api/x/users/extra/deep\r\n\r\n{\"name\":\"A\",\"email\":\"a\"}");
    assert_eq!(r[..OK_HEAD.len()], *OK_HEAD.as_bytes());
}

#[test]
fn served_composition_answers_the_crud_round_trip() {
    let mut store = MemStore::new();
    let mut run = |raw: &[u8]| {
        let req = parse_request(raw);
        let parsed = parse_body(&req.body);
        user_service::serve::serve(&mut store, raw, parsed)
    };
    let r = run(b"POST /api/x/users HTTP/1.1\r\n\r\n{\"id\":null,\"name\":\"Ann\",\"email\":\"ann@x.io\"}");
    assert_eq!(r, expect(OK_HEAD, "{\"id\":1,\"name\":\"Ann\",\"email\":\"ann@x.io\"}"));
    let r = run(b"GET /api/x/users/1 HTTP/1.1\r\n\r\n");
    assert_eq!(r, expect(OK_HEAD, "{\"id\":1,\"name\":\"Ann\",\"email\":\"ann@x.io\"}"));
    let r = run(b"PUT /api/x/users/1 HTTP/1.1\r\n\r\n{\"id\":null,\"name\":\"Ann2\",\"email\":\"ann2@x.io\"}");
    assert_eq!(r, expect(OK_HEAD, "User updated"));
    let r = run(b"DELETE /api/x/users/1 HTTP/1.1\r\n\r\n");
    assert_eq!(r, expect(OK_HEAD, "User deleted"));
    let r = run(b"DELETE /api/x/users/1 HTTP/1.1\r\n\r\n");
    assert_eq!(r, expect(NOT_FOUND_HEAD, "User not found"));
}

#[test]
fn served_composition_agrees_with_the_loop() {
    let requests: Vec<Vec<u8>> = vec![
        b"POST /api/x/users\r\n\r\n{\"name\":\"A\",\"email\":\"a@x\"}".to_vec(),
        b"POST /api/x/users\r\n\r\n{\"name\":\"B\",\"email\":\"b@x\"}".to_vec(),
        b"GET /api/x/users HTTP/1.1\r\n\r\n".to_vec(),
        b"GET /api/x/users/2 HTTP/1.1\r\n\r\n".to_vec(),
        b"PUT /api/x/users/2\r\n\r\n{\"name\":\"B2\",\"email\":\"b2@x\"}".to_vec(),
        b"DELETE /api/x/users/1 HTTP/1.1\r\n\r\n".to_vec(),
        b"GET /api/x/users HTTP/1.1\r\n\r\n".to_vec(),
        b"OPTIONS /api/x/users HTTP/1.1\r\n\r\n".to_vec(),
        b"PATCH /api/x/users/1\r\n\r\n".to_vec(),
        b"GET /api/x/users/nine\r\n\r\n".to_vec(),
        b"POST /api/x/users\r\n\r\nnot json".to_vec(),
    ];
    let mut by_loop = MemStore::new();
    let mut by_serve = MemStore::new();
    for raw in &requests {
        let a = respond(&mut by_loop, raw);
        let req = parse_request(raw);
        let parsed = parse_body(&req.body);
        let b = user_service::serve::serve(&mut by_serve, raw, parsed);
        assert_eq!(a, b);
    }
}

#[test]
fn bad_payload_and_bad_id_are_internal_errors() {
    let mut store = MemStore::new();
    let r = respond(&mut store, b"POST /api/x/users\r\n\r\nnot json at all");
    assert_eq!(r, expect(INTERNAL_HEAD, "Internal error"));
    let r = respond(&mut store, b"POST /api/x/users\r\n\r\n{\"name\":7,\"email\":\"a@x\"}");
    assert_eq!(r, expect(INTERNAL_HEAD, "Internal error"));
    let r = respond(&mut store, b"GET /api/x/users/seven HTTP/1.1\r\n\r\n");
    assert_eq!(r, expect(INTERNAL_HEAD, "Internal error"));
    let r = respond(&mut store, b"DELETE /api/x/users/seven HTTP/1.1\r\n\r\n");
    assert_eq!(r, expect(INTERNAL_HEAD, "Internal error"));
    let r = respond(&mut store, b"PUT /api/x/users/seven\r\n\r\n{\"name\":\"A\",\"email\":\"a\"}");
    assert_eq!(r, expect(INTERNAL_HEAD, "Internal error"));
    let r = respond(&mut store, b"PUT /api/x/users/1\r\n\r\nnope");
    assert_eq!(r, expect(INTERNAL_HEAD, "Internal error"));
}
