//! One request served end to end against the in-memory store: the
//! composition of parser, router, identifier extraction, handlers and
//! renderer. `spec_serve` pins the whole exchange down — which bytes
//! answer which buffer, and how the store moves — and `serve` is proved
//! to meet it. The program's connection loop mirrors this composition
//! against the relational store; the body's JSON reading is the one step
//! the caller supplies, as its outcome.
use vstd::prelude::*;

use crate::handlers::handle_delete_request;
use crate::handlers::handle_get_all_request;
use crate::handlers::handle_get_request;
use crate::handlers::handle_post_request;
use crate::handlers::handle_put_request;
use crate::handlers::immediate_response;
use crate::handlers::spec_immediate_response;
use crate::handlers::CreateOutcome;
use crate::handlers::DeleteOutcome;
use crate::handlers::UpdateOutcome;
use crate::http::parse_request;
use crate::http::render_response;
use crate::http::spec_method;
use crate::http::spec_path;
use crate::http::spec_response;
use crate::http::Status;
use crate::json::json_user;
use crate::json::json_users;
use crate::num::is_i32_text;
use crate::num::parse_i32;
use crate::num::text_val;
use crate::route::get_id;
use crate::route::route;
use crate::route::spec_get_id;
use crate::route::spec_route;
use crate::route::Route;
use crate::store::spec_delete;
use crate::store::spec_find;
use crate::store::spec_insert;
use crate::store::spec_update;
use crate::store::MemStore;
use crate::store::StoreView;
use crate::text::ascii;
use crate::user::UserInput;

verus! {

/// The store after a request and the bytes that answer it, given the
/// request buffer and the outcome of reading its body as a user payload.
pub open spec fn spec_serve(s: StoreView, buf: Seq<u8>, parsed: Option<UserInput>) -> (
    StoreView,
    Seq<u8>,
) {
    let path = spec_path(buf);
    let idt = spec_get_id(path);
    match spec_route(spec_method(buf), path) {
        Route::Preflight => (s, spec_response(Status::Okay, Seq::<u8>::empty())),
        Route::NoMatch => (s, spec_response(Status::NotFound, ascii("404 not found"@))),
        Route::Create => match parsed {
            None => (s, spec_response(Status::Internal, ascii("Internal error"@))),
            Some(inp) => {
                let (s1, rid) = spec_insert(s, inp.name@, inp.email@);
                match rid {
                    None => (s1, spec_response(Status::Internal, ascii("Internal error"@))),
                    Some(id) => match spec_find(s1, id) {
                        Some(row) => (s1, spec_response(Status::Okay, json_user(row))),
                        None => (
                            s1,
                            spec_response(
                                Status::Internal,
                                ascii("Failed to retrieve created user"@),
                            ),
                        ),
                    },
                }
            },
        },
        Route::ReadOne => {
            if !is_i32_text(idt) {
                (s, spec_response(Status::Internal, ascii("Internal error"@)))
            } else {
                match spec_find(s, text_val(idt)) {
                    Some(row) => (s, spec_response(Status::Okay, json_user(row))),
                    None => (s, spec_response(Status::NotFound, ascii("User not found"@))),
                }
            }
        },
        Route::ReadAll => (s, spec_response(Status::Okay, json_users(s.rows))),
        Route::Update => {
            if !is_i32_text(idt) || parsed is None {
                (s, spec_response(Status::Internal, ascii("Internal error"@)))
            } else {
                let (s1, _) = spec_update(s, text_val(idt), parsed->0.name@, parsed->0.email@);
                (s1, spec_response(Status::Okay, ascii("User updated"@)))
            }
        },
        Route::Delete => {
            if !is_i32_text(idt) {
                (s, spec_response(Status::Internal, ascii("Internal error"@)))
            } else {
                let (s1, cnt) = spec_delete(s, text_val(idt));
                if cnt == 0 {
                    (s1, spec_response(Status::NotFound, ascii("User not found"@)))
                } else {
                    (s1, spec_response(Status::Okay, ascii("User deleted"@)))
                }
            }
        },
    }
}

/// Serves one raw request buffer against the store. The caller reads the
/// body as a user payload beforehand — the body is the buffer's part
/// after the blank line — and hands the outcome in as `parsed`; `None`
/// stands for a body that does not read as one.
pub fn serve(store: &mut MemStore, buf: &[u8], parsed: Option<UserInput>) -> (resp: Vec<u8>)
    requires
        old(store).wf(),
    ensures
        final(store).wf(),
        final(store)@ == spec_serve(old(store)@, buf@, parsed).0,
        resp@ == spec_serve(old(store)@, buf@, parsed).1,
{
    let req = parse_request(buf);
    let selected = route(&req.method, &req.path);
    if let Some((status, body)) = immediate_response(selected) {
        return render_response(status, &body);
    }
    let id_text = get_id(&req.path);
    let (status, body) = match selected {
        Route::Create => {
            let outcome = match &parsed {
                None => CreateOutcome::NoStore,
                Some(inp) => match store.insert(inp.clone()) {
                    Some(id) => match store.find_by_id(id) {
                        Some(u) => CreateOutcome::Created(u),
                        None => CreateOutcome::ReadBackFailed,
                    },
                    None => CreateOutcome::InsertFailed,
                },
            };
            handle_post_request(parsed, outcome)
        },
        Route::ReadOne => {
            let found = match parse_i32(id_text.as_slice()) {
                Some(id) => store.find_by_id(id),
                None => None,
            };
            handle_get_request(id_text.as_slice(), true, found)
        },
        Route::ReadAll => handle_get_all_request(Some(store.find_all())),
        Route::Update => {
            let outcome = match (parse_i32(id_text.as_slice()), &parsed) {
                (Some(id), Some(inp)) => UpdateOutcome::Updated(store.update(id, inp.clone())),
                _ => UpdateOutcome::NoStore,
            };
            handle_put_request(id_text.as_slice(), parsed, outcome)
        },
        Route::Delete => {
            let outcome = match parse_i32(id_text.as_slice()) {
                Some(id) => DeleteOutcome::Deleted(store.delete(id)),
                None => DeleteOutcome::NoStore,
            };
            handle_delete_request(id_text.as_slice(), outcome)
        },
        _ => {
            proof {
                assert(spec_immediate_response(selected) is Some);
                assert(false);
            }
            (Status::Internal, Vec::new())
        },
    };
    render_response(status, &body)
}

} // verus!
