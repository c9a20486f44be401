//! The five handlers' decisions. Each handler here is the pure part of
//! one operation: it takes what was parsed from the request and what
//! came back from the persistence gateway, and fixes the status and body
//! of the answer. The caller performs the storage calls themselves and
//! hands their outcomes in; every outcome is answered, so no failure
//! escapes as a panic.
use vstd::prelude::*;

use crate::http::Status;
use crate::json::json_user;
use crate::json::json_users;
use crate::json::user_to_json;
use crate::json::users_to_json;
use crate::num::is_i32_text;
use crate::num::parse_i32;
use crate::route::Route;
use crate::text::ascii;
use crate::text::str_bytes;
use crate::user::User;
use crate::user::UserInput;

verus! {

/// What came of asking the gateway to create a row: no connection, a
/// failed insert, a successful insert whose follow-up read failed, or the
/// row as the follow-up read returned it.
pub enum CreateOutcome {
    NoStore,
    InsertFailed,
    ReadBackFailed,
    Created(User),
}

/// What came of asking the gateway to update a row: no connection, a
/// failed statement, or the count of rows the statement touched.
pub enum UpdateOutcome {
    NoStore,
    QueryFailed,
    Updated(u64),
}

/// What came of asking the gateway to delete a row.
pub enum DeleteOutcome {
    NoStore,
    QueryFailed,
    Deleted(u64),
}

/// The create answer: a missing or unreadable payload, a missing
/// connection and a failed insert all collapse into the one internal
/// error; a lost follow-up read is named; success returns the stored row
/// as JSON.
pub open spec fn spec_post_response(parsed: Option<UserInput>, outcome: CreateOutcome) -> (Status,
    Seq<u8>,
) {
    match parsed {
        None => (Status::Internal, ascii("Internal error"@)),
        Some(_) => match outcome {
            CreateOutcome::NoStore => (Status::Internal, ascii("Internal error"@)),
            CreateOutcome::InsertFailed => (Status::Internal, ascii("Internal error"@)),
            CreateOutcome::ReadBackFailed => (
                Status::Internal,
                ascii("Failed to retrieve created user"@),
            ),
            CreateOutcome::Created(u) => (Status::Okay, json_user(u@)),
        },
    }
}

/// Decides the answer to a create request.
pub fn handle_post_request(parsed: Option<UserInput>, outcome: CreateOutcome) -> (r: (
    Status,
    Vec<u8>,
))
    ensures
        r.0 == spec_post_response(parsed, outcome).0,
        r.1@ == spec_post_response(parsed, outcome).1,
{
    proof {
        reveal_strlit("Internal error");
        reveal_strlit("Failed to retrieve created user");
    }
    match parsed {
        None => (Status::Internal, str_bytes("Internal error")),
        Some(_) => match outcome {
            CreateOutcome::NoStore => (Status::Internal, str_bytes("Internal error")),
            CreateOutcome::InsertFailed => (Status::Internal, str_bytes("Internal error")),
            CreateOutcome::ReadBackFailed => (
                Status::Internal,
                str_bytes("Failed to retrieve created user"),
            ),
            CreateOutcome::Created(u) => (Status::Okay, user_to_json(&u)),
        },
    }
}

/// The single-read answer: a non-numeric identifier or a missing
/// connection is the internal error; a found row is returned as JSON; an
/// absent row is the not-found answer.
pub open spec fn spec_get_response(id_text: Seq<u8>, connected: bool, found: Option<User>) -> (
    Status,
    Seq<u8>,
) {
    if !is_i32_text(id_text) || !connected {
        (Status::Internal, ascii("Internal error"@))
    } else {
        match found {
            Some(u) => (Status::Okay, json_user(u@)),
            None => (Status::NotFound, ascii("User not found"@)),
        }
    }
}

/// Decides the answer to a single-row read, given the identifier text
/// from the path and the row the gateway found for it, if any.
pub fn handle_get_request(id_text: &[u8], connected: bool, found: Option<User>) -> (r: (
    Status,
    Vec<u8>,
))
    ensures
        r.0 == spec_get_response(id_text@, connected, found).0,
        r.1@ == spec_get_response(id_text@, connected, found).1,
{
    proof {
        reveal_strlit("Internal error");
        reveal_strlit("User not found");
    }
    match parse_i32(id_text) {
        None => (Status::Internal, str_bytes("Internal error")),
        Some(_) => {
            if !connected {
                (Status::Internal, str_bytes("Internal error"))
            } else {
                match found {
                    Some(u) => (Status::Okay, user_to_json(&u)),
                    None => (Status::NotFound, str_bytes("User not found")),
                }
            }
        },
    }
}

/// The read-all answer: the rows as a JSON array — empty rows as the
/// empty array — or the internal error when the gateway was not reached.
pub open spec fn spec_get_all_response(rows: Option<Vec<User>>) -> (Status, Seq<u8>) {
    match rows {
        None => (Status::Internal, ascii("Internal error"@)),
        Some(v) => (Status::Okay, json_users(v@.map_values(|u: User| u@))),
    }
}

/// Decides the answer to a read of the whole collection.
pub fn handle_get_all_request(rows: Option<Vec<User>>) -> (r: (Status, Vec<u8>))
    ensures
        r.0 == spec_get_all_response(rows).0,
        r.1@ == spec_get_all_response(rows).1,
{
    proof {
        reveal_strlit("Internal error");
    }
    match rows {
        None => (Status::Internal, str_bytes("Internal error")),
        Some(v) => {
            let body = users_to_json(&v);
            (Status::Okay, body)
        },
    }
}

/// The update answer: a non-numeric identifier, an unreadable payload, a
/// missing connection and a failed statement are the internal error;
/// otherwise the literal confirmation, whatever the touched count — an
/// update of an absent row still reports success.
pub open spec fn spec_put_response(
    id_text: Seq<u8>,
    parsed: Option<UserInput>,
    outcome: UpdateOutcome,
) -> (Status, Seq<u8>) {
    if !is_i32_text(id_text) || parsed is None {
        (Status::Internal, ascii("Internal error"@))
    } else {
        match outcome {
            UpdateOutcome::NoStore => (Status::Internal, ascii("Internal error"@)),
            UpdateOutcome::QueryFailed => (Status::Internal, ascii("Internal error"@)),
            UpdateOutcome::Updated(_) => (Status::Okay, ascii("User updated"@)),
        }
    }
}

/// Decides the answer to an update request.
pub fn handle_put_request(id_text: &[u8], parsed: Option<UserInput>, outcome: UpdateOutcome) -> (r:
    (Status, Vec<u8>))
    ensures
        r.0 == spec_put_response(id_text@, parsed, outcome).0,
        r.1@ == spec_put_response(id_text@, parsed, outcome).1,
{
    proof {
        reveal_strlit("Internal error");
        reveal_strlit("User updated");
    }
    if parse_i32(id_text).is_none() || parsed.is_none() {
        return (Status::Internal, str_bytes("Internal error"));
    }
    match outcome {
        UpdateOutcome::NoStore => (Status::Internal, str_bytes("Internal error")),
        UpdateOutcome::QueryFailed => (Status::Internal, str_bytes("Internal error")),
        UpdateOutcome::Updated(_) => (Status::Okay, str_bytes("User updated")),
    }
}

/// The delete answer: a non-numeric identifier, a missing connection and
/// a failed statement are the internal error; a zero count is the
/// not-found answer; otherwise the literal confirmation.
pub open spec fn spec_delete_response(id_text: Seq<u8>, outcome: DeleteOutcome) -> (Status, Seq<
    u8,
>) {
    if !is_i32_text(id_text) {
        (Status::Internal, ascii("Internal error"@))
    } else {
        match outcome {
            DeleteOutcome::NoStore => (Status::Internal, ascii("Internal error"@)),
            DeleteOutcome::QueryFailed => (Status::Internal, ascii("Internal error"@)),
            DeleteOutcome::Deleted(n) => if n == 0 {
                (Status::NotFound, ascii("User not found"@))
            } else {
                (Status::Okay, ascii("User deleted"@))
            },
        }
    }
}

/// Decides the answer to a delete request.
pub fn handle_delete_request(id_text: &[u8], outcome: DeleteOutcome) -> (r: (Status, Vec<u8>))
    ensures
        r.0 == spec_delete_response(id_text@, outcome).0,
        r.1@ == spec_delete_response(id_text@, outcome).1,
{
    proof {
        reveal_strlit("Internal error");
        reveal_strlit("User not found");
        reveal_strlit("User deleted");
    }
    match parse_i32(id_text) {
        None => (Status::Internal, str_bytes("Internal error")),
        Some(_) => match outcome {
            DeleteOutcome::NoStore => (Status::Internal, str_bytes("Internal error")),
            DeleteOutcome::QueryFailed => (Status::Internal, str_bytes("Internal error")),
            DeleteOutcome::Deleted(n) => {
                if n == 0 {
                    (Status::NotFound, str_bytes("User not found"))
                } else {
                    (Status::Okay, str_bytes("User deleted"))
                }
            },
        },
    }
}

/// The answers that need no gateway at all: the preflight answer — status
/// 200 and an empty body, whatever the path — and the no-match answer.
pub open spec fn spec_immediate_response(r: Route) -> Option<(Status, Seq<u8>)> {
    match r {
        Route::Preflight => Some((Status::Okay, Seq::<u8>::empty())),
        Route::NoMatch => Some((Status::NotFound, ascii("404 not found"@))),
        _ => None,
    }
}

/// Answers the routes that never reach a handler; returns `None` for the
/// five routes that do.
pub fn immediate_response(r: Route) -> (o: Option<(Status, Vec<u8>)>)
    ensures
        match o {
            Some(p) => match spec_immediate_response(r) {
                Some(q) => p.0 == q.0 && p.1@ == q.1,
                None => false,
            },
            None => spec_immediate_response(r) is None,
        },
{
    proof {
        reveal_strlit("404 not found");
    }
    match r {
        Route::Preflight => Some((Status::Okay, Vec::new())),
        Route::NoMatch => Some((Status::NotFound, str_bytes("404 not found"))),
        _ => None,
    }
}

} // verus!
