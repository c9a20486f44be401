//! What the service guarantees across calls, proved over the store model
//! and the handlers' decision functions.
use vstd::prelude::*;

use crate::handlers::CreateOutcome;
use crate::handlers::DeleteOutcome;
use crate::handlers::spec_delete_response;
use crate::handlers::spec_get_all_response;
use crate::handlers::spec_get_response;
use crate::handlers::spec_immediate_response;
use crate::handlers::spec_post_response;
use crate::http::Status;
use crate::http::spec_method;
use crate::http::spec_path;
use crate::http::spec_response;
use crate::http::status_head;
use crate::json::json_user;
use crate::json::json_users;
use crate::num::int_text;
use crate::num::lemma_int_text_roundtrip;
use crate::route::Route;
use crate::route::spec_route;
use crate::serve::spec_serve;
use crate::store::StoreView;
use crate::store::find_index;
use crate::store::lemma_find_index;
use crate::store::spec_delete;
use crate::store::spec_find;
use crate::store::spec_insert;
use crate::store::spec_update;
use crate::store::store_wf;
use crate::text::ascii;
use crate::text::contains_bytes;
use crate::user::User;
use crate::user::UserInput;
use crate::user::UserView;

verus! {

/// Creating a row and then reading the identifier the store assigned
/// yields a record with that identifier and the name and email that were
/// sent: the read answer is status 200 with exactly the created row's
/// JSON, the same body the create answer carried.
pub proof fn lemma_create_then_read(
    s: StoreView,
    name: Seq<u8>,
    email: Seq<u8>,
    u: User,
    inp: UserInput,
)
    requires
        store_wf(s),
        s.next < i32::MAX,
        u@ == (UserView { id: Some(s.next), name, email }),
        inp.name@ == name,
        inp.email@ == email,
    ensures
        ({
            let (s1, rid) = spec_insert(s, name, email);
            &&& rid == Some(s.next)
            &&& store_wf(s1)
            &&& spec_find(s1, s.next) == Some(UserView { id: Some(s.next), name, email })
            &&& spec_post_response(Some(inp), CreateOutcome::Created(u)) == (
                Status::Okay,
                json_user(UserView { id: Some(s.next), name, email }),
            )
            &&& spec_get_response(int_text(s.next), true, Some(u)) == (
                Status::Okay,
                json_user(UserView { id: Some(s.next), name, email }),
            )
        }),
{
    let (s1, rid) = spec_insert(s, name, email);
    let row = UserView { id: Some(s.next), name, email };
    assert(s1.rows == s.rows.push(row));
    lemma_find_index(s1.rows, s.next);
    match find_index(s1.rows, s.next) {
        None => {
            assert(s1.rows[s.rows.len() as int].id == Some(s.next));
            assert(false);
        },
        Some(i) => {
            if i < s.rows.len() {
                assert(s1.rows[i] == s.rows[i]);
                assert(false);
            }
            assert(s1.rows[i] == row);
        },
    }
    lemma_int_text_roundtrip(s.next);
}

/// An identifier with no row behind it reads and deletes as not found:
/// the single read answers 404 with the not-found body, and a delete
/// touches zero rows, leaves the store as it was, and answers 404.
pub proof fn lemma_missing_reads_and_deletes_not_found(s: StoreView, id: int)
    requires
        store_wf(s),
        i32::MIN <= id <= i32::MAX,
        spec_find(s, id) is None,
    ensures
        spec_get_response(int_text(id), true, Option::<User>::None) == (
            Status::NotFound,
            ascii("User not found"@),
        ),
        spec_delete(s, id).1 == 0,
        spec_delete(s, id).0 == s,
        spec_delete_response(int_text(id), DeleteOutcome::Deleted(0)) == (
            Status::NotFound,
            ascii("User not found"@),
        ),
{
    lemma_int_text_roundtrip(id);
}

/// Reading the whole collection of an empty store answers status 200
/// with the empty JSON array: not a null, not an error.
pub proof fn lemma_read_all_empty(v: Vec<User>)
    requires
        v@.len() == 0,
    ensures
        spec_get_all_response(Some(v)) == (Status::Okay, ascii("[]"@)),
{
    reveal_strlit("[");
    reveal_strlit("]");
    reveal_strlit("[]");
    assert(v@.map_values(|u: User| u@) =~= Seq::<UserView>::empty());
    assert(json_users(Seq::<UserView>::empty()) =~= ascii("[]"@));
}

/// A whole-collection read served against an empty store answers status
/// 200 with the empty JSON array and leaves the store empty.
pub proof fn lemma_read_all_empty_served(s: StoreView, buf: Seq<u8>, parsed: Option<UserInput>)
    requires
        s.rows.len() == 0,
        spec_route(spec_method(buf), spec_path(buf)) == Route::ReadAll,
    ensures
        spec_serve(s, buf, parsed) == (s, spec_response(Status::Okay, ascii("[]"@))),
{
    reveal_strlit("[");
    reveal_strlit("]");
    reveal_strlit("[]");
    assert(s.rows =~= Seq::<UserView>::empty());
    assert(json_users(s.rows) =~= ascii("[]"@));
}

/// An update of an existing row touches exactly that row: the count is
/// one, the row keeps its identifier and takes the new name and email,
/// the table keeps its size, every other identifier reads afterwards
/// exactly as it read before, and a following single read answers with
/// the changed row's JSON.
pub proof fn lemma_update_exact(s: StoreView, id: int, name: Seq<u8>, email: Seq<u8>, u: User)
    requires
        store_wf(s),
        spec_find(s, id) is Some,
        i32::MIN <= id <= i32::MAX,
        u@ == (UserView { id: Some(id), name, email }),
    ensures
        ({
            let (s1, cnt) = spec_update(s, id, name, email);
            &&& cnt == 1
            &&& store_wf(s1)
            &&& s1.rows.len() == s.rows.len()
            &&& spec_find(s1, id) == Some(UserView { id: Some(id), name, email })
            &&& spec_get_response(int_text(id), true, Some(u)) == (
                Status::Okay,
                json_user(UserView { id: Some(id), name, email }),
            )
            &&& forall|o: int| o != id ==> spec_find(s1, o) == spec_find(s, o)
        }),
{
    lemma_int_text_roundtrip(id);
    lemma_find_index(s.rows, id);
    let i = find_index(s.rows, id)->0;
    let (s1, cnt) = spec_update(s, id, name, email);
    let row = UserView { id: Some(id), name, email };
    assert(s1.rows == s.rows.update(i, row));
    assert forall|a: int| 0 <= a < s.rows.len() implies #[trigger] s1.rows[a].id
        == s.rows[a].id by {}
    lemma_find_index(s1.rows, id);
    match find_index(s1.rows, id) {
        None => {
            assert(s1.rows[i].id == Some(id));
            assert(false);
        },
        Some(k) => {
            assert(s.rows[k].id == Some(id));
            if k < i {
                assert(false);
            }
            if k > i {
                assert(s1.rows[i].id == Some(id));
                assert(false);
            }
        },
    }
    assert forall|o: int| o != id implies spec_find(s1, o) == spec_find(s, o) by {
        lemma_find_index(s1.rows, o);
        lemma_find_index(s.rows, o);
        match find_index(s.rows, o) {
            Some(k) => {
                assert(s.rows[k].id == Some(o));
                assert(k != i);
                match find_index(s1.rows, o) {
                    Some(k1) => {
                        assert(s1.rows[k1].id == Some(o));
                        if k1 < k {
                            assert(s.rows[k1].id != Some(o));
                            assert(k1 == i);
                            assert(false);
                        }
                        if k < k1 {
                            assert(s1.rows[k].id != Some(o));
                            assert(false);
                        }
                        assert(s1.rows[k1] == s.rows[k]);
                    },
                    None => {
                        assert(s1.rows[k].id == Some(o));
                        assert(false);
                    },
                }
            },
            None => {
                if let Some(k1) = find_index(s1.rows, o) {
                    assert(s1.rows[k1].id == Some(o));
                    assert(k1 == i);
                    assert(false);
                }
            },
        }
    }
}

/// A delete of an existing row removes exactly one row: the count is one,
/// the table shrinks by one, the identifier now reads as absent — so a
/// repeated delete touches zero rows and answers 404 — and every other
/// identifier reads afterwards exactly as it read before.
pub proof fn lemma_delete_exact(s: StoreView, id: int)
    requires
        store_wf(s),
        spec_find(s, id) is Some,
        i32::MIN <= id <= i32::MAX,
    ensures
        ({
            let (s1, cnt) = spec_delete(s, id);
            &&& cnt == 1
            &&& store_wf(s1)
            &&& s1.rows.len() == s.rows.len() - 1
            &&& spec_find(s1, id) is None
            &&& spec_delete(s1, id).1 == 0
            &&& spec_delete(s1, id).0 == s1
            &&& spec_delete_response(int_text(id), DeleteOutcome::Deleted(0)) == (
                Status::NotFound,
                ascii("User not found"@),
            )
            &&& forall|o: int| o != id ==> spec_find(s1, o) == spec_find(s, o)
        }),
{
    lemma_int_text_roundtrip(id);
    lemma_find_index(s.rows, id);
    let i = find_index(s.rows, id)->0;
    let (s1, cnt) = spec_delete(s, id);
    assert(s1.rows == s.rows.remove(i));
    assert forall|a: int| 0 <= a < s1.rows.len() implies #[trigger] s1.rows[a] == (
    if a < i {
        s.rows[a]
    } else {
        s.rows[a + 1]
    }) by {}
    lemma_find_index(s1.rows, id);
    if let Some(k) = find_index(s1.rows, id) {
        assert(s1.rows[k].id == Some(id));
        if k < i {
            assert(s.rows[k].id == Some(id));
            assert(false);
        } else {
            assert(s.rows[k + 1].id == Some(id));
            assert(false);
        }
    }
    assert forall|o: int| o != id implies spec_find(s1, o) == spec_find(s, o) by {
        lemma_find_index(s1.rows, o);
        lemma_find_index(s.rows, o);
        match find_index(s.rows, o) {
            Some(k) => {
                assert(s.rows[k].id == Some(o));
                assert(k != i);
                let k1 = if k < i {
                    k
                } else {
                    k - 1
                };
                assert(s1.rows[k1].id == Some(o));
                match find_index(s1.rows, o) {
                    Some(m) => {
                        assert(s1.rows[m].id == Some(o));
                        let om = if m < i {
                            m
                        } else {
                            m + 1
                        };
                        assert(s.rows[om].id == Some(o));
                        assert(om == k);
                        assert(m == k1);
                        assert(s1.rows[m] == s.rows[k]);
                    },
                    None => {
                        assert(false);
                    },
                }
            },
            None => {
                if let Some(m) = find_index(s1.rows, o) {
                    assert(s1.rows[m].id == Some(o));
                    let om = if m < i {
                        m
                    } else {
                        m + 1
                    };
                    assert(s.rows[om].id == Some(o));
                    assert(false);
                }
            },
        }
    }
}

/// A preflight request — any buffer whose method token is the preflight
/// method — routes past every handler and is answered with status 200, an
/// empty body, and a head that names all three permissive sharing
/// headers, whatever the path says and whatever the store holds.
pub proof fn lemma_preflight(s: StoreView, buf: Seq<u8>, parsed: Option<UserInput>)
    requires
        spec_method(buf) == ascii("OPTIONS"@),
    ensures
        spec_route(spec_method(buf), spec_path(buf)) == Route::Preflight,
        spec_immediate_response(Route::Preflight) == Some((Status::Okay, Seq::<u8>::empty())),
        spec_serve(s, buf, parsed) == (s, status_head(Status::Okay)),
        contains_bytes(status_head(Status::Okay), ascii("Access-Control-Allow-Origin"@)),
        contains_bytes(status_head(Status::Okay), ascii("Access-Control-Allow-Methods"@)),
        contains_bytes(status_head(Status::Okay), ascii("Access-Control-Allow-Headers"@)),
{
    reveal_strlit(
        "HTTP/1.1 200 OK\r\nContent-Type: application/json\r\nAccess-Control-Allow-Origin: *\r\nAccess-Control-Allow-Methods: GET, POST, PUT, DELETE\r\nAccess-Control-Allow-Headers: Content-Type\r\n\r\n",
    );
    reveal_strlit("Access-Control-Allow-Origin");
    reveal_strlit("Access-Control-Allow-Methods");
    reveal_strlit("Access-Control-Allow-Headers");
    let h = status_head(Status::Okay);
    assert(spec_response(Status::Okay, Seq::<u8>::empty()) =~= h);
    assert(h.subrange(49int, 76int) =~= ascii("Access-Control-Allow-Origin"@));
    assert(crate::text::match_at(h, ascii("Access-Control-Allow-Origin"@), 49));
    assert(h.subrange(81int, 109int) =~= ascii("Access-Control-Allow-Methods"@));
    assert(crate::text::match_at(h, ascii("Access-Control-Allow-Methods"@), 81));
    assert(h.subrange(135int, 163int) =~= ascii("Access-Control-Allow-Headers"@));
    assert(crate::text::match_at(h, ascii("Access-Control-Allow-Headers"@), 135));
}

} // verus!
