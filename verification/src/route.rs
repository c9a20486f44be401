//! Routing: matching the method and path of a parsed request to one of
//! the five handlers, and pulling the identifier segment out of a path.
use vstd::prelude::*;
use vstd::slice::slice_subrange;
use vstd::slice::slice_to_vec;

use crate::http::find_byte;
use crate::http::find_byte_at;
use crate::http::lemma_find_byte;
use crate::is_ws;
use crate::byte_is_ws;
use crate::text::ascii;
use crate::text::str_bytes;

verus! {

/// The pieces of `s` between occurrences of `sep`: always at least one
/// piece, and one more piece per occurrence.
pub open spec fn split_bytes(s: Seq<u8>, sep: u8) -> Seq<Seq<u8>>
    decreases s.len(),
    via split_bytes_dec
{
    match find_byte(s, sep) {
        Some(i) => seq![s.take(i)] + split_bytes(s.skip(i + 1), sep),
        None => seq![s],
    }
}

#[via_fn]
proof fn split_bytes_dec(s: Seq<u8>, sep: u8) {
    lemma_find_byte(s, sep);
}

/// Splits a byte slice on a separator byte.
pub fn split_bytes_vec(s: &[u8], sep: u8) -> (r: Vec<Vec<u8>>)
    ensures
        r@.map_values(|p: Vec<u8>| p@) == split_bytes(s@, sep),
{
    let n = s.len();
    let mut parts: Vec<Vec<u8>> = Vec::new();
    let mut pos: usize = 0;
    proof {
        assert(s@.skip(0) =~= s@);
        assert(parts@.map_values(|p: Vec<u8>| p@) + split_bytes(s@, sep) =~= split_bytes(s@, sep));
    }
    loop
        invariant
            pos <= n,
            n == s@.len(),
            split_bytes(s@, sep) == parts@.map_values(|p: Vec<u8>| p@) + split_bytes(
                s@.skip(pos as int),
                sep,
            ),
        decreases n - pos,
    {
        let rest = slice_subrange(s, pos, n);
        let ghost prev = parts@.map_values(|p: Vec<u8>| p@);
        match find_byte_at(rest, sep) {
            Some(k) => {
                proof {
                    lemma_find_byte(rest@, sep);
                }
                parts.push(slice_to_vec(slice_subrange(rest, 0, k)));
                proof {
                    assert(parts@.map_values(|p: Vec<u8>| p@) =~= prev.push(rest@.take(k as int)));
                    assert(rest@.skip(k + 1) =~= s@.skip(pos + k + 1));
                    assert(prev + (seq![rest@.take(k as int)] + split_bytes(
                        rest@.skip(k + 1),
                        sep,
                    )) =~= prev.push(rest@.take(k as int)) + split_bytes(
                        s@.skip(pos + k + 1 as int),
                        sep,
                    ));
                }
                pos = pos + k + 1;
            },
            None => {
                parts.push(slice_to_vec(rest));
                proof {
                    assert(parts@.map_values(|p: Vec<u8>| p@) =~= prev.push(rest@));
                    assert(prev + seq![rest@] =~= prev.push(rest@));
                }
                return parts;
            },
        }
    }
}

/// True when `pre` is a prefix of `s`.
pub open spec fn starts_with(s: Seq<u8>, pre: Seq<u8>) -> bool {
    pre.len() <= s.len() && s.take(pre.len() as int) == pre
}

/// Compares two byte slices.
pub fn bytes_eq(a: &[u8], b: &[u8]) -> (r: bool)
    ensures
        r == (a@ == b@),
{
    if a.len() != b.len() {
        return false;
    }
    let n = a.len();
    let mut i: usize = 0;
    while i < n
        invariant
            i <= n,
            n == a@.len() == b@.len(),
            forall|j: int| 0 <= j < i ==> a@[j] == b@[j],
        decreases n - i,
    {
        if a[i] != b[i] {
            proof {
                assert(a@[i as int] != b@[i as int]);
            }
            return false;
        }
        i = i + 1;
    }
    proof {
        assert(a@ =~= b@);
    }
    true
}

/// Tests whether `pre` is a prefix of `s`.
pub fn bytes_start_with(s: &[u8], pre: &[u8]) -> (r: bool)
    ensures
        r == starts_with(s@, pre@),
{
    if pre.len() > s.len() {
        return false;
    }
    let head = slice_subrange(s, 0, pre.len());
    bytes_eq(head, pre)
}

/// Where a request is sent: one of the five handlers, the preflight
/// answer, or no match at all.
#[derive(PartialEq, Eq, Structural, Clone, Copy, Debug)]
pub enum Route {
    Preflight,
    Create,
    ReadOne,
    ReadAll,
    Update,
    Delete,
    NoMatch,
}

/// True of a path that begins with the user-collection prefix: an empty
/// leading segment, then the api segment, a namespace segment, and a
/// fourth segment that begins with the collection name.
pub open spec fn is_collection_path(p: Seq<u8>) -> bool {
    let segs = split_bytes(p, 47);
    &&& segs.len() >= 4
    &&& segs[0] == Seq::<u8>::empty()
    &&& segs[1] == ascii("api"@)
    &&& starts_with(segs[3], ascii("users"@))
}

/// True of a path that begins with the single-item prefix: the collection
/// segment exactly, followed by at least one more segment.
pub open spec fn is_item_path(p: Seq<u8>) -> bool {
    let segs = split_bytes(p, 47);
    &&& segs.len() >= 5
    &&& segs[0] == Seq::<u8>::empty()
    &&& segs[1] == ascii("api"@)
    &&& segs[3] == ascii("users"@)
}

/// The routing rule, first match winning. The single-item rules are
/// tested before the collection rule, whose prefix they extend.
pub open spec fn spec_route(method: Seq<u8>, path: Seq<u8>) -> Route {
    if method == ascii("OPTIONS"@) {
        Route::Preflight
    } else if method == ascii("POST"@) && is_collection_path(path) {
        Route::Create
    } else if method == ascii("GET"@) && is_item_path(path) {
        Route::ReadOne
    } else if method == ascii("GET"@) && is_collection_path(path) {
        Route::ReadAll
    } else if method == ascii("PUT"@) && is_item_path(path) {
        Route::Update
    } else if method == ascii("DELETE"@) && is_item_path(path) {
        Route::Delete
    } else {
        Route::NoMatch
    }
}

/// Selects the handler for a method and path.
pub fn route(method: &[u8], path: &[u8]) -> (r: Route)
    ensures
        r == spec_route(method@, path@),
{
    proof {
        reveal_strlit("OPTIONS");
        reveal_strlit("POST");
        reveal_strlit("GET");
        reveal_strlit("PUT");
        reveal_strlit("DELETE");
        reveal_strlit("api");
        reveal_strlit("users");
    }
    let options_m = str_bytes("OPTIONS");
    if bytes_eq(method, options_m.as_slice()) {
        return Route::Preflight;
    }
    let segs = split_bytes_vec(path, 47);
    let ghost sview = split_bytes(path@, 47);
    let api = str_bytes("api");
    let users = str_bytes("users");
    proof {
        assert(forall|i: int|
            0 <= i < segs@.len() ==> segs@.map_values(|p: Vec<u8>| p@)[i] == #[trigger] segs@[i]@);
    }
    let collection: bool = segs.len() >= 4 && segs[0].len() == 0 && bytes_eq(
        segs[1].as_slice(),
        api.as_slice(),
    ) && bytes_start_with(segs[3].as_slice(), users.as_slice());
    let item: bool = segs.len() >= 5 && segs[0].len() == 0 && bytes_eq(
        segs[1].as_slice(),
        api.as_slice(),
    ) && bytes_eq(segs[3].as_slice(), users.as_slice());
    proof {
        if segs@.len() >= 4 {
            assert(segs@[0]@ == sview[0]);
            assert(segs@[1]@ == sview[1]);
            assert(segs@[3]@ == sview[3]);
        }
        assert(segs@[0]@.len() == 0 ==> segs@[0]@ =~= Seq::<u8>::empty());
    }
    assert(collection == is_collection_path(path@));
    assert(item == is_item_path(path@));
    let post_m = str_bytes("POST");
    if bytes_eq(method, post_m.as_slice()) && collection {
        return Route::Create;
    }
    let get_m = str_bytes("GET");
    if bytes_eq(method, get_m.as_slice()) && item {
        return Route::ReadOne;
    }
    if bytes_eq(method, get_m.as_slice()) && collection {
        return Route::ReadAll;
    }
    let put_m = str_bytes("PUT");
    if bytes_eq(method, put_m.as_slice()) && item {
        return Route::Update;
    }
    let delete_m = str_bytes("DELETE");
    if bytes_eq(method, delete_m.as_slice()) && item {
        return Route::Delete;
    }
    Route::NoMatch
}

/// The part of `s` before its first whitespace byte.
pub open spec fn ws_prefix(s: Seq<u8>) -> Seq<u8>
    decreases s.len(),
{
    if s.len() == 0 {
        s
    } else if is_ws(s[0]) {
        Seq::empty()
    } else {
        seq![s[0]] + ws_prefix(s.drop_first())
    }
}

/// `ws_prefix` is the prefix that ends at the first whitespace byte.
pub proof fn lemma_ws_prefix(s: Seq<u8>, i: int)
    requires
        0 <= i <= s.len(),
        forall|j: int| 0 <= j < i ==> !is_ws(s[j]),
        i < s.len() ==> is_ws(s[i]),
        i == s.len() || is_ws(s[i]),
    ensures
        ws_prefix(s) == s.take(i),
    decreases s.len(),
{
    if s.len() == 0 {
        assert(ws_prefix(s) =~= s.take(i));
    } else if is_ws(s[0]) {
        assert(i == 0);
        assert(ws_prefix(s) =~= s.take(0));
    } else {
        let t = s.drop_first();
        assert(forall|j: int| 1 <= j < s.len() ==> t[j - 1] == s[j]);
        lemma_ws_prefix(t, i - 1);
        assert(seq![s[0]] + t.take(i - 1) =~= s.take(i));
    }
}

/// The identifier segment of a path: the fifth piece of the path split on
/// slashes, cut at its first whitespace byte; empty when the path has
/// fewer pieces. The result is raw text, not yet checked to be numeric.
pub open spec fn spec_get_id(path: Seq<u8>) -> Seq<u8> {
    let segs = split_bytes(path, 47);
    if segs.len() <= 4 {
        Seq::empty()
    } else {
        ws_prefix(segs[4])
    }
}

/// Pulls the identifier segment out of a path.
pub fn get_id(path: &[u8]) -> (r: Vec<u8>)
    ensures
        r@ == spec_get_id(path@),
{
    let segs = split_bytes_vec(path, 47);
    proof {
        assert(forall|i: int|
            0 <= i < segs@.len() ==> segs@.map_values(|p: Vec<u8>| p@)[i] == #[trigger] segs@[i]@);
    }
    if segs.len() <= 4 {
        return Vec::new();
    }
    let seg = &segs[4];
    proof {
        assert(seg@ == split_bytes(path@, 47)[4]);
    }
    let n = seg.len();
    let mut i: usize = 0;
    while i < n
        invariant
            i <= n,
            n == seg@.len(),
            split_bytes(path@, 47).len() > 4,
            seg@ == split_bytes(path@, 47)[4],
            forall|j: int| 0 <= j < i ==> !is_ws(seg@[j]),
        decreases n - i,
    {
        if byte_is_ws(seg[i]) {
            proof {
                lemma_ws_prefix(seg@, i as int);
            }
            return slice_to_vec(slice_subrange(seg.as_slice(), 0, i));
        }
        i = i + 1;
    }
    proof {
        lemma_ws_prefix(seg@, n as int);
        assert(seg@.take(n as int) =~= seg@);
    }
    slice_to_vec(slice_subrange(seg.as_slice(), 0, n))
}

} // verus!
