//! The wire layer: splitting a raw request buffer into method, path and
//! body, and rendering a literal response from a status and a body.
use vstd::prelude::*;
use vstd::slice::slice_subrange;
use vstd::slice::slice_to_vec;

verus! {

/// Index of the first occurrence of `b` in `s`, if any.
pub open spec fn find_byte(s: Seq<u8>, b: u8) -> Option<int>
    decreases s.len(),
{
    if s.len() == 0 {
        None
    } else if s[0] == b {
        Some(0)
    } else {
        match find_byte(s.drop_first(), b) {
            Some(i) => Some(i + 1),
            None => None,
        }
    }
}

/// `find_byte` names the first occurrence: a match in range, with no
/// earlier match; `None` means the byte does not occur at all.
pub proof fn lemma_find_byte(s: Seq<u8>, b: u8)
    ensures
        match find_byte(s, b) {
            Some(i) => 0 <= i < s.len() && s[i] == b && forall|j: int| 0 <= j < i ==> s[j] != b,
            None => forall|j: int| 0 <= j < s.len() ==> s[j] != b,
        },
    decreases s.len(),
{
    if s.len() > 0 && s[0] != b {
        lemma_find_byte(s.drop_first(), b);
        assert forall|j: int| 1 <= j < s.len() implies s.drop_first()[j - 1] == s[j] by {}
    }
}

/// Finds the first occurrence of `b` in `s`.
pub fn find_byte_at(s: &[u8], b: u8) -> (r: Option<usize>)
    ensures
        match r {
            Some(i) => find_byte(s@, b) == Some(i as int),
            None => find_byte(s@, b) is None,
        },
{
    let mut i: usize = 0;
    while i < s.len()
        invariant
            i <= s@.len(),
            forall|j: int| 0 <= j < i ==> s@[j] != b,
        decreases s@.len() - i,
    {
        if s[i] == b {
            proof {
                lemma_find_byte(s@, b);
            }
            return Some(i);
        }
        i = i + 1;
    }
    proof {
        lemma_find_byte(s@, b);
    }
    None
}

/// True when the blank-line separator stands at position `i` of `s`.
pub open spec fn sep_at(s: Seq<u8>, i: int) -> bool {
    &&& 0 <= i
    &&& i + 4 <= s.len()
    &&& s[i] == 13
    &&& s[i + 1] == 10
    &&& s[i + 2] == 13
    &&& s[i + 3] == 10
}

/// Index of the first blank-line separator (carriage return, line feed,
/// twice) in `s`, if any.
pub open spec fn find_sep(s: Seq<u8>) -> Option<int>
    decreases s.len(),
{
    if s.len() < 4 {
        None
    } else if sep_at(s, 0) {
        Some(0)
    } else {
        match find_sep(s.drop_first()) {
            Some(i) => Some(i + 1),
            None => None,
        }
    }
}

/// A separator stands one place further in `s` than in `s` without its
/// first byte.
proof fn lemma_sep_at_shift(s: Seq<u8>, j: int)
    requires
        s.len() > 0,
        0 <= j,
    ensures
        sep_at(s.drop_first(), j) == sep_at(s, j + 1),
{
    let t = s.drop_first();
    if j + 4 <= t.len() {
        assert(t[j] == s[j + 1]);
        assert(t[j + 1] == s[j + 2]);
        assert(t[j + 2] == s[j + 3]);
        assert(t[j + 3] == s[j + 4]);
    }
}

/// `find_sep` names the first separator, and `None` means there is none.
pub proof fn lemma_find_sep(s: Seq<u8>)
    ensures
        match find_sep(s) {
            Some(i) => sep_at(s, i) && forall|j: int| 0 <= j < i ==> !sep_at(s, j),
            None => forall|j: int| 0 <= j ==> !sep_at(s, j),
        },
    decreases s.len(),
{
    if s.len() >= 4 && !sep_at(s, 0) {
        lemma_find_sep(s.drop_first());
        assert forall|j: int| 0 <= j implies sep_at(s.drop_first(), j) == sep_at(s, j + 1) by {
            lemma_sep_at_shift(s, j);
        }
        match find_sep(s.drop_first()) {
            Some(i) => {
                assert forall|j: int| 0 <= j < i + 1 implies !sep_at(s, j) by {
                    if j > 0 {
                        assert(!sep_at(s.drop_first(), j - 1));
                    }
                }
            },
            None => {
                assert forall|j: int| 0 <= j implies !sep_at(s, j) by {
                    if j > 0 {
                        assert(!sep_at(s.drop_first(), j - 1));
                    }
                }
            },
        }
    } else if s.len() < 4 {
        assert forall|j: int| 0 <= j implies !sep_at(s, j) by {}
    }
}

/// Finds the first blank-line separator in `s`.
pub fn find_sep_at(s: &[u8]) -> (r: Option<usize>)
    ensures
        match r {
            Some(i) => find_sep(s@) == Some(i as int),
            None => find_sep(s@) is None,
        },
{
    if s.len() < 4 {
        return None;
    }
    let mut i: usize = 0;
    while i <= s.len() - 4
        invariant
            4 <= s@.len(),
            i <= s@.len(),
            forall|j: int| 0 <= j < i ==> !sep_at(s@, j),
        decreases s@.len() - i,
    {
        if s[i] == 13 && s[i + 1] == 10 && s[i + 2] == 13 && s[i + 3] == 10 {
            proof {
                lemma_find_sep(s@);
                assert(sep_at(s@, i as int));
                if let Some(k) = find_sep(s@) {
                    if k < i as int {
                        assert(!sep_at(s@, k));
                    }
                    if k > i as int {
                        assert(!sep_at(s@, i as int));
                    }
                }
            }
            return Some(i);
        }
        i = i + 1;
    }
    proof {
        lemma_find_sep(s@);
        if find_sep(s@) is Some {
            let k = find_sep(s@)->Some_0;
            assert(!sep_at(s@, k));
        }
    }
    None
}

/// The leading token of a request: everything up to the first space, or
/// the whole buffer when it has no space.
pub open spec fn spec_method(r: Seq<u8>) -> Seq<u8> {
    match find_byte(r, 32) {
        Some(i) => r.take(i),
        None => r,
    }
}

/// The second token of a request: what stands between the first space and
/// the next one, or everything after the first space when there is no
/// second; empty when the buffer has no space at all.
pub open spec fn spec_path(r: Seq<u8>) -> Seq<u8> {
    match find_byte(r, 32) {
        Some(i) => {
            let rest = r.skip(i + 1);
            match find_byte(rest, 32) {
                Some(j) => rest.take(j),
                None => rest,
            }
        },
        None => Seq::empty(),
    }
}

/// The request body: everything after the first blank-line separator, or
/// empty when the buffer holds no separator.
pub open spec fn spec_body(r: Seq<u8>) -> Seq<u8> {
    match find_sep(r) {
        Some(i) => r.skip(i + 4),
        None => Seq::empty(),
    }
}

/// A request, reduced to the three parts the service reads: the method
/// token, the path token, and the body. Headers are never interpreted;
/// they are skipped over by the blank-line split.
pub struct Request {
    pub method: Vec<u8>,
    pub path: Vec<u8>,
    pub body: Vec<u8>,
}

/// Splits a raw request buffer into method, path and body. Any byte
/// buffer is accepted; a missing token or separator yields the empty
/// part rather than an error.
pub fn parse_request(buf: &[u8]) -> (r: Request)
    ensures
        r.method@ == spec_method(buf@),
        r.path@ == spec_path(buf@),
        r.body@ == spec_body(buf@),
{
    proof {
        lemma_find_byte(buf@, 32);
        lemma_find_sep(buf@);
    }
    let method: Vec<u8>;
    let path: Vec<u8>;
    match find_byte_at(buf, 32) {
        Some(i) => {
            proof {
                assert(find_byte(buf@, 32) == Some(i as int));
                assert(i < buf@.len());
            }
            method = slice_to_vec(slice_subrange(buf, 0, i));
            let n = buf.len();
            let rest = slice_subrange(buf, i + 1, n);
            proof {
                assert(rest@ == buf@.skip(i + 1));
                lemma_find_byte(rest@, 32);
            }
            match find_byte_at(rest, 32) {
                Some(j) => {
                    path = slice_to_vec(slice_subrange(rest, 0, j));
                },
                None => {
                    path = slice_to_vec(rest);
                },
            }
            proof {
                assert(method@ =~= spec_method(buf@));
            }
        },
        None => {
            method = slice_to_vec(buf);
            path = Vec::new();
            proof {
                assert(path@ =~= spec_path(buf@));
            }
        },
    }
    let body: Vec<u8>;
    match find_sep_at(buf) {
        Some(i) => {
            proof {
                assert(find_sep(buf@) == Some(i as int));
                assert(sep_at(buf@, i as int));
                assert(i + 4 <= buf@.len());
            }
            let n = buf.len();
            body = slice_to_vec(slice_subrange(buf, i + 4, n));
        },
        None => {
            body = Vec::new();
            proof {
                assert(body@ =~= spec_body(buf@));
            }
        },
    }
    Request { method, path, body }
}

/// The three statuses the service answers with.
#[derive(PartialEq, Eq, Structural, Clone, Copy, Debug)]
pub enum Status {
    Okay,
    NotFound,
    Internal,
}

/// The literal status line and headers written before a body: the
/// success head carries the JSON content type and the three permissive
/// CORS headers, the other two close the head at once.
pub open spec fn status_head(s: Status) -> Seq<u8> {
    match s {
        Status::Okay => crate::text::ascii(
            "HTTP/1.1 200 OK\r\nContent-Type: application/json\r\nAccess-Control-Allow-Origin: *\r\nAccess-Control-Allow-Methods: GET, POST, PUT, DELETE\r\nAccess-Control-Allow-Headers: Content-Type\r\n\r\n"@,
        ),
        Status::NotFound => crate::text::ascii("HTTP/1.1 404 NOT FOUND\r\n\r\n"@),
        Status::Internal => crate::text::ascii("HTTP/1.1 500 INTERNAL ERROR\r\n\r\n"@),
    }
}

/// The full response for a status and a body: the head, then the body,
/// nothing more.
pub open spec fn spec_response(s: Status, body: Seq<u8>) -> Seq<u8> {
    status_head(s) + body
}

/// Renders the literal response bytes for a status and a body.
pub fn render_response(s: Status, body: &[u8]) -> (r: Vec<u8>)
    ensures
        r@ == spec_response(s, body@),
{
    let mut out: Vec<u8> = Vec::new();
    match s {
        Status::Okay => {
            proof {
                reveal_strlit(
                    "HTTP/1.1 200 OK\r\nContent-Type: application/json\r\nAccess-Control-Allow-Origin: *\r\nAccess-Control-Allow-Methods: GET, POST, PUT, DELETE\r\nAccess-Control-Allow-Headers: Content-Type\r\n\r\n",
                );
            }
            crate::text::push_str_bytes(
                &mut out,
                "HTTP/1.1 200 OK\r\nContent-Type: application/json\r\nAccess-Control-Allow-Origin: *\r\nAccess-Control-Allow-Methods: GET, POST, PUT, DELETE\r\nAccess-Control-Allow-Headers: Content-Type\r\n\r\n",
            );
        },
        Status::NotFound => {
            proof {
                reveal_strlit("HTTP/1.1 404 NOT FOUND\r\n\r\n");
            }
            crate::text::push_str_bytes(&mut out, "HTTP/1.1 404 NOT FOUND\r\n\r\n");
        },
        Status::Internal => {
            proof {
                reveal_strlit("HTTP/1.1 500 INTERNAL ERROR\r\n\r\n");
            }
            crate::text::push_str_bytes(&mut out, "HTTP/1.1 500 INTERNAL ERROR\r\n\r\n");
        },
    }
    crate::text::push_bytes(&mut out, body);
    proof {
        assert(out@ =~= spec_response(s, body@));
    }
    out
}

} // verus!
