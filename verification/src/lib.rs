//! A small user service over raw request bytes: a parser that splits a
//! buffer into method, path and body, a router over the five handlers, a
//! path identifier extractor, a decimal reader and writer, a JSON writer
//! for the record type, the handlers' decisions, a verified model of the
//! persistence gateway, and the laws the whole exchange obeys.
pub mod handlers;
pub mod http;
pub mod json;
pub mod laws;
pub mod num;
pub mod route;
pub mod serve;
pub mod store;
pub mod text;
pub mod user;

use vstd::prelude::*;

verus! {

/// True of the ASCII whitespace bytes: space, tab, line feed, form feed
/// and carriage return.
pub open spec fn is_ws(b: u8) -> bool {
    b == 32 || b == 9 || b == 10 || b == 12 || b == 13
}

/// Tests a byte for ASCII whitespace.
pub fn byte_is_ws(b: u8) -> (r: bool)
    ensures
        r == is_ws(b),
{
    b == 32 || b == 9 || b == 10 || b == 12 || b == 13
}

} // verus!
