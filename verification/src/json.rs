//! The JSON text of user records, as the service writes it on the wire:
//! fields in declaration order, string content escaped the way a JSON
//! serializer escapes it.
use vstd::prelude::*;

use crate::num::int_text;
use crate::num::push_i32_text;
use crate::text::ascii;
use crate::text::push_bytes;
use crate::text::push_str_bytes;
use crate::user::User;
use crate::user::UserView;

verus! {

/// The lowercase hexadecimal digit of a value below sixteen.
pub open spec fn hex_digit(n: int) -> u8 {
    if n < 10 {
        (48 + n) as u8
    } else {
        (87 + n) as u8
    }
}

/// How one byte of string content is written inside a JSON string: the
/// quote and the backslash are escaped, the five named control characters
/// get their short escapes, any other control byte is written as a
/// four-digit escape, and every other byte stands as itself.
pub open spec fn escape_byte(b: u8) -> Seq<u8> {
    if b == 34 {
        seq![92u8, 34u8]
    } else if b == 92 {
        seq![92u8, 92u8]
    } else if b == 8 {
        seq![92u8, 98u8]
    } else if b == 9 {
        seq![92u8, 116u8]
    } else if b == 10 {
        seq![92u8, 110u8]
    } else if b == 12 {
        seq![92u8, 102u8]
    } else if b == 13 {
        seq![92u8, 114u8]
    } else if b < 32 {
        seq![92u8, 117u8, 48u8, 48u8, hex_digit(b as int / 16), hex_digit(b as int % 16)]
    } else {
        seq![b]
    }
}

/// A byte string, escaped for the inside of a JSON string.
pub open spec fn json_escape(s: Seq<u8>) -> Seq<u8>
    decreases s.len(),
{
    if s.len() == 0 {
        Seq::empty()
    } else {
        json_escape(s.drop_last()) + escape_byte(s.last())
    }
}

/// Appends the escaped form of `s` to `out`.
pub fn push_json_escaped(out: &mut Vec<u8>, s: &[u8])
    ensures
        final(out)@ == old(out)@ + json_escape(s@),
{
    let n = s.len();
    let mut i: usize = 0;
    while i < n
        invariant
            i <= n,
            n == s@.len(),
            out@ == old(out)@ + json_escape(s@.take(i as int)),
        decreases n - i,
    {
        let b = s[i];
        let ghost before = out@;
        if b == 34 {
            out.push(92);
            out.push(34);
        } else if b == 92 {
            out.push(92);
            out.push(92);
        } else if b == 8 {
            out.push(92);
            out.push(98);
        } else if b == 9 {
            out.push(92);
            out.push(116);
        } else if b == 10 {
            out.push(92);
            out.push(110);
        } else if b == 12 {
            out.push(92);
            out.push(102);
        } else if b == 13 {
            out.push(92);
            out.push(114);
        } else if b < 32 {
            out.push(92);
            out.push(117);
            out.push(48);
            out.push(48);
            let hi = b / 16;
            let lo = b % 16;
            out.push(if hi < 10 { (48 + hi) as u8 } else { (87 + hi) as u8 });
            out.push(if lo < 10 { (48 + lo) as u8 } else { (87 + lo) as u8 });
        } else {
            out.push(b);
        }
        proof {
            assert(out@ =~= before + escape_byte(s@[i as int]));
            assert(s@.take(i + 1).drop_last() =~= s@.take(i as int));
            assert(s@.take(i + 1).last() == s@[i as int]);
            assert(out@ =~= old(out)@ + json_escape(s@.take(i + 1)));
        }
        i = i + 1;
    }
    proof {
        assert(s@.take(n as int) =~= s@);
    }
}

/// The JSON text of one user record.
pub open spec fn json_user(u: UserView) -> Seq<u8> {
    ascii("{\"id\":"@) + (match u.id {
        Some(n) => int_text(n),
        None => ascii("null"@),
    }) + ascii(",\"name\":\""@) + json_escape(u.name) + ascii("\",\"email\":\""@) + json_escape(
        u.email,
    ) + ascii("\"}"@)
}

/// Writes one user record as JSON.
pub fn user_to_json(u: &User) -> (r: Vec<u8>)
    ensures
        r@ == json_user(u@),
{
    proof {
        reveal_strlit("{\"id\":");
        reveal_strlit("null");
        reveal_strlit(",\"name\":\"");
        reveal_strlit("\",\"email\":\"");
        reveal_strlit("\"}");
    }
    let mut out: Vec<u8> = Vec::new();
    push_str_bytes(&mut out, "{\"id\":");
    match u.id {
        Some(n) => push_i32_text(&mut out, n),
        None => push_str_bytes(&mut out, "null"),
    }
    push_str_bytes(&mut out, ",\"name\":\"");
    push_json_escaped(&mut out, u.name.as_slice());
    push_str_bytes(&mut out, "\",\"email\":\"");
    push_json_escaped(&mut out, u.email.as_slice());
    push_str_bytes(&mut out, "\"}");
    proof {
        assert(out@ =~= json_user(u@));
    }
    out
}

/// The elements of a JSON array of user records, separated by commas.
pub open spec fn json_user_list(rows: Seq<UserView>) -> Seq<u8>
    decreases rows.len(),
{
    if rows.len() == 0 {
        Seq::empty()
    } else if rows.len() == 1 {
        json_user(rows[0])
    } else {
        json_user_list(rows.drop_last()) + ascii(","@) + json_user(rows.last())
    }
}

/// The JSON array of a sequence of user records: empty rows give the
/// empty array, never a null and never an error.
pub open spec fn json_users(rows: Seq<UserView>) -> Seq<u8> {
    ascii("["@) + json_user_list(rows) + ascii("]"@)
}

/// Writes a list of user records as a JSON array.
pub fn users_to_json(rows: &Vec<User>) -> (r: Vec<u8>)
    ensures
        r@ == json_users(rows@.map_values(|u: User| u@)),
{
    proof {
        reveal_strlit("[");
        reveal_strlit("]");
        reveal_strlit(",");
    }
    let ghost all = rows@.map_values(|u: User| u@);
    let mut out: Vec<u8> = Vec::new();
    push_str_bytes(&mut out, "[");
    let n = rows.len();
    let mut i: usize = 0;
    while i < n
        invariant
            i <= n,
            n == rows@.len(),
            all == rows@.map_values(|u: User| u@),
            all.len() == n,
            out@ == ascii("["@) + json_user_list(all.take(i as int)),
        decreases n - i,
    {
        let ghost before = out@;
        if i > 0 {
            proof {
                reveal_strlit(",");
            }
            push_str_bytes(&mut out, ",");
        }
        let piece = user_to_json(&rows[i]);
        push_bytes(&mut out, piece.as_slice());
        proof {
            assert(all[i as int] == rows@[i as int]@);
            assert(all.take(i + 1).drop_last() =~= all.take(i as int));
            assert(all.take(i + 1).last() == all[i as int]);
            if i == 0 {
                assert(json_user_list(all.take(1)) == json_user(all[0]));
                assert(out@ =~= ascii("["@) + json_user_list(all.take(i + 1)));
            } else {
                assert(out@ =~= ascii("["@) + json_user_list(all.take(i + 1)));
            }
        }
        i = i + 1;
    }
    push_str_bytes(&mut out, "]");
    proof {
        assert(all.take(n as int) =~= all);
        assert(out@ =~= json_users(all));
    }
    out
}

} // verus!
