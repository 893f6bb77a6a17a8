//! Parameter codec: the field-sequential binary layout of the swap
//! parameter records.
//!
//! Each field is length-prefixed: a byte string or byte vector is a
//! 32-bit little-endian length followed by that many bytes; a textual
//! field additionally requires the bytes to be valid UTF-8; a vector of
//! strings is a 32-bit little-endian count followed by that many encoded
//! strings. Decoding a record must consume its buffer exactly.

use vstd::prelude::*;
use vstd::utf8::{decode_utf8, valid_utf8};

use crate::bytes::{parse_raw, parse_u32, read_raw, read_u32_le};

verus! {

/// Parse a length-prefixed byte field at cursor `i`.
pub open spec fn parse_borsh_bytes(b: Seq<u8>, i: int) -> Option<(Seq<u8>, int)> {
    match parse_u32(b, i) {
        None => None,
        Some((len, i1)) => parse_raw(b, i1, len as int),
    }
}

/// Parse a length-prefixed UTF-8 string field at cursor `i`.
pub open spec fn parse_borsh_string(b: Seq<u8>, i: int) -> Option<(Seq<char>, int)> {
    match parse_borsh_bytes(b, i) {
        None => None,
        Some((bs, j)) => if valid_utf8(bs) {
            Some((decode_utf8(bs), j))
        } else {
            None
        },
    }
}

/// Parse a run of `n` string fields starting at cursor `i`.
pub open spec fn parse_borsh_strings(b: Seq<u8>, i: int, n: nat) -> Option<(Seq<Seq<char>>, int)>
    decreases n,
{
    if n == 0 {
        Some((Seq::empty(), i))
    } else {
        match parse_borsh_string(b, i) {
            None => None,
            Some((s, j)) => match parse_borsh_strings(b, j, (n - 1) as nat) {
                None => None,
                Some((ss, k)) => Some((seq![s] + ss, k)),
            },
        }
    }
}

/// Parse a count-prefixed vector of string fields at cursor `i`.
pub open spec fn parse_borsh_string_vec(b: Seq<u8>, i: int) -> Option<(Seq<Seq<char>>, int)> {
    match parse_u32(b, i) {
        None => None,
        Some((n, i1)) => parse_borsh_strings(b, i1, n as nat),
    }
}

/// The character sequences of a vector of strings.
pub open spec fn string_views(s: Seq<String>) -> Seq<Seq<char>> {
    s.map_values(|x: String| x@)
}

/// Relation maintained while decoding a run of string fields: the
/// outcome for the whole run is the already-decoded prefix joined with
/// whatever the remaining `rem` fields decode to at cursor `cur`.
pub open spec fn strings_run_ok(
    b: Seq<u8>,
    whole: Option<(Seq<Seq<char>>, int)>,
    done: Seq<Seq<char>>,
    cur: int,
    rem: nat,
) -> bool {
    match parse_borsh_strings(b, cur, rem) {
        None => whole is None,
        Some(sj) => whole == Some((done + sj.0, sj.1)),
    }
}

/// Relies on `String::from_utf8`: it returns the decoded string exactly
/// when the bytes are valid UTF-8, and rejects anything else.
#[verifier::external_body]
fn string_from_utf8(bytes: Vec<u8>) -> (r: Option<String>)
    ensures
        r is Some <==> valid_utf8(bytes@),
        r is Some ==> r->Some_0@ == decode_utf8(bytes@),
{
    match String::from_utf8(bytes) {
        Ok(s) => Some(s),
        Err(_) => None,
    }
}

/// Read a length-prefixed byte field.
pub fn read_borsh_bytes(data: &[u8], pos: usize) -> (r: Option<(Vec<u8>, usize)>)
    requires
        pos <= data@.len(),
    ensures
        match r {
            Some(v) => parse_borsh_bytes(data@, pos as int) == Some((v.0@, v.1 as int)) && pos
                <= v.1 && v.1 <= data@.len(),
            None => parse_borsh_bytes(data@, pos as int) is None,
        },
{
    if data.len() - pos < 4 {
        return None;
    }
    let len = read_u32_le(data, pos);
    let i1 = pos + 4;
    if (len as u64) > (data.len() - i1) as u64 {
        return None;
    }
    read_raw(data, i1, len as usize)
}

/// Read a length-prefixed UTF-8 string field.
pub fn read_borsh_string(data: &[u8], pos: usize) -> (r: Option<(String, usize)>)
    requires
        pos <= data@.len(),
    ensures
        match r {
            Some(v) => parse_borsh_string(data@, pos as int) == Some((v.0@, v.1 as int)) && pos
                <= v.1 && v.1 <= data@.len(),
            None => parse_borsh_string(data@, pos as int) is None,
        },
{
    let (bs, j) = match read_borsh_bytes(data, pos) {
        Some(x) => x,
        None => {
            return None;
        },
    };
    match string_from_utf8(bs) {
        Some(s) => Some((s, j)),
        None => None,
    }
}

/// Read a count-prefixed vector of string fields.
pub fn read_borsh_string_vec(data: &[u8], pos: usize) -> (r: Option<(Vec<String>, usize)>)
    requires
        pos <= data@.len(),
    ensures
        match r {
            Some(v) => parse_borsh_string_vec(data@, pos as int) == Some(
                (string_views(v.0@), v.1 as int),
            ) && pos <= v.1 && v.1 <= data@.len(),
            None => parse_borsh_string_vec(data@, pos as int) is None,
        },
{
    if data.len() - pos < 4 {
        return None;
    }
    let n = read_u32_le(data, pos);
    let start = pos + 4;
    let ghost whole = parse_borsh_strings(data@, start as int, n as nat);
    let mut acc: Vec<String> = Vec::new();
    let mut cur: usize = start;
    let mut k: u32 = 0;
    while k < n
        invariant
            start <= cur <= data@.len(),
            k <= n,
            acc@.len() == k,
            whole == parse_borsh_strings(data@, start as int, n as nat),
            parse_borsh_string_vec(data@, pos as int) == whole,
            strings_run_ok(data@, whole, string_views(acc@), cur as int, (n - k) as nat),
        decreases n - k,
    {
        match read_borsh_string(data, cur) {
            None => {
                proof {
                    assert(parse_borsh_strings(data@, cur as int, (n - k) as nat) is None);
                }
                return None;
            },
            Some((s, j)) => {
                proof {
                    let b = data@;
                    let rem = (n - k) as nat;
                    let done = string_views(acc@);
                    assert(parse_borsh_strings(b, cur as int, rem) == match parse_borsh_strings(
                        b,
                        j as int,
                        (rem - 1) as nat,
                    ) {
                        None => None::<(Seq<Seq<char>>, int)>,
                        Some((s2, j2)) => Some((seq![s@] + s2, j2)),
                    });
                    assert(string_views(acc@.push(s)) =~= done.push(s@));
                    if parse_borsh_strings(b, j as int, (rem - 1) as nat) is Some {
                        let (s2, j2) = parse_borsh_strings(b, j as int, (rem - 1) as nat)->Some_0;
                        assert(done + (seq![s@] + s2) =~= done.push(s@) + s2);
                    }
                }
                acc.push(s);
                cur = j;
                k = k + 1;
            },
        }
    }
    proof {
        assert(parse_borsh_strings(data@, cur as int, 0) == Some(
            (Seq::<Seq<char>>::empty(), cur as int),
        ));
        assert(string_views(acc@) + Seq::<Seq<char>>::empty() =~= string_views(acc@));
    }
    Some((acc, cur))
}

} // verus!
