//! Little-endian integer and compact-size ("varint") byte codec.
//!
//! These are the primitives of the ledger-native transaction encoding:
//! fixed-width little-endian integers and the minimal variable-length
//! count encoding. Each primitive has a serialization spec, a parsing
//! spec over a byte sequence and cursor, executable readers and writers
//! proved against those specs, and a round-trip lemma saying that parsing
//! recovers exactly what was serialized.

use vstd::prelude::*;
use vstd::slice::slice_to_vec;

verus! {

/// The value of two little-endian bytes.
pub open spec fn le16(b0: u8, b1: u8) -> u16 {
    (b0 as int + 256 * (b1 as int)) as u16
}

/// The value of four little-endian bytes.
pub open spec fn le32(b0: u8, b1: u8, b2: u8, b3: u8) -> u32 {
    (b0 as int + 256 * (b1 as int + 256 * (b2 as int + 256 * (b3 as int)))) as u32
}

/// The value of eight little-endian bytes.
pub open spec fn le64(b0: u8, b1: u8, b2: u8, b3: u8, b4: u8, b5: u8, b6: u8, b7: u8) -> u64 {
    (b0 as int + 256 * (b1 as int + 256 * (b2 as int + 256 * (b3 as int + 256 * (b4 as int
        + 256 * (b5 as int + 256 * (b6 as int + 256 * (b7 as int)))))))) as u64
}

/// The two little-endian bytes of a 16-bit value.
pub open spec fn ser_u16(x: u16) -> Seq<u8> {
    seq![(x as int % 256) as u8, (x as int / 256 % 256) as u8]
}

/// The four little-endian bytes of a 32-bit value.
pub open spec fn ser_u32(x: u32) -> Seq<u8> {
    seq![
        (x as int % 256) as u8,
        (x as int / 256 % 256) as u8,
        (x as int / 256 / 256 % 256) as u8,
        (x as int / 256 / 256 / 256 % 256) as u8,
    ]
}

/// The eight little-endian bytes of a 64-bit value.
pub open spec fn ser_u64(x: u64) -> Seq<u8> {
    seq![
        (x as int % 256) as u8,
        (x as int / 256 % 256) as u8,
        (x as int / 256 / 256 % 256) as u8,
        (x as int / 256 / 256 / 256 % 256) as u8,
        (x as int / 256 / 256 / 256 / 256 % 256) as u8,
        (x as int / 256 / 256 / 256 / 256 / 256 % 256) as u8,
        (x as int / 256 / 256 / 256 / 256 / 256 / 256 % 256) as u8,
        (x as int / 256 / 256 / 256 / 256 / 256 / 256 / 256 % 256) as u8,
    ]
}

/// The minimal compact-size encoding of a count.
pub open spec fn ser_varint(n: u64) -> Seq<u8> {
    if n < 0xfd {
        seq![n as u8]
    } else if n <= 0xffff {
        seq![0xfdu8] + ser_u16(n as u16)
    } else if n <= 0xffffffff {
        seq![0xfeu8] + ser_u32(n as u32)
    } else {
        seq![0xffu8] + ser_u64(n)
    }
}

/// Parse a 32-bit little-endian value at cursor `i`.
pub open spec fn parse_u32(b: Seq<u8>, i: int) -> Option<(u32, int)> {
    if 0 <= i && i + 4 <= b.len() {
        Some((le32(b[i], b[i + 1], b[i + 2], b[i + 3]), i + 4))
    } else {
        None
    }
}

/// Parse a 64-bit little-endian value at cursor `i`.
pub open spec fn parse_u64(b: Seq<u8>, i: int) -> Option<(u64, int)> {
    if 0 <= i && i + 8 <= b.len() {
        Some((le64(b[i], b[i + 1], b[i + 2], b[i + 3], b[i + 4], b[i + 5], b[i + 6], b[i + 7]),
            i + 8))
    } else {
        None
    }
}

/// Parse a compact-size count at cursor `i`, rejecting non-minimal forms.
pub open spec fn parse_varint(b: Seq<u8>, i: int) -> Option<(u64, int)> {
    if !(0 <= i && i < b.len()) {
        None
    } else {
        let tag = b[i];
        if tag < 0xfd {
            Some((tag as u64, i + 1))
        } else if tag == 0xfd {
            if i + 3 <= b.len() {
                let v = le16(b[i + 1], b[i + 2]) as u64;
                if v >= 0xfd {
                    Some((v, i + 3))
                } else {
                    None
                }
            } else {
                None
            }
        } else if tag == 0xfe {
            if i + 5 <= b.len() {
                let v = le32(b[i + 1], b[i + 2], b[i + 3], b[i + 4]) as u64;
                if v >= 0x10000 {
                    Some((v, i + 5))
                } else {
                    None
                }
            } else {
                None
            }
        } else {
            if i + 9 <= b.len() {
                let v = le64(b[i + 1], b[i + 2], b[i + 3], b[i + 4], b[i + 5], b[i + 6], b[i + 7],
                    b[i + 8]);
                if v >= 0x100000000 {
                    Some((v, i + 9))
                } else {
                    None
                }
            } else {
                None
            }
        }
    }
}

/// Parse `n` raw bytes at cursor `i`.
pub open spec fn parse_raw(b: Seq<u8>, i: int, n: int) -> Option<(Seq<u8>, int)> {
    if 0 <= i && 0 <= n && i + n <= b.len() {
        Some((b.subrange(i, i + n), i + n))
    } else {
        None
    }
}

/// Parsing the little-endian bytes of `x` gives back `x`.
pub proof fn lemma_le32_ser(x: u32)
    ensures
        le32(ser_u32(x)[0], ser_u32(x)[1], ser_u32(x)[2], ser_u32(x)[3]) == x,
{
    let xi = x as int;
    assert(xi == 256 * (xi / 256) + xi % 256);
    assert(xi / 256 == 256 * (xi / 256 / 256) + xi / 256 % 256);
    assert(xi / 256 / 256 == 256 * (xi / 256 / 256 / 256) + xi / 256 / 256 % 256);
    assert(xi / 256 / 256 / 256 < 256);
}

/// Parsing the little-endian bytes of `x` gives back `x`.
pub proof fn lemma_le16_ser(x: u16)
    ensures
        le16(ser_u16(x)[0], ser_u16(x)[1]) == x,
{
    let xi = x as int;
    assert(xi == 256 * (xi / 256) + xi % 256);
    assert(xi / 256 < 256);
}

/// Parsing the little-endian bytes of `x` gives back `x`.
pub proof fn lemma_le64_ser(x: u64)
    ensures
        le64(ser_u64(x)[0], ser_u64(x)[1], ser_u64(x)[2], ser_u64(x)[3], ser_u64(x)[4],
            ser_u64(x)[5], ser_u64(x)[6], ser_u64(x)[7]) == x,
{
    let xi = x as int;
    assert(xi == 256 * (xi / 256) + xi % 256);
    assert(xi / 256 == 256 * (xi / 256 / 256) + xi / 256 % 256);
    assert(xi / 256 / 256 == 256 * (xi / 256 / 256 / 256) + xi / 256 / 256 % 256);
    assert(xi / 256 / 256 / 256 == 256 * (xi / 256 / 256 / 256 / 256) + xi / 256 / 256 / 256
        % 256);
    assert(xi / 256 / 256 / 256 / 256 == 256 * (xi / 256 / 256 / 256 / 256 / 256) + xi / 256 / 256
        / 256 / 256 % 256);
    assert(xi / 256 / 256 / 256 / 256 / 256 == 256 * (xi / 256 / 256 / 256 / 256 / 256 / 256) + xi
        / 256 / 256 / 256 / 256 / 256 % 256);
    assert(xi / 256 / 256 / 256 / 256 / 256 / 256 == 256 * (xi / 256 / 256 / 256 / 256 / 256 / 256
        / 256) + xi / 256 / 256 / 256 / 256 / 256 / 256 % 256);
    assert(xi / 256 / 256 / 256 / 256 / 256 / 256 / 256 < 256);
}

/// Parsing at the position where `ser_u32(x)` sits yields `x`.
pub proof fn lemma_parse_ser_u32(b: Seq<u8>, i: int, x: u32)
    requires
        0 <= i,
        i + 4 <= b.len(),
        b.subrange(i, i + 4) == ser_u32(x),
    ensures
        parse_u32(b, i) == Some((x, i + 4)),
{
    assert(b[i] == ser_u32(x)[0]) by {
        assert(b.subrange(i, i + 4)[0] == b[i]);
    }
    assert(b[i + 1] == ser_u32(x)[1]) by {
        assert(b.subrange(i, i + 4)[1] == b[i + 1]);
    }
    assert(b[i + 2] == ser_u32(x)[2]) by {
        assert(b.subrange(i, i + 4)[2] == b[i + 2]);
    }
    assert(b[i + 3] == ser_u32(x)[3]) by {
        assert(b.subrange(i, i + 4)[3] == b[i + 3]);
    }
    lemma_le32_ser(x);
}

/// Parsing at the position where `ser_u64(x)` sits yields `x`.
pub proof fn lemma_parse_ser_u64(b: Seq<u8>, i: int, x: u64)
    requires
        0 <= i,
        i + 8 <= b.len(),
        b.subrange(i, i + 8) == ser_u64(x),
    ensures
        parse_u64(b, i) == Some((x, i + 8)),
{
    assert forall|k: int| 0 <= k < 8 implies b[i + k] == ser_u64(x)[k] by {
        assert(b.subrange(i, i + 8)[k] == b[i + k]);
    }
    lemma_le64_ser(x);
}

/// Parsing at the position where `ser_varint(n)` sits yields `n`.
pub proof fn lemma_parse_ser_varint(b: Seq<u8>, i: int, n: u64)
    requires
        0 <= i,
        i + ser_varint(n).len() <= b.len(),
        b.subrange(i, i + ser_varint(n).len()) == ser_varint(n),
    ensures
        parse_varint(b, i) == Some((n, i + ser_varint(n).len())),
{
    let s = ser_varint(n);
    assert forall|k: int| 0 <= k < s.len() implies b[i + k] == s[k] by {
        assert(b.subrange(i, i + s.len())[k] == b[i + k]);
    }
    if n < 0xfd {
        assert(b[i] == s[0]) by {
            assert(b[i + 0] == s[0]);
        }
    } else if n <= 0xffff {
        assert(b[i] == s[0]) by {
            assert(b[i + 0] == s[0]);
        }
        lemma_le16_ser(n as u16);
        let t = ser_u16(n as u16);
        assert(s == seq![0xfdu8] + t);
        assert(b[i + 1] == t[0]) by {
            assert(s[1] == (seq![0xfdu8] + t)[1]);
        }
        assert(b[i + 2] == t[1]) by {
            assert(s[2] == (seq![0xfdu8] + t)[2]);
        }
        assert(le16(b[i + 1], b[i + 2]) == n as u16);
    } else if n <= 0xffffffff {
        assert(b[i] == s[0]) by {
            assert(b[i + 0] == s[0]);
        }
        lemma_le32_ser(n as u32);
        let t = ser_u32(n as u32);
        assert(s == seq![0xfeu8] + t);
        assert(b[i + 1] == t[0]) by {
            assert(s[1] == (seq![0xfeu8] + t)[1]);
        }
        assert(b[i + 2] == t[1]) by {
            assert(s[2] == (seq![0xfeu8] + t)[2]);
        }
        assert(b[i + 3] == t[2]) by {
            assert(s[3] == (seq![0xfeu8] + t)[3]);
        }
        assert(b[i + 4] == t[3]) by {
            assert(s[4] == (seq![0xfeu8] + t)[4]);
        }
        assert(le32(b[i + 1], b[i + 2], b[i + 3], b[i + 4]) == n as u32);
    } else {
        assert(b[i] == s[0]) by {
            assert(b[i + 0] == s[0]);
        }
        lemma_le64_ser(n);
        let t = ser_u64(n);
        assert(s == seq![0xffu8] + t);
        assert(b[i + 1] == t[0]) by {
            assert(s[1] == (seq![0xffu8] + t)[1]);
        }
        assert(b[i + 2] == t[1]) by {
            assert(s[2] == (seq![0xffu8] + t)[2]);
        }
        assert(b[i + 3] == t[2]) by {
            assert(s[3] == (seq![0xffu8] + t)[3]);
        }
        assert(b[i + 4] == t[3]) by {
            assert(s[4] == (seq![0xffu8] + t)[4]);
        }
        assert(b[i + 5] == t[4]) by {
            assert(s[5] == (seq![0xffu8] + t)[5]);
        }
        assert(b[i + 6] == t[5]) by {
            assert(s[6] == (seq![0xffu8] + t)[6]);
        }
        assert(b[i + 7] == t[6]) by {
            assert(s[7] == (seq![0xffu8] + t)[7]);
        }
        assert(b[i + 8] == t[7]) by {
            assert(s[8] == (seq![0xffu8] + t)[8]);
        }
        assert(le64(b[i + 1], b[i + 2], b[i + 3], b[i + 4], b[i + 5], b[i + 6], b[i + 7],
            b[i + 8]) == n);
    }
}

/// Read a 32-bit little-endian value.
pub fn read_u32_le(data: &[u8], pos: usize) -> (x: u32)
    requires
        pos + 4 <= data@.len(),
    ensures
        x == le32(data@[pos as int], data@[pos as int + 1], data@[pos as int + 2],
            data@[pos as int + 3]),
{
    data[pos] as u32 + 256 * (data[pos + 1] as u32 + 256 * (data[pos + 2] as u32 + 256 * (data[pos
        + 3] as u32)))
}

/// Read a 64-bit little-endian value.
pub fn read_u64_le(data: &[u8], pos: usize) -> (x: u64)
    requires
        pos + 8 <= data@.len(),
    ensures
        x == le64(data@[pos as int], data@[pos as int + 1], data@[pos as int + 2],
            data@[pos as int + 3], data@[pos as int + 4], data@[pos as int + 5],
            data@[pos as int + 6], data@[pos as int + 7]),
{
    data[pos] as u64 + 256 * (data[pos + 1] as u64 + 256 * (data[pos + 2] as u64 + 256 * (data[pos
        + 3] as u64 + 256 * (data[pos + 4] as u64 + 256 * (data[pos + 5] as u64 + 256 * (data[pos
        + 6] as u64 + 256 * (data[pos + 7] as u64)))))))
}

/// Read a compact-size count, rejecting non-minimal encodings.
pub fn read_varint(data: &[u8], pos: usize) -> (r: Option<(u64, usize)>)
    requires
        pos <= data@.len(),
    ensures
        match r {
            Some(v) => parse_varint(data@, pos as int) == Some((v.0, v.1 as int)) && pos < v.1
                && v.1 <= data@.len(),
            None => parse_varint(data@, pos as int) is None,
        },
{
    if data.len() - pos < 1 {
        return None;
    }
    let tag = data[pos];
    if tag < 0xfd {
        Some((tag as u64, pos + 1))
    } else if tag == 0xfd {
        if data.len() - pos >= 3 {
            let v = (data[pos + 1] as u16 + 256 * (data[pos + 2] as u16)) as u64;
            if v >= 0xfd {
                Some((v, pos + 3))
            } else {
                None
            }
        } else {
            None
        }
    } else if tag == 0xfe {
        if data.len() - pos >= 5 {
            let v = read_u32_le(data, pos + 1) as u64;
            if v >= 0x10000 {
                Some((v, pos + 5))
            } else {
                None
            }
        } else {
            None
        }
    } else {
        if data.len() - pos >= 9 {
            let v = read_u64_le(data, pos + 1);
            if v >= 0x100000000 {
                Some((v, pos + 9))
            } else {
                None
            }
        } else {
            None
        }
    }
}

/// Read `n` raw bytes into an owned vector.
pub fn read_raw(data: &[u8], pos: usize, n: usize) -> (r: Option<(Vec<u8>, usize)>)
    requires
        pos <= data@.len(),
    ensures
        match r {
            Some(v) => parse_raw(data@, pos as int, n as int) == Some((v.0@, v.1 as int)) && pos
                <= v.1 && v.1 <= data@.len(),
            None => parse_raw(data@, pos as int, n as int) is None,
        },
{
    if data.len() - pos >= n {
        let v = slice_to_vec(&data[pos..pos + n]);
        Some((v, pos + n))
    } else {
        None
    }
}

/// Append the little-endian bytes of a 32-bit value.
pub fn push_u32_le(out: &mut Vec<u8>, x: u32)
    ensures
        final(out)@ == old(out)@ + ser_u32(x),
{
    out.push((x % 256) as u8);
    out.push((x / 256 % 256) as u8);
    out.push((x / 256 / 256 % 256) as u8);
    out.push((x / 256 / 256 / 256 % 256) as u8);
    assert(out@ =~= old(out)@ + ser_u32(x));
}

/// Append the little-endian bytes of a 64-bit value.
pub fn push_u64_le(out: &mut Vec<u8>, x: u64)
    ensures
        final(out)@ == old(out)@ + ser_u64(x),
{
    out.push((x % 256) as u8);
    out.push((x / 256 % 256) as u8);
    out.push((x / 256 / 256 % 256) as u8);
    out.push((x / 256 / 256 / 256 % 256) as u8);
    out.push((x / 256 / 256 / 256 / 256 % 256) as u8);
    out.push((x / 256 / 256 / 256 / 256 / 256 % 256) as u8);
    out.push((x / 256 / 256 / 256 / 256 / 256 / 256 % 256) as u8);
    out.push((x / 256 / 256 / 256 / 256 / 256 / 256 / 256 % 256) as u8);
    assert(out@ =~= old(out)@ + ser_u64(x));
}

/// Append the minimal compact-size encoding of a count.
pub fn push_varint(out: &mut Vec<u8>, n: u64)
    ensures
        final(out)@ == old(out)@ + ser_varint(n),
{
    if n < 0xfd {
        out.push(n as u8);
        assert(out@ =~= old(out)@ + ser_varint(n));
    } else if n <= 0xffff {
        out.push(0xfd);
        let x = n as u16;
        out.push((x % 256) as u8);
        out.push((x / 256 % 256) as u8);
        assert(out@ =~= old(out)@ + ser_varint(n));
    } else if n <= 0xffffffff {
        out.push(0xfe);
        push_u32_le(out, n as u32);
        assert(out@ =~= old(out)@ + ser_varint(n));
    } else {
        out.push(0xff);
        push_u64_le(out, n);
        assert(out@ =~= old(out)@ + ser_varint(n));
    }
}

/// Append a byte sequence.
pub fn push_raw(out: &mut Vec<u8>, b: &[u8])
    ensures
        final(out)@ == old(out)@ + b@,
{
    let mut k: usize = 0;
    while k < b.len()
        invariant
            k <= b@.len(),
            out@ == old(out)@ + b@.subrange(0, k as int),
        decreases b@.len() - k,
    {
        out.push(b[k]);
        k = k + 1;
        assert(out@ =~= old(out)@ + b@.subrange(0, k as int));
    }
    assert(out@ =~= old(out)@ + b@);
}

} // verus!
