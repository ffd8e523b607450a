//! Exact-length reads over an in-memory byte stream.
//!
//! Every read either fully succeeds or leaves the cursor where it was and
//! reports a terminal error; no partial results are ever returned.

use vstd::prelude::*;

use crate::errors::LoadError;

verus! {

/// A seekable cursor over a fully buffered byte stream.
///
/// The position may lie beyond the end of the data, as it can after a seek
/// past the end of a file; every read from there fails.
pub struct ByteCursor {
    pub data: Vec<u8>,
    pub pos: usize,
}

/// The little-endian unsigned value of the four bytes of `s` at `i`.
pub open spec fn le_u32_at(s: Seq<u8>, i: int) -> int
    recommends
        0 <= i,
        i + 4 <= s.len(),
{
    s[i] + s[i + 1] * 0x100 + s[i + 2] * 0x1_0000 + s[i + 3] * 0x100_0000
}

/// The same four bytes as a two's-complement signed value.
pub open spec fn le_i32_at(s: Seq<u8>, i: int) -> int
    recommends
        0 <= i,
        i + 4 <= s.len(),
{
    let u = le_u32_at(s, i);
    if u < 0x8000_0000 {
        u
    } else {
        u - 0x1_0000_0000
    }
}

impl ByteCursor {
    /// A cursor standing at the start of `data`.
    pub fn new(data: Vec<u8>) -> (c: ByteCursor)
        ensures
            c.data == data,
            c.pos == 0,
    {
        ByteCursor { data, pos: 0 }
    }

    /// Whether the stream is exhausted.
    pub fn is_eof(&self) -> (r: bool)
        ensures
            r == (self.pos >= self.data.len()),
    {
        self.pos >= self.data.len()
    }

    /// Move to an absolute position, which may lie past the end.
    pub fn seek(&mut self, pos: usize)
        ensures
            final(self).data == old(self).data,
            final(self).pos == pos,
    {
        self.pos = pos;
    }

    /// Move forward by `n` bytes without reading them, as a seek does.
    pub fn skip(&mut self, n: usize)
        ensures
            final(self).data == old(self).data,
            final(self).pos == if old(self).pos + n <= usize::MAX {
                old(self).pos + n
            } else {
                usize::MAX as int
            },
    {
        self.pos = self.pos.saturating_add(n);
    }
}

/// Read exactly `n` bytes, or fail with a short-read error carrying the
/// requested length and leave the cursor unmoved.
pub fn read_bytes(c: &mut ByteCursor, n: usize) -> (r: Result<Vec<u8>, LoadError>)
    ensures
        final(c).data == old(c).data,
        old(c).pos + n <= old(c).data.len() ==> {
            &&& r is Ok
            &&& r->Ok_0@ == old(c).data@.subrange(old(c).pos as int, old(c).pos + n)
            &&& final(c).pos == old(c).pos + n
        },
        old(c).pos + n > old(c).data.len() ==> {
            &&& r == Result::<Vec<u8>, LoadError>::Err(LoadError::ReadExactFailed { bytes: n })
            &&& final(c).pos == old(c).pos
        },
{
    if n > c.data.len() || c.pos > c.data.len() - n {
        return Err(LoadError::ReadExactFailed { bytes: n });
    }
    let mut out: Vec<u8> = Vec::new();
    let mut i: usize = 0;
    while i < n
        invariant
            i <= n,
            c.pos + n <= c.data.len(),
            out@ == c.data@.subrange(c.pos as int, c.pos + i),
        decreases n - i,
    {
        out.push(c.data[c.pos + i]);
        i = i + 1;
        proof {
            assert(out@ =~= c.data@.subrange(c.pos as int, c.pos + i));
        }
    }
    c.pos = c.pos + n;
    Ok(out)
}

/// Read a little-endian `u32`, or fail with a short-read error.
pub fn read_u32(c: &mut ByteCursor) -> (r: Result<u32, LoadError>)
    ensures
        final(c).data == old(c).data,
        old(c).pos + 4 <= old(c).data.len() ==> {
            &&& r is Ok
            &&& r->Ok_0 as int == le_u32_at(old(c).data@, old(c).pos as int)
            &&& final(c).pos == old(c).pos + 4
        },
        old(c).pos + 4 > old(c).data.len() ==> {
            &&& r == Result::<u32, LoadError>::Err(LoadError::ReadExactFailed { bytes: 4 })
            &&& final(c).pos == old(c).pos
        },
{
    if c.data.len() < 4 || c.pos > c.data.len() - 4 {
        return Err(LoadError::ReadExactFailed { bytes: 4 });
    }
    let b0 = c.data[c.pos] as u32;
    let b1 = c.data[c.pos + 1] as u32;
    let b2 = c.data[c.pos + 2] as u32;
    let b3 = c.data[c.pos + 3] as u32;
    c.pos = c.pos + 4;
    Ok(b0 + b1 * 0x100 + b2 * 0x1_0000 + b3 * 0x100_0000)
}

/// Read a little-endian `i32`, or fail with a short-read error.
pub fn read_i32(c: &mut ByteCursor) -> (r: Result<i32, LoadError>)
    ensures
        final(c).data == old(c).data,
        old(c).pos + 4 <= old(c).data.len() ==> {
            &&& r is Ok
            &&& r->Ok_0 as int == le_i32_at(old(c).data@, old(c).pos as int)
            &&& final(c).pos == old(c).pos + 4
        },
        old(c).pos + 4 > old(c).data.len() ==> {
            &&& r == Result::<i32, LoadError>::Err(LoadError::ReadExactFailed { bytes: 4 })
            &&& final(c).pos == old(c).pos
        },
{
    let u = match read_u32(c) {
        Ok(u) => u,
        Err(e) => {
            return Err(e);
        },
    };
    if u < 0x8000_0000 {
        Ok(u as i32)
    } else {
        Ok(((u as i64) - 0x1_0000_0000i64) as i32)
    }
}

/// Relies on `String::from_utf8`: it succeeds exactly on valid UTF-8 input
/// and decodes the bytes to their sequence of scalar values.
#[verifier::external_body]
pub(crate) fn bytes_to_string(bytes: &Vec<u8>) -> (r: Option<String>)
    ensures
        r is Some <==> vstd::utf8::valid_utf8(bytes@),
        r is Some ==> r->Some_0@ == vstd::utf8::decode_utf8(bytes@),
{
    String::from_utf8(bytes.clone()).ok()
}

/// Read a string of `len` bytes. Fails with a short-read error when fewer
/// bytes remain and with an encoding error when they are not valid UTF-8.
pub fn read_string(c: &mut ByteCursor, len: usize) -> (r: Result<String, LoadError>)
    ensures
        final(c).data == old(c).data,
        old(c).pos + len > old(c).data.len() ==> {
            &&& r == Result::<String, LoadError>::Err(LoadError::ReadExactFailed { bytes: len })
            &&& final(c).pos == old(c).pos
        },
        old(c).pos + len <= old(c).data.len() ==> {
            &&& final(c).pos == old(c).pos + len
            &&& {
                let raw = old(c).data@.subrange(old(c).pos as int, old(c).pos + len);
                if vstd::utf8::valid_utf8(raw) {
                    r is Ok && r->Ok_0@ == vstd::utf8::decode_utf8(raw)
                } else {
                    r == Result::<String, LoadError>::Err(LoadError::InvalidUtf8)
                }
            }
        },
{
    let raw = match read_bytes(c, len) {
        Ok(raw) => raw,
        Err(e) => {
            return Err(e);
        },
    };
    match bytes_to_string(&raw) {
        Some(s) => Ok(s),
        None => Err(LoadError::InvalidUtf8),
    }
}

/// The little-endian encoding of `v` as four bytes.
pub open spec fn u32_le_bytes(v: u32) -> Seq<u8> {
    seq![
        (v % 0x100) as u8,
        ((v / 0x100) % 0x100) as u8,
        ((v / 0x1_0000) % 0x100) as u8,
        ((v / 0x100_0000) % 0x100) as u8,
    ]
}

/// Reading back the little-endian encoding of `v` gives `v` again.
pub proof fn lemma_u32_le_round_trip(v: u32)
    ensures
        le_u32_at(u32_le_bytes(v), 0) == v,
{
    assert((v % 0x100) + ((v / 0x100) % 0x100) * 0x100 + ((v / 0x1_0000) % 0x100) * 0x1_0000 + ((v
        / 0x100_0000) % 0x100) * 0x100_0000 == v) by (bit_vector);
}

/// Append the little-endian encoding of `v` to `out`.
pub fn write_u32(out: &mut Vec<u8>, v: u32)
    ensures
        final(out)@ == old(out)@ + u32_le_bytes(v),
{
    out.push((v % 0x100) as u8);
    out.push(((v / 0x100) % 0x100) as u8);
    out.push(((v / 0x1_0000) % 0x100) as u8);
    out.push(((v / 0x100_0000) % 0x100) as u8);
    proof {
        assert(final(out)@ =~= old(out)@ + u32_le_bytes(v));
    }
}

} // verus!
