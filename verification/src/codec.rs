//! The byte encoding of the fields that records are made of.
//!
//! Integers are written in little-endian order; a truth value is one byte, 0 or
//! 1; an optional integer is a byte 0, or a byte 1 followed by the integer; a
//! text is the length of its UTF-8 encoding as a 32-bit integer, followed by
//! that encoding. Each `take_` function reads one field from the front of a
//! byte sequence and gives the field and the bytes after it.
//!
//! The layout is this library's own. Bytes written in another layout, Candid
//! for one, stand for no record here: a store that holds them reports them
//! as damaged.

use vstd::prelude::*;
use vstd::bytes::*;
use vstd::slice::*;
use vstd::string::*;
use vstd::utf8::*;
use crate::text::string_from_utf8;

verus! {

/// The number of bytes that an encoded record may take at most.
pub const MAX_RECORD_SIZE: usize = 1024;

/// The encoding of a truth value.
pub open spec fn bool_bytes(b: bool) -> Seq<u8> {
    seq![if b { 1u8 } else { 0u8 }]
}

/// The encoding of an optional 64-bit integer.
pub open spec fn opt_bytes(o: Option<u64>) -> Seq<u8> {
    match o {
        Some(x) => seq![1u8] + spec_u64_to_le_bytes(x),
        None => seq![0u8],
    }
}

/// The encoding of a text.
pub open spec fn text_bytes(t: Seq<char>) -> Seq<u8> {
    spec_u32_to_le_bytes(encode_utf8(t).len() as u32) + encode_utf8(t)
}

/// Reads a 64-bit integer from the front of `s`.
pub open spec fn take_u64(s: Seq<u8>) -> Option<(u64, Seq<u8>)> {
    if s.len() >= 8 {
        Some((spec_u64_from_le_bytes(s.take(8)), s.skip(8)))
    } else {
        None
    }
}

/// Reads a 32-bit integer from the front of `s`.
pub open spec fn take_u32(s: Seq<u8>) -> Option<(u32, Seq<u8>)> {
    if s.len() >= 4 {
        Some((spec_u32_from_le_bytes(s.take(4)), s.skip(4)))
    } else {
        None
    }
}

/// Reads a truth value from the front of `s`.
pub open spec fn take_bool(s: Seq<u8>) -> Option<(bool, Seq<u8>)> {
    if s.len() >= 1 && s[0] <= 1 {
        Some((s[0] == 1, s.skip(1)))
    } else {
        None
    }
}

/// Reads an optional 64-bit integer from the front of `s`.
pub open spec fn take_opt(s: Seq<u8>) -> Option<(Option<u64>, Seq<u8>)> {
    if s.len() >= 1 && s[0] == 0 {
        Some((None, s.skip(1)))
    } else if s.len() >= 1 && s[0] == 1 {
        match take_u64(s.skip(1)) {
            Some((x, rest)) => Some((Some(x), rest)),
            None => None,
        }
    } else {
        None
    }
}

/// Reads a text from the front of `s`.
pub open spec fn take_text(s: Seq<u8>) -> Option<(Seq<char>, Seq<u8>)> {
    match take_u32(s) {
        Some((n, rest)) => if n <= rest.len() && valid_utf8(rest.take(n as int)) {
            Some((decode_utf8(rest.take(n as int)), rest.skip(n as int)))
        } else {
            None
        },
        None => None,
    }
}

/// Reading a 64-bit integer gives back what was written.
pub proof fn lemma_take_u64(x: u64, rest: Seq<u8>)
    ensures
        take_u64(spec_u64_to_le_bytes(x) + rest) == Some((x, rest)),
{
    lemma_auto_spec_u64_to_from_le_bytes();
    let s = spec_u64_to_le_bytes(x) + rest;
    assert(s.take(8) =~= spec_u64_to_le_bytes(x));
    assert(s.skip(8) =~= rest);
}

/// Reading a 32-bit integer gives back what was written.
pub proof fn lemma_take_u32(x: u32, rest: Seq<u8>)
    ensures
        take_u32(spec_u32_to_le_bytes(x) + rest) == Some((x, rest)),
{
    lemma_auto_spec_u32_to_from_le_bytes();
    let s = spec_u32_to_le_bytes(x) + rest;
    assert(s.take(4) =~= spec_u32_to_le_bytes(x));
    assert(s.skip(4) =~= rest);
}

/// Reading a truth value gives back what was written.
pub proof fn lemma_take_bool(b: bool, rest: Seq<u8>)
    ensures
        take_bool(bool_bytes(b) + rest) == Some((b, rest)),
{
    let s = bool_bytes(b) + rest;
    assert(s.skip(1) =~= rest);
}

/// Reading an optional integer gives back what was written.
pub proof fn lemma_take_opt(o: Option<u64>, rest: Seq<u8>)
    ensures
        take_opt(opt_bytes(o) + rest) == Some((o, rest)),
{
    let s = opt_bytes(o) + rest;
    match o {
        Some(x) => {
            lemma_auto_spec_u64_to_from_le_bytes();
            assert(s.skip(1) =~= spec_u64_to_le_bytes(x) + rest);
            lemma_take_u64(x, rest);
        },
        None => {
            assert(s.skip(1) =~= rest);
        },
    }
}

/// Reading a text gives back what was written, where the length of its UTF-8
/// encoding fits into 32 bits.
pub proof fn lemma_take_text(t: Seq<char>, rest: Seq<u8>)
    requires
        encode_utf8(t).len() <= u32::MAX,
    ensures
        take_text(text_bytes(t) + rest) == Some((t, rest)),
{
    let body = encode_utf8(t);
    let n = body.len() as u32;
    let s = text_bytes(t) + rest;
    assert(s =~= spec_u32_to_le_bytes(n) + (body + rest));
    lemma_take_u32(n, body + rest);
    assert((body + rest).take(n as int) =~= body);
    assert((body + rest).skip(n as int) =~= rest);
    encode_utf8_valid_utf8(t);
    encode_utf8_decode_utf8(t);
}

/// What a 64-bit integer was read from is its encoding and the bytes after it.
pub proof fn lemma_taken_u64(s: Seq<u8>)
    requires
        take_u64(s) is Some,
    ensures
        s == spec_u64_to_le_bytes(take_u64(s).unwrap().0) + take_u64(s).unwrap().1,
{
    lemma_auto_spec_u64_to_from_le_bytes();
    assert(s.take(8).len() == 8);
    assert(spec_u64_to_le_bytes(spec_u64_from_le_bytes(s.take(8))) == s.take(8));
    assert(s =~= s.take(8) + s.skip(8));
}

/// What a 32-bit integer was read from is its encoding and the bytes after it.
pub proof fn lemma_taken_u32(s: Seq<u8>)
    requires
        take_u32(s) is Some,
    ensures
        s == spec_u32_to_le_bytes(take_u32(s).unwrap().0) + take_u32(s).unwrap().1,
{
    lemma_auto_spec_u32_to_from_le_bytes();
    assert(s.take(4).len() == 4);
    assert(spec_u32_to_le_bytes(spec_u32_from_le_bytes(s.take(4))) == s.take(4));
    assert(s =~= s.take(4) + s.skip(4));
}

/// What a truth value was read from is its encoding and the bytes after it.
pub proof fn lemma_taken_bool(s: Seq<u8>)
    requires
        take_bool(s) is Some,
    ensures
        s == bool_bytes(take_bool(s).unwrap().0) + take_bool(s).unwrap().1,
{
    assert(s =~= bool_bytes(s[0] == 1) + s.skip(1));
}

/// What an optional integer was read from is its encoding and the bytes
/// after it.
pub proof fn lemma_taken_opt(s: Seq<u8>)
    requires
        take_opt(s) is Some,
    ensures
        s == opt_bytes(take_opt(s).unwrap().0) + take_opt(s).unwrap().1,
{
    if s[0] == 0 {
        assert(s =~= seq![0u8] + s.skip(1));
    } else {
        lemma_taken_u64(s.skip(1));
        let x = take_u64(s.skip(1)).unwrap().0;
        let rest = take_u64(s.skip(1)).unwrap().1;
        assert(s =~= seq![1u8] + s.skip(1));
        assert(s =~= (seq![1u8] + spec_u64_to_le_bytes(x)) + rest);
    }
}

/// What a text was read from is its encoding and the bytes after it.
pub proof fn lemma_taken_text(s: Seq<u8>)
    requires
        take_text(s) is Some,
    ensures
        s == text_bytes(take_text(s).unwrap().0) + take_text(s).unwrap().1,
{
    lemma_taken_u32(s);
    let n = take_u32(s).unwrap().0;
    let rest = take_u32(s).unwrap().1;
    let body = rest.take(n as int);
    decode_utf8_encode_utf8(body);
    assert(encode_utf8(decode_utf8(body)) == body);
    assert(body.len() == n);
    assert(rest =~= body + rest.skip(n as int));
    assert(s =~= (spec_u32_to_le_bytes(n) + body) + rest.skip(n as int));
}

/// The length of an encoded text.
pub proof fn lemma_text_len(t: Seq<char>)
    ensures
        text_bytes(t).len() == 4 + encode_utf8(t).len(),
{
    lemma_auto_spec_u32_to_from_le_bytes();
}

/// Appends the encoding of `x` to `buf`.
pub fn put_u64(buf: &mut Vec<u8>, x: u64)
    ensures
        final(buf)@ == old(buf)@ + spec_u64_to_le_bytes(x),
{
    let mut b = u64_to_le_bytes(x);
    buf.append(&mut b);
}

/// Appends the encoding of `x` to `buf`.
pub fn put_u32(buf: &mut Vec<u8>, x: u32)
    ensures
        final(buf)@ == old(buf)@ + spec_u32_to_le_bytes(x),
{
    let mut b = u32_to_le_bytes(x);
    buf.append(&mut b);
}

/// Appends the encoding of `b` to `buf`.
pub fn put_bool(buf: &mut Vec<u8>, b: bool)
    ensures
        final(buf)@ == old(buf)@ + bool_bytes(b),
{
    let byte: u8 = if b { 1 } else { 0 };
    buf.push(byte);
    assert(buf@ =~= old(buf)@ + bool_bytes(b));
}

/// Appends the encoding of `o` to `buf`.
pub fn put_opt(buf: &mut Vec<u8>, o: Option<u64>)
    ensures
        final(buf)@ == old(buf)@ + opt_bytes(o),
{
    match o {
        Some(x) => {
            buf.push(1);
            put_u64(buf, x);
            assert(buf@ =~= old(buf)@ + opt_bytes(o));
        },
        None => {
            buf.push(0);
            assert(buf@ =~= old(buf)@ + opt_bytes(o));
        },
    }
}

/// Appends the encoding of `t` to `buf`.
pub fn put_text(buf: &mut Vec<u8>, t: &str)
    requires
        encode_utf8(t@).len() <= u32::MAX,
    ensures
        final(buf)@ == old(buf)@ + text_bytes(t@),
{
    let body = t.as_bytes();
    let n: usize = body.len();
    let n32: u32 = n as u32;
    put_u32(buf, n32);
    buf.extend_from_slice(body);
    assert(buf@ =~= old(buf)@ + text_bytes(t@));
}

/// Reads a 64-bit integer at position `at` of `bytes`, and gives it with the
/// position after it.
pub fn read_u64(bytes: &[u8], at: usize) -> (r: Option<(u64, usize)>)
    requires
        at <= bytes@.len(),
    ensures
        match r {
            Some((x, next)) => next <= bytes@.len() && take_u64(bytes@.skip(at as int)) == Some(
                (x, bytes@.skip(next as int)),
            ),
            None => take_u64(bytes@.skip(at as int)) is None,
        },
{
    if bytes.len() - at < 8 {
        return None;
    }
    let x = u64_from_le_bytes(slice_subrange(bytes, at, at + 8));
    proof {
        assert(bytes@.skip(at as int).take(8) =~= bytes@.subrange(at as int, at + 8));
        assert(bytes@.skip(at as int).skip(8) =~= bytes@.skip(at + 8));
    }
    Some((x, at + 8))
}

/// Reads a 32-bit integer at position `at` of `bytes`, and gives it with the
/// position after it.
pub fn read_u32(bytes: &[u8], at: usize) -> (r: Option<(u32, usize)>)
    requires
        at <= bytes@.len(),
    ensures
        match r {
            Some((x, next)) => next <= bytes@.len() && take_u32(bytes@.skip(at as int)) == Some(
                (x, bytes@.skip(next as int)),
            ),
            None => take_u32(bytes@.skip(at as int)) is None,
        },
{
    if bytes.len() - at < 4 {
        return None;
    }
    let x = u32_from_le_bytes(slice_subrange(bytes, at, at + 4));
    proof {
        assert(bytes@.skip(at as int).take(4) =~= bytes@.subrange(at as int, at + 4));
        assert(bytes@.skip(at as int).skip(4) =~= bytes@.skip(at + 4));
    }
    Some((x, at + 4))
}

/// Reads a truth value at position `at` of `bytes`, and gives it with the
/// position after it.
pub fn read_bool(bytes: &[u8], at: usize) -> (r: Option<(bool, usize)>)
    requires
        at <= bytes@.len(),
    ensures
        match r {
            Some((b, next)) => next <= bytes@.len() && take_bool(bytes@.skip(at as int)) == Some(
                (b, bytes@.skip(next as int)),
            ),
            None => take_bool(bytes@.skip(at as int)) is None,
        },
{
    if bytes.len() - at < 1 {
        return None;
    }
    let byte = bytes[at];
    proof {
        assert(bytes@.skip(at as int)[0] == byte);
        assert(bytes@.skip(at as int).skip(1) =~= bytes@.skip(at + 1));
    }
    if byte > 1 {
        return None;
    }
    Some((byte == 1, at + 1))
}

/// Reads an optional integer at position `at` of `bytes`, and gives it with
/// the position after it.
pub fn read_opt(bytes: &[u8], at: usize) -> (r: Option<(Option<u64>, usize)>)
    requires
        at <= bytes@.len(),
    ensures
        match r {
            Some((o, next)) => next <= bytes@.len() && take_opt(bytes@.skip(at as int)) == Some(
                (o, bytes@.skip(next as int)),
            ),
            None => take_opt(bytes@.skip(at as int)) is None,
        },
{
    if bytes.len() - at < 1 {
        return None;
    }
    let tag = bytes[at];
    proof {
        assert(bytes@.skip(at as int)[0] == tag);
        assert(bytes@.skip(at as int).skip(1) =~= bytes@.skip(at + 1));
    }
    if tag == 0 {
        Some((None, at + 1))
    } else if tag == 1 {
        match read_u64(bytes, at + 1) {
            Some((x, next)) => Some((Some(x), next)),
            None => None,
        }
    } else {
        None
    }
}

/// Reads a text at position `at` of `bytes`, and gives it with the position
/// after it.
pub fn read_text(bytes: &[u8], at: usize) -> (r: Option<(String, usize)>)
    requires
        at <= bytes@.len(),
    ensures
        match r {
            Some((t, next)) => next <= bytes@.len() && take_text(bytes@.skip(at as int)) == Some(
                (t@, bytes@.skip(next as int)),
            ),
            None => take_text(bytes@.skip(at as int)) is None,
        },
{
    let (n, start) = match read_u32(bytes, at) {
        Some(p) => p,
        None => { return None; },
    };
    if bytes.len() - start < n as usize {
        return None;
    }
    let end: usize = start + n as usize;
    let body = slice_to_vec(slice_subrange(bytes, start, end));
    proof {
        assert(bytes@.skip(start as int).take(n as int) =~= bytes@.subrange(
            start as int,
            end as int,
        ));
        assert(bytes@.skip(start as int).skip(n as int) =~= bytes@.skip(end as int));
    }
    match string_from_utf8(body) {
        Some(t) => Some((t, end)),
        None => None,
    }
}

} // verus!
