//! Little-endian primitives and length-prefixed strings, read from a byte
//! slice at a position and appended to a byte vector.

use vstd::prelude::*;
use vstd::bytes::*;
use vstd::slice::slice_subrange;
use vstd::utf8::{encode_utf8, is_ascii_chars, is_ascii_chars_encode_utf8};
use vstd::string::StringExecFns;
use crate::encoding::{ascii_bytes, windows_1252_text, utf16le_text, decode_windows_1252, decode_utf16le};
use crate::error::GVASError;

verus! {

/// What a reader makes of the input at a position: a value and the position
/// after it, or an error.
pub type Parsed<T> = Result<(T, int), GVASError>;

/// The model of an executable read result.
pub open spec fn outcome<T: View>(r: Result<(T, usize), GVASError>) -> Parsed<T::V> {
    match r {
        Ok((v, q)) => Ok((v@, q as int)),
        Err(e) => Err(e),
    }
}

/// The `n` bytes at `p`, or a short-input error.
pub open spec fn spec_take(d: Seq<u8>, p: int, n: int) -> Parsed<Seq<u8>> {
    if 0 <= p && 0 <= n && p + n <= d.len() {
        Ok((d.subrange(p, p + n), p + n))
    } else {
        Err(GVASError::IOError)
    }
}

pub open spec fn spec_u8_at(d: Seq<u8>, p: int) -> Parsed<u8> {
    match spec_take(d, p, 1) {
        Ok((b, q)) => Ok((b[0], q)),
        Err(e) => Err(e),
    }
}

pub open spec fn spec_i8_at(d: Seq<u8>, p: int) -> Parsed<i8> {
    match spec_take(d, p, 1) {
        Ok((b, q)) => Ok((b[0] as i8, q)),
        Err(e) => Err(e),
    }
}

pub open spec fn spec_u16_at(d: Seq<u8>, p: int) -> Parsed<u16> {
    match spec_take(d, p, 2) {
        Ok((b, q)) => Ok((spec_u16_from_le_bytes(b), q)),
        Err(e) => Err(e),
    }
}

pub open spec fn spec_u32_at(d: Seq<u8>, p: int) -> Parsed<u32> {
    match spec_take(d, p, 4) {
        Ok((b, q)) => Ok((spec_u32_from_le_bytes(b), q)),
        Err(e) => Err(e),
    }
}

pub open spec fn spec_i32_at(d: Seq<u8>, p: int) -> Parsed<i32> {
    match spec_take(d, p, 4) {
        Ok((b, q)) => Ok((spec_u32_from_le_bytes(b) as i32, q)),
        Err(e) => Err(e),
    }
}

pub open spec fn spec_u64_at(d: Seq<u8>, p: int) -> Parsed<u64> {
    match spec_take(d, p, 8) {
        Ok((b, q)) => Ok((spec_u64_from_le_bytes(b), q)),
        Err(e) => Err(e),
    }
}

/// A length-prefixed string: a signed 32-bit length `n`; for `n > 0`, `n`
/// bytes of Windows-1252 ending in NUL; for `n < 0`, `2 * |n|` bytes of
/// UTF-16LE ending in a NUL unit; for `n == 0`, nothing more.
pub open spec fn spec_string_at(d: Seq<u8>, p: int) -> Parsed<Seq<char>> {
    match spec_i32_at(d, p) {
        Err(e) => Err(e),
        Ok((n, q)) => if n > 0 {
            match spec_take(d, q, n as int) {
                Err(e) => Err(e),
                Ok((b, r)) => if b[n - 1] != 0 {
                    Err(GVASError::MalformedString)
                } else {
                    Ok((windows_1252_text(b.subrange(0, n - 1)), r))
                },
            }
        } else if n < 0 {
            match spec_take(d, q, -2 * n) {
                Err(e) => Err(e),
                Ok((b, r)) => if b[-2 * n - 1] != 0 || b[-2 * n - 2] != 0 {
                    Err(GVASError::MalformedString)
                } else {
                    Ok((utf16le_text(b.subrange(0, -2 * n - 2)), r))
                },
            }
        } else {
            Ok((Seq::empty(), q))
        },
    }
}

/// Hands back the `n` bytes at `pos`.
pub fn take(d: &[u8], pos: usize, n: usize) -> (r: Result<(&[u8], usize), GVASError>)
    ensures
        outcome(r) == spec_take(d@, pos as int, n as int),
{
    if pos <= d.len() && n <= d.len() - pos {
        Ok((slice_subrange(d, pos, pos + n), pos + n))
    } else {
        Err(GVASError::IOError)
    }
}

pub fn read_u8(d: &[u8], pos: usize) -> (r: Result<(u8, usize), GVASError>)
    ensures
        outcome(r) == spec_u8_at(d@, pos as int),
{
    let (b, q) = take(d, pos, 1)?;
    Ok((b[0], q))
}

pub fn read_i8(d: &[u8], pos: usize) -> (r: Result<(i8, usize), GVASError>)
    ensures
        outcome(r) == spec_i8_at(d@, pos as int),
{
    let (b, q) = take(d, pos, 1)?;
    Ok((b[0] as i8, q))
}

pub fn read_u16(d: &[u8], pos: usize) -> (r: Result<(u16, usize), GVASError>)
    ensures
        outcome(r) == spec_u16_at(d@, pos as int),
{
    let (b, q) = take(d, pos, 2)?;
    Ok((u16_from_le_bytes(b), q))
}

pub fn read_u32(d: &[u8], pos: usize) -> (r: Result<(u32, usize), GVASError>)
    ensures
        outcome(r) == spec_u32_at(d@, pos as int),
{
    let (b, q) = take(d, pos, 4)?;
    Ok((u32_from_le_bytes(b), q))
}

pub fn read_i32(d: &[u8], pos: usize) -> (r: Result<(i32, usize), GVASError>)
    ensures
        outcome(r) == spec_i32_at(d@, pos as int),
{
    let (b, q) = take(d, pos, 4)?;
    Ok((u32_from_le_bytes(b) as i32, q))
}

pub fn read_u64(d: &[u8], pos: usize) -> (r: Result<(u64, usize), GVASError>)
    ensures
        outcome(r) == spec_u64_at(d@, pos as int),
{
    let (b, q) = take(d, pos, 8)?;
    Ok((u64_from_le_bytes(b), q))
}

/// Reads a length-prefixed string.
pub fn read_string(d: &[u8], pos: usize) -> (r: Result<(String, usize), GVASError>)
    ensures
        outcome(r) == spec_string_at(d@, pos as int),
{
    let (n, q) = read_i32(d, pos)?;
    if n > 0 {
        let (b, r) = take(d, q, n as usize)?;
        if b[n as usize - 1] != 0 {
            Err(GVASError::MalformedString)
        } else {
            Ok((decode_windows_1252(slice_subrange(b, 0, n as usize - 1)), r))
        }
    } else if n < 0 {
        let m: i64 = -2 * (n as i64);
        if q > d.len() || m as u64 > (d.len() - q) as u64 {
            return Err(GVASError::IOError);
        }
        let (b, r) = take(d, q, m as usize)?;
        let mu = m as usize;
        if b[mu - 1] != 0 || b[mu - 2] != 0 {
            Err(GVASError::MalformedString)
        } else {
            Ok((decode_utf16le(slice_subrange(b, 0, mu - 2)), r))
        }
    } else {
        Ok((String::new(), q))
    }
}

/// A string whose field, length prefix included, is declared to take
/// `expected` bytes: the length prefix must agree.
pub open spec fn spec_string_len_at(d: Seq<u8>, p: int, expected: i64) -> Parsed<Seq<char>> {
    match spec_i32_at(d, p) {
        Err(e) => Err(e),
        Ok((n, _)) => if n + 4 != expected {
            Err(GVASError::UnsupportedFormat)
        } else {
            spec_string_at(d, p)
        },
    }
}

/// Reads a string whose field is declared to take `expected` bytes.
pub fn read_string_len(d: &[u8], pos: usize, expected: i64) -> (r: Result<(String, usize), GVASError>)
    ensures
        outcome(r) == spec_string_len_at(d@, pos as int, expected),
{
    let (n, _) = read_i32(d, pos)?;
    if n as i64 + 4 != expected {
        return Err(GVASError::UnsupportedFormat);
    }
    read_string(d, pos)
}

/// The bytes of a string field holding the UTF-8 bytes `b`: a zero length
/// for an empty string, else the length with its NUL, the bytes and a NUL.
pub open spec fn utf8_field(b: Seq<u8>) -> Seq<u8> {
    if b.len() == 0 {
        spec_u32_to_le_bytes(0)
    } else {
        spec_u32_to_le_bytes((b.len() + 1) as u32) + b + seq![0u8]
    }
}

/// The bytes that the writer emits for a string.
pub open spec fn string_bytes(s: Seq<char>) -> Seq<u8> {
    utf8_field(encode_utf8(s))
}

/// A string whose field length fits the 32-bit length prefix.
pub open spec fn fits_field(s: Seq<char>) -> bool {
    encode_utf8(s).len() < 0x7fff_ffff
}

/// Appends bytes one by one.
pub fn push_all(out: &mut Vec<u8>, b: &[u8])
    ensures
        final(out)@ == old(out)@ + b@,
{
    let mut i: usize = 0;
    while i < b.len()
        invariant
            0 <= i <= b@.len(),
            out@ == old(out)@ + b@.subrange(0, i as int),
        decreases b@.len() - i,
    {
        out.push(b[i]);
        i += 1;
        assert(out@ =~= old(out)@ + b@.subrange(0, i as int));
    }
    assert(b@.subrange(0, b@.len() as int) =~= b@);
}

pub fn write_u8(out: &mut Vec<u8>, x: u8)
    ensures
        final(out)@ == old(out)@ + seq![x],
{
    out.push(x);
    assert(out@ =~= old(out)@ + seq![x]);
}

pub fn write_u16(out: &mut Vec<u8>, x: u16)
    ensures
        final(out)@ == old(out)@ + spec_u16_to_le_bytes(x),
{
    let b = u16_to_le_bytes(x);
    push_all(out, b.as_slice());
}

pub fn write_u32(out: &mut Vec<u8>, x: u32)
    ensures
        final(out)@ == old(out)@ + spec_u32_to_le_bytes(x),
{
    let b = u32_to_le_bytes(x);
    push_all(out, b.as_slice());
}

pub fn write_u64(out: &mut Vec<u8>, x: u64)
    ensures
        final(out)@ == old(out)@ + spec_u64_to_le_bytes(x),
{
    let b = u64_to_le_bytes(x);
    push_all(out, b.as_slice());
}

/// Appends a string field (the 8-bit form; UTF-16 is never written).
pub fn write_string(out: &mut Vec<u8>, s: &str)
    requires
        fits_field(s@),
    ensures
        final(out)@ == old(out)@ + string_bytes(s@),
{
    let b = s.as_bytes();
    if b.len() == 0 {
        write_u32(out, 0);
    } else {
        write_u32(out, b.len() as u32 + 1);
        push_all(out, b);
        write_u8(out, 0);
        assert(out@ =~= old(out)@ + string_bytes(s@));
    }
}

/// An ASCII string: its UTF-8 bytes are its characters, one each.
pub proof fn lemma_ascii_text(s: Seq<char>)
    requires
        is_ascii_chars(s),
    ensures
        encode_utf8(s).len() == s.len(),
        ascii_bytes(encode_utf8(s)),
        fits_field(s) <==> s.len() < 0x7fff_ffff,
{
    is_ascii_chars_encode_utf8(s);
    assert forall|i: int| 0 <= i < encode_utf8(s).len() implies #[trigger] encode_utf8(s)[i] < 128 by {
        let c = s[i];
        assert('\0' <= c <= '\u{7f}');
        assert((c as u8) < 128);
    }
}

/// The empty string is written as a four-byte zero length and nothing
/// more, and those four bytes read back as the empty string.
pub proof fn lemma_empty_string(d: Seq<u8>, p: int)
    requires
        0 <= p,
        p + 4 <= d.len(),
        d.subrange(p, p + 4) == string_bytes(Seq::empty()),
    ensures
        string_bytes(Seq::empty()) == spec_u32_to_le_bytes(0),
        string_bytes(Seq::empty()).len() == 4,
        spec_string_at(d, p) == Ok::<(Seq<char>, int), GVASError>((Seq::empty(), p + 4)),
{
    lemma_auto_spec_u32_to_from_le_bytes();
    assert(encode_utf8(Seq::<char>::empty()) =~= Seq::<u8>::empty());
}

/// A positive length whose last counted byte is not NUL is rejected as a
/// malformed string.
pub proof fn lemma_malformed_terminator(d: Seq<u8>, p: int)
    requires
        0 <= p,
        p + 4 <= d.len(),
        spec_u32_from_le_bytes(d.subrange(p, p + 4)) as i32 > 0,
        p + 4 + (spec_u32_from_le_bytes(d.subrange(p, p + 4)) as i32) <= d.len(),
        d[p + 4 + (spec_u32_from_le_bytes(d.subrange(p, p + 4)) as i32) - 1] != 0,
    ensures
        spec_string_at(d, p) == Err::<(Seq<char>, int), GVASError>(GVASError::MalformedString),
{
    let n = spec_u32_from_le_bytes(d.subrange(p, p + 4)) as i32;
    let b = d.subrange(p + 4, p + 4 + n);
    assert(b[n - 1] == d[p + 4 + n - 1]);
}

/// Whether a string holds exactly the characters of `lit`.
pub fn is_named(s: &String, lit: &str) -> (r: bool)
    ensures
        r == (s@ == lit@),
{
    *s == <String as StringExecFns>::from_str(lit)
}

/// Whether two byte slices are equal.
pub fn bytes_eq(a: &[u8], b: &[u8]) -> (r: bool)
    ensures
        r == (a@ == b@),
{
    if a.len() != b.len() {
        return false;
    }
    let mut i: usize = 0;
    while i < a.len()
        invariant
            a@.len() == b@.len(),
            0 <= i <= a@.len(),
            forall|j: int| 0 <= j < i ==> a@[j] == b@[j],
        decreases a@.len() - i,
    {
        if a[i] != b[i] {
            return false;
        }
        i += 1;
    }
    assert(a@ =~= b@);
    true
}

/// The bytes at `p` must be `lit`.
pub open spec fn spec_expect(d: Seq<u8>, p: int, lit: Seq<u8>) -> Parsed<()> {
    match spec_take(d, p, lit.len() as int) {
        Err(e) => Err(e),
        Ok((b, q)) => if b == lit {
            Ok(((), q))
        } else {
            Err(GVASError::UnsupportedFormat)
        },
    }
}

/// Checks that the bytes at `pos` are `lit`, and steps over them.
pub fn expect(d: &[u8], pos: usize, lit: &[u8]) -> (r: Result<usize, GVASError>)
    ensures
        match r {
            Ok(q) => spec_expect(d@, pos as int, lit@) == Ok::<((), int), GVASError>(((), q as int)),
            Err(e) => spec_expect(d@, pos as int, lit@) == Err::<((), int), GVASError>(e),
        },
{
    let (b, q) = take(d, pos, lit.len())?;
    if bytes_eq(b, lit) {
        Ok(q)
    } else {
        Err(GVASError::UnsupportedFormat)
    }
}

} // verus!
