use vstd::prelude::*;
use vstd::utf8::{encode_utf8, is_ascii_chars, is_ascii_chars_encode_utf8};

verus! {

/// The character that Windows-1252 gives a byte: the byte's own code point,
/// except for 27 bytes of the range 0x80..=0x9F, which map through the
/// WHATWG table (0x81, 0x8D, 0x8F, 0x90 and 0x9D keep their code points).
pub open spec fn windows_1252_char(b: u8) -> char {
    if b == 0x80 {
        '\u{20AC}'
    } else if b == 0x82 {
        '\u{201A}'
    } else if b == 0x83 {
        '\u{0192}'
    } else if b == 0x84 {
        '\u{201E}'
    } else if b == 0x85 {
        '\u{2026}'
    } else if b == 0x86 {
        '\u{2020}'
    } else if b == 0x87 {
        '\u{2021}'
    } else if b == 0x88 {
        '\u{02C6}'
    } else if b == 0x89 {
        '\u{2030}'
    } else if b == 0x8A {
        '\u{0160}'
    } else if b == 0x8B {
        '\u{2039}'
    } else if b == 0x8C {
        '\u{0152}'
    } else if b == 0x8E {
        '\u{017D}'
    } else if b == 0x91 {
        '\u{2018}'
    } else if b == 0x92 {
        '\u{2019}'
    } else if b == 0x93 {
        '\u{201C}'
    } else if b == 0x94 {
        '\u{201D}'
    } else if b == 0x95 {
        '\u{2022}'
    } else if b == 0x96 {
        '\u{2013}'
    } else if b == 0x97 {
        '\u{2014}'
    } else if b == 0x98 {
        '\u{02DC}'
    } else if b == 0x99 {
        '\u{2122}'
    } else if b == 0x9A {
        '\u{0161}'
    } else if b == 0x9B {
        '\u{203A}'
    } else if b == 0x9C {
        '\u{0153}'
    } else if b == 0x9E {
        '\u{017E}'
    } else if b == 0x9F {
        '\u{0178}'
    } else {
        b as char
    }
}

/// The text that Windows-1252 decoding makes of a byte string: one
/// character per byte.
pub open spec fn windows_1252_text(b: Seq<u8>) -> Seq<char> {
    b.map_values(|x: u8| windows_1252_char(x))
}

/// The text that UTF-16LE decoding makes of a byte string.
pub uninterp spec fn utf16le_text(b: Seq<u8>) -> Seq<char>;

/// Every byte is below 0x80.
pub open spec fn ascii_bytes(b: Seq<u8>) -> bool {
    forall|i: int| 0 <= i < b.len() ==> #[trigger] b[i] < 128
}

/// Relies on `encoding_rs::WINDOWS_1252.decode_without_bom_handling`: each
/// byte becomes the character that the Windows-1252 index gives it.
#[verifier::external_body]
pub(crate) fn decode_windows_1252(b: &[u8]) -> (r: String)
    ensures
        r@ == windows_1252_text(b@),
{
    encoding_rs::WINDOWS_1252.decode_without_bom_handling(b).0.into_owned()
}

/// Relies on `encoding_rs::UTF_16LE.decode_without_bom_handling`: the text
/// depends on the bytes alone.
#[verifier::external_body]
pub(crate) fn decode_utf16le(b: &[u8]) -> (r: String)
    ensures
        r@ == utf16le_text(b@),
{
    encoding_rs::UTF_16LE.decode_without_bom_handling(b).0.into_owned()
}

/// ASCII bytes decode to the characters whose UTF-8 bytes they are.
pub proof fn lemma_ascii_windows_1252(b: Seq<u8>)
    requires
        ascii_bytes(b),
    ensures
        encode_utf8(windows_1252_text(b)) == b,
{
    let t = windows_1252_text(b);
    assert forall|i: int| 0 <= i < t.len() implies '\0' <= #[trigger] t[i] <= '\u{7f}' by {
        assert(b[i] < 128);
    }
    assert(is_ascii_chars(t));
    is_ascii_chars_encode_utf8(t);
    assert forall|i: int| 0 <= i < b.len() implies encode_utf8(t)[i] == b[i] by {
        assert(b[i] < 128);
        assert(t[i] as u8 == b[i]);
    }
    assert(encode_utf8(t) =~= b);
}

} // verus!
