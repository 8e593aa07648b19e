//! Localized text values: the two layouts that the game writes, an
//! optional plain string and a two-line string built from a fixed template.

use vstd::prelude::*;
use vstd::bytes::*;
use vstd::utf8::encode_utf8;
use crate::error::GVASError;
use crate::wire::{
    Parsed, outcome, spec_u32_at, spec_i8_at, spec_string_at, spec_expect, string_bytes,
    fits_field, lemma_ascii_text, read_u32, read_i8, read_string, expect, write_u8, write_u32,
    write_u64, write_string,
};

verus! {

/// A text value as the save file stores it.
#[derive(Debug, Clone, PartialEq)]
pub enum TextProperty {
    /// Plain text.
    Simple(String),
    /// Two lines joined by the `{0}<br>{1}` template.
    FmtStr(String, String),
    /// No text.
    Empty,
}

/// The model of a [`TextProperty`].
pub ghost enum TextModel {
    Simple(Seq<char>),
    FmtStr(Seq<char>, Seq<char>),
    Empty,
}

impl View for TextProperty {
    type V = TextModel;

    open spec fn view(&self) -> TextModel {
        match self {
            TextProperty::Simple(s) => TextModel::Simple(s@),
            TextProperty::FmtStr(a, b) => TextModel::FmtStr(a@, b@),
            TextProperty::Empty => TextModel::Empty,
        }
    }
}

/// The fixed bytes between the layout tag of a two-line text and its first
/// line: the template's namespace marker, key and pattern, and the header of
/// the first argument.
pub open spec fn fmt_head() -> Seq<u8> {
    seq![3u8] + spec_u64_to_le_bytes(8) + seq![0u8] + string_bytes(
        "56F8D27149CC5E2D12103BBEBFCA9097"@,
    ) + string_bytes("{0}<br>{1}"@) + spec_u32_to_le_bytes(2) + string_bytes("0"@) + seq![4u8]
        + spec_u32_to_le_bytes(2) + seq![0xffu8]
}

/// The fixed bytes between the two lines: the header of the second argument.
pub open spec fn fmt_mid() -> Seq<u8> {
    string_bytes("1"@) + seq![4u8] + spec_u32_to_le_bytes(2) + seq![0xffu8]
}

/// A line of a two-line text: a presence flag, then the string if present.
pub open spec fn spec_line_at(d: Seq<u8>, p: int) -> Parsed<Seq<char>> {
    match spec_u32_at(d, p) {
        Err(e) => Err(e),
        Ok((opt, q)) => if opt == 1 {
            spec_string_at(d, q)
        } else {
            Ok((Seq::empty(), q))
        },
    }
}

/// What reading a text value at `p` yields.
pub open spec fn spec_text_at(d: Seq<u8>, p: int) -> Parsed<TextModel> {
    match spec_u32_at(d, p) {
        Err(e) => Err(e),
        Ok((tag, p1)) => if tag == 1 {
            match spec_expect(d, p1, fmt_head()) {
                Err(e) => Err(e),
                Ok((_, p2)) => match spec_line_at(d, p2) {
                    Err(e) => Err(e),
                    Ok((first, p3)) => match spec_expect(d, p3, fmt_mid()) {
                        Err(e) => Err(e),
                        Ok((_, p4)) => match spec_line_at(d, p4) {
                            Err(e) => Err(e),
                            Ok((second, p5)) => Ok((TextModel::FmtStr(first, second), p5)),
                        },
                    },
                },
            }
        } else {
            match spec_i8_at(d, p1) {
                Err(e) => Err(e),
                Ok((m, p2)) => if m != -1 {
                    Err(GVASError::UnsupportedFormat)
                } else {
                    match spec_u32_at(d, p2) {
                        Err(e) => Err(e),
                        Ok((opt, p3)) => if opt == 1 {
                            match spec_string_at(d, p3) {
                                Err(e) => Err(e),
                                Ok((s, p4)) => Ok((TextModel::Simple(s), p4)),
                            }
                        } else {
                            Ok((TextModel::Empty, p3))
                        },
                    }
                },
            }
        },
    }
}

/// The bytes of one line of a two-line text.
pub open spec fn line_bytes(s: Seq<char>) -> Seq<u8> {
    if encode_utf8(s).len() == 0 {
        spec_u32_to_le_bytes(0)
    } else {
        spec_u32_to_le_bytes(1) + string_bytes(s)
    }
}

/// The bytes that the writer emits for a text value.
pub open spec fn text_bytes(t: TextModel) -> Seq<u8> {
    match t {
        TextModel::Empty => spec_u32_to_le_bytes(0) + seq![0xffu8] + spec_u32_to_le_bytes(0),
        TextModel::Simple(s) => spec_u32_to_le_bytes(2) + seq![0xffu8] + spec_u32_to_le_bytes(1)
            + string_bytes(s),
        TextModel::FmtStr(a, b) => spec_u32_to_le_bytes(1) + fmt_head() + line_bytes(a) + fmt_mid()
            + line_bytes(b),
    }
}

/// Every string of the text fits its length field.
pub open spec fn text_fits(t: TextModel) -> bool {
    match t {
        TextModel::Empty => true,
        TextModel::Simple(s) => fits_field(s),
        TextModel::FmtStr(a, b) => fits_field(a) && fits_field(b),
    }
}

fn fmt_head_bytes() -> (r: Vec<u8>)
    ensures
        r@ == fmt_head(),
{
    let mut v: Vec<u8> = Vec::new();
    proof {
        reveal_strlit("56F8D27149CC5E2D12103BBEBFCA9097");
        reveal_strlit("{0}<br>{1}");
        reveal_strlit("0");
        lemma_ascii_text("56F8D27149CC5E2D12103BBEBFCA9097"@);
        lemma_ascii_text("{0}<br>{1}"@);
        lemma_ascii_text("0"@);
    }
    write_u8(&mut v, 3);
    write_u64(&mut v, 8);
    write_u8(&mut v, 0);
    write_string(&mut v, "56F8D27149CC5E2D12103BBEBFCA9097");
    write_string(&mut v, "{0}<br>{1}");
    write_u32(&mut v, 2);
    write_string(&mut v, "0");
    write_u8(&mut v, 4);
    write_u32(&mut v, 2);
    write_u8(&mut v, 0xff);
    assert(v@ =~= fmt_head());
    v
}

fn fmt_mid_bytes() -> (r: Vec<u8>)
    ensures
        r@ == fmt_mid(),
{
    let mut v: Vec<u8> = Vec::new();
    proof {
        reveal_strlit("1");
        lemma_ascii_text("1"@);
    }
    write_string(&mut v, "1");
    write_u8(&mut v, 4);
    write_u32(&mut v, 2);
    write_u8(&mut v, 0xff);
    assert(v@ =~= fmt_mid());
    v
}

fn read_line(d: &[u8], pos: usize) -> (r: Result<(String, usize), GVASError>)
    ensures
        outcome(r) == spec_line_at(d@, pos as int),
{
    let (opt, q) = read_u32(d, pos)?;
    if opt == 1 {
        read_string(d, q)
    } else {
        Ok((String::new(), q))
    }
}

fn write_line(out: &mut Vec<u8>, s: &String)
    requires
        fits_field(s@),
    ensures
        final(out)@ == old(out)@ + line_bytes(s@),
{
    if s.as_str().as_bytes().len() == 0 {
        write_u32(out, 0);
    } else {
        write_u32(out, 1);
        write_string(out, s.as_str());
        assert(out@ =~= old(out)@ + line_bytes(s@));
    }
}

impl TextProperty {
    /// Reads a text value at `pos`; a layout other than the two known ones
    /// fails with `UnsupportedFormat`.
    #[verifier::rlimit(50)]
    pub fn read(d: &[u8], pos: usize) -> (r: Result<(TextProperty, usize), GVASError>)
        ensures
            outcome(r) == spec_text_at(d@, pos as int),
    {
        let (tag, p1) = read_u32(d, pos)?;
        if tag == 1 {
            let head = fmt_head_bytes();
            let p2 = expect(d, p1, head.as_slice())?;
            let (first, p3) = read_line(d, p2)?;
            let mid = fmt_mid_bytes();
            let p4 = expect(d, p3, mid.as_slice())?;
            let (second, p5) = read_line(d, p4)?;
            Ok((TextProperty::FmtStr(first, second), p5))
        } else {
            let (m, p2) = read_i8(d, p1)?;
            if m != -1 {
                return Err(GVASError::UnsupportedFormat);
            }
            let (opt, p3) = read_u32(d, p2)?;
            if opt == 1 {
                let (s, p4) = read_string(d, p3)?;
                Ok((TextProperty::Simple(s), p4))
            } else {
                Ok((TextProperty::Empty, p3))
            }
        }
    }

    /// Appends the text value and returns how many bytes it took.
    pub fn write(&self, out: &mut Vec<u8>) -> (r: u64)
        requires
            text_fits(self@),
        ensures
            final(out)@ == old(out)@ + text_bytes(self@),
            r == text_bytes(self@).len(),
    {
        let start = out.len();
        match self {
            TextProperty::Empty => {
                write_u32(out, 0);
                write_u8(out, 0xff);
                write_u32(out, 0);
            },
            TextProperty::Simple(s) => {
                write_u32(out, 2);
                write_u8(out, 0xff);
                write_u32(out, 1);
                write_string(out, s.as_str());
            },
            TextProperty::FmtStr(first, second) => {
                write_u32(out, 1);
                let head = fmt_head_bytes();
                crate::wire::push_all(out, head.as_slice());
                write_line(out, first);
                let mid = fmt_mid_bytes();
                crate::wire::push_all(out, mid.as_slice());
                write_line(out, second);
            },
        }
        assert(out@ =~= old(out)@ + text_bytes(self@));
        (out.len() - start) as u64
    }
}

} // verus!
