//! Reading what the writer wrote gives back what was written: the file
//! reader inverts the file writer on files whose strings are ASCII.

use vstd::prelude::*;
use vstd::bytes::*;
use vstd::utf8::{encode_utf8, is_ascii_chars};
use crate::encoding::{windows_1252_text, lemma_ascii_windows_1252};
use crate::error::GVASError;
use crate::file::{
    PropertyModel, DataEntryModel, EngineVersionModel, GVASFileModel, spec_property_at, spec_props_from,
    spec_engine_at, spec_file, property_bytes, property_enc, entry_enc, entry_reader, engine_bytes, file_bytes, magic,
};
use crate::seqs::{spec_many, concat_map, lemma_concat_map_front};
use crate::value::{
    ValueModel, Triple, spec_value_at, spec_array_at, spec_struct_array_at, spec_count_at, spec_triple_at, u32_reader, bool_reader, triple_reader, string_reader, text_reader, u32_enc, bool_enc,
    triple_enc, triple_bytes, string_enc, text_enc, inner_type, struct_body, array_body, array_payload,
    value_bytes, zero_guid,
};
use crate::text::{TextModel, spec_line_at, spec_text_at, line_bytes, text_bytes, fmt_head, fmt_mid};
use crate::wire::{
    lemma_empty_string, Parsed, spec_expect, spec_take, spec_u8_at, spec_i8_at, spec_u16_at, spec_u32_at, spec_i32_at, spec_u64_at,
    spec_string_at, string_bytes, lemma_ascii_text,
};

verus! {

/// The bytes `b` stand in `d` at `p`.
pub open spec fn at(d: Seq<u8>, p: int, b: Seq<u8>) -> bool {
    0 <= p && p + b.len() <= d.len() && d.subrange(p, p + b.len()) == b
}

/// An ASCII string short enough for a positive length prefix.
pub open spec fn ascii_text(s: Seq<char>) -> bool {
    is_ascii_chars(s) && s.len() + 1 < 0x7fff_ffff
}

pub proof fn lemma_at_split(d: Seq<u8>, p: int, b1: Seq<u8>, b2: Seq<u8>)
    requires
        at(d, p, b1 + b2),
    ensures
        at(d, p, b1),
        at(d, p + b1.len(), b2),
{
    let w = d.subrange(p, p + (b1 + b2).len());
    assert(w == b1 + b2);
    assert(d.subrange(p, p + b1.len()) =~= w.subrange(0, b1.len() as int));
    assert(w.subrange(0, b1.len() as int) =~= b1);
    assert(d.subrange(p + b1.len(), p + b1.len() + b2.len()) =~= w.subrange(
        b1.len() as int,
        (b1.len() + b2.len()) as int,
    ));
    assert(w.subrange(b1.len() as int, (b1.len() + b2.len()) as int) =~= b2);
}

pub proof fn lemma_rt_take(d: Seq<u8>, p: int, b: Seq<u8>)
    requires
        at(d, p, b),
    ensures
        spec_take(d, p, b.len() as int) == Ok::<(Seq<u8>, int), GVASError>((b, p + b.len())),
{
}

pub proof fn lemma_rt_u8(d: Seq<u8>, p: int, x: u8)
    requires
        at(d, p, seq![x]),
    ensures
        spec_u8_at(d, p) == Ok::<(u8, int), GVASError>((x, p + 1)),
{
    assert(d.subrange(p, p + 1)[0] == x);
}

pub proof fn lemma_rt_minus_one(d: Seq<u8>, p: int)
    requires
        at(d, p, seq![0xffu8]),
    ensures
        spec_i8_at(d, p) == Ok::<(i8, int), GVASError>((-1i8, p + 1)),
{
    assert(d.subrange(p, p + 1)[0] == 0xffu8);
    assert(0xffu8 as i8 == -1i8) by (bit_vector);
}

pub proof fn lemma_rt_u16(d: Seq<u8>, p: int, x: u16)
    requires
        at(d, p, spec_u16_to_le_bytes(x)),
    ensures
        spec_u16_at(d, p) == Ok::<(u16, int), GVASError>((x, p + 2)),
        spec_u16_to_le_bytes(x).len() == 2,
{
    lemma_auto_spec_u16_to_from_le_bytes();
}

pub proof fn lemma_rt_u32(d: Seq<u8>, p: int, x: u32)
    requires
        at(d, p, spec_u32_to_le_bytes(x)),
    ensures
        spec_u32_at(d, p) == Ok::<(u32, int), GVASError>((x, p + 4)),
        spec_u32_to_le_bytes(x).len() == 4,
{
    lemma_auto_spec_u32_to_from_le_bytes();
}

pub proof fn lemma_rt_u64(d: Seq<u8>, p: int, x: u64)
    requires
        at(d, p, spec_u64_to_le_bytes(x)),
    ensures
        spec_u64_at(d, p) == Ok::<(u64, int), GVASError>((x, p + 8)),
        spec_u64_to_le_bytes(x).len() == 8,
{
    lemma_auto_spec_u64_to_from_le_bytes();
}

pub proof fn lemma_rt_i32(d: Seq<u8>, p: int, x: u32)
    requires
        at(d, p, spec_u32_to_le_bytes(x)),
        x < 0x8000_0000,
    ensures
        spec_i32_at(d, p) == Ok::<(i32, int), GVASError>((x as i32, p + 4)),
        x as i32 == x,
{
    lemma_auto_spec_u32_to_from_le_bytes();
}

/// A string field of an ASCII string reads back as the string.
pub proof fn lemma_rt_string(d: Seq<u8>, p: int, s: Seq<char>)
    requires
        ascii_text(s),
        at(d, p, string_bytes(s)),
    ensures
        spec_string_at(d, p) == Ok::<(Seq<char>, int), GVASError>((s, p + string_bytes(s).len())),
        string_bytes(s).len() >= 4,
{
    lemma_ascii_text(s);
    lemma_auto_spec_u32_to_from_le_bytes();
    let b = encode_utf8(s);
    if b.len() == 0 {
        assert(s =~= Seq::<char>::empty());
        lemma_rt_i32(d, p, 0);
    } else {
        let n = (b.len() + 1) as u32;
        lemma_at_split(d, p, spec_u32_to_le_bytes(n) + b, seq![0u8]);
        lemma_at_split(d, p, spec_u32_to_le_bytes(n), b);
        lemma_rt_i32(d, p, n);
        let body = d.subrange(p + 4, p + 4 + n);
        assert(body =~= b + seq![0u8]);
        assert(body.subrange(0, n - 1) =~= b);
        lemma_ascii_windows_1252(b);
        vstd::utf8::encode_utf8_decode_utf8(s);
        vstd::utf8::encode_utf8_decode_utf8(windows_1252_text(b));
    }
}

pub proof fn lemma_rt_expect(d: Seq<u8>, p: int, lit: Seq<u8>)
    requires
        at(d, p, lit),
    ensures
        spec_expect(d, p, lit) == Ok::<((), int), GVASError>(((), p + lit.len())),
{
}

/// Reading `xs.len()` elements where their encodings stand gives them back,
/// given that each element reads back where its encoding stands.
pub proof fn lemma_rt_many<T>(
    d: Seq<u8>,
    p: int,
    xs: Seq<T>,
    f: spec_fn(int) -> Parsed<T>,
    enc: spec_fn(T) -> Seq<u8>,
)
    requires
        at(d, p, concat_map(xs, enc)),
        forall|q: int, i: int|
            0 <= i < xs.len() && #[trigger] at(d, q, enc(xs[i])) ==> f(q) == Ok::<(T, int), GVASError>(
                (xs[i], q + enc(xs[i]).len()),
            ),
    ensures
        spec_many(f, p, xs.len()) == Ok::<(Seq<T>, int), GVASError>((xs, p + concat_map(xs, enc).len())),
    decreases xs.len(),
{
    if xs.len() == 0 {
        assert(xs =~= Seq::<T>::empty());
    } else {
        lemma_concat_map_front(xs, enc);
        lemma_at_split(d, p, enc(xs[0]), concat_map(xs.drop_first(), enc));
        let q = p + enc(xs[0]).len();
        let ys = xs.drop_first();
        assert forall|q2: int, i: int|
            0 <= i < ys.len() && #[trigger] at(d, q2, enc(ys[i])) implies f(q2) == Ok::<
                (T, int),
                GVASError,
            >((ys[i], q2 + enc(ys[i]).len())) by {
            assert(ys[i] == xs[i + 1]);
            assert(at(d, q2, enc(xs[i + 1])));
        }
        lemma_rt_many(d, q, ys, f, enc);
        assert(f(p) == Ok::<(T, int), GVASError>((xs[0], q)));
        assert(seq![xs[0]] + ys =~= xs);
    }
}

/// Every string of a text value is ASCII.
pub open spec fn text_canonical(t: TextModel) -> bool {
    match t {
        TextModel::Empty => true,
        TextModel::Simple(s) => ascii_text(s),
        TextModel::FmtStr(a, b) => ascii_text(a) && ascii_text(b),
    }
}

pub proof fn lemma_rt_line(d: Seq<u8>, p: int, s: Seq<char>)
    requires
        ascii_text(s),
        at(d, p, line_bytes(s)),
    ensures
        spec_line_at(d, p) == Ok::<(Seq<char>, int), GVASError>((s, p + line_bytes(s).len())),
{
    lemma_ascii_text(s);
    lemma_auto_spec_u32_to_from_le_bytes();
    if encode_utf8(s).len() == 0 {
        assert(s =~= Seq::<char>::empty());
        lemma_rt_u32(d, p, 0);
    } else {
        lemma_at_split(d, p, spec_u32_to_le_bytes(1), string_bytes(s));
        lemma_rt_u32(d, p, 1);
        lemma_rt_string(d, p + 4, s);
    }
}

#[verifier::rlimit(50)]
pub proof fn lemma_rt_text(d: Seq<u8>, p: int, t: TextModel)
    requires
        text_canonical(t),
        at(d, p, text_bytes(t)),
    ensures
        spec_text_at(d, p) == Ok::<(TextModel, int), GVASError>((t, p + text_bytes(t).len())),
{
    lemma_auto_spec_u32_to_from_le_bytes();
    match t {
        TextModel::Empty => {
            let b0 = spec_u32_to_le_bytes(0);
            lemma_at_split(d, p, b0 + seq![0xffu8], b0);
            lemma_at_split(d, p, b0, seq![0xffu8]);
            lemma_rt_u32(d, p, 0);
            lemma_rt_minus_one(d, p + 4);
            lemma_rt_u32(d, p + 5, 0);
        },
        TextModel::Simple(s) => {
            let b2 = spec_u32_to_le_bytes(2);
            let b1 = spec_u32_to_le_bytes(1);
            lemma_at_split(d, p, b2 + seq![0xffu8] + b1, string_bytes(s));
            lemma_at_split(d, p, b2 + seq![0xffu8], b1);
            lemma_at_split(d, p, b2, seq![0xffu8]);
            lemma_rt_u32(d, p, 2);
            lemma_rt_minus_one(d, p + 4);
            lemma_rt_u32(d, p + 5, 1);
            lemma_rt_string(d, p + 9, s);
        },
        TextModel::FmtStr(a, b) => {
            let b1 = spec_u32_to_le_bytes(1);
            let h = b1 + fmt_head();
            lemma_at_split(d, p, h + line_bytes(a) + fmt_mid(), line_bytes(b));
            lemma_at_split(d, p, h + line_bytes(a), fmt_mid());
            lemma_at_split(d, p, h, line_bytes(a));
            lemma_at_split(d, p, b1, fmt_head());
            lemma_rt_u32(d, p, 1);
            lemma_rt_expect(d, p + 4, fmt_head());
            let p2 = p + 4 + fmt_head().len();
            lemma_rt_line(d, p2, a);
            let p3 = p2 + line_bytes(a).len();
            lemma_rt_expect(d, p3, fmt_mid());
            let p4 = p3 + fmt_mid().len();
            lemma_rt_line(d, p4, b);
        },
    }
}

pub proof fn lemma_rt_u32s(d: Seq<u8>, p: int, xs: Seq<u32>)
    requires
        at(d, p, concat_map(xs, u32_enc())),
    ensures
        spec_many(u32_reader(d), p, xs.len()) == Ok::<(Seq<u32>, int), GVASError>(
            (xs, p + concat_map(xs, u32_enc()).len()),
        ),
{
    assert forall|q: int, i: int|
        0 <= i < xs.len() && #[trigger] at(d, q, u32_enc()(xs[i])) implies u32_reader(d)(q) == Ok::<
            (u32, int),
            GVASError,
        >((xs[i], q + u32_enc()(xs[i]).len())) by {
        lemma_rt_u32(d, q, xs[i]);
    }
    lemma_rt_many(d, p, xs, u32_reader(d), u32_enc());
}

pub proof fn lemma_rt_bools(d: Seq<u8>, p: int, xs: Seq<bool>)
    requires
        at(d, p, concat_map(xs, bool_enc())),
    ensures
        spec_many(bool_reader(d), p, xs.len()) == Ok::<(Seq<bool>, int), GVASError>(
            (xs, p + concat_map(xs, bool_enc()).len()),
        ),
{
    assert forall|q: int, i: int|
        0 <= i < xs.len() && #[trigger] at(d, q, bool_enc()(xs[i])) implies bool_reader(d)(q) == Ok::<
            (bool, int),
            GVASError,
        >((xs[i], q + bool_enc()(xs[i]).len())) by {
        if xs[i] {
            lemma_rt_u8(d, q, 1);
        } else {
            lemma_rt_u8(d, q, 0);
        }
    }
    lemma_rt_many(d, p, xs, bool_reader(d), bool_enc());
}

pub proof fn lemma_rt_triple(d: Seq<u8>, p: int, t: Triple)
    requires
        at(d, p, triple_bytes(t)),
    ensures
        spec_triple_at(d, p) == Ok::<(Triple, int), GVASError>((t, p + 12)),
        triple_bytes(t).len() == 12,
{
    lemma_auto_spec_u32_to_from_le_bytes();
    let a = spec_u32_to_le_bytes(t.0);
    let b = spec_u32_to_le_bytes(t.1);
    let c = spec_u32_to_le_bytes(t.2);
    lemma_at_split(d, p, a + b, c);
    lemma_at_split(d, p, a, b);
    lemma_rt_u32(d, p, t.0);
    lemma_rt_u32(d, p + 4, t.1);
    lemma_rt_u32(d, p + 8, t.2);
}

pub proof fn lemma_rt_triples(d: Seq<u8>, p: int, xs: Seq<Triple>)
    requires
        at(d, p, concat_map(xs, triple_enc())),
    ensures
        spec_many(triple_reader(d), p, xs.len()) == Ok::<(Seq<Triple>, int), GVASError>(
            (xs, p + concat_map(xs, triple_enc()).len()),
        ),
{
    assert forall|q: int, i: int|
        0 <= i < xs.len() && #[trigger] at(d, q, triple_enc()(xs[i])) implies triple_reader(d)(q)
        == Ok::<(Triple, int), GVASError>((xs[i], q + triple_enc()(xs[i]).len())) by {
        lemma_rt_triple(d, q, xs[i]);
    }
    lemma_rt_many(d, p, xs, triple_reader(d), triple_enc());
}

pub proof fn lemma_rt_strings(d: Seq<u8>, p: int, xs: Seq<Seq<char>>)
    requires
        forall|i: int| 0 <= i < xs.len() ==> ascii_text(#[trigger] xs[i]),
        at(d, p, concat_map(xs, string_enc())),
    ensures
        spec_many(string_reader(d), p, xs.len()) == Ok::<(Seq<Seq<char>>, int), GVASError>(
            (xs, p + concat_map(xs, string_enc()).len()),
        ),
{
    assert forall|q: int, i: int|
        0 <= i < xs.len() && #[trigger] at(d, q, string_enc()(xs[i])) implies string_reader(d)(q)
        == Ok::<(Seq<char>, int), GVASError>((xs[i], q + string_enc()(xs[i]).len())) by {
        lemma_rt_string(d, q, xs[i]);
    }
    lemma_rt_many(d, p, xs, string_reader(d), string_enc());
}

pub proof fn lemma_rt_texts(d: Seq<u8>, p: int, xs: Seq<TextModel>)
    requires
        forall|i: int| 0 <= i < xs.len() ==> text_canonical(#[trigger] xs[i]),
        at(d, p, concat_map(xs, text_enc())),
    ensures
        spec_many(text_reader(d), p, xs.len()) == Ok::<(Seq<TextModel>, int), GVASError>(
            (xs, p + concat_map(xs, text_enc()).len()),
        ),
{
    assert forall|q: int, i: int|
        0 <= i < xs.len() && #[trigger] at(d, q, text_enc()(xs[i])) implies text_reader(d)(q)
        == Ok::<(TextModel, int), GVASError>((xs[i], q + text_enc()(xs[i]).len())) by {
        lemma_rt_text(d, q, xs[i]);
    }
    lemma_rt_many(d, p, xs, text_reader(d), text_enc());
}

/// A value that reads back as written: its counts fit, its strings are
/// ASCII.
pub open spec fn value_canonical(v: ValueModel) -> bool {
    match v {
        ValueModel::Empty => true,
        ValueModel::Str(s) => ascii_text(s),
        ValueModel::StringArray(xs) => xs.len() <= u32::MAX && forall|i: int|
            0 <= i < xs.len() ==> ascii_text(#[trigger] xs[i]),
        ValueModel::TextArray(xs) => xs.len() <= u32::MAX && forall|i: int|
            0 <= i < xs.len() ==> text_canonical(#[trigger] xs[i]),
        ValueModel::BoolArray(xs) => xs.len() <= u32::MAX,
        ValueModel::Int32Array(xs) => xs.len() <= u32::MAX,
        ValueModel::FloatArray(xs) => xs.len() <= u32::MAX,
        ValueModel::VectorArray(xs) => xs.len() <= u32::MAX,
        ValueModel::RotatorArray(xs) => xs.len() <= u32::MAX,
    }
}

pub proof fn lemma_type_names()
    ensures
        ascii_text("StrProperty"@),
        ascii_text("ArrayProperty"@),
        ascii_text("StructProperty"@),
        ascii_text("BoolProperty"@),
        ascii_text("IntProperty"@),
        ascii_text("FloatProperty"@),
        ascii_text("TextProperty"@),
        ascii_text("Vector"@),
        ascii_text("Rotator"@),
        "StrProperty"@ != "ArrayProperty"@,
        "StructProperty"@ != "BoolProperty"@,
        "StructProperty"@ != "IntProperty"@,
        "StructProperty"@ != "FloatProperty"@,
        "StructProperty"@ != "StrProperty"@,
        "StructProperty"@ != "TextProperty"@,
        "BoolProperty"@ != "IntProperty"@,
        "BoolProperty"@ != "FloatProperty"@,
        "BoolProperty"@ != "StrProperty"@,
        "BoolProperty"@ != "TextProperty"@,
        "IntProperty"@ != "FloatProperty"@,
        "IntProperty"@ != "StrProperty"@,
        "IntProperty"@ != "TextProperty"@,
        "FloatProperty"@ != "StrProperty"@,
        "FloatProperty"@ != "TextProperty"@,
        "StrProperty"@ != "TextProperty"@,
        "Vector"@ != "Rotator"@,
        "StrProperty"@.len() > 0,
        "ArrayProperty"@.len() > 0,
{
    reveal_strlit("StrProperty");
    reveal_strlit("ArrayProperty");
    reveal_strlit("StructProperty");
    reveal_strlit("BoolProperty");
    reveal_strlit("IntProperty");
    reveal_strlit("FloatProperty");
    reveal_strlit("TextProperty");
    reveal_strlit("Vector");
    reveal_strlit("Rotator");
    assert("IntProperty"@[0] != "StrProperty"@[0]);
    assert("BoolProperty"@[0] != "TextProperty"@[0]);
}

/// The struct wrapper of a vector or rotator array reads back, from its
/// flag byte on.
#[verifier::rlimit(50)]
pub proof fn lemma_rt_struct(d: Seq<u8>, p: int, xs: Seq<Triple>, name: Seq<char>, kind: Seq<char>)
    requires
        ascii_text(name),
        kind == "Vector"@ || kind == "Rotator"@,
        xs.len() <= u32::MAX,
        at(d, p, seq![0u8] + struct_body(xs, name, kind)),
    ensures
        spec_struct_array_at(d, p, name) == Ok::<(ValueModel, int), GVASError>(
            (
                if kind == "Vector"@ {
                    ValueModel::VectorArray(xs)
                } else {
                    ValueModel::RotatorArray(xs)
                },
                p + 1 + struct_body(xs, name, kind).len(),
            ),
        ),
{
    lemma_type_names();
    lemma_auto_spec_u32_to_from_le_bytes();
    lemma_auto_spec_u64_to_from_le_bytes();
    let n = xs.len() as u32;
    let a1 = spec_u32_to_le_bytes(n);
    let a2 = string_bytes(name);
    let a3 = string_bytes("StructProperty"@);
    let a4 = spec_u64_to_le_bytes((xs.len() * 12) as u64);
    let a5 = string_bytes(kind);
    let z = Seq::new(17, |i: int| 0u8);
    let cm = concat_map(xs, triple_enc());
    assert(struct_body(xs, name, kind) == a1 + a2 + a3 + a4 + a5 + z + cm);
    lemma_at_split(d, p, seq![0u8], struct_body(xs, name, kind));
    let p1 = p + 1;
    lemma_at_split(d, p1, a1 + a2 + a3 + a4 + a5 + z, cm);
    lemma_at_split(d, p1, a1 + a2 + a3 + a4 + a5, z);
    lemma_at_split(d, p1, a1 + a2 + a3 + a4, a5);
    lemma_at_split(d, p1, a1 + a2 + a3, a4);
    lemma_at_split(d, p1, a1 + a2, a3);
    lemma_at_split(d, p1, a1, a2);
    lemma_rt_u8(d, p, 0);
    lemma_rt_u32(d, p1, n);
    let p2 = p1 + 4;
    lemma_rt_string(d, p2, name);
    let p3 = p2 + a2.len();
    lemma_rt_string(d, p3, "StructProperty"@);
    let p4 = p3 + a3.len();
    lemma_rt_u64(d, p4, (xs.len() * 12) as u64);
    let p5 = p4 + 8;
    lemma_rt_string(d, p5, kind);
    let p6 = p5 + a5.len();
    assert(z =~= zero_guid() + seq![0u8]);
    lemma_at_split(d, p6, zero_guid(), seq![0u8]);
    lemma_rt_take(d, p6, zero_guid());
    lemma_rt_u8(d, p6 + 16, 0);
    let p7 = p6 + 17;
    lemma_rt_triples(d, p7, xs);
}

pub proof fn lemma_at_join(d: Seq<u8>, p: int, b1: Seq<u8>, b2: Seq<u8>)
    requires
        at(d, p, b1),
        at(d, p + b1.len(), b2),
    ensures
        at(d, p, b1 + b2),
{
    assert(d.subrange(p, p + (b1 + b2).len()) =~= b1 + b2) by {
        assert forall|i: int| 0 <= i < (b1 + b2).len() implies d.subrange(p, p + (b1 + b2).len())[i]
            == (b1 + b2)[i] by {
            if i < b1.len() {
                assert(d.subrange(p, p + b1.len())[i] == b1[i]);
            } else {
                assert(d.subrange(p + b1.len(), p + b1.len() + b2.len())[i - b1.len()] == b2[i - b1.len()]);
            }
        }
    }
}

/// The element count of an array value.
pub open spec fn count_of(v: ValueModel) -> nat {
    match v {
        ValueModel::BoolArray(xs) => xs.len(),
        ValueModel::Int32Array(xs) => xs.len(),
        ValueModel::FloatArray(xs) => xs.len(),
        ValueModel::StringArray(xs) => xs.len(),
        ValueModel::TextArray(xs) => xs.len(),
        ValueModel::VectorArray(xs) => xs.len(),
        ValueModel::RotatorArray(xs) => xs.len(),
        _ => 0,
    }
}

/// The flag, count and elements of an array other than a struct array read
/// back.
#[verifier::rlimit(50)]
pub proof fn lemma_rt_counted(d: Seq<u8>, p: int, v: ValueModel, name: Seq<char>)
    requires
        value_canonical(v),
        v is BoolArray || v is Int32Array || v is FloatArray || v is StringArray || v is TextArray,
        at(d, p, seq![0u8]),
        at(d, p + 1, array_body(v, name)),
    ensures
        spec_count_at(d, p) == Ok::<(u32, int), GVASError>((count_of(v) as u32, p + 5)),
        count_of(v) as u32 == count_of(v),
        match v {
            ValueModel::BoolArray(xs) => spec_many(bool_reader(d), p + 5, xs.len())
                == Ok::<(Seq<bool>, int), GVASError>((xs, p + 1 + array_body(v, name).len())),
            ValueModel::Int32Array(xs) => spec_many(u32_reader(d), p + 5, xs.len())
                == Ok::<(Seq<u32>, int), GVASError>((xs, p + 1 + array_body(v, name).len())),
            ValueModel::FloatArray(xs) => spec_many(u32_reader(d), p + 5, xs.len())
                == Ok::<(Seq<u32>, int), GVASError>((xs, p + 1 + array_body(v, name).len())),
            ValueModel::StringArray(xs) => spec_many(string_reader(d), p + 5, xs.len())
                == Ok::<(Seq<Seq<char>>, int), GVASError>((xs, p + 1 + array_body(v, name).len())),
            ValueModel::TextArray(xs) => spec_many(text_reader(d), p + 5, xs.len())
                == Ok::<(Seq<TextModel>, int), GVASError>((xs, p + 1 + array_body(v, name).len())),
            _ => true,
        },
{
    lemma_auto_spec_u32_to_from_le_bytes();
    let body = array_body(v, name);
    let n = count_of(v) as u32;
    let cnt = spec_u32_to_le_bytes(n);
    let rest = body.subrange(4, body.len() as int);
    lemma_rt_u8(d, p, 0);
    match v {
        ValueModel::BoolArray(xs) => {
            assert(body =~= cnt + concat_map(xs, bool_enc()));
            lemma_at_split(d, p + 1, cnt, concat_map(xs, bool_enc()));
            lemma_rt_u32(d, p + 1, n);
            lemma_rt_bools(d, p + 5, xs);
        },
        ValueModel::Int32Array(xs) => {
            assert(body =~= cnt + concat_map(xs, u32_enc()));
            lemma_at_split(d, p + 1, cnt, concat_map(xs, u32_enc()));
            lemma_rt_u32(d, p + 1, n);
            lemma_rt_u32s(d, p + 5, xs);
        },
        ValueModel::FloatArray(xs) => {
            assert(body =~= cnt + concat_map(xs, u32_enc()));
            lemma_at_split(d, p + 1, cnt, concat_map(xs, u32_enc()));
            lemma_rt_u32(d, p + 1, n);
            lemma_rt_u32s(d, p + 5, xs);
        },
        ValueModel::StringArray(xs) => {
            assert(body =~= cnt + concat_map(xs, string_enc()));
            lemma_at_split(d, p + 1, cnt, concat_map(xs, string_enc()));
            lemma_rt_u32(d, p + 1, n);
            lemma_rt_strings(d, p + 5, xs);
        },
        ValueModel::TextArray(xs) => {
            assert(body =~= cnt + concat_map(xs, text_enc()));
            lemma_at_split(d, p + 1, cnt, concat_map(xs, text_enc()));
            lemma_rt_u32(d, p + 1, n);
            lemma_rt_texts(d, p + 5, xs);
        },
        _ => {},
    }
}

/// A struct array whose struct kind is neither `Vector` nor `Rotator` is
/// rejected as unsupported, whatever size it declares and whatever follows.
pub proof fn lemma_unknown_struct_kind(
    d: Seq<u8>,
    p: int,
    n: u32,
    name: Seq<char>,
    size: u64,
    kind: Seq<char>,
)
    requires
        ascii_text(name),
        ascii_text(kind),
        kind != "Vector"@,
        kind != "Rotator"@,
        at(
            d,
            p,
            seq![0u8] + spec_u32_to_le_bytes(n) + string_bytes(name) + string_bytes("StructProperty"@)
                + spec_u64_to_le_bytes(size) + string_bytes(kind) + Seq::new(17, |i: int| 0u8),
        ),
    ensures
        spec_struct_array_at(d, p, name) == Err::<(ValueModel, int), GVASError>(
            GVASError::UnsupportedFormat,
        ),
{
    lemma_type_names();
    lemma_auto_spec_u32_to_from_le_bytes();
    let a0 = seq![0u8];
    let a1 = spec_u32_to_le_bytes(n);
    let a2 = string_bytes(name);
    let a3 = string_bytes("StructProperty"@);
    let a4 = spec_u64_to_le_bytes(size);
    let a5 = string_bytes(kind);
    let z = Seq::new(17, |i: int| 0u8);
    lemma_at_split(d, p, a0 + a1 + a2 + a3 + a4 + a5, z);
    lemma_at_split(d, p, a0 + a1 + a2 + a3 + a4, a5);
    lemma_at_split(d, p, a0 + a1 + a2 + a3, a4);
    lemma_at_split(d, p, a0 + a1 + a2, a3);
    lemma_at_split(d, p, a0 + a1, a2);
    lemma_at_split(d, p, a0, a1);
    lemma_rt_u8(d, p, 0);
    lemma_rt_u32(d, p + 1, n);
    let p2 = p + 5;
    lemma_rt_string(d, p2, name);
    let p3 = p2 + a2.len();
    lemma_rt_string(d, p3, "StructProperty"@);
    let p4 = p3 + a3.len();
    lemma_rt_u64(d, p4, size);
    let p5 = p4 + 8;
    lemma_rt_string(d, p5, kind);
    let p6 = p5 + a5.len();
    assert(z =~= zero_guid() + seq![0u8]);
    lemma_at_split(d, p6, zero_guid(), seq![0u8]);
    lemma_rt_take(d, p6, zero_guid());
    lemma_rt_u8(d, p6 + 16, 0);
}

/// An array value reads back, from its declared length on.
#[verifier::rlimit(40)]
pub proof fn lemma_rt_array(d: Seq<u8>, p: int, v: ValueModel, name: Seq<char>)
    requires
        value_canonical(v),
        ascii_text(name),
        !(v is Empty || v is Str),
        at(
            d,
            p,
            spec_u64_to_le_bytes(array_body(v, name).len() as u64) + array_payload(v, name),
        ),
    ensures
        spec_array_at(d, p, name) == Ok::<(ValueModel, int), GVASError>(
            (v, p + 8 + array_payload(v, name).len()),
        ),
{
    lemma_type_names();
    lemma_auto_spec_u64_to_from_le_bytes();
    let len8 = spec_u64_to_le_bytes(array_body(v, name).len() as u64);
    let ty = inner_type(v);
    let body = array_body(v, name);
    lemma_at_split(d, p, len8, array_payload(v, name));
    lemma_rt_u64(d, p, array_body(v, name).len() as u64);
    let p1 = p + 8;
    lemma_at_split(d, p1, string_bytes(ty) + seq![0u8], body);
    lemma_at_split(d, p1, string_bytes(ty), seq![0u8]);
    lemma_rt_string(d, p1, ty);
    let p2 = p1 + string_bytes(ty).len();
    if v is VectorArray || v is RotatorArray {
        lemma_at_join(d, p2, seq![0u8], body);
        match v {
            ValueModel::VectorArray(xs) => {
                lemma_rt_struct(d, p2, xs, name, "Vector"@);
            },
            ValueModel::RotatorArray(xs) => {
                lemma_rt_struct(d, p2, xs, name, "Rotator"@);
            },
            _ => {},
        }
    } else {
        lemma_rt_counted(d, p2, v, name);
    }
}

/// A value reads back as written.
#[verifier::rlimit(40)]
pub proof fn lemma_rt_value(d: Seq<u8>, p: int, v: ValueModel, name: Seq<char>)
    requires
        value_canonical(v),
        ascii_text(name),
        at(d, p, value_bytes(v, name)),
    ensures
        spec_value_at(d, p, name) == Ok::<(ValueModel, int), GVASError>(
            (v, p + value_bytes(v, name).len()),
        ),
{
    lemma_type_names();
    lemma_auto_spec_u32_to_from_le_bytes();
    lemma_auto_spec_u64_to_from_le_bytes();
    match v {
        ValueModel::Empty => {
            lemma_empty_string(d, p);
        },
        ValueModel::Str(s) => {
            let a = string_bytes("StrProperty"@);
            let b = spec_u64_to_le_bytes(string_bytes(s).len() as u64);
            lemma_at_split(d, p, a + b + seq![0u8], string_bytes(s));
            lemma_at_split(d, p, a + b, seq![0u8]);
            lemma_at_split(d, p, a, b);
            lemma_rt_string(d, p, "StrProperty"@);
            lemma_rt_u64(d, p + a.len(), string_bytes(s).len() as u64);
            lemma_rt_u8(d, p + a.len() + 8, 0);
            lemma_rt_string(d, p + a.len() + 9, s);
        },
        _ => {
            let a = string_bytes("ArrayProperty"@);
            let rest = spec_u64_to_le_bytes(array_body(v, name).len() as u64) + array_payload(v, name);
            assert(value_bytes(v, name) =~= a + rest);
            lemma_at_split(d, p, a, rest);
            lemma_rt_string(d, p, "ArrayProperty"@);
            lemma_rt_array(d, p + a.len(), v, name);
        },
    }
}

/// A property that reads back as written: a non-empty ASCII name and a
/// value that reads back.
pub open spec fn property_canonical(pr: PropertyModel) -> bool {
    ascii_text(pr.name) && pr.name.len() > 0 && value_canonical(pr.val)
}

pub proof fn lemma_rt_property(d: Seq<u8>, p: int, pr: PropertyModel)
    requires
        property_canonical(pr),
        at(d, p, property_bytes(pr)),
    ensures
        spec_property_at(d, p) == Ok::<(Option<PropertyModel>, int), GVASError>(
            (Some(pr), p + property_bytes(pr).len()),
        ),
        property_bytes(pr).len() > 4,
{
    lemma_at_split(d, p, string_bytes(pr.name), value_bytes(pr.val, pr.name));
    lemma_rt_string(d, p, pr.name);
    lemma_ascii_text(pr.name);
    lemma_rt_value(d, p + string_bytes(pr.name).len(), pr.val, pr.name);
}

/// Bytes after the property list that end it: none, or a zero length
/// followed by anything.
pub open spec fn tail_canonical(t: Seq<u8>) -> bool {
    t.len() == 0 || (t.len() >= 4 && t.subrange(0, 4) == spec_u32_to_le_bytes(0))
}

pub proof fn lemma_rt_list_end(d: Seq<u8>, q: int)
    requires
        0 <= q <= d.len(),
        tail_canonical(d.subrange(q, d.len() as int)),
    ensures
        spec_property_at(d, q) == Ok::<(Option<PropertyModel>, int), GVASError>((None, q)),
{
    lemma_auto_spec_u32_to_from_le_bytes();
    if q < d.len() {
        assert(d.subrange(q, q + 4) =~= d.subrange(q, d.len() as int).subrange(0, 4));
        lemma_rt_i32(d, q, 0);
    }
}

#[verifier::rlimit(40)]
pub proof fn lemma_rt_props(d: Seq<u8>, p: int, ps: Seq<PropertyModel>)
    requires
        forall|i: int| 0 <= i < ps.len() ==> property_canonical(#[trigger] ps[i]),
        at(d, p, concat_map(ps, property_enc())),
        tail_canonical(d.subrange(p + concat_map(ps, property_enc()).len(), d.len() as int)),
    ensures
        spec_props_from(d, p) == Ok::<(Seq<PropertyModel>, int), GVASError>(
            (ps, p + concat_map(ps, property_enc()).len()),
        ),
    decreases ps.len(),
{
    if ps.len() == 0 {
        lemma_rt_list_end(d, p);
        assert(ps =~= Seq::<PropertyModel>::empty());
    } else {
        lemma_concat_map_front(ps, property_enc());
        let pr = ps[0];
        let rest = ps.drop_first();
        lemma_at_split(d, p, property_bytes(pr), concat_map(rest, property_enc()));
        assert(property_canonical(ps[0]));
        lemma_rt_property(d, p, pr);
        let q = p + property_bytes(pr).len();
        assert forall|i: int| 0 <= i < rest.len() implies property_canonical(#[trigger] rest[i]) by {
            assert(rest[i] == ps[i + 1]);
        }
        lemma_rt_props(d, q, rest);
        assert(seq![pr] + rest =~= ps);
    }
}

pub proof fn lemma_rt_engine(d: Seq<u8>, p: int, e: EngineVersionModel)
    requires
        ascii_text(e.build_id),
        at(d, p, engine_bytes(e)),
    ensures
        spec_engine_at(d, p) == Ok::<(EngineVersionModel, int), GVASError>(
            (e, p + engine_bytes(e).len()),
        ),
{
    let a = spec_u16_to_le_bytes(e.major);
    let b = spec_u16_to_le_bytes(e.minor);
    let c = spec_u16_to_le_bytes(e.patch);
    let x = spec_u32_to_le_bytes(e.build);
    lemma_auto_spec_u16_to_from_le_bytes();
    lemma_auto_spec_u32_to_from_le_bytes();
    lemma_at_split(d, p, a + b + c + x, string_bytes(e.build_id));
    lemma_at_split(d, p, a + b + c, x);
    lemma_at_split(d, p, a + b, c);
    lemma_at_split(d, p, a, b);
    lemma_rt_u16(d, p, e.major);
    lemma_rt_u16(d, p + 2, e.minor);
    lemma_rt_u16(d, p + 4, e.patch);
    lemma_rt_u32(d, p + 6, e.build);
    lemma_rt_string(d, p + 10, e.build_id);
}

pub proof fn lemma_rt_entries(d: Seq<u8>, p: int, xs: Seq<DataEntryModel>)
    requires
        forall|i: int| 0 <= i < xs.len() ==> (#[trigger] xs[i]).guid.len() == 16,
        at(d, p, concat_map(xs, entry_enc())),
    ensures
        spec_many(entry_reader(d), p, xs.len()) == Ok::<(Seq<DataEntryModel>, int), GVASError>(
            (xs, p + concat_map(xs, entry_enc()).len()),
        ),
{
    assert forall|q: int, i: int|
        0 <= i < xs.len() && #[trigger] at(d, q, entry_enc()(xs[i])) implies entry_reader(d)(q)
        == Ok::<(DataEntryModel, int), GVASError>((xs[i], q + entry_enc()(xs[i]).len())) by {
        let e = xs[i];
        lemma_at_split(d, q, e.guid, spec_u32_to_le_bytes(e.value));
        lemma_rt_take(d, q, e.guid);
        lemma_rt_u32(d, q + 16, e.value);
    }
    lemma_rt_many(d, p, xs, entry_reader(d), entry_enc());
}

/// A file that reads back as written: its strings are ASCII, its property
/// names non-empty, its counts fit, and its tail ends the property list.
pub open spec fn file_canonical(f: GVASFileModel) -> bool {
    &&& ascii_text(f.engine_version.build_id)
    &&& f.custom_format_data.len() <= u32::MAX
    &&& forall|i: int|
        0 <= i < f.custom_format_data.len() ==> (#[trigger] f.custom_format_data[i]).guid.len() == 16
    &&& ascii_text(f.save_game_type)
    &&& forall|i: int| 0 <= i < f.properties.len() ==> property_canonical(#[trigger] f.properties[i])
    &&& tail_canonical(f.tail)
}

/// Where the parts of a written file stand.
pub proof fn lemma_file_layout(f: GVASFileModel)
    requires
        f.custom_format_data.len() <= u32::MAX,
    ensures
        ({
            let d = file_bytes(f);
            let p4: int = 12 + engine_bytes(f.engine_version).len() as int;
            let p6: int = p4 + 8;
            let p7: int = p6 + concat_map(f.custom_format_data, entry_enc()).len();
            let p8: int = p7 + string_bytes(f.save_game_type).len();
            let p9: int = p8 + concat_map(f.properties, property_enc()).len();
            &&& at(d, 0, magic())
            &&& at(d, 4, spec_u32_to_le_bytes(f.save_game_version))
            &&& at(d, 8, spec_u32_to_le_bytes(f.package_version))
            &&& at(d, 12, engine_bytes(f.engine_version))
            &&& at(d, p4, spec_u32_to_le_bytes(f.custom_format_version))
            &&& at(d, p4 + 4, spec_u32_to_le_bytes(f.custom_format_data.len() as u32))
            &&& at(d, p6, concat_map(f.custom_format_data, entry_enc()))
            &&& at(d, p7, string_bytes(f.save_game_type))
            &&& at(d, p8, concat_map(f.properties, property_enc()))
            &&& p9 <= d.len()
            &&& d.subrange(p9, d.len() as int) == f.tail
        }),
{
    lemma_auto_spec_u32_to_from_le_bytes();
    let d = file_bytes(f);
    let x1 = spec_u32_to_le_bytes(f.save_game_version);
    let x2 = spec_u32_to_le_bytes(f.package_version);
    let eb = engine_bytes(f.engine_version);
    let x3 = spec_u32_to_le_bytes(f.custom_format_version);
    let x4 = spec_u32_to_le_bytes(f.custom_format_data.len() as u32);
    let ce = concat_map(f.custom_format_data, entry_enc());
    let st = string_bytes(f.save_game_type);
    let cp = concat_map(f.properties, property_enc());
    let h = magic() + x1 + x2 + eb + x3 + x4;
    assert(d == h + ce + st + cp + f.tail);
    assert(at(d, 0, d)) by {
        assert(d.subrange(0, d.len() as int) =~= d);
    }
    lemma_at_split(d, 0, h + ce + st + cp, f.tail);
    lemma_at_split(d, 0, h + ce + st, cp);
    lemma_at_split(d, 0, h + ce, st);
    lemma_at_split(d, 0, h, ce);
    lemma_at_split(d, 0, magic() + x1 + x2 + eb + x3, x4);
    lemma_at_split(d, 0, magic() + x1 + x2 + eb, x3);
    lemma_at_split(d, 0, magic() + x1 + x2, eb);
    lemma_at_split(d, 0, magic() + x1, x2);
    lemma_at_split(d, 0, magic(), x1);
}

/// Reading the bytes that the writer makes of a file gives the file back;
/// hence writing what was read from such bytes gives the same bytes.
#[verifier::rlimit(100)]
pub proof fn lemma_file_round_trip(f: GVASFileModel)
    requires
        file_canonical(f),
    ensures
        spec_file(file_bytes(f)) == Ok::<GVASFileModel, GVASError>(f),
        file_bytes(spec_file(file_bytes(f))->Ok_0) == file_bytes(f),
{
    let d = file_bytes(f);
    lemma_file_layout(f);
    let p4: int = 12 + engine_bytes(f.engine_version).len() as int;
    let p6: int = p4 + 8;
    let p7: int = p6 + concat_map(f.custom_format_data, entry_enc()).len();
    let p8: int = p7 + string_bytes(f.save_game_type).len();
    lemma_rt_take(d, 0, magic());
    lemma_rt_u32(d, 4, f.save_game_version);
    lemma_rt_u32(d, 8, f.package_version);
    lemma_rt_engine(d, 12, f.engine_version);
    lemma_rt_u32(d, p4, f.custom_format_version);
    lemma_rt_u32(d, p4 + 4, f.custom_format_data.len() as u32);
    lemma_rt_entries(d, p6, f.custom_format_data);
    lemma_rt_string(d, p7, f.save_game_type);
    lemma_rt_props(d, p8, f.properties);
}

} // verus!
