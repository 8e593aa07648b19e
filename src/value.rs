//! Property values: a string, or a homogeneous array of booleans, integers,
//! floats, strings, texts, vectors or rotators, each with its own layout
//! inside the generic `ArrayProperty` wrapper.

use vstd::prelude::*;
use vstd::bytes::*;
use crate::error::GVASError;
use crate::seqs::{spec_many, prepend, lemma_many_step, lemma_many_start, concat_map, lemma_concat_map_push};
use crate::text::{TextProperty, TextModel, spec_text_at, text_bytes, text_fits};
use crate::wire::{
    Parsed, outcome, spec_take, spec_u8_at, spec_u32_at, spec_u64_at, spec_string_at, string_bytes,
    fits_field, lemma_ascii_text, is_named, read_u8, read_u32, read_u64, read_string, take,
    write_u8, write_u32, write_u64, write_string, push_all,
};

verus! {

/// Three 32-bit floats, each held as its IEEE-754 bit pattern.
pub type Triple = (u32, u32, u32);

/// The value of a property. Floats are held as their bit patterns, so that
/// what is read is written back bit for bit.
#[derive(Debug, Clone, PartialEq)]
pub enum Value {
    String(String),
    StringArray(Vec<String>),
    Int32Array(Vec<u32>),
    BoolArray(Vec<bool>),
    FloatArray(Vec<u32>),
    TextArray(Vec<TextProperty>),
    VectorArray(Vec<Triple>),
    RotatorArray(Vec<Triple>),
    /// The empty type name: no value.
    Empty,
}

/// The model of a [`Value`].
pub ghost enum ValueModel {
    Str(Seq<char>),
    StringArray(Seq<Seq<char>>),
    Int32Array(Seq<u32>),
    BoolArray(Seq<bool>),
    FloatArray(Seq<u32>),
    TextArray(Seq<TextModel>),
    VectorArray(Seq<Triple>),
    RotatorArray(Seq<Triple>),
    Empty,
}

pub open spec fn strings_model(v: Seq<String>) -> Seq<Seq<char>> {
    v.map_values(|s: String| s@)
}

pub open spec fn texts_model(v: Seq<TextProperty>) -> Seq<TextModel> {
    v.map_values(|t: TextProperty| t@)
}

impl View for Value {
    type V = ValueModel;

    open spec fn view(&self) -> ValueModel {
        match self {
            Value::String(s) => ValueModel::Str(s@),
            Value::StringArray(v) => ValueModel::StringArray(strings_model(v@)),
            Value::Int32Array(v) => ValueModel::Int32Array(v@),
            Value::BoolArray(v) => ValueModel::BoolArray(v@),
            Value::FloatArray(v) => ValueModel::FloatArray(v@),
            Value::TextArray(v) => ValueModel::TextArray(texts_model(v@)),
            Value::VectorArray(v) => ValueModel::VectorArray(v@),
            Value::RotatorArray(v) => ValueModel::RotatorArray(v@),
            Value::Empty => ValueModel::Empty,
        }
    }
}

// ---- element readers ----

pub open spec fn spec_bool_at(d: Seq<u8>, p: int) -> Parsed<bool> {
    match spec_u8_at(d, p) {
        Ok((b, q)) => Ok((b != 0, q)),
        Err(e) => Err(e),
    }
}

pub open spec fn spec_triple_at(d: Seq<u8>, p: int) -> Parsed<Triple> {
    match spec_u32_at(d, p) {
        Err(e) => Err(e),
        Ok((a, p1)) => match spec_u32_at(d, p1) {
            Err(e) => Err(e),
            Ok((b, p2)) => match spec_u32_at(d, p2) {
                Err(e) => Err(e),
                Ok((c, p3)) => Ok(((a, b, c), p3)),
            },
        },
    }
}

pub open spec fn u32_reader(d: Seq<u8>) -> spec_fn(int) -> Parsed<u32> {
    |q: int| spec_u32_at(d, q)
}

pub open spec fn bool_reader(d: Seq<u8>) -> spec_fn(int) -> Parsed<bool> {
    |q: int| spec_bool_at(d, q)
}

pub open spec fn triple_reader(d: Seq<u8>) -> spec_fn(int) -> Parsed<Triple> {
    |q: int| spec_triple_at(d, q)
}

pub open spec fn string_reader(d: Seq<u8>) -> spec_fn(int) -> Parsed<Seq<char>> {
    |q: int| spec_string_at(d, q)
}

pub open spec fn text_reader(d: Seq<u8>) -> spec_fn(int) -> Parsed<TextModel> {
    |q: int| spec_text_at(d, q)
}

fn read_triple(d: &[u8], pos: usize) -> (r: Result<(Triple, usize), GVASError>)
    ensures
        outcome(r) == spec_triple_at(d@, pos as int),
{
    let (a, p1) = read_u32(d, pos)?;
    let (b, p2) = read_u32(d, p1)?;
    let (c, p3) = read_u32(d, p2)?;
    Ok(((a, b, c), p3))
}

fn read_u32s(d: &[u8], pos: usize, n: u32) -> (r: Result<(Vec<u32>, usize), GVASError>)
    ensures
        outcome(r) == spec_many(u32_reader(d@), pos as int, n as nat),
{
    let mut v: Vec<u32> = Vec::new();
    let mut p = pos;
    let mut i: u32 = 0;
    proof { lemma_many_start(u32_reader(d@), pos as int, n as nat); }
    while i < n
        invariant
            i <= n,
            spec_many(u32_reader(d@), pos as int, n as nat) == prepend(
                v@,
                spec_many(u32_reader(d@), p as int, (n - i) as nat),
            ),
        decreases n - i,
    {
        proof { lemma_many_step(u32_reader(d@), p as int, (n - i) as nat, v@); }
        let (x, q) = read_u32(d, p)?;
        v.push(x);
        p = q;
        i += 1;
    }
    assert(v@ + Seq::<u32>::empty() =~= v@);
    Ok((v, p))
}

fn read_bools(d: &[u8], pos: usize, n: u32) -> (r: Result<(Vec<bool>, usize), GVASError>)
    ensures
        outcome(r) == spec_many(bool_reader(d@), pos as int, n as nat),
{
    let mut v: Vec<bool> = Vec::new();
    let mut p = pos;
    let mut i: u32 = 0;
    proof { lemma_many_start(bool_reader(d@), pos as int, n as nat); }
    while i < n
        invariant
            i <= n,
            spec_many(bool_reader(d@), pos as int, n as nat) == prepend(
                v@,
                spec_many(bool_reader(d@), p as int, (n - i) as nat),
            ),
        decreases n - i,
    {
        proof { lemma_many_step(bool_reader(d@), p as int, (n - i) as nat, v@); }
        let (x, q) = read_u8(d, p)?;
        v.push(x != 0);
        p = q;
        i += 1;
    }
    assert(v@ + Seq::<bool>::empty() =~= v@);
    Ok((v, p))
}

fn read_triples(d: &[u8], pos: usize, n: u32) -> (r: Result<(Vec<Triple>, usize), GVASError>)
    ensures
        outcome(r) == spec_many(triple_reader(d@), pos as int, n as nat),
{
    let mut v: Vec<Triple> = Vec::new();
    let mut p = pos;
    let mut i: u32 = 0;
    proof { lemma_many_start(triple_reader(d@), pos as int, n as nat); }
    while i < n
        invariant
            i <= n,
            spec_many(triple_reader(d@), pos as int, n as nat) == prepend(
                v@,
                spec_many(triple_reader(d@), p as int, (n - i) as nat),
            ),
        decreases n - i,
    {
        proof { lemma_many_step(triple_reader(d@), p as int, (n - i) as nat, v@); }
        let (x, q) = read_triple(d, p)?;
        v.push(x);
        p = q;
        i += 1;
    }
    assert(v@ + Seq::<Triple>::empty() =~= v@);
    Ok((v, p))
}

fn read_strings(d: &[u8], pos: usize, n: u32) -> (r: Result<(Vec<String>, usize), GVASError>)
    ensures
        match r {
            Ok((v, q)) => spec_many(string_reader(d@), pos as int, n as nat) == Ok::<(Seq<Seq<char>>, int), GVASError>((strings_model(v@), q as int)),
            Err(e) => spec_many(string_reader(d@), pos as int, n as nat) == Err::<(Seq<Seq<char>>, int), GVASError>(e),
        },
{
    let mut v: Vec<String> = Vec::new();
    let mut p = pos;
    let mut i: u32 = 0;
    proof { lemma_many_start(string_reader(d@), pos as int, n as nat); }
    while i < n
        invariant
            i <= n,
            spec_many(string_reader(d@), pos as int, n as nat) == prepend(
                strings_model(v@),
                spec_many(string_reader(d@), p as int, (n - i) as nat),
            ),
        decreases n - i,
    {
        proof { lemma_many_step(string_reader(d@), p as int, (n - i) as nat, strings_model(v@)); }
        let (x, q) = read_string(d, p)?;
        let ghost old_v = v@;
        v.push(x);
        assert(strings_model(v@) =~= strings_model(old_v).push(x@));
        p = q;
        i += 1;
    }
    assert(strings_model(v@) + Seq::<Seq<char>>::empty() =~= strings_model(v@));
    Ok((v, p))
}

fn read_texts(d: &[u8], pos: usize, n: u32) -> (r: Result<(Vec<TextProperty>, usize), GVASError>)
    ensures
        match r {
            Ok((v, q)) => spec_many(text_reader(d@), pos as int, n as nat) == Ok::<(Seq<TextModel>, int), GVASError>((texts_model(v@), q as int)),
            Err(e) => spec_many(text_reader(d@), pos as int, n as nat) == Err::<(Seq<TextModel>, int), GVASError>(e),
        },
{
    let mut v: Vec<TextProperty> = Vec::new();
    let mut p = pos;
    let mut i: u32 = 0;
    proof { lemma_many_start(text_reader(d@), pos as int, n as nat); }
    while i < n
        invariant
            i <= n,
            spec_many(text_reader(d@), pos as int, n as nat) == prepend(
                texts_model(v@),
                spec_many(text_reader(d@), p as int, (n - i) as nat),
            ),
        decreases n - i,
    {
        proof { lemma_many_step(text_reader(d@), p as int, (n - i) as nat, texts_model(v@)); }
        let (x, q) = TextProperty::read(d, p)?;
        let ghost old_v = v@;
        v.push(x);
        assert(texts_model(v@) =~= texts_model(old_v).push(x@));
        p = q;
        i += 1;
    }
    assert(texts_model(v@) + Seq::<TextModel>::empty() =~= texts_model(v@));
    Ok((v, p))
}

// ---- value readers ----

/// The flag byte (which must be zero) and the element count that open every
/// array body.
pub open spec fn spec_count_at(d: Seq<u8>, p: int) -> Parsed<u32> {
    match spec_u8_at(d, p) {
        Err(e) => Err(e),
        Ok((flag, q)) => if flag != 0 {
            Err(GVASError::UnsupportedFlag)
        } else {
            spec_u32_at(d, q)
        },
    }
}

/// Sixteen zero bytes.
pub open spec fn zero_guid() -> Seq<u8> {
    Seq::new(16, |i: int| 0u8)
}

/// An array of vectors or rotators, held in a struct wrapper that names the
/// property again.
pub open spec fn spec_struct_array_at(d: Seq<u8>, p: int, name: Seq<char>) -> Parsed<ValueModel> {
    match spec_count_at(d, p) {
        Err(e) => Err(e),
        Ok((n, p1)) => match spec_string_at(d, p1) {
            Err(e) => Err(e),
            Ok((pname, p2)) => if pname != name {
                Err(GVASError::NameMismatch)
            } else {
                match spec_string_at(d, p2) {
                    Err(e) => Err(e),
                    Ok((ty, p3)) => if ty != "StructProperty"@ {
                        Err(GVASError::UnsupportedFormat)
                    } else {
                        match spec_u64_at(d, p3) {
                            Err(e) => Err(e),
                            Ok((size, p4)) => match spec_string_at(d, p4) {
                                Err(e) => Err(e),
                                Ok((kind, p5)) => match spec_take(d, p5, 16) {
                                    Err(e) => Err(e),
                                    Ok((guid, p6)) => if guid != zero_guid() {
                                        Err(GVASError::UnsupportedGuid)
                                    } else {
                                        match spec_u8_at(d, p6) {
                                            Err(e) => Err(e),
                                            Ok((flag, p7)) => if flag != 0 {
                                                Err(GVASError::UnsupportedFlag)
                                            } else if kind != "Vector"@ && kind != "Rotator"@ {
                                                Err(GVASError::UnsupportedFormat)
                                            } else if size != n * 12 {
                                                Err(GVASError::UnsupportedFormat)
                                            } else {
                                                match spec_many(triple_reader(d), p7, n as nat) {
                                                    Err(e) => Err(e),
                                                    Ok((xs, p8)) => if kind == "Vector"@ {
                                                        Ok((ValueModel::VectorArray(xs), p8))
                                                    } else {
                                                        Ok((ValueModel::RotatorArray(xs), p8))
                                                    },
                                                }
                                            },
                                        }
                                    },
                                },
                            },
                        }
                    },
                }
            },
        },
    }
}

/// The body of an `ArrayProperty`: the declared length (not relied on),
/// the element type name, then the elements.
pub open spec fn spec_array_at(d: Seq<u8>, p: int, name: Seq<char>) -> Parsed<ValueModel> {
    match spec_u64_at(d, p) {
        Err(e) => Err(e),
        Ok((_len, p1)) => match spec_string_at(d, p1) {
            Err(e) => Err(e),
            Ok((ty, p2)) => if ty == "StructProperty"@ {
                spec_struct_array_at(d, p2, name)
            } else if ty == "BoolProperty"@ || ty == "IntProperty"@ || ty == "FloatProperty"@
                || ty == "StrProperty"@ || ty == "TextProperty"@ {
                match spec_count_at(d, p2) {
                    Err(e) => Err(e),
                    Ok((n, p3)) => if ty == "BoolProperty"@ {
                        match spec_many(bool_reader(d), p3, n as nat) {
                            Err(e) => Err(e),
                            Ok((xs, p4)) => Ok((ValueModel::BoolArray(xs), p4)),
                        }
                    } else if ty == "IntProperty"@ {
                        match spec_many(u32_reader(d), p3, n as nat) {
                            Err(e) => Err(e),
                            Ok((xs, p4)) => Ok((ValueModel::Int32Array(xs), p4)),
                        }
                    } else if ty == "FloatProperty"@ {
                        match spec_many(u32_reader(d), p3, n as nat) {
                            Err(e) => Err(e),
                            Ok((xs, p4)) => Ok((ValueModel::FloatArray(xs), p4)),
                        }
                    } else if ty == "StrProperty"@ {
                        match spec_many(string_reader(d), p3, n as nat) {
                            Err(e) => Err(e),
                            Ok((xs, p4)) => Ok((ValueModel::StringArray(xs), p4)),
                        }
                    } else {
                        match spec_many(text_reader(d), p3, n as nat) {
                            Err(e) => Err(e),
                            Ok((xs, p4)) => Ok((ValueModel::TextArray(xs), p4)),
                        }
                    },
                }
            } else {
                Err(GVASError::UnsupportedFormat)
            },
        },
    }
}

/// What reading the value of the property `name` at `p` yields: a type
/// name, then a string, an array, or nothing for the empty type name.
pub open spec fn spec_value_at(d: Seq<u8>, p: int, name: Seq<char>) -> Parsed<ValueModel> {
    match spec_string_at(d, p) {
        Err(e) => Err(e),
        Ok((ty, p1)) => if ty == "StrProperty"@ {
            match spec_u64_at(d, p1) {
                Err(e) => Err(e),
                Ok((_size, p2)) => match spec_u8_at(d, p2) {
                    Err(e) => Err(e),
                    Ok((flag, p3)) => if flag != 0 {
                        Err(GVASError::UnsupportedFlag)
                    } else {
                        match spec_string_at(d, p3) {
                            Err(e) => Err(e),
                            Ok((s, p4)) => Ok((ValueModel::Str(s), p4)),
                        }
                    },
                },
            }
        } else if ty == "ArrayProperty"@ {
            spec_array_at(d, p1, name)
        } else if ty.len() == 0 {
            Ok((ValueModel::Empty, p1))
        } else {
            Err(GVASError::UnsupportedFormat)
        },
    }
}

fn read_count(d: &[u8], pos: usize) -> (r: Result<(u32, usize), GVASError>)
    ensures
        outcome(r) == spec_count_at(d@, pos as int),
{
    let (flag, q) = read_u8(d, pos)?;
    if flag != 0 {
        return Err(GVASError::UnsupportedFlag);
    }
    read_u32(d, q)
}

fn is_zero_guid(b: &[u8]) -> (r: bool)
    requires
        b@.len() == 16,
    ensures
        r == (b@ == zero_guid()),
{
    let mut i: usize = 0;
    while i < 16
        invariant
            b@.len() == 16,
            0 <= i <= 16,
            forall|j: int| 0 <= j < i ==> b@[j] == 0,
        decreases 16 - i,
    {
        if b[i] != 0 {
            assert(b@[i as int] != zero_guid()[i as int]);
            return false;
        }
        i += 1;
    }
    assert(b@ =~= zero_guid());
    true
}

impl Value {
    /// Whether the value is one of the array kinds.
    pub fn is_array(&self) -> (r: bool)
        ensures
            r == !(self is String || self is Empty),
    {
        match self {
            Value::Empty | Value::String(_) => false,
            _ => true,
        }
    }

    /// Reads an array of vectors or rotators for the property `name`.
    #[verifier::rlimit(50)]
    pub fn read_struct_array(d: &[u8], pos: usize, name: &str) -> (r: Result<(Value, usize), GVASError>)
        ensures
            outcome(r) == spec_struct_array_at(d@, pos as int, name@),
    {
        let (n, p1) = read_count(d, pos)?;
        let (pname, p2) = read_string(d, p1)?;
        if pname != <String as vstd::string::StringExecFns>::from_str(name) {
            return Err(GVASError::NameMismatch);
        }
        let (ty, p3) = read_string(d, p2)?;
        if !is_named(&ty, "StructProperty") {
            return Err(GVASError::UnsupportedFormat);
        }
        let (size, p4) = read_u64(d, p3)?;
        let (kind, p5) = read_string(d, p4)?;
        let (guid, p6) = take(d, p5, 16)?;
        if !is_zero_guid(guid) {
            return Err(GVASError::UnsupportedGuid);
        }
        let (flag, p7) = read_u8(d, p6)?;
        if flag != 0 {
            return Err(GVASError::UnsupportedFlag);
        }
        let vector = is_named(&kind, "Vector");
        if !vector && !is_named(&kind, "Rotator") {
            return Err(GVASError::UnsupportedFormat);
        }
        if size != n as u64 * 12 {
            return Err(GVASError::UnsupportedFormat);
        }
        let (xs, p8) = read_triples(d, p7, n)?;
        if vector {
            Ok((Value::VectorArray(xs), p8))
        } else {
            Ok((Value::RotatorArray(xs), p8))
        }
    }

    /// Reads the body of an `ArrayProperty` for the property `name`.
    #[verifier::rlimit(50)]
    pub fn read_array(d: &[u8], pos: usize, name: &str) -> (r: Result<(Value, usize), GVASError>)
        ensures
            outcome(r) == spec_array_at(d@, pos as int, name@),
    {
        let (_len, p1) = read_u64(d, pos)?;
        let (ty, p2) = read_string(d, p1)?;
        if is_named(&ty, "StructProperty") {
            return Value::read_struct_array(d, p2, name);
        }
        let is_bool = is_named(&ty, "BoolProperty");
        let is_int = is_named(&ty, "IntProperty");
        let is_float = is_named(&ty, "FloatProperty");
        let is_str = is_named(&ty, "StrProperty");
        let is_text = is_named(&ty, "TextProperty");
        if !(is_bool || is_int || is_float || is_str || is_text) {
            return Err(GVASError::UnsupportedFormat);
        }
        let (n, p3) = read_count(d, p2)?;
        if is_bool {
            let (xs, p4) = read_bools(d, p3, n)?;
            Ok((Value::BoolArray(xs), p4))
        } else if is_int {
            let (xs, p4) = read_u32s(d, p3, n)?;
            Ok((Value::Int32Array(xs), p4))
        } else if is_float {
            let (xs, p4) = read_u32s(d, p3, n)?;
            Ok((Value::FloatArray(xs), p4))
        } else if is_str {
            let (xs, p4) = read_strings(d, p3, n)?;
            Ok((Value::StringArray(xs), p4))
        } else {
            let (xs, p4) = read_texts(d, p3, n)?;
            Ok((Value::TextArray(xs), p4))
        }
    }

    /// Reads the value of the property `name` at `pos`.
    pub fn read(d: &[u8], pos: usize, name: &str) -> (r: Result<(Value, usize), GVASError>)
        ensures
            outcome(r) == spec_value_at(d@, pos as int, name@),
    {
        let (ty, p1) = read_string(d, pos)?;
        if is_named(&ty, "StrProperty") {
            let (_size, p2) = read_u64(d, p1)?;
            let (flag, p3) = read_u8(d, p2)?;
            if flag != 0 {
                return Err(GVASError::UnsupportedFlag);
            }
            let (s, p4) = read_string(d, p3)?;
            Ok((Value::String(s), p4))
        } else if is_named(&ty, "ArrayProperty") {
            Value::read_array(d, p1, name)
        } else if ty.as_str().unicode_len() == 0 {
            Ok((Value::Empty, p1))
        } else {
            Err(GVASError::UnsupportedFormat)
        }
    }
}

// ---- writers ----

pub open spec fn u32_enc() -> spec_fn(u32) -> Seq<u8> {
    |x: u32| spec_u32_to_le_bytes(x)
}

pub open spec fn bool_enc() -> spec_fn(bool) -> Seq<u8> {
    |b: bool| if b { seq![1u8] } else { seq![0u8] }
}

pub open spec fn triple_bytes(t: Triple) -> Seq<u8> {
    spec_u32_to_le_bytes(t.0) + spec_u32_to_le_bytes(t.1) + spec_u32_to_le_bytes(t.2)
}

pub open spec fn triple_enc() -> spec_fn(Triple) -> Seq<u8> {
    |t: Triple| triple_bytes(t)
}

pub open spec fn string_enc() -> spec_fn(Seq<char>) -> Seq<u8> {
    |s: Seq<char>| string_bytes(s)
}

pub open spec fn text_enc() -> spec_fn(TextModel) -> Seq<u8> {
    |t: TextModel| text_bytes(t)
}

/// The element type name that an array value is written with.
pub open spec fn inner_type(v: ValueModel) -> Seq<char> {
    match v {
        ValueModel::BoolArray(_) => "BoolProperty"@,
        ValueModel::Int32Array(_) => "IntProperty"@,
        ValueModel::FloatArray(_) => "FloatProperty"@,
        ValueModel::StringArray(_) => "StrProperty"@,
        ValueModel::TextArray(_) => "TextProperty"@,
        ValueModel::VectorArray(_) => "StructProperty"@,
        ValueModel::RotatorArray(_) => "StructProperty"@,
        _ => Seq::empty(),
    }
}

/// The struct wrapper of a vector or rotator array: count, property name,
/// `StructProperty`, the size of the elements, the struct kind, a zero GUID
/// and flag, then the elements.
pub open spec fn struct_body(xs: Seq<Triple>, name: Seq<char>, kind: Seq<char>) -> Seq<u8> {
    spec_u32_to_le_bytes(xs.len() as u32) + string_bytes(name) + string_bytes("StructProperty"@)
        + spec_u64_to_le_bytes((xs.len() * 12) as u64) + string_bytes(kind) + Seq::new(
        17,
        |i: int| 0u8,
    ) + concat_map(xs, triple_enc())
}

/// The bytes after an array's flag byte; their number is the array's
/// declared length.
pub open spec fn array_body(v: ValueModel, name: Seq<char>) -> Seq<u8> {
    match v {
        ValueModel::BoolArray(xs) => spec_u32_to_le_bytes(xs.len() as u32) + concat_map(xs, bool_enc()),
        ValueModel::Int32Array(xs) => spec_u32_to_le_bytes(xs.len() as u32) + concat_map(xs, u32_enc()),
        ValueModel::FloatArray(xs) => spec_u32_to_le_bytes(xs.len() as u32) + concat_map(xs, u32_enc()),
        ValueModel::StringArray(xs) => spec_u32_to_le_bytes(xs.len() as u32) + concat_map(
            xs,
            string_enc(),
        ),
        ValueModel::TextArray(xs) => spec_u32_to_le_bytes(xs.len() as u32) + concat_map(xs, text_enc()),
        ValueModel::VectorArray(xs) => struct_body(xs, name, "Vector"@),
        ValueModel::RotatorArray(xs) => struct_body(xs, name, "Rotator"@),
        _ => Seq::empty(),
    }
}

/// An array's element type name, flag byte and body.
pub open spec fn array_payload(v: ValueModel, name: Seq<char>) -> Seq<u8> {
    string_bytes(inner_type(v)) + seq![0u8] + array_body(v, name)
}

/// The bytes that the writer emits for the value of the property `name`.
pub open spec fn value_bytes(v: ValueModel, name: Seq<char>) -> Seq<u8> {
    match v {
        ValueModel::Empty => spec_u32_to_le_bytes(0),
        ValueModel::Str(s) => string_bytes("StrProperty"@) + spec_u64_to_le_bytes(
            string_bytes(s).len() as u64,
        ) + seq![0u8] + string_bytes(s),
        _ => string_bytes("ArrayProperty"@) + spec_u64_to_le_bytes(array_body(v, name).len() as u64)
            + array_payload(v, name),
    }
}

/// Every count and string of the value fits its field.
pub open spec fn value_fits(v: ValueModel, name: Seq<char>) -> bool {
    match v {
        ValueModel::Empty => true,
        ValueModel::Str(s) => fits_field(s),
        ValueModel::BoolArray(xs) => xs.len() <= u32::MAX,
        ValueModel::Int32Array(xs) => xs.len() <= u32::MAX,
        ValueModel::FloatArray(xs) => xs.len() <= u32::MAX,
        ValueModel::StringArray(xs) => xs.len() <= u32::MAX && forall|i: int|
            0 <= i < xs.len() ==> fits_field(#[trigger] xs[i]),
        ValueModel::TextArray(xs) => xs.len() <= u32::MAX && forall|i: int|
            0 <= i < xs.len() ==> text_fits(#[trigger] xs[i]),
        ValueModel::VectorArray(xs) => xs.len() <= u32::MAX && fits_field(name),
        ValueModel::RotatorArray(xs) => xs.len() <= u32::MAX && fits_field(name),
    }
}

fn write_u32s(out: &mut Vec<u8>, xs: &Vec<u32>)
    ensures
        final(out)@ == old(out)@ + concat_map(xs@, u32_enc()),
{
    let mut i: usize = 0;
    while i < xs.len()
        invariant
            0 <= i <= xs@.len(),
            out@ == old(out)@ + concat_map(xs@.subrange(0, i as int), u32_enc()),
        decreases xs@.len() - i,
    {
        proof { lemma_concat_map_push(xs@, u32_enc(), i as int); }
        write_u32(out, xs[i]);
        i += 1;
    }
    assert(xs@.subrange(0, xs@.len() as int) =~= xs@);
}

fn write_bools(out: &mut Vec<u8>, xs: &Vec<bool>)
    ensures
        final(out)@ == old(out)@ + concat_map(xs@, bool_enc()),
{
    let mut i: usize = 0;
    while i < xs.len()
        invariant
            0 <= i <= xs@.len(),
            out@ == old(out)@ + concat_map(xs@.subrange(0, i as int), bool_enc()),
        decreases xs@.len() - i,
    {
        proof { lemma_concat_map_push(xs@, bool_enc(), i as int); }
        write_u8(out, if xs[i] { 1u8 } else { 0u8 });
        i += 1;
    }
    assert(xs@.subrange(0, xs@.len() as int) =~= xs@);
}

fn write_triples(out: &mut Vec<u8>, xs: &Vec<Triple>)
    ensures
        final(out)@ == old(out)@ + concat_map(xs@, triple_enc()),
{
    let mut i: usize = 0;
    while i < xs.len()
        invariant
            0 <= i <= xs@.len(),
            out@ == old(out)@ + concat_map(xs@.subrange(0, i as int), triple_enc()),
        decreases xs@.len() - i,
    {
        proof { lemma_concat_map_push(xs@, triple_enc(), i as int); }
        let (a, b, c) = xs[i];
        write_u32(out, a);
        write_u32(out, b);
        write_u32(out, c);
        i += 1;
    }
    assert(xs@.subrange(0, xs@.len() as int) =~= xs@);
}

fn write_strings(out: &mut Vec<u8>, xs: &Vec<String>)
    requires
        forall|i: int| 0 <= i < xs@.len() ==> fits_field(#[trigger] xs@[i]@),
    ensures
        final(out)@ == old(out)@ + concat_map(strings_model(xs@), string_enc()),
{
    let ghost m = strings_model(xs@);
    let mut i: usize = 0;
    while i < xs.len()
        invariant
            0 <= i <= xs@.len(),
            m == strings_model(xs@),
            forall|i: int| 0 <= i < xs@.len() ==> fits_field(#[trigger] xs@[i]@),
            out@ == old(out)@ + concat_map(m.subrange(0, i as int), string_enc()),
        decreases xs@.len() - i,
    {
        proof { lemma_concat_map_push(m, string_enc(), i as int); }
        write_string(out, xs[i].as_str());
        i += 1;
    }
    assert(m.subrange(0, m.len() as int) =~= m);
}

fn write_texts(out: &mut Vec<u8>, xs: &Vec<TextProperty>)
    requires
        forall|i: int| 0 <= i < xs@.len() ==> text_fits(#[trigger] xs@[i]@),
    ensures
        final(out)@ == old(out)@ + concat_map(texts_model(xs@), text_enc()),
{
    let ghost m = texts_model(xs@);
    let mut i: usize = 0;
    while i < xs.len()
        invariant
            0 <= i <= xs@.len(),
            m == texts_model(xs@),
            forall|i: int| 0 <= i < xs@.len() ==> text_fits(#[trigger] xs@[i]@),
            out@ == old(out)@ + concat_map(m.subrange(0, i as int), text_enc()),
        decreases xs@.len() - i,
    {
        proof { lemma_concat_map_push(m, text_enc(), i as int); }
        xs[i].write(out);
        i += 1;
    }
    assert(m.subrange(0, m.len() as int) =~= m);
}

impl Value {
    /// Appends `BoolProperty`, the flag and the body of a boolean array;
    /// returns the body's length.
    pub fn write_bool_array(out: &mut Vec<u8>, arr: &Vec<bool>) -> (r: u64)
        requires
            arr@.len() <= u32::MAX,
        ensures
            final(out)@ == old(out)@ + array_payload(ValueModel::BoolArray(arr@), Seq::empty()),
            r == array_body(ValueModel::BoolArray(arr@), Seq::empty()).len(),
    {
        proof {
            reveal_strlit("BoolProperty");
            lemma_ascii_text("BoolProperty"@);
        }
        write_string(out, "BoolProperty");
        write_u8(out, 0);
        let start = out.len();
        write_u32(out, arr.len() as u32);
        write_bools(out, arr);
        let ghost v = ValueModel::BoolArray(arr@);
        assert(out@ =~= old(out)@ + array_payload(v, Seq::empty()));
        (out.len() - start) as u64
    }

    /// Appends `FloatProperty`, the flag and the body of a float array;
    /// returns the body's length.
    pub fn write_float_array(out: &mut Vec<u8>, arr: &Vec<u32>) -> (r: u64)
        requires
            arr@.len() <= u32::MAX,
        ensures
            final(out)@ == old(out)@ + array_payload(ValueModel::FloatArray(arr@), Seq::empty()),
            r == array_body(ValueModel::FloatArray(arr@), Seq::empty()).len(),
    {
        proof {
            reveal_strlit("FloatProperty");
            lemma_ascii_text("FloatProperty"@);
        }
        write_string(out, "FloatProperty");
        write_u8(out, 0);
        let start = out.len();
        write_u32(out, arr.len() as u32);
        write_u32s(out, arr);
        let ghost v = ValueModel::FloatArray(arr@);
        assert(out@ =~= old(out)@ + array_payload(v, Seq::empty()));
        (out.len() - start) as u64
    }

    /// Appends `IntProperty`, the flag and the body of an integer array;
    /// returns the body's length.
    pub fn write_int_array(out: &mut Vec<u8>, arr: &Vec<u32>) -> (r: u64)
        requires
            arr@.len() <= u32::MAX,
        ensures
            final(out)@ == old(out)@ + array_payload(ValueModel::Int32Array(arr@), Seq::empty()),
            r == array_body(ValueModel::Int32Array(arr@), Seq::empty()).len(),
    {
        proof {
            reveal_strlit("IntProperty");
            lemma_ascii_text("IntProperty"@);
        }
        write_string(out, "IntProperty");
        write_u8(out, 0);
        let start = out.len();
        write_u32(out, arr.len() as u32);
        write_u32s(out, arr);
        let ghost v = ValueModel::Int32Array(arr@);
        assert(out@ =~= old(out)@ + array_payload(v, Seq::empty()));
        (out.len() - start) as u64
    }

    /// Appends `StrProperty`, the flag and the body of a string array;
    /// returns the body's length.
    pub fn write_str_array(out: &mut Vec<u8>, arr: &Vec<String>) -> (r: u64)
        requires
            value_fits(ValueModel::StringArray(strings_model(arr@)), Seq::empty()),
        ensures
            final(out)@ == old(out)@ + array_payload(
                ValueModel::StringArray(strings_model(arr@)),
                Seq::empty(),
            ),
            r == array_body(ValueModel::StringArray(strings_model(arr@)), Seq::empty()).len(),
    {
        proof {
            reveal_strlit("StrProperty");
            lemma_ascii_text("StrProperty"@);
            assert forall|i: int| 0 <= i < arr@.len() implies fits_field(#[trigger] arr@[i]@) by {
                assert(strings_model(arr@)[i] == arr@[i]@);
            }
        }
        write_string(out, "StrProperty");
        write_u8(out, 0);
        let start = out.len();
        write_u32(out, arr.len() as u32);
        write_strings(out, arr);
        let ghost v = ValueModel::StringArray(strings_model(arr@));
        assert(out@ =~= old(out)@ + array_payload(v, Seq::empty()));
        (out.len() - start) as u64
    }

    /// Appends `TextProperty`, the flag and the body of a text array;
    /// returns the body's length.
    pub fn write_text_array(out: &mut Vec<u8>, arr: &Vec<TextProperty>) -> (r: u64)
        requires
            value_fits(ValueModel::TextArray(texts_model(arr@)), Seq::empty()),
        ensures
            final(out)@ == old(out)@ + array_payload(
                ValueModel::TextArray(texts_model(arr@)),
                Seq::empty(),
            ),
            r == array_body(ValueModel::TextArray(texts_model(arr@)), Seq::empty()).len(),
    {
        proof {
            reveal_strlit("TextProperty");
            lemma_ascii_text("TextProperty"@);
            assert forall|i: int| 0 <= i < arr@.len() implies text_fits(#[trigger] arr@[i]@) by {
                assert(texts_model(arr@)[i] == arr@[i]@);
            }
        }
        write_string(out, "TextProperty");
        write_u8(out, 0);
        let start = out.len();
        write_u32(out, arr.len() as u32);
        write_texts(out, arr);
        let ghost v = ValueModel::TextArray(texts_model(arr@));
        assert(out@ =~= old(out)@ + array_payload(v, Seq::empty()));
        (out.len() - start) as u64
    }

    /// Appends `StructProperty`, the flag and the struct wrapper of a vector
    /// (`kind` "Vector") or rotator (`kind` "Rotator") array of the property
    /// `name`; returns the body's length.
    pub fn write_struct_array(out: &mut Vec<u8>, arr: &Vec<Triple>, name: &str, kind: &str) -> (r: u64)
        requires
            arr@.len() <= u32::MAX,
            fits_field(name@),
            kind@ == "Vector"@ || kind@ == "Rotator"@,
        ensures
            final(out)@ == old(out)@ + string_bytes("StructProperty"@) + seq![0u8] + struct_body(
                arr@,
                name@,
                kind@,
            ),
            r == struct_body(arr@, name@, kind@).len(),
    {
        proof {
            reveal_strlit("StructProperty");
            reveal_strlit("Vector");
            reveal_strlit("Rotator");
            lemma_ascii_text("StructProperty"@);
            lemma_ascii_text("Vector"@);
            lemma_ascii_text("Rotator"@);
        }
        write_string(out, "StructProperty");
        write_u8(out, 0);
        let start = out.len();
        let n = arr.len() as u32;
        write_u32(out, n);
        write_string(out, name);
        write_string(out, "StructProperty");
        write_u64(out, n as u64 * 12);
        write_string(out, kind);
        let mut k: usize = 0;
        while k < 17
            invariant
                0 <= k <= 17,
                out@ == old(out)@ + string_bytes("StructProperty"@) + seq![0u8]
                    + spec_u32_to_le_bytes(n) + string_bytes(name@) + string_bytes(
                    "StructProperty"@,
                ) + spec_u64_to_le_bytes((n * 12) as u64) + string_bytes(kind@) + Seq::new(
                    k as nat,
                    |i: int| 0u8,
                ),
            decreases 17 - k,
        {
            write_u8(out, 0);
            k += 1;
            assert(Seq::new((k - 1) as nat, |i: int| 0u8).push(0u8) =~= Seq::new(k as nat, |i: int| 0u8));
        }
        write_triples(out, arr);
        assert(out@ =~= old(out)@ + string_bytes("StructProperty"@) + seq![0u8] + struct_body(
            arr@,
            name@,
            kind@,
        ));
        (out.len() - start) as u64
    }

    /// Appends the value of the property `name`. An array is written with
    /// the length of its body, which is measured, not stored.
    #[verifier::rlimit(50)]
    pub fn write(&self, out: &mut Vec<u8>, name: &str)
        requires
            value_fits(self@, name@),
        ensures
            final(out)@ == old(out)@ + value_bytes(self@, name@),
    {
        proof {
            reveal_strlit("StrProperty");
            reveal_strlit("ArrayProperty");
            reveal_strlit("Vector");
            reveal_strlit("Rotator");
            lemma_ascii_text("StrProperty"@);
            lemma_ascii_text("ArrayProperty"@);
        }
        match self {
            Value::Empty => {
                write_u32(out, 0);
            },
            Value::String(s) => {
                write_string(out, "StrProperty");
                let mut body: Vec<u8> = Vec::new();
                write_string(&mut body, s.as_str());
                write_u64(out, body.len() as u64);
                write_u8(out, 0);
                push_all(out, body.as_slice());
                assert(body@ =~= string_bytes(s@));
                assert(out@ =~= old(out)@ + value_bytes(self@, name@));
            },
            _ => {
                write_string(out, "ArrayProperty");
                let mut payload: Vec<u8> = Vec::new();
                let len = match self {
                    Value::StringArray(arr) => Value::write_str_array(&mut payload, arr),
                    Value::Int32Array(arr) => Value::write_int_array(&mut payload, arr),
                    Value::FloatArray(arr) => Value::write_float_array(&mut payload, arr),
                    Value::BoolArray(arr) => Value::write_bool_array(&mut payload, arr),
                    Value::VectorArray(arr) => Value::write_struct_array(&mut payload, arr, name, "Vector"),
                    Value::RotatorArray(arr) => Value::write_struct_array(&mut payload, arr, name, "Rotator"),
                    Value::TextArray(arr) => Value::write_text_array(&mut payload, arr),
                    Value::Empty | Value::String(_) => 0,
                };
                assert(payload@ =~= array_payload(self@, name@));
                write_u64(out, len);
                push_all(out, payload.as_slice());
                assert(out@ =~= old(out)@ + value_bytes(self@, name@));
            },
        }
    }
}

} // verus!
