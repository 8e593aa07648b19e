//! The GVAS container: header, engine version, custom format table, save
//! type, the property list, and whatever bytes follow it.

use vstd::prelude::*;
use vstd::bytes::*;
use vstd::slice::{slice_subrange, slice_to_vec};
use vstd::string::StringExecFns;
use crate::error::GVASError;
use crate::seqs::{spec_many, prepend, lemma_many_step, lemma_many_start, concat_map, lemma_concat_map_push};
use crate::value::{Value, ValueModel, spec_value_at, value_bytes, value_fits, strings_model, texts_model};
use crate::text::{TextProperty, text_fits};
use crate::wire::{
    Parsed, outcome, spec_take, spec_u16_at, spec_u32_at, spec_string_at, string_bytes, fits_field,
    read_u16, read_u32, read_string, take, write_u8, write_u16, write_u32, write_string, push_all,
};

verus! {

/// The engine version that wrote the file.
#[derive(Debug, Clone, PartialEq)]
pub struct EngineVersion {
    pub major: u16,
    pub minor: u16,
    pub patch: u16,
    pub build: u32,
    pub build_id: String,
}

pub ghost struct EngineVersionModel {
    pub major: u16,
    pub minor: u16,
    pub patch: u16,
    pub build: u32,
    pub build_id: Seq<char>,
}

impl View for EngineVersion {
    type V = EngineVersionModel;

    open spec fn view(&self) -> EngineVersionModel {
        EngineVersionModel {
            major: self.major,
            minor: self.minor,
            patch: self.patch,
            build: self.build,
            build_id: self.build_id@,
        }
    }
}

pub open spec fn spec_engine_at(d: Seq<u8>, p: int) -> Parsed<EngineVersionModel> {
    match spec_u16_at(d, p) {
        Err(e) => Err(e),
        Ok((major, p1)) => match spec_u16_at(d, p1) {
            Err(e) => Err(e),
            Ok((minor, p2)) => match spec_u16_at(d, p2) {
                Err(e) => Err(e),
                Ok((patch, p3)) => match spec_u32_at(d, p3) {
                    Err(e) => Err(e),
                    Ok((build, p4)) => match spec_string_at(d, p4) {
                        Err(e) => Err(e),
                        Ok((build_id, p5)) => Ok(
                            (EngineVersionModel { major, minor, patch, build, build_id }, p5),
                        ),
                    },
                },
            },
        },
    }
}

pub open spec fn engine_bytes(e: EngineVersionModel) -> Seq<u8> {
    spec_u16_to_le_bytes(e.major) + spec_u16_to_le_bytes(e.minor) + spec_u16_to_le_bytes(e.patch)
        + spec_u32_to_le_bytes(e.build) + string_bytes(e.build_id)
}

impl EngineVersion {
    pub fn read(d: &[u8], pos: usize) -> (r: Result<(EngineVersion, usize), GVASError>)
        ensures
            outcome(r) == spec_engine_at(d@, pos as int),
    {
        let (major, p1) = read_u16(d, pos)?;
        let (minor, p2) = read_u16(d, p1)?;
        let (patch, p3) = read_u16(d, p2)?;
        let (build, p4) = read_u32(d, p3)?;
        let (build_id, p5) = read_string(d, p4)?;
        Ok((EngineVersion { major, minor, patch, build, build_id }, p5))
    }

    pub fn write(&self, out: &mut Vec<u8>)
        requires
            fits_field(self.build_id@),
        ensures
            final(out)@ == old(out)@ + engine_bytes(self@),
    {
        write_u16(out, self.major);
        write_u16(out, self.minor);
        write_u16(out, self.patch);
        write_u32(out, self.build);
        write_string(out, self.build_id.as_str());
        assert(out@ =~= old(out)@ + engine_bytes(self@));
    }
}

/// One entry of the custom format table: a GUID and a version.
#[derive(Debug, Clone, PartialEq)]
pub struct DataEntry {
    pub guid: [u8; 16],
    pub value: u32,
}

pub ghost struct DataEntryModel {
    pub guid: Seq<u8>,
    pub value: u32,
}

impl View for DataEntry {
    type V = DataEntryModel;

    open spec fn view(&self) -> DataEntryModel {
        DataEntryModel { guid: self.guid@, value: self.value }
    }
}

pub open spec fn spec_entry_at(d: Seq<u8>, p: int) -> Parsed<DataEntryModel> {
    match spec_take(d, p, 16) {
        Err(e) => Err(e),
        Ok((guid, p1)) => match spec_u32_at(d, p1) {
            Err(e) => Err(e),
            Ok((value, p2)) => Ok((DataEntryModel { guid, value }, p2)),
        },
    }
}

pub open spec fn entry_bytes(e: DataEntryModel) -> Seq<u8> {
    e.guid + spec_u32_to_le_bytes(e.value)
}

pub open spec fn entry_reader(d: Seq<u8>) -> spec_fn(int) -> Parsed<DataEntryModel> {
    |q: int| spec_entry_at(d, q)
}

pub open spec fn entry_enc() -> spec_fn(DataEntryModel) -> Seq<u8> {
    |e: DataEntryModel| entry_bytes(e)
}

impl DataEntry {
    pub fn read(d: &[u8], pos: usize) -> (r: Result<(DataEntry, usize), GVASError>)
        ensures
            outcome(r) == spec_entry_at(d@, pos as int),
    {
        let (b, p1) = take(d, pos, 16)?;
        let mut guid = [0u8; 16];
        let mut i: usize = 0;
        while i < 16
            invariant
                b@.len() == 16,
                0 <= i <= 16,
                forall|j: int| 0 <= j < i ==> guid@[j] == b@[j],
            decreases 16 - i,
        {
            guid[i] = b[i];
            i += 1;
        }
        assert(guid@ =~= b@);
        let (value, p2) = read_u32(d, p1)?;
        Ok((DataEntry { guid, value }, p2))
    }

    pub fn write(&self, out: &mut Vec<u8>)
        ensures
            final(out)@ == old(out)@ + entry_bytes(self@),
    {
        push_all(out, self.guid.as_slice());
        write_u32(out, self.value);
        assert(out@ =~= old(out)@ + entry_bytes(self@));
    }
}

/// A named value.
#[derive(Debug, Clone, PartialEq)]
pub struct Property {
    pub name: String,
    pub val: Value,
}

pub ghost struct PropertyModel {
    pub name: Seq<char>,
    pub val: ValueModel,
}

impl View for Property {
    type V = PropertyModel;

    open spec fn view(&self) -> PropertyModel {
        PropertyModel { name: self.name@, val: self.val@ }
    }
}

/// A property at `p`, or `None` where the list ends: at the end of the
/// input, or at an empty name. Any other short read is an error.
pub open spec fn spec_property_at(d: Seq<u8>, p: int) -> Parsed<Option<PropertyModel>> {
    if p == d.len() {
        Ok((None, p))
    } else {
        match spec_string_at(d, p) {
            Err(e) => Err(e),
            Ok((name, q)) => if name.len() == 0 {
                Ok((None, p))
            } else {
                match spec_value_at(d, q, name) {
                    Err(e) => Err(e),
                    Ok((val, r)) => Ok((Some(PropertyModel { name, val }), r)),
                }
            },
        }
    }
}

pub open spec fn opt_model(o: Option<Property>) -> Option<PropertyModel> {
    match o {
        Some(pr) => Some(pr@),
        None => None,
    }
}

pub open spec fn property_bytes(pr: PropertyModel) -> Seq<u8> {
    string_bytes(pr.name) + value_bytes(pr.val, pr.name)
}

pub open spec fn property_enc() -> spec_fn(PropertyModel) -> Seq<u8> {
    |pr: PropertyModel| property_bytes(pr)
}

pub open spec fn property_fits(pr: PropertyModel) -> bool {
    fits_field(pr.name) && value_fits(pr.val, pr.name)
}

impl Property {
    /// Reads a property, or `None` where the list ends: at the end of the
    /// input, or at an empty name.
    pub fn read(d: &[u8], pos: usize) -> (r: Result<(Option<Property>, usize), GVASError>)
        ensures
            match r {
                Ok((o, q)) => spec_property_at(d@, pos as int) == Ok::<(Option<PropertyModel>, int), GVASError>((opt_model(o), q as int)),
                Err(e) => spec_property_at(d@, pos as int) == Err::<(Option<PropertyModel>, int), GVASError>(e),
            },
    {
        if pos == d.len() {
            return Ok((None, pos));
        }
        let (name, q) = read_string(d, pos)?;
        if name.as_str().unicode_len() == 0 {
            return Ok((None, pos));
        }
        let (val, r) = Value::read(d, q, name.as_str())?;
        Ok((Some(Property { name, val }), r))
    }

    pub fn write(&self, out: &mut Vec<u8>)
        requires
            property_fits(self@),
        ensures
            final(out)@ == old(out)@ + property_bytes(self@),
    {
        write_string(out, self.name.as_str());
        self.val.write(out, self.name.as_str());
        assert(out@ =~= old(out)@ + property_bytes(self@));
    }
}

pub open spec fn props_model(v: Seq<Property>) -> Seq<PropertyModel> {
    v.map_values(|pr: Property| pr@)
}

/// The property list from `p` on, and the position where it ends. A
/// property that would not advance the position ends the input as
/// malformed.
pub open spec fn spec_props_from(d: Seq<u8>, p: int) -> Parsed<Seq<PropertyModel>>
    decreases d.len() - p,
{
    match spec_property_at(d, p) {
        Err(e) => Err(e),
        Ok((None, _)) => Ok((Seq::empty(), p)),
        Ok((Some(pr), q)) => if q <= p || q > d.len() {
            Err(GVASError::IOError)
        } else {
            match spec_props_from(d, q) {
                Err(e) => Err(e),
                Ok((rest, r)) => Ok((seq![pr] + rest, r)),
            }
        },
    }
}

/// The first index of a property named `name`, or -1.
pub open spec fn find_prop(ps: Seq<PropertyModel>, name: Seq<char>) -> int
    decreases ps.len(),
{
    if ps.len() == 0 {
        -1
    } else if find_prop(ps.drop_last(), name) >= 0 {
        find_prop(ps.drop_last(), name)
    } else if ps.last().name == name {
        ps.len() - 1
    } else {
        -1
    }
}

pub proof fn lemma_find_prop_range(ps: Seq<PropertyModel>, name: Seq<char>)
    ensures
        -1 <= find_prop(ps, name) < ps.len(),
        find_prop(ps, name) >= 0 ==> ps[find_prop(ps, name)].name == name,
        find_prop(ps, name) == -1 ==> forall|i: int| 0 <= i < ps.len() ==> #[trigger] ps[i].name != name,
    decreases ps.len(),
{
    if ps.len() > 0 {
        lemma_find_prop_range(ps.drop_last(), name);
        assert forall|i: int| 0 <= i < ps.len() - 1 implies #[trigger] ps[i] == ps.drop_last()[i] by {}
    }
}

/// Replaces the value of the first property named `name`, if there is one.
pub open spec fn replace_prop(ps: Seq<PropertyModel>, name: Seq<char>, v: ValueModel) -> Seq<PropertyModel> {
    if find_prop(ps, name) >= 0 {
        ps.update(find_prop(ps, name), PropertyModel { name, val: v })
    } else {
        ps
    }
}

pub proof fn lemma_find_prefix(ps: Seq<PropertyModel>, name: Seq<char>, k: int)
    requires
        0 <= k <= ps.len(),
        find_prop(ps.subrange(0, k), name) >= 0,
    ensures
        find_prop(ps, name) == find_prop(ps.subrange(0, k), name),
    decreases ps.len() - k,
{
    if k < ps.len() {
        assert(ps.subrange(0, k + 1).drop_last() =~= ps.subrange(0, k));
        lemma_find_prefix(ps, name, k + 1);
    } else {
        assert(ps.subrange(0, k) =~= ps);
    }
}

/// A whole save file.
#[derive(Debug, Clone, PartialEq)]
pub struct GVASFile {
    pub save_game_version: u32,
    pub package_version: u32,
    pub engine_version: EngineVersion,
    pub custom_format_version: u32,
    pub custom_format_data: Vec<DataEntry>,
    pub save_game_type: String,
    pub properties: Vec<Property>,
    /// The bytes after the property list, kept as they were read.
    pub tail: Vec<u8>,
}

pub ghost struct GVASFileModel {
    pub save_game_version: u32,
    pub package_version: u32,
    pub engine_version: EngineVersionModel,
    pub custom_format_version: u32,
    pub custom_format_data: Seq<DataEntryModel>,
    pub save_game_type: Seq<char>,
    pub properties: Seq<PropertyModel>,
    pub tail: Seq<u8>,
}

pub open spec fn entries_model(v: Seq<DataEntry>) -> Seq<DataEntryModel> {
    v.map_values(|e: DataEntry| e@)
}

impl View for GVASFile {
    type V = GVASFileModel;

    open spec fn view(&self) -> GVASFileModel {
        GVASFileModel {
            save_game_version: self.save_game_version,
            package_version: self.package_version,
            engine_version: self.engine_version@,
            custom_format_version: self.custom_format_version,
            custom_format_data: entries_model(self.custom_format_data@),
            save_game_type: self.save_game_type@,
            properties: props_model(self.properties@),
            tail: self.tail@,
        }
    }
}

/// The magic tag `GVAS`.
pub open spec fn magic() -> Seq<u8> {
    seq![71u8, 86u8, 65u8, 83u8]
}

/// What reading a whole file yields.
pub open spec fn spec_file(d: Seq<u8>) -> Result<GVASFileModel, GVASError> {
    match spec_take(d, 0, 4) {
        Err(e) => Err(e),
        Ok((m, p1)) => if m != magic() {
            Err(GVASError::BadMagic)
        } else {
            match spec_u32_at(d, p1) {
                Err(e) => Err(e),
                Ok((save_game_version, p2)) => match spec_u32_at(d, p2) {
                    Err(e) => Err(e),
                    Ok((package_version, p3)) => match spec_engine_at(d, p3) {
                        Err(e) => Err(e),
                        Ok((engine_version, p4)) => match spec_u32_at(d, p4) {
                            Err(e) => Err(e),
                            Ok((custom_format_version, p5)) => match spec_u32_at(d, p5) {
                                Err(e) => Err(e),
                                Ok((n, p6)) => match spec_many(entry_reader(d), p6, n as nat) {
                                    Err(e) => Err(e),
                                    Ok((custom_format_data, p7)) => match spec_string_at(d, p7) {
                                        Err(e) => Err(e),
                                        Ok((save_game_type, p8)) => match spec_props_from(d, p8) {
                                            Err(e) => Err(e),
                                            Ok((properties, p9)) => Ok(
                                                GVASFileModel {
                                                    save_game_version,
                                                    package_version,
                                                    engine_version,
                                                    custom_format_version,
                                                    custom_format_data,
                                                    save_game_type,
                                                    properties,
                                                    tail: d.subrange(p9, d.len() as int),
                                                },
                                            ),
                                        },
                                    },
                                },
                            },
                        },
                    },
                },
            }
        },
    }
}

/// The bytes that the writer emits for a file.
pub open spec fn file_bytes(f: GVASFileModel) -> Seq<u8> {
    magic() + spec_u32_to_le_bytes(f.save_game_version) + spec_u32_to_le_bytes(f.package_version)
        + engine_bytes(f.engine_version) + spec_u32_to_le_bytes(f.custom_format_version)
        + spec_u32_to_le_bytes(f.custom_format_data.len() as u32) + concat_map(
        f.custom_format_data,
        entry_enc(),
    ) + string_bytes(f.save_game_type) + concat_map(f.properties, property_enc()) + f.tail
}

/// Every count and string of the file fits its field.
pub open spec fn file_fits(f: GVASFileModel) -> bool {
    &&& fits_field(f.engine_version.build_id)
    &&& f.custom_format_data.len() <= u32::MAX
    &&& fits_field(f.save_game_type)
    &&& forall|i: int| 0 <= i < f.properties.len() ==> property_fits(#[trigger] f.properties[i])
}

pub proof fn lemma_string_in_bounds(d: Seq<u8>, p: int)
    ensures
        spec_string_at(d, p) is Ok ==> p < spec_string_at(d, p)->Ok_0.1 <= d.len(),
{
}

fn read_entries(d: &[u8], pos: usize, n: u32) -> (r: Result<(Vec<DataEntry>, usize), GVASError>)
    ensures
        match r {
            Ok((v, q)) => spec_many(entry_reader(d@), pos as int, n as nat) == Ok::<(Seq<DataEntryModel>, int), GVASError>((entries_model(v@), q as int)),
            Err(e) => spec_many(entry_reader(d@), pos as int, n as nat) == Err::<(Seq<DataEntryModel>, int), GVASError>(e),
        },
{
    let mut v: Vec<DataEntry> = Vec::new();
    let mut p = pos;
    let mut i: u32 = 0;
    proof { lemma_many_start(entry_reader(d@), pos as int, n as nat); }
    while i < n
        invariant
            i <= n,
            spec_many(entry_reader(d@), pos as int, n as nat) == prepend(
                entries_model(v@),
                spec_many(entry_reader(d@), p as int, (n - i) as nat),
            ),
        decreases n - i,
    {
        proof { lemma_many_step(entry_reader(d@), p as int, (n - i) as nat, entries_model(v@)); }
        let (x, q) = DataEntry::read(d, p)?;
        let ghost old_v = v@;
        v.push(x);
        assert(entries_model(v@) =~= entries_model(old_v).push(x@));
        p = q;
        i += 1;
    }
    assert(entries_model(v@) + Seq::<DataEntryModel>::empty() =~= entries_model(v@));
    Ok((v, p))
}

fn write_entries(out: &mut Vec<u8>, xs: &Vec<DataEntry>)
    ensures
        final(out)@ == old(out)@ + concat_map(entries_model(xs@), entry_enc()),
{
    let ghost m = entries_model(xs@);
    let mut i: usize = 0;
    while i < xs.len()
        invariant
            0 <= i <= xs@.len(),
            m == entries_model(xs@),
            out@ == old(out)@ + concat_map(m.subrange(0, i as int), entry_enc()),
        decreases xs@.len() - i,
    {
        proof { lemma_concat_map_push(m, entry_enc(), i as int); }
        xs[i].write(out);
        i += 1;
    }
    assert(m.subrange(0, m.len() as int) =~= m);
}

fn write_properties(out: &mut Vec<u8>, xs: &Vec<Property>)
    requires
        forall|i: int| 0 <= i < xs@.len() ==> property_fits(#[trigger] xs@[i]@),
    ensures
        final(out)@ == old(out)@ + concat_map(props_model(xs@), property_enc()),
{
    let ghost m = props_model(xs@);
    let mut i: usize = 0;
    while i < xs.len()
        invariant
            0 <= i <= xs@.len(),
            m == props_model(xs@),
            forall|i: int| 0 <= i < xs@.len() ==> property_fits(#[trigger] xs@[i]@),
            out@ == old(out)@ + concat_map(m.subrange(0, i as int), property_enc()),
        decreases xs@.len() - i,
    {
        proof { lemma_concat_map_push(m, property_enc(), i as int); }
        xs[i].write(out);
        i += 1;
    }
    assert(m.subrange(0, m.len() as int) =~= m);
}

/// The index of the first property named `name`.
fn find_index(ps: &Vec<Property>, name: &str) -> (r: Option<usize>)
    ensures
        match r {
            Some(i) => find_prop(props_model(ps@), name@) == i as int,
            None => find_prop(props_model(ps@), name@) == -1,
        },
{
    let ghost m = props_model(ps@);
    let mut i: usize = 0;
    while i < ps.len()
        invariant
            0 <= i <= ps@.len(),
            m == props_model(ps@),
            find_prop(m.subrange(0, i as int), name@) == -1,
        decreases ps@.len() - i,
    {
        assert(m.subrange(0, i as int + 1).drop_last() =~= m.subrange(0, i as int));
        if ps[i].name == <String as StringExecFns>::from_str(name) {
            proof { lemma_find_prefix(m, name@, i as int + 1); }
            return Some(i);
        }
        i += 1;
    }
    assert(m.subrange(0, m.len() as int) =~= m);
    None
}

/// Reads the property list from `pos` on.
fn read_properties(d: &[u8], pos: usize) -> (r: Result<(Vec<Property>, usize), GVASError>)
    requires
        pos <= d@.len(),
    ensures
        match r {
            Ok((v, q)) => q <= d@.len() && spec_props_from(d@, pos as int) == Ok::<(Seq<PropertyModel>, int), GVASError>((props_model(v@), q as int)),
            Err(e) => spec_props_from(d@, pos as int) == Err::<(Seq<PropertyModel>, int), GVASError>(e),
        },
{
    let mut properties: Vec<Property> = Vec::new();
    let mut p = pos;
    proof {
        match spec_props_from(d@, p as int) {
            Ok((ps, q)) => {
                assert(props_model(properties@) + ps =~= ps);
            },
            Err(_) => {},
        }
    }
    loop
        invariant
            p <= d@.len(),
            spec_props_from(d@, pos as int) == prepend(
                props_model(properties@),
                spec_props_from(d@, p as int),
            ),
        decreases d@.len() - p,
    {
        let (o, q) = Property::read(d, p)?;
        match o {
            None => {
                let ghost pm = props_model(properties@);
                assert(pm + Seq::<PropertyModel>::empty() =~= pm);
                return Ok((properties, p));
            },
            Some(pr) => {
                if q <= p || q > d.len() {
                    return Err(GVASError::IOError);
                }
                let ghost old_m = props_model(properties@);
                let ghost pm = pr@;
                properties.push(pr);
                assert(props_model(properties@) =~= old_m.push(pm));
                proof {
                    match spec_props_from(d@, q as int) {
                        Ok((rest, r)) => {
                            assert(old_m + (seq![pm] + rest) =~= old_m.push(pm) + rest);
                        },
                        Err(_) => {},
                    }
                }
                p = q;
            },
        }
    }
}

fn str_fits(s: &String) -> (r: bool)
    ensures
        r == fits_field(s@),
{
    s.as_str().as_bytes().len() < 0x7fff_ffff
}

fn text_fits_check(t: &TextProperty) -> (r: bool)
    ensures
        r == text_fits(t@),
{
    match t {
        TextProperty::Empty => true,
        TextProperty::Simple(s) => str_fits(s),
        TextProperty::FmtStr(a, b) => str_fits(a) && str_fits(b),
    }
}

fn value_fits_check(v: &Value, name: &String) -> (r: bool)
    ensures
        r == value_fits(v@, name@),
{
    match v {
        Value::Empty => true,
        Value::String(s) => str_fits(s),
        Value::BoolArray(xs) => xs.len() <= 0xffff_ffff,
        Value::Int32Array(xs) => xs.len() <= 0xffff_ffff,
        Value::FloatArray(xs) => xs.len() <= 0xffff_ffff,
        Value::VectorArray(xs) => xs.len() <= 0xffff_ffff && str_fits(name),
        Value::RotatorArray(xs) => xs.len() <= 0xffff_ffff && str_fits(name),
        Value::StringArray(xs) => {
            if xs.len() > 0xffff_ffff {
                return false;
            }
            let mut i: usize = 0;
            while i < xs.len()
                invariant
                    0 <= i <= xs@.len(),
                    v@ == ValueModel::StringArray(strings_model(xs@)),
                    forall|j: int| 0 <= j < i ==> fits_field(#[trigger] xs@[j]@),
                decreases xs@.len() - i,
            {
                if !str_fits(&xs[i]) {
                    assert(strings_model(xs@)[i as int] == xs@[i as int]@);
                    return false;
                }
                i += 1;
            }
            assert forall|j: int| 0 <= j < xs@.len() implies fits_field(#[trigger] strings_model(xs@)[j]) by {
                assert(strings_model(xs@)[j] == xs@[j]@);
            }
            true
        },
        Value::TextArray(xs) => {
            if xs.len() > 0xffff_ffff {
                return false;
            }
            let mut i: usize = 0;
            while i < xs.len()
                invariant
                    0 <= i <= xs@.len(),
                    v@ == ValueModel::TextArray(texts_model(xs@)),
                    forall|j: int| 0 <= j < i ==> text_fits(#[trigger] xs@[j]@),
                decreases xs@.len() - i,
            {
                if !text_fits_check(&xs[i]) {
                    assert(texts_model(xs@)[i as int] == xs@[i as int]@);
                    return false;
                }
                i += 1;
            }
            assert forall|j: int| 0 <= j < xs@.len() implies text_fits(#[trigger] texts_model(xs@)[j]) by {
                assert(texts_model(xs@)[j] == xs@[j]@);
            }
            true
        },
    }
}

impl GVASFile {
    /// Whether every count and string fits its field, so that the file can
    /// be written.
    pub fn encodable(&self) -> (r: bool)
        ensures
            r == file_fits(self@),
    {
        if !str_fits(&self.engine_version.build_id) || self.custom_format_data.len() > 0xffff_ffff
            || !str_fits(&self.save_game_type) {
            return false;
        }
        let mut i: usize = 0;
        while i < self.properties.len()
            invariant
                0 <= i <= self.properties@.len(),
                forall|j: int| 0 <= j < i ==> property_fits(#[trigger] self.properties@[j]@),
            decreases self.properties@.len() - i,
        {
            let pr = &self.properties[i];
            if !(str_fits(&pr.name) && value_fits_check(&pr.val, &pr.name)) {
                assert(self@.properties[i as int] == self.properties@[i as int]@);
                return false;
            }
            i += 1;
        }
        assert forall|j: int| 0 <= j < self@.properties.len() implies property_fits(
            #[trigger] self@.properties[j],
        ) by {
            assert(self@.properties[j] == self.properties@[j]@);
        }
        true
    }

    /// The bytes of the file, or `None` where a count or string does not
    /// fit its field.
    pub fn to_bytes(&self) -> (r: Option<Vec<u8>>)
        ensures
            match r {
                Some(b) => file_fits(self@) && b@ == file_bytes(self@),
                None => !file_fits(self@),
            },
    {
        if !self.encodable() {
            return None;
        }
        let mut out: Vec<u8> = Vec::new();
        self.write(&mut out);
        assert(out@ =~= file_bytes(self@));
        Some(out)
    }

    /// Reads a whole file. The property list runs to the end of the input or
    /// to an empty name; the bytes from that name on are kept as the tail.
    #[verifier::rlimit(80)]
    pub fn read(d: &[u8]) -> (r: Result<GVASFile, GVASError>)
        ensures
            match r {
                Ok(f) => spec_file(d@) == Ok::<GVASFileModel, GVASError>(f@),
                Err(e) => spec_file(d@) == Err::<GVASFileModel, GVASError>(e),
            },
    {
        let (m, p1) = take(d, 0, 4)?;
        if !(m[0] == 71 && m[1] == 86 && m[2] == 65 && m[3] == 83) {
            assert(m@ != magic()) by {
                if m@ == magic() {
                    assert(m@[0] == 71 && m@[1] == 86 && m@[2] == 65 && m@[3] == 83);
                }
            }
            return Err(GVASError::BadMagic);
        }
        assert(m@ =~= magic());
        let (save_game_version, p2) = read_u32(d, p1)?;
        let (package_version, p3) = read_u32(d, p2)?;
        let (engine_version, p4) = EngineVersion::read(d, p3)?;
        let (custom_format_version, p5) = read_u32(d, p4)?;
        let (n, p6) = read_u32(d, p5)?;
        let (custom_format_data, p7) = read_entries(d, p6, n)?;
        let (save_game_type, p8) = read_string(d, p7)?;
        proof { lemma_string_in_bounds(d@, p7 as int); }
        let (properties, p9) = read_properties(d, p8)?;
        let tail = slice_to_vec(slice_subrange(d, p9, d.len()));
        Ok(GVASFile {
            save_game_version,
            package_version,
            engine_version,
            custom_format_version,
            custom_format_data,
            save_game_type,
            properties,
            tail,
        })
    }

    /// Appends the whole file.
    #[verifier::rlimit(80)]
    pub fn write(&self, out: &mut Vec<u8>)
        requires
            file_fits(self@),
        ensures
            final(out)@ == old(out)@ + file_bytes(self@),
    {
        write_u8(out, 71);
        write_u8(out, 86);
        write_u8(out, 65);
        write_u8(out, 83);
        write_u32(out, self.save_game_version);
        write_u32(out, self.package_version);
        self.engine_version.write(out);
        write_u32(out, self.custom_format_version);
        write_u32(out, self.custom_format_data.len() as u32);
        write_entries(out, &self.custom_format_data);
        write_string(out, self.save_game_type.as_str());
        proof {
            assert forall|i: int| 0 <= i < self.properties@.len() implies property_fits(
                #[trigger] self.properties@[i]@,
            ) by {
                assert(props_model(self.properties@)[i] == self.properties@[i]@);
                assert(property_fits(self@.properties[i]));
            }
        }
        write_properties(out, &self.properties);
        push_all(out, self.tail.as_slice());
        assert(out@ =~= old(out)@ + file_bytes(self@));
    }

    /// The value of the first property named `name`.
    pub fn get_prop(&self, name: &'static str) -> (r: Result<&Value, GVASError>)
        ensures
            match r {
                Ok(v) => find_prop(self@.properties, name@) >= 0 && v@ == self@.properties[find_prop(
                    self@.properties,
                    name@,
                )].val,
                Err(e) => find_prop(self@.properties, name@) == -1 && e == GVASError::Missing(name),
            },
    {
        proof { lemma_find_prop_range(self@.properties, name@); }
        match find_index(&self.properties, name) {
            Some(i) => Ok(&self.properties[i].val),
            None => Err(GVASError::Missing(name)),
        }
    }

    /// Replaces the value of the first property named `name`.
    pub fn set_prop(&mut self, name: &'static str, v: Value) -> (r: Result<(), GVASError>)
        ensures
            match r {
                Ok(_) => find_prop(old(self)@.properties, name@) >= 0 && final(self)@ == GVASFileModel {
                    properties: replace_prop(old(self)@.properties, name@, v@),
                    ..old(self)@
                },
                Err(e) => find_prop(old(self)@.properties, name@) == -1 && e == GVASError::Missing(name)
                    && final(self)@ == old(self)@,
            },
    {
        proof { lemma_find_prop_range(self@.properties, name@); }
        match find_index(&self.properties, name) {
            Some(i) => {
                let ghost vm = v@;
                self.properties.set(i, Property { name: <String as StringExecFns>::from_str(name), val: v });
                assert(props_model(self.properties@) =~= replace_prop(old(self)@.properties, name@, vm));
                Ok(())
            },
            None => Err(GVASError::Missing(name)),
        }
    }
}

} // verus!
