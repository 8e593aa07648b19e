//! The track layout of a railroad save: curves kept in eight parallel
//! array properties, read out as records and rebuilt from records.

use vstd::prelude::*;
use vstd::slice::{slice_subrange, slice_to_vec};
use crate::error::GVASError;
use crate::file::{GVASFile, GVASFileModel, PropertyModel, find_prop, replace_prop, file_fits, spec_file, lemma_find_prop_range};
use crate::value::{Triple, Value, ValueModel};
use crate::file::file_bytes;
use crate::roundtrip::{file_canonical, property_canonical, value_canonical, lemma_file_round_trip};

verus! {

/// The kind of track element a curve stands for.
#[derive(Debug, Clone, Copy, PartialEq, Eq, Structural)]
pub enum SplineType {
    Track,
    TrackBed,
    WoodBridge,
    SteelBridge,
    GroundWork,
    ConstGroundWork,
    StoneGroundWork,
    ConstStoneGroundWork,
}

/// The code that the file uses for a spline type.
pub open spec fn spline_code(t: SplineType) -> u32 {
    match t {
        SplineType::Track => 0,
        SplineType::GroundWork => 1,
        SplineType::ConstGroundWork => 2,
        SplineType::WoodBridge => 3,
        SplineType::TrackBed => 4,
        SplineType::StoneGroundWork => 5,
        SplineType::ConstStoneGroundWork => 6,
        SplineType::SteelBridge => 7,
    }
}

/// The spline type with a code, if any.
pub open spec fn spline_of(c: u32) -> Option<SplineType> {
    if c == 0 {
        Some(SplineType::Track)
    } else if c == 1 {
        Some(SplineType::GroundWork)
    } else if c == 2 {
        Some(SplineType::ConstGroundWork)
    } else if c == 3 {
        Some(SplineType::WoodBridge)
    } else if c == 4 {
        Some(SplineType::TrackBed)
    } else if c == 5 {
        Some(SplineType::StoneGroundWork)
    } else if c == 6 {
        Some(SplineType::ConstStoneGroundWork)
    } else if c == 7 {
        Some(SplineType::SteelBridge)
    } else {
        None
    }
}

impl SplineType {
    /// The code of this spline type.
    pub fn code(&self) -> (r: u32)
        ensures
            r == spline_code(*self),
    {
        match self {
            SplineType::Track => 0,
            SplineType::GroundWork => 1,
            SplineType::ConstGroundWork => 2,
            SplineType::WoodBridge => 3,
            SplineType::TrackBed => 4,
            SplineType::StoneGroundWork => 5,
            SplineType::ConstStoneGroundWork => 6,
            SplineType::SteelBridge => 7,
        }
    }

    /// The spline type with code `c`, if there is one.
    pub fn from_code(c: u32) -> (r: Option<SplineType>)
        ensures
            r == spline_of(c),
    {
        match c {
            0 => Some(SplineType::Track),
            1 => Some(SplineType::GroundWork),
            2 => Some(SplineType::ConstGroundWork),
            3 => Some(SplineType::WoodBridge),
            4 => Some(SplineType::TrackBed),
            5 => Some(SplineType::StoneGroundWork),
            6 => Some(SplineType::ConstStoneGroundWork),
            7 => Some(SplineType::SteelBridge),
            _ => None,
        }
    }
}

/// Every code maps back to the spline type it came from.
pub proof fn lemma_spline_code(t: SplineType)
    ensures
        spline_of(spline_code(t)) == Some(t),
{
}

/// One curve: where it sits, what it is, its control points, and whether
/// each segment between two consecutive points is shown. A curve has at
/// least two control points and one visibility flag per segment.
#[derive(Debug, PartialEq)]
pub struct CurveData {
    pub location: Triple,
    pub ty: SplineType,
    pub control_points: Vec<Triple>,
    pub visibility: Vec<bool>,
}

/// Curves handed in to be written have the same shape as those read out.
pub type CurveDataOwned = CurveData;

pub ghost struct CurveModel {
    pub location: Triple,
    pub ty: SplineType,
    pub control_points: Seq<Triple>,
    pub visibility: Seq<bool>,
}

impl View for CurveData {
    type V = CurveModel;

    open spec fn view(&self) -> CurveModel {
        CurveModel {
            location: self.location,
            ty: self.ty,
            control_points: self.control_points@,
            visibility: self.visibility@,
        }
    }
}

pub open spec fn curves_model(v: Seq<CurveData>) -> Seq<CurveModel> {
    v.map_values(|c: CurveData| c@)
}

/// At least two control points, and one visibility flag per segment.
pub open spec fn curve_shape_ok(c: CurveModel) -> bool {
    c.control_points.len() >= 2 && c.visibility.len() == c.control_points.len() - 1
}

/// The eight parallel arrays that hold the curves.
pub ghost struct CurveArrays {
    pub location: Seq<Triple>,
    pub ty: Seq<u32>,
    pub points: Seq<Triple>,
    pub points_start: Seq<u32>,
    pub points_end: Seq<u32>,
    pub visibility: Seq<bool>,
    pub visibility_start: Seq<u32>,
    pub visibility_end: Seq<u32>,
}

/// The value of the first property named `key`, or `Missing`.
pub open spec fn lookup(ps: Seq<PropertyModel>, key: &'static str) -> Result<ValueModel, GVASError> {
    if find_prop(ps, key@) >= 0 {
        Ok(ps[find_prop(ps, key@)].val)
    } else {
        Err(GVASError::Missing(key))
    }
}

pub open spec fn triples_of(ps: Seq<PropertyModel>, key: &'static str) -> Result<Seq<Triple>, GVASError> {
    match lookup(ps, key) {
        Err(e) => Err(e),
        Ok(ValueModel::VectorArray(v)) => Ok(v),
        Ok(ValueModel::RotatorArray(v)) => Ok(v),
        Ok(_) => Err(GVASError::WrongType),
    }
}

pub open spec fn ints_of(ps: Seq<PropertyModel>, key: &'static str) -> Result<Seq<u32>, GVASError> {
    match lookup(ps, key) {
        Err(e) => Err(e),
        Ok(ValueModel::Int32Array(v)) => Ok(v),
        Ok(_) => Err(GVASError::WrongType),
    }
}

pub open spec fn bools_of(ps: Seq<PropertyModel>, key: &'static str) -> Result<Seq<bool>, GVASError> {
    match lookup(ps, key) {
        Err(e) => Err(e),
        Ok(ValueModel::BoolArray(v)) => Ok(v),
        Ok(_) => Err(GVASError::WrongType),
    }
}

/// The eight curve arrays, fetched in a fixed order; the first one that is
/// absent or of the wrong kind decides the error.
pub open spec fn spec_arrays(ps: Seq<PropertyModel>) -> Result<CurveArrays, GVASError> {
    match triples_of(ps, "SplineLocationArray") {
        Err(e) => Err(e),
        Ok(location) => match ints_of(ps, "SplineTypeArray") {
            Err(e) => Err(e),
            Ok(ty) => match triples_of(ps, "SplineControlPointsArray") {
                Err(e) => Err(e),
                Ok(points) => match ints_of(ps, "SplineControlPointsIndexStartArray") {
                    Err(e) => Err(e),
                    Ok(points_start) => match ints_of(ps, "SplineControlPointsIndexEndArray") {
                        Err(e) => Err(e),
                        Ok(points_end) => match bools_of(ps, "SplineSegmentsVisibilityArray") {
                            Err(e) => Err(e),
                            Ok(visibility) => match ints_of(ps, "SplineVisibilityStartArray") {
                                Err(e) => Err(e),
                                Ok(visibility_start) => match ints_of(ps, "SplineVisibilityEndArray") {
                                    Err(e) => Err(e),
                                    Ok(visibility_end) => Ok(
                                        CurveArrays {
                                            location,
                                            ty,
                                            points,
                                            points_start,
                                            points_end,
                                            visibility,
                                            visibility_start,
                                            visibility_end,
                                        },
                                    ),
                                },
                            },
                        },
                    },
                },
            },
        },
    }
}

/// The per-curve arrays all have one entry per location.
pub open spec fn aligned(a: CurveArrays) -> bool {
    &&& a.ty.len() == a.location.len()
    &&& a.points_start.len() == a.location.len()
    &&& a.points_end.len() == a.location.len()
    &&& a.visibility_start.len() == a.location.len()
    &&& a.visibility_end.len() == a.location.len()
}

/// The inclusive index ranges of curve `i` lie inside their arrays, hold at
/// least two control points, and one visibility flag fewer.
pub open spec fn ranges_ok(a: CurveArrays, i: int) -> bool {
    let cs = a.points_start[i] as int;
    let ce = a.points_end[i] as int;
    let vs = a.visibility_start[i] as int;
    let ve = a.visibility_end[i] as int;
    &&& cs <= ce < a.points.len()
    &&& vs <= ve < a.visibility.len()
    &&& ve - vs == ce - cs - 1
}

/// Curve `i` as a record.
pub open spec fn curve_at(a: CurveArrays, i: int) -> Result<CurveModel, GVASError> {
    if !ranges_ok(a, i) {
        Err(GVASError::Inconsistent)
    } else {
        match spline_of(a.ty[i]) {
            None => Err(GVASError::InvalidSplineType),
            Some(t) => Ok(
                CurveModel {
                    location: a.location[i],
                    ty: t,
                    control_points: a.points.subrange(
                        a.points_start[i] as int,
                        a.points_end[i] as int + 1,
                    ),
                    visibility: a.visibility.subrange(
                        a.visibility_start[i] as int,
                        a.visibility_end[i] as int + 1,
                    ),
                },
            ),
        }
    }
}

/// The first `k` curves, or the error of the first that is not sound.
pub open spec fn build_curves(a: CurveArrays, k: nat) -> Result<Seq<CurveModel>, GVASError>
    decreases k,
{
    if k == 0 {
        Ok(Seq::empty())
    } else {
        match build_curves(a, (k - 1) as nat) {
            Err(e) => Err(e),
            Ok(s) => match curve_at(a, k - 1) {
                Err(e) => Err(e),
                Ok(c) => Ok(s.push(c)),
            },
        }
    }
}

/// The curves of a file.
pub open spec fn spec_curves(f: GVASFileModel) -> Result<Seq<CurveModel>, GVASError> {
    match spec_arrays(f.properties) {
        Err(e) => Err(e),
        Ok(a) => if !aligned(a) {
            Err(GVASError::Inconsistent)
        } else {
            build_curves(a, a.location.len())
        },
    }
}

pub proof fn lemma_build_err(a: CurveArrays, k: nat, n: nat)
    requires
        k <= n,
        build_curves(a, k) is Err,
    ensures
        build_curves(a, n) == build_curves(a, k),
    decreases n - k,
{
    if k < n {
        lemma_build_err(a, k, (n - 1) as nat);
    }
}

pub proof fn lemma_build_ok(a: CurveArrays, k: nat)
    requires
        build_curves(a, k) is Ok,
    ensures
        build_curves(a, k)->Ok_0.len() == k,
        forall|i: int| 0 <= i < k ==> (#[trigger] curve_at(a, i)) is Ok,
        forall|i: int|
            0 <= i < k ==> #[trigger] build_curves(a, k)->Ok_0[i] == curve_at(a, i)->Ok_0,
    decreases k,
{
    if k > 0 {
        lemma_build_ok(a, (k - 1) as nat);
        let s = build_curves(a, (k - 1) as nat)->Ok_0;
        assert forall|i: int| 0 <= i < k implies (#[trigger] curve_at(a, i)) is Ok && build_curves(
            a,
            k,
        )->Ok_0[i] == curve_at(a, i)->Ok_0 by {
            if i < k - 1 {
                assert(build_curves(a, k)->Ok_0[i] == s[i]);
            }
        }
    }
}

/// Every curve read out of a file has at least two control points and one
/// visibility flag per segment: its start and end indices satisfy
/// `end >= start` and `vis_end - vis_start == end - start - 1`.
pub proof fn lemma_curves_shape(f: GVASFileModel)
    requires
        spec_curves(f) is Ok,
    ensures
        forall|i: int|
            0 <= i < spec_curves(f)->Ok_0.len() ==> curve_shape_ok(#[trigger] spec_curves(f)->Ok_0[i]),
        forall|i: int|
            0 <= i < spec_curves(f)->Ok_0.len() ==> #[trigger] ranges_ok(
                spec_arrays(f.properties)->Ok_0,
                i,
            ),
{
    let a = spec_arrays(f.properties)->Ok_0;
    lemma_build_ok(a, a.location.len());
    assert forall|i: int| 0 <= i < spec_curves(f)->Ok_0.len() implies #[trigger] ranges_ok(a, i) by {
        assert(curve_at(a, i) is Ok);
    }
    assert forall|i: int| 0 <= i < spec_curves(f)->Ok_0.len() implies curve_shape_ok(
        #[trigger] spec_curves(f)->Ok_0[i],
    ) by {
        assert(curve_at(a, i) is Ok);
        assert(ranges_ok(a, i));
    }
}

/// The arrays that writing `list` produces: locations and type codes one
/// per curve, control points and visibility flags appended in turn, and
/// each curve's inclusive start and end index into them.
pub open spec fn built_arrays(list: Seq<CurveModel>) -> CurveArrays
    decreases list.len(),
{
    if list.len() == 0 {
        CurveArrays {
            location: Seq::empty(),
            ty: Seq::empty(),
            points: Seq::empty(),
            points_start: Seq::empty(),
            points_end: Seq::empty(),
            visibility: Seq::empty(),
            visibility_start: Seq::empty(),
            visibility_end: Seq::empty(),
        }
    } else {
        let a = built_arrays(list.drop_last());
        let c = list.last();
        CurveArrays {
            location: a.location.push(c.location),
            ty: a.ty.push(spline_code(c.ty)),
            points: a.points + c.control_points,
            points_start: a.points_start.push(a.points.len() as u32),
            points_end: a.points_end.push((a.points.len() + c.control_points.len() - 1) as u32),
            visibility: a.visibility + c.visibility,
            visibility_start: a.visibility_start.push(a.visibility.len() as u32),
            visibility_end: a.visibility_end.push(
                (a.visibility.len() + c.visibility.len() - 1) as u32,
            ),
        }
    }
}

/// The property list after the curve arrays are replaced by those of `list`.
pub open spec fn set_curves_props(ps: Seq<PropertyModel>, list: Seq<CurveModel>) -> Seq<PropertyModel> {
    let a = built_arrays(list);
    let p1 = replace_prop(ps, "SplineLocationArray"@, ValueModel::VectorArray(a.location));
    let p2 = replace_prop(p1, "SplineTypeArray"@, ValueModel::Int32Array(a.ty));
    let p3 = replace_prop(p2, "SplineControlPointsArray"@, ValueModel::VectorArray(a.points));
    let p4 = replace_prop(
        p3,
        "SplineControlPointsIndexStartArray"@,
        ValueModel::Int32Array(a.points_start),
    );
    let p5 = replace_prop(
        p4,
        "SplineControlPointsIndexEndArray"@,
        ValueModel::Int32Array(a.points_end),
    );
    let p6 = replace_prop(p5, "SplineSegmentsVisibilityArray"@, ValueModel::BoolArray(a.visibility));
    let p7 = replace_prop(
        p6,
        "SplineVisibilityStartArray"@,
        ValueModel::Int32Array(a.visibility_start),
    );
    replace_prop(p7, "SplineVisibilityEndArray"@, ValueModel::Int32Array(a.visibility_end))
}

/// The first of the eight curve properties, in a fixed order, that the
/// list lacks.
pub open spec fn missing_key(ps: Seq<PropertyModel>) -> Option<&'static str> {
    if find_prop(ps, "SplineLocationArray"@) < 0 {
        Some("SplineLocationArray")
    } else if find_prop(ps, "SplineTypeArray"@) < 0 {
        Some("SplineTypeArray")
    } else if find_prop(ps, "SplineControlPointsArray"@) < 0 {
        Some("SplineControlPointsArray")
    } else if find_prop(ps, "SplineControlPointsIndexStartArray"@) < 0 {
        Some("SplineControlPointsIndexStartArray")
    } else if find_prop(ps, "SplineControlPointsIndexEndArray"@) < 0 {
        Some("SplineControlPointsIndexEndArray")
    } else if find_prop(ps, "SplineSegmentsVisibilityArray"@) < 0 {
        Some("SplineSegmentsVisibilityArray")
    } else if find_prop(ps, "SplineVisibilityStartArray"@) < 0 {
        Some("SplineVisibilityStartArray")
    } else if find_prop(ps, "SplineVisibilityEndArray"@) < 0 {
        Some("SplineVisibilityEndArray")
    } else {
        None
    }
}

/// Lists with the same names at the same places find the same index.
pub proof fn lemma_find_same_names(ps: Seq<PropertyModel>, qs: Seq<PropertyModel>, name: Seq<char>)
    requires
        ps.len() == qs.len(),
        forall|i: int| 0 <= i < ps.len() ==> #[trigger] ps[i].name == qs[i].name,
    ensures
        find_prop(ps, name) == find_prop(qs, name),
    decreases ps.len(),
{
    if ps.len() > 0 {
        assert forall|i: int| 0 <= i < ps.len() - 1 implies #[trigger] ps.drop_last()[i].name
            == qs.drop_last()[i].name by {
            assert(ps[i].name == qs[i].name);
        }
        lemma_find_same_names(ps.drop_last(), qs.drop_last(), name);
    }
}

/// Replacing a value keeps every name where it was.
pub proof fn lemma_replace_find_all(ps: Seq<PropertyModel>, n: Seq<char>, v: ValueModel)
    ensures
        forall|name: Seq<char>| #[trigger] find_prop(replace_prop(ps, n, v), name) == find_prop(ps, name),
        replace_prop(ps, n, v).len() == ps.len(),
{
    lemma_find_prop_range(ps, n);
    let qs = replace_prop(ps, n, v);
    assert forall|i: int| 0 <= i < ps.len() implies #[trigger] ps[i].name == qs[i].name by {}
    assert forall|name: Seq<char>| #[trigger] find_prop(qs, name) == find_prop(ps, name) by {
        lemma_find_same_names(ps, qs, name);
    }
}

/// How many control points the curves hold together.
pub open spec fn total_points(list: Seq<CurveModel>) -> nat
    decreases list.len(),
{
    if list.len() == 0 {
        0
    } else {
        total_points(list.drop_last()) + list.last().control_points.len()
    }
}

/// Curves that can be written: each has a sound shape, and every index into
/// the joined control points fits 32 bits.
pub open spec fn curves_writable(list: Seq<CurveModel>) -> bool {
    &&& forall|i: int| 0 <= i < list.len() ==> curve_shape_ok(#[trigger] list[i])
    &&& total_points(list) <= u32::MAX
}

/// Curves of sound shape hold at least two control points each.
pub proof fn lemma_total_points(list: Seq<CurveModel>)
    requires
        forall|i: int| 0 <= i < list.len() ==> curve_shape_ok(#[trigger] list[i]),
    ensures
        2 * list.len() <= total_points(list),
    decreases list.len(),
{
    if list.len() > 0 {
        assert(curve_shape_ok(list[list.len() - 1]));
        assert forall|i: int| 0 <= i < list.len() - 1 implies curve_shape_ok(
            #[trigger] list.drop_last()[i],
        ) by {
            assert(list.drop_last()[i] == list[i]);
        }
        lemma_total_points(list.drop_last());
    }
}

/// The arrays built from a list of curves hold each curve again at its
/// place, with sound index ranges.
#[verifier::rlimit(50)]
pub proof fn lemma_built_arrays(list: Seq<CurveModel>)
    requires
        curves_writable(list),
    ensures
        built_arrays(list).location.len() == list.len(),
        aligned(built_arrays(list)),
        built_arrays(list).points.len() == total_points(list),
        built_arrays(list).visibility.len() + list.len() == total_points(list),
        forall|i: int|
            0 <= i < list.len() ==> #[trigger] curve_at(built_arrays(list), i) == Ok::<
                CurveModel,
                GVASError,
            >(list[i]),
    decreases list.len(),
{
    if list.len() > 0 {
        let l = list.drop_last();
        let c = list.last();
        assert(curve_shape_ok(list[list.len() - 1]));
        assert forall|i: int| 0 <= i < l.len() implies curve_shape_ok(#[trigger] l[i]) by {
            assert(l[i] == list[i]);
        }
        lemma_built_arrays(l);
        let a0 = built_arrays(l);
        let a = built_arrays(list);
        let n = list.len() - 1;
        assert forall|i: int| 0 <= i < list.len() implies #[trigger] curve_at(a, i) == Ok::<
            CurveModel,
            GVASError,
        >(list[i]) by {
            if i < n {
                assert(curve_at(a0, i) == Ok::<CurveModel, GVASError>(l[i]));
                assert(a.points_start[i] == a0.points_start[i]);
                assert(a.points_end[i] == a0.points_end[i]);
                assert(a.visibility_start[i] == a0.visibility_start[i]);
                assert(a.visibility_end[i] == a0.visibility_end[i]);
                assert(a.ty[i] == a0.ty[i]);
                assert(a.location[i] == a0.location[i]);
                assert(ranges_ok(a0, i));
                assert(a.points.subrange(a.points_start[i] as int, a.points_end[i] as int + 1)
                    =~= a0.points.subrange(a0.points_start[i] as int, a0.points_end[i] as int + 1));
                assert(a.visibility.subrange(
                    a.visibility_start[i] as int,
                    a.visibility_end[i] as int + 1,
                ) =~= a0.visibility.subrange(
                    a0.visibility_start[i] as int,
                    a0.visibility_end[i] as int + 1,
                ));
            } else {
                lemma_spline_code(c.ty);
                assert(a.points.subrange(a.points_start[i] as int, a.points_end[i] as int + 1)
                    =~= c.control_points);
                assert(a.visibility.subrange(
                    a.visibility_start[i] as int,
                    a.visibility_end[i] as int + 1,
                ) =~= c.visibility);
            }
        }
    }
}

/// The index arrays that writing curves produces are sound: for each curve,
/// `end >= start` for its control points, and its visibility range is one
/// shorter (`vis_end - vis_start == end - start - 1`), both inside their
/// arrays.
pub proof fn lemma_set_curves_index_invariant(list: Seq<CurveModel>)
    requires
        curves_writable(list),
    ensures
        forall|i: int| 0 <= i < list.len() ==> #[trigger] ranges_ok(built_arrays(list), i),
{
    lemma_built_arrays(list);
    assert forall|i: int| 0 <= i < list.len() implies #[trigger] ranges_ok(built_arrays(list), i) by {
        assert(curve_at(built_arrays(list), i) is Ok);
    }
}

/// Building curves from arrays that hold them each in place gives them all.
pub proof fn lemma_build_all(a: CurveArrays, list: Seq<CurveModel>, k: nat)
    requires
        k <= list.len(),
        forall|i: int| 0 <= i < list.len() ==> #[trigger] curve_at(a, i) == Ok::<CurveModel, GVASError>(list[i]),
    ensures
        build_curves(a, k) == Ok::<Seq<CurveModel>, GVASError>(list.subrange(0, k as int)),
    decreases k,
{
    if k > 0 {
        lemma_build_all(a, list, (k - 1) as nat);
        assert(curve_at(a, k - 1) == Ok::<CurveModel, GVASError>(list[k - 1]));
        assert(list.subrange(0, k - 1).push(list[k - 1]) =~= list.subrange(0, k as int));
    } else {
        assert(list.subrange(0, 0) =~= Seq::<CurveModel>::empty());
    }
}

/// After the eight arrays are replaced, each is found where it was, holding
/// its new value.
#[verifier::rlimit(50)]
pub proof fn lemma_arrays_after_set(ps: Seq<PropertyModel>, list: Seq<CurveModel>)
    requires
        missing_key(ps) is None,
    ensures
        spec_arrays(set_curves_props(ps, list)) == Ok::<CurveArrays, GVASError>(built_arrays(list)),
{
    reveal_strlit("SplineLocationArray");
    reveal_strlit("SplineTypeArray");
    reveal_strlit("SplineControlPointsArray");
    reveal_strlit("SplineControlPointsIndexStartArray");
    reveal_strlit("SplineControlPointsIndexEndArray");
    reveal_strlit("SplineSegmentsVisibilityArray");
    reveal_strlit("SplineVisibilityStartArray");
    reveal_strlit("SplineVisibilityEndArray");
    let a = built_arrays(list);
    let k1 = "SplineLocationArray"@;
    let k2 = "SplineTypeArray"@;
    let k3 = "SplineControlPointsArray"@;
    let k4 = "SplineControlPointsIndexStartArray"@;
    let k5 = "SplineControlPointsIndexEndArray"@;
    let k6 = "SplineSegmentsVisibilityArray"@;
    let k7 = "SplineVisibilityStartArray"@;
    let k8 = "SplineVisibilityEndArray"@;
    let v1 = ValueModel::VectorArray(a.location);
    let v2 = ValueModel::Int32Array(a.ty);
    let v3 = ValueModel::VectorArray(a.points);
    let v4 = ValueModel::Int32Array(a.points_start);
    let v5 = ValueModel::Int32Array(a.points_end);
    let v6 = ValueModel::BoolArray(a.visibility);
    let v7 = ValueModel::Int32Array(a.visibility_start);
    let v8 = ValueModel::Int32Array(a.visibility_end);
    let p1 = replace_prop(ps, k1, v1);
    let p2 = replace_prop(p1, k2, v2);
    let p3 = replace_prop(p2, k3, v3);
    let p4 = replace_prop(p3, k4, v4);
    let p5 = replace_prop(p4, k5, v5);
    let p6 = replace_prop(p5, k6, v6);
    let p7 = replace_prop(p6, k7, v7);
    let q = replace_prop(p7, k8, v8);
    lemma_replace_find_all(ps, k1, v1);
    lemma_replace_find_all(p1, k2, v2);
    lemma_replace_find_all(p2, k3, v3);
    lemma_replace_find_all(p3, k4, v4);
    lemma_replace_find_all(p4, k5, v5);
    lemma_replace_find_all(p5, k6, v6);
    lemma_replace_find_all(p6, k7, v7);
    lemma_replace_find_all(p7, k8, v8);
    lemma_find_prop_range(ps, k1);
    lemma_find_prop_range(ps, k2);
    lemma_find_prop_range(ps, k3);
    lemma_find_prop_range(ps, k4);
    lemma_find_prop_range(ps, k5);
    lemma_find_prop_range(ps, k6);
    lemma_find_prop_range(ps, k7);
    lemma_find_prop_range(ps, k8);
    let i1 = find_prop(ps, k1);
    let i2 = find_prop(ps, k2);
    let i3 = find_prop(ps, k3);
    let i4 = find_prop(ps, k4);
    let i5 = find_prop(ps, k5);
    let i6 = find_prop(ps, k6);
    let i7 = find_prop(ps, k7);
    let i8 = find_prop(ps, k8);
    assert(q == ps.update(i1, PropertyModel { name: k1, val: v1 }).update(
        i2,
        PropertyModel { name: k2, val: v2 },
    ).update(i3, PropertyModel { name: k3, val: v3 }).update(
        i4,
        PropertyModel { name: k4, val: v4 },
    ).update(i5, PropertyModel { name: k5, val: v5 }).update(
        i6,
        PropertyModel { name: k6, val: v6 },
    ).update(i7, PropertyModel { name: k7, val: v7 }).update(
        i8,
        PropertyModel { name: k8, val: v8 },
    ));
    assert(k1.len() == 19 && k2.len() == 15 && k3.len() == 24 && k4.len() == 34);
    assert(k5.len() == 32 && k6.len() == 29 && k7.len() == 26 && k8.len() == 24);
    assert(i1 != i2 && i1 != i3 && i1 != i4 && i1 != i5 && i1 != i6 && i1 != i7 && i1 != i8);
    assert(i2 != i3 && i2 != i4 && i2 != i5 && i2 != i6 && i2 != i7 && i2 != i8);
    assert(k3[6] != k8[6]);
    assert(i3 != i4 && i3 != i5 && i3 != i6 && i3 != i7 && i3 != i8);
    assert(i4 != i5 && i4 != i6 && i4 != i7 && i4 != i8);
    assert(i5 != i6 && i5 != i7 && i5 != i8);
    assert(i6 != i7 && i6 != i8 && i7 != i8);
    assert(q[i1].val == v1);
    assert(q[i2].val == v2);
    assert(q[i3].val == v3);
    assert(q[i4].val == v4);
    assert(q[i5].val == v5);
    assert(q[i6].val == v6);
    assert(q[i7].val == v7);
    assert(q[i8].val == v8);
}

/// Replacing the curves of a save and reading them out again gives the
/// curves that were put in.
pub proof fn lemma_set_curves_then_curves(f: GVASFileModel, list: Seq<CurveModel>)
    requires
        missing_key(f.properties) is None,
        curves_writable(list),
    ensures
        spec_curves(
            GVASFileModel { properties: set_curves_props(f.properties, list), ..f },
        ) == Ok::<Seq<CurveModel>, GVASError>(list),
{
    lemma_arrays_after_set(f.properties, list);
    lemma_built_arrays(list);
    lemma_build_all(built_arrays(list), list, list.len());
    assert(list.subrange(0, list.len() as int) =~= list);
}

/// Replacing a value by one that reads back keeps a property list that
/// reads back.
pub proof fn lemma_replace_canonical(ps: Seq<PropertyModel>, n: Seq<char>, v: ValueModel)
    requires
        forall|i: int| 0 <= i < ps.len() ==> property_canonical(#[trigger] ps[i]),
        value_canonical(v),
    ensures
        forall|i: int|
            0 <= i < replace_prop(ps, n, v).len() ==> property_canonical(
                #[trigger] replace_prop(ps, n, v)[i],
            ),
{
    lemma_find_prop_range(ps, n);
    let qs = replace_prop(ps, n, v);
    assert forall|i: int| 0 <= i < qs.len() implies property_canonical(#[trigger] qs[i]) by {
        assert(property_canonical(ps[i]));
    }
}

/// Curves put into a save that reads back are read out again, unchanged,
/// after the save is written and read.
pub proof fn lemma_curves_survive_save(f: GVASFileModel, list: Seq<CurveModel>)
    requires
        file_canonical(f),
        missing_key(f.properties) is None,
        curves_writable(list),
    ensures
        ({
            let g = GVASFileModel { properties: set_curves_props(f.properties, list), ..f };
            &&& spec_file(file_bytes(g)) == Ok::<GVASFileModel, GVASError>(g)
            &&& spec_curves(spec_file(file_bytes(g))->Ok_0) == Ok::<Seq<CurveModel>, GVASError>(list)
        }),
{
    let a = built_arrays(list);
    lemma_built_arrays(list);
    lemma_total_points(list);
    let ps = f.properties;
    let p1 = replace_prop(ps, "SplineLocationArray"@, ValueModel::VectorArray(a.location));
    let p2 = replace_prop(p1, "SplineTypeArray"@, ValueModel::Int32Array(a.ty));
    let p3 = replace_prop(p2, "SplineControlPointsArray"@, ValueModel::VectorArray(a.points));
    let p4 = replace_prop(
        p3,
        "SplineControlPointsIndexStartArray"@,
        ValueModel::Int32Array(a.points_start),
    );
    let p5 = replace_prop(
        p4,
        "SplineControlPointsIndexEndArray"@,
        ValueModel::Int32Array(a.points_end),
    );
    let p6 = replace_prop(p5, "SplineSegmentsVisibilityArray"@, ValueModel::BoolArray(a.visibility));
    let p7 = replace_prop(
        p6,
        "SplineVisibilityStartArray"@,
        ValueModel::Int32Array(a.visibility_start),
    );
    lemma_replace_canonical(ps, "SplineLocationArray"@, ValueModel::VectorArray(a.location));
    lemma_replace_canonical(p1, "SplineTypeArray"@, ValueModel::Int32Array(a.ty));
    lemma_replace_canonical(p2, "SplineControlPointsArray"@, ValueModel::VectorArray(a.points));
    lemma_replace_canonical(
        p3,
        "SplineControlPointsIndexStartArray"@,
        ValueModel::Int32Array(a.points_start),
    );
    lemma_replace_canonical(
        p4,
        "SplineControlPointsIndexEndArray"@,
        ValueModel::Int32Array(a.points_end),
    );
    lemma_replace_canonical(
        p5,
        "SplineSegmentsVisibilityArray"@,
        ValueModel::BoolArray(a.visibility),
    );
    lemma_replace_canonical(
        p6,
        "SplineVisibilityStartArray"@,
        ValueModel::Int32Array(a.visibility_start),
    );
    lemma_replace_canonical(
        p7,
        "SplineVisibilityEndArray"@,
        ValueModel::Int32Array(a.visibility_end),
    );
    let g = GVASFileModel { properties: set_curves_props(f.properties, list), ..f };
    assert(file_canonical(g));
    lemma_file_round_trip(g);
    lemma_set_curves_then_curves(f, list);
}

fn triples_prop<'a>(f: &'a GVASFile, key: &'static str) -> (r: Result<&'a Vec<Triple>, GVASError>)
    ensures
        match r {
            Ok(v) => triples_of(f@.properties, key) == Ok::<Seq<Triple>, GVASError>(v@),
            Err(e) => triples_of(f@.properties, key) == Err::<Seq<Triple>, GVASError>(e),
        },
{
    match f.get_prop(key)? {
        Value::VectorArray(v) => Ok(v),
        Value::RotatorArray(v) => Ok(v),
        _ => Err(GVASError::WrongType),
    }
}

fn ints_prop<'a>(f: &'a GVASFile, key: &'static str) -> (r: Result<&'a Vec<u32>, GVASError>)
    ensures
        match r {
            Ok(v) => ints_of(f@.properties, key) == Ok::<Seq<u32>, GVASError>(v@),
            Err(e) => ints_of(f@.properties, key) == Err::<Seq<u32>, GVASError>(e),
        },
{
    match f.get_prop(key)? {
        Value::Int32Array(v) => Ok(v),
        _ => Err(GVASError::WrongType),
    }
}

fn bools_prop<'a>(f: &'a GVASFile, key: &'static str) -> (r: Result<&'a Vec<bool>, GVASError>)
    ensures
        match r {
            Ok(v) => bools_of(f@.properties, key) == Ok::<Seq<bool>, GVASError>(v@),
            Err(e) => bools_of(f@.properties, key) == Err::<Seq<bool>, GVASError>(e),
        },
{
    match f.get_prop(key)? {
        Value::BoolArray(v) => Ok(v),
        _ => Err(GVASError::WrongType),
    }
}

/// Appends a copy of `src`.
fn extend_copy<T: Copy>(dst: &mut Vec<T>, src: &Vec<T>)
    ensures
        final(dst)@ == old(dst)@ + src@,
{
    let mut i: usize = 0;
    while i < src.len()
        invariant
            0 <= i <= src@.len(),
            dst@ == old(dst)@ + src@.subrange(0, i as int),
        decreases src@.len() - i,
    {
        dst.push(src[i]);
        i += 1;
        assert(dst@ =~= old(dst)@ + src@.subrange(0, i as int));
    }
    assert(src@.subrange(0, src@.len() as int) =~= src@);
}

/// A railroad save file.
#[derive(Debug, Clone, PartialEq)]
pub struct RROSave {
    pub inner: GVASFile,
}

impl RROSave {
    /// Reads a save file.
    pub fn read(d: &[u8]) -> (r: Result<RROSave, GVASError>)
        ensures
            match r {
                Ok(s) => spec_file(d@) == Ok::<GVASFileModel, GVASError>(s.inner@),
                Err(e) => spec_file(d@) == Err::<GVASFileModel, GVASError>(e),
            },
    {
        Ok(RROSave { inner: GVASFile::read(d)? })
    }

    /// Appends the save file.
    pub fn write(&self, out: &mut Vec<u8>)
        requires
            file_fits(self.inner@),
        ensures
            final(out)@ == old(out)@ + crate::file::file_bytes(self.inner@),
    {
        self.inner.write(out)
    }

    /// The bytes of the save, or `None` where a count or string does not
    /// fit its field.
    pub fn to_bytes(&self) -> (r: Option<Vec<u8>>)
        ensures
            match r {
                Some(b) => file_fits(self.inner@) && b@ == file_bytes(self.inner@),
                None => !file_fits(self.inner@),
            },
    {
        self.inner.to_bytes()
    }

    /// The curves of the save, in file order. Fails where one of the eight
    /// arrays is absent or of the wrong kind, where the per-curve arrays
    /// differ in length, where a curve's index ranges fall outside the
    /// arrays or do not give two points and one flag per segment, and where
    /// a type code is unknown.
    #[verifier::rlimit(50)]
    pub fn curves(&self) -> (r: Result<Vec<CurveData>, GVASError>)
        ensures
            match r {
                Ok(v) => spec_curves(self.inner@) == Ok::<Seq<CurveModel>, GVASError>(curves_model(v@)),
                Err(e) => spec_curves(self.inner@) == Err::<Seq<CurveModel>, GVASError>(e),
            },
            r is Ok ==> forall|i: int|
                0 <= i < r->Ok_0@.len() ==> curve_shape_ok(#[trigger] r->Ok_0@[i]@),
    {
        let location = triples_prop(&self.inner, "SplineLocationArray")?;
        let ty = ints_prop(&self.inner, "SplineTypeArray")?;
        let points = triples_prop(&self.inner, "SplineControlPointsArray")?;
        let points_start = ints_prop(&self.inner, "SplineControlPointsIndexStartArray")?;
        let points_end = ints_prop(&self.inner, "SplineControlPointsIndexEndArray")?;
        let visibility = bools_prop(&self.inner, "SplineSegmentsVisibilityArray")?;
        let visibility_start = ints_prop(&self.inner, "SplineVisibilityStartArray")?;
        let visibility_end = ints_prop(&self.inner, "SplineVisibilityEndArray")?;
        let ghost a = CurveArrays {
            location: location@,
            ty: ty@,
            points: points@,
            points_start: points_start@,
            points_end: points_end@,
            visibility: visibility@,
            visibility_start: visibility_start@,
            visibility_end: visibility_end@,
        };
        assert(spec_arrays(self.inner@.properties) == Ok::<CurveArrays, GVASError>(a));
        let n = location.len();
        if !(ty.len() == n && points_start.len() == n && points_end.len() == n
            && visibility_start.len() == n && visibility_end.len() == n) {
            return Err(GVASError::Inconsistent);
        }
        let mut out: Vec<CurveData> = Vec::new();
        let mut i: usize = 0;
        assert(curves_model(out@) =~= Seq::<CurveModel>::empty());
        while i < n
            invariant
                0 <= i <= n,
                n == a.location.len(),
                aligned(a),
                spec_arrays(self.inner@.properties) == Ok::<CurveArrays, GVASError>(a),
                a == (CurveArrays {
                    location: location@,
                    ty: ty@,
                    points: points@,
                    points_start: points_start@,
                    points_end: points_end@,
                    visibility: visibility@,
                    visibility_start: visibility_start@,
                    visibility_end: visibility_end@,
                }),
                build_curves(a, i as nat) == Ok::<Seq<CurveModel>, GVASError>(curves_model(out@)),
            decreases n - i,
        {
            let cs = points_start[i] as usize;
            let ce = points_end[i] as usize;
            let vs = visibility_start[i] as usize;
            let ve = visibility_end[i] as usize;
            if !(cs <= ce && ce < points.len() && vs <= ve && ve < visibility.len() && ve - vs + 1
                == ce - cs) {
                assert(!ranges_ok(a, i as int));
                assert(build_curves(a, (i + 1) as nat) is Err);
                proof { lemma_build_err(a, (i + 1) as nat, n as nat); }
                return Err(GVASError::Inconsistent);
            }
            let t = match SplineType::from_code(ty[i]) {
                Some(t) => t,
                None => {
                    assert(ranges_ok(a, i as int));
                    assert(build_curves(a, (i + 1) as nat) is Err);
                    proof { lemma_build_err(a, (i + 1) as nat, n as nat); }
                    return Err(GVASError::InvalidSplineType);
                },
            };
            let control_points = slice_to_vec(slice_subrange(points.as_slice(), cs, ce + 1));
            let vis = slice_to_vec(slice_subrange(visibility.as_slice(), vs, ve + 1));
            let c = CurveData { location: location[i], ty: t, control_points, visibility: vis };
            let ghost old_out = out@;
            assert(curve_at(a, i as int) == Ok::<CurveModel, GVASError>(c@));
            out.push(c);
            assert(curves_model(out@) =~= curves_model(old_out).push(c@));
            i += 1;
        }
        assert(spec_curves(self.inner@) == Ok::<Seq<CurveModel>, GVASError>(curves_model(out@)));
        proof {
            lemma_curves_shape(self.inner@);
            let cm = spec_curves(self.inner@)->Ok_0;
            assert(cm == curves_model(out@));
            assert forall|i: int| 0 <= i < out@.len() implies curve_shape_ok(#[trigger] out@[i]@) by {
                assert(cm[i] == out@[i]@);
                assert(curve_shape_ok(cm[i]));
            }
        }
        Ok(out)
    }

    /// Rebuilds the eight curve arrays from `curves` and puts them in place
    /// of the first property of each name; nothing else changes. Fails, and
    /// changes nothing, where one of the eight properties is absent.
    #[verifier::rlimit(50)]
    pub fn set_curves(&mut self, curves: &Vec<CurveDataOwned>) -> (r: Result<(), GVASError>)
        requires
            forall|i: int| 0 <= i < curves@.len() ==> curve_shape_ok(#[trigger] curves@[i]@),
            total_points(curves_model(curves@)) <= u32::MAX,
        ensures
            r is Ok ==> forall|i: int|
                0 <= i < curves@.len() ==> #[trigger] ranges_ok(
                    built_arrays(curves_model(curves@)),
                    i,
                ),
            match r {
                Ok(_) => missing_key(old(self).inner@.properties) is None && final(self).inner@
                    == (GVASFileModel {
                    properties: set_curves_props(old(self).inner@.properties, curves_model(curves@)),
                    ..old(self).inner@
                }),
                Err(e) => e is Missing && missing_key(old(self).inner@.properties) == Some(
                    e->Missing_0,
                ) && final(self).inner@ == old(self).inner@,
            },
    {
        self.inner.get_prop("SplineLocationArray")?;
        self.inner.get_prop("SplineTypeArray")?;
        self.inner.get_prop("SplineControlPointsArray")?;
        self.inner.get_prop("SplineControlPointsIndexStartArray")?;
        self.inner.get_prop("SplineControlPointsIndexEndArray")?;
        self.inner.get_prop("SplineSegmentsVisibilityArray")?;
        self.inner.get_prop("SplineVisibilityStartArray")?;
        self.inner.get_prop("SplineVisibilityEndArray")?;
        let ghost cm = curves_model(curves@);
        let mut location: Vec<Triple> = Vec::new();
        let mut ty: Vec<u32> = Vec::new();
        let mut points: Vec<Triple> = Vec::new();
        let mut points_start: Vec<u32> = Vec::new();
        let mut points_end: Vec<u32> = Vec::new();
        let mut visibility: Vec<bool> = Vec::new();
        let mut visibility_start: Vec<u32> = Vec::new();
        let mut visibility_end: Vec<u32> = Vec::new();
        let mut i: usize = 0;
        assert(cm.subrange(0, 0) =~= Seq::<CurveModel>::empty());
        while i < curves.len()
            invariant
                0 <= i <= curves@.len(),
                cm == curves_model(curves@),
                forall|i: int| 0 <= i < curves@.len() ==> curve_shape_ok(#[trigger] curves@[i]@),
                built_arrays(cm.subrange(0, i as int)) == (CurveArrays {
                    location: location@,
                    ty: ty@,
                    points: points@,
                    points_start: points_start@,
                    points_end: points_end@,
                    visibility: visibility@,
                    visibility_start: visibility_start@,
                    visibility_end: visibility_end@,
                }),
            decreases curves@.len() - i,
        {
            let c = &curves[i];
            assert(cm.subrange(0, i as int + 1).drop_last() =~= cm.subrange(0, i as int));
            assert(cm[i as int] == c@);
            assert(curve_shape_ok(curves@[i as int]@));
            location.push(c.location);
            ty.push(c.ty.code());
            points_start.push(points.len() as u32);
            extend_copy(&mut points, &c.control_points);
            points_end.push((points.len() - 1) as u32);
            visibility_start.push(visibility.len() as u32);
            extend_copy(&mut visibility, &c.visibility);
            visibility_end.push((visibility.len() - 1) as u32);
            i += 1;
        }
        assert(cm.subrange(0, cm.len() as int) =~= cm);
        let ghost prev = self.inner@.properties;
        let ghost vm = ValueModel::VectorArray(location@);
        let _ = self.inner.set_prop("SplineLocationArray", Value::VectorArray(location));
        proof { lemma_replace_find_all(prev, "SplineLocationArray"@, vm); }
        let ghost prev = self.inner@.properties;
        let ghost vm = ValueModel::Int32Array(ty@);
        let _ = self.inner.set_prop("SplineTypeArray", Value::Int32Array(ty));
        proof { lemma_replace_find_all(prev, "SplineTypeArray"@, vm); }
        let ghost prev = self.inner@.properties;
        let ghost vm = ValueModel::VectorArray(points@);
        let _ = self.inner.set_prop("SplineControlPointsArray", Value::VectorArray(points));
        proof { lemma_replace_find_all(prev, "SplineControlPointsArray"@, vm); }
        let ghost prev = self.inner@.properties;
        let ghost vm = ValueModel::Int32Array(points_start@);
        let _ = self.inner.set_prop("SplineControlPointsIndexStartArray", Value::Int32Array(points_start));
        proof { lemma_replace_find_all(prev, "SplineControlPointsIndexStartArray"@, vm); }
        let ghost prev = self.inner@.properties;
        let ghost vm = ValueModel::Int32Array(points_end@);
        let _ = self.inner.set_prop("SplineControlPointsIndexEndArray", Value::Int32Array(points_end));
        proof { lemma_replace_find_all(prev, "SplineControlPointsIndexEndArray"@, vm); }
        let ghost prev = self.inner@.properties;
        let ghost vm = ValueModel::BoolArray(visibility@);
        let _ = self.inner.set_prop("SplineSegmentsVisibilityArray", Value::BoolArray(visibility));
        proof { lemma_replace_find_all(prev, "SplineSegmentsVisibilityArray"@, vm); }
        let ghost prev = self.inner@.properties;
        let ghost vm = ValueModel::Int32Array(visibility_start@);
        let _ = self.inner.set_prop("SplineVisibilityStartArray", Value::Int32Array(visibility_start));
        proof { lemma_replace_find_all(prev, "SplineVisibilityStartArray"@, vm); }
        let ghost prev = self.inner@.properties;
        let ghost vm = ValueModel::Int32Array(visibility_end@);
        let _ = self.inner.set_prop("SplineVisibilityEndArray", Value::Int32Array(visibility_end));
        proof { lemma_replace_find_all(prev, "SplineVisibilityEndArray"@, vm); }
        proof {
            assert forall|i: int| 0 <= i < cm.len() implies curve_shape_ok(#[trigger] cm[i]) by {
                assert(cm[i] == curves@[i]@);
            }
            lemma_set_curves_index_invariant(cm);
        }
        Ok(())
    }
}

} // verus!
