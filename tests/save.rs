use rro_gvas::file::{EngineVersion, GVASFile, Property};
use rro_gvas::save::{CurveData, RROSave, SplineType};
use rro_gvas::value::Value;
use rro_gvas::GVASError;

const CURVE_KEYS: [&str; 8] = [
    "SplineLocationArray",
    "SplineTypeArray",
    "SplineControlPointsArray",
    "SplineControlPointsIndexStartArray",
    "SplineControlPointsIndexEndArray",
    "SplineSegmentsVisibilityArray",
    "SplineVisibilityStartArray",
    "SplineVisibilityEndArray",
];

fn empty_value(key: &str) -> Value {
    match key {
        "SplineLocationArray" | "SplineControlPointsArray" => Value::VectorArray(vec![]),
        "SplineSegmentsVisibilityArray" => Value::BoolArray(vec![]),
        _ => Value::Int32Array(vec![]),
    }
}

fn save_with(keys: &[&str]) -> RROSave {
    let mut properties = vec![Property {
        name: String::from("SaveGameName"),
        val: Value::String(String::from("test")),
    }];
    for k in keys {
        properties.push(Property { name: String::from(*k), val: empty_value(k) });
    }
    properties.push(Property { name: String::from("None"), val: Value::Empty });
    RROSave {
        inner: GVASFile {
            save_game_version: 2,
            package_version: 517,
            engine_version: EngineVersion {
                major: 4,
                minor: 27,
                patch: 2,
                build: 0,
                build_id: String::from("++UE4+Release-4.27"),
            },
            custom_format_version: 3,
            custom_format_data: vec![],
            save_game_type: String::from("/Script/arr.arrSaveGame"),
            properties,
            tail: vec![],
        },
    }
}

fn bits(v: [f32; 3]) -> (u32, u32, u32) {
    (v[0].to_bits(), v[1].to_bits(), v[2].to_bits())
}

fn two_curves() -> Vec<CurveData> {
    vec![
        CurveData {
            location: bits([0.0, 0.0, 0.0]),
            ty: SplineType::Track,
            control_points: vec![bits([0.0, 0.0, 0.0]), bits([1.0, 0.0, 0.0])],
            visibility: vec![true],
        },
        CurveData {
            location: bits([5.0, 5.0, 5.0]),
            ty: SplineType::SteelBridge,
            control_points: vec![bits([5.0, 5.0, 5.0]), bits([6.0, 5.0, 5.0]), bits([7.0, 5.0, 5.0])],
            visibility: vec![true, false],
        },
    ]
}

fn prop<'a>(s: &'a RROSave, name: &'static str) -> &'a Value {
    s.inner.get_prop(name).unwrap()
}

#[test]
fn set_curves_index_arrays() {
    let mut s = save_with(&CURVE_KEYS);
    s.set_curves(&two_curves()).unwrap();
    assert_eq!(prop(&s, "SplineControlPointsIndexStartArray"), &Value::Int32Array(vec![0, 2]));
    assert_eq!(prop(&s, "SplineControlPointsIndexEndArray"), &Value::Int32Array(vec![1, 4]));
    assert_eq!(prop(&s, "SplineVisibilityStartArray"), &Value::Int32Array(vec![0, 1]));
    assert_eq!(prop(&s, "SplineVisibilityEndArray"), &Value::Int32Array(vec![0, 2]));
    assert_eq!(prop(&s, "SplineTypeArray"), &Value::Int32Array(vec![0, 7]));
    assert_eq!(
        prop(&s, "SplineSegmentsVisibilityArray"),
        &Value::BoolArray(vec![true, true, false])
    );
    assert_eq!(s.inner.properties[0].val, Value::String(String::from("test")));
    assert_eq!(s.inner.properties.len(), 10);
}

#[test]
fn curves_survive_write_and_read() {
    let mut s = save_with(&CURVE_KEYS);
    s.set_curves(&two_curves()).unwrap();
    let mut out = Vec::new();
    s.write(&mut out);
    let back = RROSave::read(&out).unwrap();
    assert_eq!(back.curves().unwrap(), two_curves());
    assert_eq!(back.inner, s.inner);
}

#[test]
fn set_curves_needs_every_array() {
    let mut s = save_with(&CURVE_KEYS[..5]);
    let before = s.inner.clone();
    assert_eq!(
        s.set_curves(&two_curves()),
        Err(GVASError::Missing("SplineSegmentsVisibilityArray"))
    );
    assert_eq!(s.inner, before);
}

#[test]
fn curves_of_empty_arrays() {
    let s = save_with(&CURVE_KEYS);
    assert_eq!(s.curves().unwrap(), vec![]);
}

#[test]
fn curves_errors() {
    let s = save_with(&CURVE_KEYS[1..]);
    assert_eq!(s.curves(), Err(GVASError::Missing("SplineLocationArray")));

    let mut s = save_with(&CURVE_KEYS);
    s.inner.set_prop("SplineTypeArray", Value::BoolArray(vec![])).unwrap();
    assert_eq!(s.curves(), Err(GVASError::WrongType));

    let mut s = save_with(&CURVE_KEYS);
    s.set_curves(&two_curves()).unwrap();
    s.inner.set_prop("SplineTypeArray", Value::Int32Array(vec![0])).unwrap();
    assert_eq!(s.curves(), Err(GVASError::Inconsistent));

    let mut s = save_with(&CURVE_KEYS);
    s.set_curves(&two_curves()).unwrap();
    s.inner.set_prop("SplineControlPointsIndexEndArray", Value::Int32Array(vec![1, 9])).unwrap();
    assert_eq!(s.curves(), Err(GVASError::Inconsistent));

    let mut s = save_with(&CURVE_KEYS);
    s.set_curves(&two_curves()).unwrap();
    s.inner.set_prop("SplineTypeArray", Value::Int32Array(vec![0, 8])).unwrap();
    assert_eq!(s.curves(), Err(GVASError::InvalidSplineType));
}

#[test]
fn rotator_arrays_serve_as_locations() {
    let mut s = save_with(&CURVE_KEYS);
    s.set_curves(&two_curves()).unwrap();
    s.inner
        .set_prop("SplineLocationArray", Value::RotatorArray(vec![(1, 1, 1), (2, 2, 2)]))
        .unwrap();
    let c = s.curves().unwrap();
    assert_eq!(c[1].location, (2, 2, 2));
}

#[test]
fn spline_codes() {
    let all = [
        (SplineType::Track, 0),
        (SplineType::GroundWork, 1),
        (SplineType::ConstGroundWork, 2),
        (SplineType::WoodBridge, 3),
        (SplineType::TrackBed, 4),
        (SplineType::StoneGroundWork, 5),
        (SplineType::ConstStoneGroundWork, 6),
        (SplineType::SteelBridge, 7),
    ];
    for (t, c) in all {
        assert_eq!(t.code(), c);
        assert_eq!(SplineType::from_code(c), Some(t));
    }
    assert_eq!(SplineType::from_code(8), None);
}

#[test]
fn missing_property_lookup() {
    let s = save_with(&[]);
    assert_eq!(s.inner.get_prop("Nothing"), Err(GVASError::Missing("Nothing")));
    let mut f = s.inner.clone();
    assert_eq!(f.set_prop("Nothing", Value::Empty), Err(GVASError::Missing("Nothing")));
    assert_eq!(f, s.inner);
}

#[test]
fn loaded_curves_keep_index_invariant() {
    let mut s = save_with(&CURVE_KEYS);
    s.set_curves(&two_curves()).unwrap();
    let mut out = Vec::new();
    s.write(&mut out);
    let back = RROSave::read(&out).unwrap();
    for c in back.curves().unwrap() {
        assert!(c.control_points.len() >= 2);
        assert_eq!(c.visibility.len(), c.control_points.len() - 1);
    }
}

#[test]
fn single_point_curve_is_inconsistent() {
    let mut s = save_with(&CURVE_KEYS);
    s.inner.set_prop("SplineLocationArray", Value::VectorArray(vec![(0, 0, 0)])).unwrap();
    s.inner.set_prop("SplineTypeArray", Value::Int32Array(vec![0])).unwrap();
    s.inner.set_prop("SplineControlPointsArray", Value::VectorArray(vec![(0, 0, 0)])).unwrap();
    s.inner.set_prop("SplineControlPointsIndexStartArray", Value::Int32Array(vec![0])).unwrap();
    s.inner.set_prop("SplineControlPointsIndexEndArray", Value::Int32Array(vec![0])).unwrap();
    s.inner.set_prop("SplineSegmentsVisibilityArray", Value::BoolArray(vec![true])).unwrap();
    s.inner.set_prop("SplineVisibilityStartArray", Value::Int32Array(vec![0])).unwrap();
    s.inner.set_prop("SplineVisibilityEndArray", Value::Int32Array(vec![0])).unwrap();
    assert_eq!(s.curves(), Err(GVASError::Inconsistent));
}

#[test]
fn to_bytes_matches_write() {
    let mut s = save_with(&CURVE_KEYS);
    s.set_curves(&two_curves()).unwrap();
    let mut out = Vec::new();
    s.write(&mut out);
    assert_eq!(s.to_bytes(), Some(out));
    assert!(s.inner.encodable());
}
