use kdl_bind::doc::{KdlDocument, KdlEntry, KdlNode, KdlValue, Span};
use kdl_bind::kdl_utils::{KdlAxis, Rotation, Transform};
use kdl_bind::num::{Number, Vec3};

fn s(x: &str) -> String {
    x.to_string()
}

fn sp() -> Span {
    Span::new(0, 0)
}

fn node(name: &str, entries: Vec<KdlEntry>, children: Option<KdlDocument>) -> KdlNode {
    KdlNode::new(s(name), entries, children, sp())
}

fn doc(nodes: Vec<KdlNode>) -> KdlDocument {
    KdlDocument::new(nodes)
}

fn arg_int(v: i64) -> KdlEntry {
    KdlEntry::arg(KdlValue::Integer(v), sp())
}

fn arg_str(v: &str) -> KdlEntry {
    KdlEntry::arg(KdlValue::String(s(v)), sp())
}

fn number_to_f32(n: Number) -> f32 {
    match n {
        Number::Int(i) => i as f64 as f32,
        Number::Float(bits) => f64::from_bits(bits) as f32,
    }
}

/// A quaternion, for checking the documented composition convention.
#[derive(Debug, Clone, Copy, PartialEq)]
struct Quaternion {
    x: f32,
    y: f32,
    z: f32,
    w: f32,
}

fn quat_identity() -> Quaternion {
    Quaternion { x: 0.0, y: 0.0, z: 0.0, w: 1.0 }
}

fn quat_mul(a: Quaternion, b: Quaternion) -> Quaternion {
    Quaternion {
        w: a.w * b.w - a.x * b.x - a.y * b.y - a.z * b.z,
        x: a.w * b.x + a.x * b.w + a.y * b.z - a.z * b.y,
        y: a.w * b.y - a.x * b.z + a.y * b.w + a.z * b.x,
        z: a.w * b.z + a.x * b.y - a.y * b.x + a.z * b.w,
    }
}

fn quat_from_rotation(r: Rotation) -> Quaternion {
    let angle = number_to_f32(r.angle) as f64 * std::f64::consts::PI / 180.0;
    let half = (angle / 2.0) as f32;
    let (sin, cos) = (half.sin(), half.cos());
    match r.axis {
        KdlAxis::X => Quaternion { x: sin, y: 0.0, z: 0.0, w: cos },
        KdlAxis::Y => Quaternion { x: 0.0, y: sin, z: 0.0, w: cos },
        KdlAxis::Z => Quaternion { x: 0.0, y: 0.0, z: sin, w: cos },
    }
}

/// The documented composition: fold `accum = rotation_i * accum` over the
/// bound list in order, so the last-declared rotation is outermost.
fn compose(t: &Transform) -> Quaternion {
    let mut accum = quat_identity();
    for r in t.rotations.iter() {
        accum = quat_mul(quat_from_rotation(*r), accum);
    }
    accum
}

fn transform_doc() -> KdlDocument {
    doc(vec![
        node("pos", vec![arg_int(1), arg_int(2), arg_int(3)], None),
        node("scale", vec![arg_int(2)], None),
        node("rot", vec![arg_str("y"), arg_int(90)], None),
        node("rot", vec![arg_str("x"), arg_int(90)], None),
    ])
}

#[test]
fn transform_reads_pos_scale_and_rotations_in_order() {
    let t = transform_doc().get_transform(&s("")).unwrap();
    assert_eq!(t.translation, Vec3 { x: Number::Int(1), y: Number::Int(2), z: Number::Int(3) });
    // uniform-scale shorthand: one component fills all three
    assert_eq!(t.scale, Vec3 { x: Number::Int(2), y: Number::Int(2), z: Number::Int(2) });
    assert_eq!(
        t.rotations,
        vec![
            Rotation { axis: KdlAxis::Y, angle: Number::Int(90) },
            Rotation { axis: KdlAxis::X, angle: Number::Int(90) },
        ]
    );
}

#[test]
fn declared_last_rotation_is_applied_outermost() {
    let t = transform_doc().get_transform(&s("")).unwrap();
    let composed = compose(&t);
    // The x-rotation was declared last, so it is the outer factor:
    // qx * qy == (0.5, 0.5, 0.5, 0.5) exactly for two 90-degree turns.
    let qy = quat_from_rotation(Rotation { axis: KdlAxis::Y, angle: Number::Int(90) });
    let qx = quat_from_rotation(Rotation { axis: KdlAxis::X, angle: Number::Int(90) });
    let reference = quat_mul(qx, qy);
    assert_eq!(composed, reference);
    // numerically, that composition is (0.5, 0.5, 0.5, 0.5)
    assert!((composed.x - 0.5).abs() < 1e-6);
    assert!((composed.y - 0.5).abs() < 1e-6);
    assert!((composed.z - 0.5).abs() < 1e-6);
    assert!((composed.w - 0.5).abs() < 1e-6);
    // and not the other order, whose z component is negative
    let swapped = quat_mul(qy, qx);
    assert_ne!(composed, swapped);
    assert!((swapped.z + 0.5).abs() < 1e-6);
}

#[test]
fn empty_transform_document_is_identity() {
    let t = doc(vec![]).get_transform(&s("")).unwrap();
    assert_eq!(t.translation, Vec3 { x: Number::Int(0), y: Number::Int(0), z: Number::Int(0) });
    assert_eq!(t.scale, Vec3 { x: Number::Int(1), y: Number::Int(1), z: Number::Int(1) });
    assert!(t.rotations.is_empty());
}

#[test]
fn scale_uses_given_components() {
    let d = doc(vec![node(
        "scale",
        vec![arg_int(2), arg_int(3)],
        None,
    )]);
    let t = d.get_transform(&s("")).unwrap();
    // missing trailing component falls back to the first value
    assert_eq!(t.scale, Vec3 { x: Number::Int(2), y: Number::Int(3), z: Number::Int(2) });
}

#[test]
fn bad_rotation_axis_lists_the_axes() {
    let d = doc(vec![node("rot", vec![arg_str("w"), arg_int(90)], None)]);
    let err = d.get_transform(&s("")).unwrap_err();
    assert_eq!(err.diagnostics.len(), 1);
    assert_eq!(
        err.diagnostics[0].message.as_deref(),
        Some("Invalid variant provided: 'w', the allowed variants are 'x', 'y', 'z'")
    );
}

#[test]
fn every_bad_rotation_is_reported() {
    let d = doc(vec![
        node("rot", vec![arg_str("w"), arg_int(90)], None),
        node("pos", vec![arg_int(1), arg_int(2), arg_int(3)], None),
        node("rot", vec![arg_str("y")], None),
    ]);
    let err = d.get_transform(&s("")).unwrap_err();
    assert_eq!(err.diagnostics.len(), 2);
    assert_eq!(
        err.diagnostics[1].message.as_deref(),
        Some("Element missing argument 1")
    );
}

#[test]
fn float_components_survive_bit_for_bit() {
    let d = doc(vec![node(
        "pos",
        vec![
            KdlEntry::arg(KdlValue::Float((1.5f64).to_bits()), sp()),
            arg_int(2),
            KdlEntry::arg(KdlValue::Float((-0.125f64).to_bits()), sp()),
        ],
        None,
    )]);
    let t = d.get_transform(&s("")).unwrap();
    assert_eq!(t.translation.x, Number::Float((1.5f64).to_bits()));
    assert_eq!(t.translation.y, Number::Int(2));
    assert_eq!(t.translation.z, Number::Float((-0.125f64).to_bits()));
}
