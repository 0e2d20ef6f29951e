use kdl_bind::asset_ref::AssetCatalog;
use kdl_bind::doc::{KdlDocument, KdlEntry, KdlNode, KdlValue, Span};
use kdl_bind::level::{DynamicObjectType, SerialLevel};
use kdl_bind::num::Number;
use kdl_bind::spawn::{ColliderShape, MeshShape, SpawnStep};

fn s(x: &str) -> String {
    x.to_string()
}

fn sp() -> Span {
    Span::new(0, 0)
}

fn node(name: &str, entries: Vec<KdlEntry>, children: Option<KdlDocument>) -> KdlNode {
    KdlNode::new(s(name), entries, children, sp())
}

fn doc(nodes: Vec<KdlNode>) -> KdlDocument {
    KdlDocument::new(nodes)
}

fn arg_int(v: i64) -> KdlEntry {
    KdlEntry::arg(KdlValue::Integer(v), sp())
}

fn arg_str(v: &str) -> KdlEntry {
    KdlEntry::arg(KdlValue::String(s(v)), sp())
}

fn prop_str(k: &str, v: &str) -> KdlEntry {
    KdlEntry::prop(s(k), KdlValue::String(s(v)), sp())
}

fn empty_transform() -> Option<KdlDocument> {
    Some(doc(vec![]))
}

fn spawn_finish() -> Vec<KdlNode> {
    vec![
        node("spawn", vec![], empty_transform()),
        node("finish", vec![], empty_transform()),
    ]
}

fn door(name: &str) -> KdlNode {
    node(
        "button_door",
        vec![arg_str(name)],
        Some(doc(vec![
            node("default", vec![], empty_transform()),
            node("open", vec![], empty_transform()),
            node("size", vec![arg_int(1)], None),
        ])),
    )
}

fn must_bind(d: &KdlDocument) -> SerialLevel {
    SerialLevel::bind(d, &AssetCatalog::empty(), &s("")).expect("expected a successful bind")
}

#[test]
fn cube_with_size_gets_box_collider_with_those_extents() {
    let mut nodes = spawn_finish();
    nodes.push(node(
        "dyn",
        vec![prop_str("type", "cube")],
        Some(doc(vec![node(
            "size",
            vec![arg_int(1), arg_int(2), arg_int(3)],
            None,
        )])),
    ));
    let level = must_bind(&doc(nodes));
    let obj = &level.dynamic_objects[0];
    assert_eq!(obj.ty, DynamicObjectType::Cube);
    let collider = obj.ty.to_collider(obj.dimensions);
    assert_eq!(
        collider,
        ColliderShape::Cuboid { x: Number::Int(1), y: Number::Int(2), z: Number::Int(3) }
    );
    // the mesh agrees: a cuboid of the same extents, not a sphere
    let mesh = obj.ty.to_mesh(obj.dimensions);
    assert_eq!(mesh, MeshShape::Cuboid { dimensions: obj.dimensions });
}

#[test]
fn sphere_gets_sphere_collider_of_first_component() {
    let mut nodes = spawn_finish();
    nodes.push(node(
        "dyn",
        vec![],
        Some(doc(vec![node("size", vec![arg_int(2)], None)])),
    ));
    let level = must_bind(&doc(nodes));
    let obj = &level.dynamic_objects[0];
    assert_eq!(obj.ty, DynamicObjectType::Sphere);
    assert_eq!(
        obj.ty.to_collider(obj.dimensions),
        ColliderShape::Sphere { radius: Number::Int(2) }
    );
}

#[test]
fn dynamic_object_without_size_is_uniform_quarter() {
    let mut nodes = spawn_finish();
    nodes.push(node("dyn", vec![], None));
    let level = must_bind(&doc(nodes));
    let quarter = Number::Float((0.25f64).to_bits());
    assert_eq!(level.dynamic_objects[0].dimensions.x, quarter);
    assert_eq!(level.dynamic_objects[0].dimensions.y, quarter);
    assert_eq!(level.dynamic_objects[0].dimensions.z, quarter);
}

#[test]
fn unmatched_door_binds_but_is_uncontrolled() {
    let mut nodes = spawn_finish();
    nodes.push(node("button", vec![arg_str("blue")], None));
    nodes.push(door("red"));
    let level = must_bind(&doc(nodes));
    let plan = level.spawn_plan(true);
    let step = plan
        .iter()
        .find(|s| matches!(s, SpawnStep::ButtonDoor { .. }))
        .expect("a door step");
    assert_eq!(*step, SpawnStep::ButtonDoor { index: 0, controlled_by: None });
}

#[test]
fn matched_door_is_controlled_by_last_button_of_that_name() {
    let mut nodes = spawn_finish();
    nodes.push(node("button", vec![arg_str("red")], None));
    nodes.push(node("button", vec![arg_str("blue")], None));
    nodes.push(node("button", vec![arg_str("red")], None));
    nodes.push(door("red"));
    let level = must_bind(&doc(nodes));
    let plan = level.spawn_plan(true);
    let step = plan
        .iter()
        .find(|s| matches!(s, SpawnStep::ButtonDoor { .. }))
        .expect("a door step");
    // a later button under the same name replaces the earlier one
    assert_eq!(*step, SpawnStep::ButtonDoor { index: 0, controlled_by: Some(2) });
}

#[test]
fn plan_order_and_dyn_flag() {
    let mut nodes = spawn_finish();
    nodes.push(node("music", vec![arg_str("a.ogg")], None));
    nodes.push(node("plane", vec![arg_int(8)], None));
    nodes.push(node("text", vec![arg_str("hi")], None));
    nodes.push(node("button", vec![arg_str("b")], None));
    nodes.push(door("b"));
    nodes.push(node("dyn", vec![], None));
    let level = must_bind(&doc(nodes));

    let plan = level.spawn_plan(true);
    assert_eq!(
        plan,
        vec![
            SpawnStep::SpawnPoint,
            SpawnStep::FinishPoint,
            SpawnStep::DefaultMusic,
            SpawnStep::Plane(0),
            SpawnStep::Text(0),
            SpawnStep::Button(0),
            SpawnStep::ButtonDoor { index: 0, controlled_by: Some(0) },
            SpawnStep::DynamicObject(0),
        ]
    );

    // on a respawn-from-checkpoint pass the dynamic objects are skipped
    let respawn_plan = level.spawn_plan(false);
    assert!(!respawn_plan
        .iter()
        .any(|s| matches!(s, SpawnStep::DynamicObject(_))));
    assert_eq!(respawn_plan.len(), plan.len() - 1);
}
