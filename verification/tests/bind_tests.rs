use kdl_bind::asset_ref::{AssetCatalog, AssetName, AssetKind, AssetRef};
use kdl_bind::doc::{KdlDocument, KdlEntry, KdlNode, KdlValue, Span};
use kdl_bind::level::{SerialAlign, SerialLevel, SerialPlaneType};
use kdl_bind::num::Number;

fn s(x: &str) -> String {
    x.to_string()
}

fn sp() -> Span {
    Span::new(0, 0)
}

fn node(name: &str, entries: Vec<KdlEntry>, children: Option<KdlDocument>) -> KdlNode {
    KdlNode::new(s(name), entries, children, sp())
}

fn doc(nodes: Vec<KdlNode>) -> KdlDocument {
    KdlDocument::new(nodes)
}

fn arg_int(v: i64) -> KdlEntry {
    KdlEntry::arg(KdlValue::Integer(v), sp())
}

fn arg_str(v: &str) -> KdlEntry {
    KdlEntry::arg(KdlValue::String(s(v)), sp())
}

fn prop_str(k: &str, v: &str) -> KdlEntry {
    KdlEntry::prop(s(k), KdlValue::String(s(v)), sp())
}

fn empty_transform() -> Option<KdlDocument> {
    Some(doc(vec![]))
}

fn spawn_finish() -> Vec<KdlNode> {
    vec![
        node("spawn", vec![], empty_transform()),
        node("finish", vec![], empty_transform()),
    ]
}

fn catalog() -> AssetCatalog {
    AssetCatalog::empty()
}

fn must_bind(d: &KdlDocument) -> SerialLevel {
    SerialLevel::bind(d, &catalog(), &s("")).expect("expected a successful bind")
}

#[test]
fn minimal_level_binds() {
    let d = doc(spawn_finish());
    let level = must_bind(&d);
    assert!(level.default_music.is_none());
    assert!(level.planes.is_empty());
    assert!(level.texts.is_empty());
}

#[test]
fn missing_spawn_and_finish_both_reported() {
    let d = doc(vec![]);
    let err = SerialLevel::bind(&d, &catalog(), &s("")).unwrap_err();
    assert_eq!(err.diagnostics.len(), 2);
    assert_eq!(
        err.diagnostics[0].message.as_deref(),
        Some("Missing element 'spawn'")
    );
    assert_eq!(
        err.diagnostics[1].message.as_deref(),
        Some("Missing element 'finish'")
    );
    assert!(err.is_failure());
}

#[test]
fn two_invalid_siblings_of_different_kinds_both_reported() {
    // One malformed plane (no size argument) and one malformed text (no
    // text argument): a single bind call reports both.
    let mut nodes = spawn_finish();
    nodes.push(node("plane", vec![], None));
    nodes.push(node("text", vec![], None));
    let d = doc(nodes);
    let err = SerialLevel::bind(&d, &catalog(), &s("")).unwrap_err();
    assert_eq!(err.diagnostics.len(), 2);
    assert_eq!(
        err.diagnostics[0].message.as_deref(),
        Some("Element missing argument 0")
    );
    assert_eq!(
        err.diagnostics[1].message.as_deref(),
        Some("Element missing argument 0")
    );
}

#[test]
fn all_failures_in_one_pass() {
    // Three independently-invalid fields across two sibling nodes.
    let mut nodes = spawn_finish();
    // plane with a boolean size and a bad type variant: two diagnostics
    nodes.push(node(
        "plane",
        vec![
            KdlEntry::arg(KdlValue::Bool(true), sp()),
            prop_str("type", "bouncy"),
        ],
        None,
    ));
    // text with no argument: one diagnostic
    nodes.push(node("text", vec![], None));
    let d = doc(nodes);
    let err = SerialLevel::bind(&d, &catalog(), &s("")).unwrap_err();
    assert_eq!(err.diagnostics.len(), 3);
    assert_eq!(
        err.diagnostics[0].message.as_deref(),
        Some("Element value has type bool but should have been either integer or float")
    );
    assert_eq!(
        err.diagnostics[1].message.as_deref(),
        Some("Invalid variant provided: 'bouncy', the allowed variants are 'static' and 'death'")
    );
    assert_eq!(
        err.diagnostics[2].message.as_deref(),
        Some("Element missing argument 0")
    );
}

fn rich_level() -> KdlDocument {
    let mut nodes = spawn_finish();
    nodes.push(node("music", vec![arg_str("track.ogg")], None));
    nodes.push(node("plane", vec![arg_int(8), arg_int(4)], None));
    nodes.push(node(
        "text",
        vec![arg_str("hello"), prop_str("align", "left")],
        None,
    ));
    nodes.push(node("button", vec![arg_str("red")], None));
    doc(nodes)
}

#[test]
fn binding_twice_yields_equal_descriptors() {
    let a = must_bind(&rich_level());
    let b = must_bind(&rich_level());
    assert_eq!(a, b);
}

#[test]
fn plane_sizes_and_second_size_falls_back() {
    let mut nodes = spawn_finish();
    nodes.push(node("plane", vec![arg_int(8)], None));
    let level = must_bind(&doc(nodes));
    assert_eq!(level.planes.len(), 1);
    assert_eq!(level.planes[0].width, Number::Int(8));
    assert_eq!(level.planes[0].length, Number::Int(8));
}

#[test]
fn plane_without_type_is_static() {
    let mut nodes = spawn_finish();
    nodes.push(node("plane", vec![arg_int(8)], None));
    let level = must_bind(&doc(nodes));
    assert_eq!(level.planes[0].ty, SerialPlaneType::Static);
}

#[test]
fn plane_death_type_is_kept() {
    let mut nodes = spawn_finish();
    nodes.push(node(
        "plane",
        vec![arg_int(8), prop_str("type", "death")],
        None,
    ));
    let level = must_bind(&doc(nodes));
    assert_eq!(level.planes[0].ty, SerialPlaneType::Death);
}

#[test]
fn text_without_align_is_centered() {
    let mut nodes = spawn_finish();
    nodes.push(node("text", vec![arg_str("hi")], None));
    let level = must_bind(&doc(nodes));
    assert_eq!(level.texts[0].align, SerialAlign::Center);
}

#[test]
fn text_defaults() {
    let mut nodes = spawn_finish();
    nodes.push(node("text", vec![arg_str("hi")], None));
    let level = must_bind(&doc(nodes));
    let text = &level.texts[0];
    assert_eq!(text.text, "hi");
    // 64 points, carried as the bits of the double 64.0
    assert_eq!(text.pt, Number::Float((64.0f64).to_bits()));
    assert_eq!(text.font, AssetRef::Preload(s("text")));
    assert_eq!(text.material, AssetRef::Preload(s("glow-text")));
}

#[test]
fn missing_builtin_font_fails_with_resolution_diagnostic() {
    let mut nodes = spawn_finish();
    nodes.push(node(
        "text",
        vec![arg_str("hi"), prop_str("font", "builtin:does-not-exist")],
        None,
    ));
    let err = SerialLevel::bind(&doc(nodes), &catalog(), &s("")).unwrap_err();
    assert_eq!(err.diagnostics.len(), 1);
    assert_eq!(
        err.diagnostics[0].message.as_deref(),
        Some(
            "Element value parsing error: No builtin with type 'font' and name 'does-not-exist'"
        )
    );
}

#[test]
fn present_builtin_font_resolves() {
    let mut nodes = spawn_finish();
    nodes.push(node(
        "text",
        vec![arg_str("hi"), prop_str("font", "builtin:pixel")],
        None,
    ));
    let cat = AssetCatalog::new(
        vec![AssetName::new(AssetKind::Font, s("pixel"))],
        vec![],
    );
    let level = SerialLevel::bind(&doc(nodes), &cat, &s("")).unwrap();
    assert_eq!(level.texts[0].font, AssetRef::Builtin(s("pixel")));
}

#[test]
fn relative_path_material_resolves_to_path() {
    let mut nodes = spawn_finish();
    nodes.push(node(
        "plane",
        vec![arg_int(8), prop_str("material", "materials/steel.json")],
        None,
    ));
    let level = must_bind(&doc(nodes));
    assert_eq!(
        level.planes[0].material,
        AssetRef::Path(s("materials/steel.json"))
    );
}

#[test]
fn music_binds_audio_path() {
    let level = must_bind(&rich_level());
    let music = level.default_music.expect("music bound");
    assert_eq!(music.audio, AssetRef::Path(s("track.ogg")));
}

#[test]
fn button_door_binds_and_reports_all_missing_parts() {
    let mut nodes = spawn_finish();
    nodes.push(node("button_door", vec![], None));
    let err = SerialLevel::bind(&doc(nodes), &catalog(), &s("")).unwrap_err();
    // name, default child, open child, size child all missing
    assert_eq!(err.diagnostics.len(), 4);
    assert_eq!(
        err.diagnostics[0].message.as_deref(),
        Some("Element missing argument 0")
    );
    assert_eq!(
        err.diagnostics[1].message.as_deref(),
        Some("Element has no children")
    );
}

#[test]
fn complete_button_door_binds() {
    let mut nodes = spawn_finish();
    nodes.push(node(
        "button_door",
        vec![arg_str("red")],
        Some(doc(vec![
            node("default", vec![], empty_transform()),
            node("open", vec![], empty_transform()),
            node("size", vec![arg_int(2), arg_int(3), arg_int(1)], None),
        ])),
    ));
    let level = must_bind(&doc(nodes));
    assert_eq!(level.button_doors.len(), 1);
    assert_eq!(level.button_doors[0].name, "red");
    assert_eq!(level.button_doors[0].dimensions.x, Number::Int(2));
    assert_eq!(level.button_doors[0].dimensions.y, Number::Int(3));
    assert_eq!(level.button_doors[0].dimensions.z, Number::Int(1));
}

#[test]
fn rightmost_property_wins() {
    let mut nodes = spawn_finish();
    nodes.push(node(
        "plane",
        vec![
            arg_int(8),
            prop_str("type", "static"),
            prop_str("type", "death"),
        ],
        None,
    ));
    let level = must_bind(&doc(nodes));
    assert_eq!(level.planes[0].ty, SerialPlaneType::Death);
}

#[test]
fn positional_arguments_skip_properties() {
    let mut nodes = spawn_finish();
    // the property sits between the two positional sizes
    nodes.push(node(
        "plane",
        vec![arg_int(8), prop_str("type", "death"), arg_int(4)],
        None,
    ));
    let level = must_bind(&doc(nodes));
    assert_eq!(level.planes[0].width, Number::Int(8));
    assert_eq!(level.planes[0].length, Number::Int(4));
    assert_eq!(level.planes[0].ty, SerialPlaneType::Death);
}

#[test]
fn categories_bind_in_document_order() {
    let mut nodes = spawn_finish();
    nodes.push(node("plane", vec![arg_int(1)], None));
    nodes.push(node("text", vec![arg_str("between")], None));
    nodes.push(node("plane", vec![arg_int(2)], None));
    let level = must_bind(&doc(nodes));
    assert_eq!(level.planes.len(), 2);
    assert_eq!(level.planes[0].width, Number::Int(1));
    assert_eq!(level.planes[1].width, Number::Int(2));
}

#[test]
fn cuboid_binds_size_and_default_material() {
    let mut nodes = spawn_finish();
    nodes.push(node(
        "cuboid",
        vec![],
        Some(doc(vec![node(
            "size",
            vec![arg_int(4), arg_int(5), arg_int(6)],
            None,
        )])),
    ));
    let level = must_bind(&doc(nodes));
    assert_eq!(level.cuboids.len(), 1);
    assert_eq!(level.cuboids[0].dimensions.x, Number::Int(4));
    assert_eq!(level.cuboids[0].dimensions.y, Number::Int(5));
    assert_eq!(level.cuboids[0].dimensions.z, Number::Int(6));
    assert_eq!(level.cuboids[0].material, AssetRef::Preload(s("default-plane")));
}

#[test]
fn cuboid_without_children_reports_missing_size() {
    let mut nodes = spawn_finish();
    nodes.push(node("cuboid", vec![], None));
    let err = SerialLevel::bind(&doc(nodes), &catalog(), &s("")).unwrap_err();
    // the required size child has no node to live in; the transform is
    // optional and falls back to the identity
    assert_eq!(err.diagnostics.len(), 1);
    assert_eq!(
        err.diagnostics[0].message.as_deref(),
        Some("Element has no children")
    );
}

#[test]
fn triggered_music_binds_audio_size_and_transform() {
    let mut nodes = spawn_finish();
    nodes.push(node(
        "triggered_music",
        vec![arg_str("zone.ogg")],
        Some(doc(vec![
            node("size", vec![arg_int(5)], None),
            node("pos", vec![arg_int(1), arg_int(2), arg_int(3)], None),
        ])),
    ));
    let level = must_bind(&doc(nodes));
    assert_eq!(level.triggered_music.len(), 1);
    let zone = &level.triggered_music[0];
    assert_eq!(zone.audio, AssetRef::Path(s("zone.ogg")));
    // one size component fills all three half-extents
    assert_eq!(zone.dimensions.x, Number::Int(5));
    assert_eq!(zone.dimensions.y, Number::Int(5));
    assert_eq!(zone.dimensions.z, Number::Int(5));
    assert_eq!(zone.trans.translation.x, Number::Int(1));
}
