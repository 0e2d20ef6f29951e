//! The per-entity binders and the level descriptor.
//!
//! One binder per level-object kind turns a node into a typed descriptor or
//! fails with diagnostics; the top-level bind collects one result per
//! category and merges them all, so a document reports every failure in a
//! single pass.

use crate::asset_ref::{
    spec_default_font, spec_default_plane_material, spec_default_text_material,
    default_font, default_plane_material, default_text_material, AssetCatalog, AssetKind, AssetRef,
    AssetRefView,
};
use crate::doc::{spec_first_node, str_eq_string, KdlDocument, KdlNode, KeyView, NodeKey};
use crate::error::{
    merge2, merge3, merge4, merge5, merge_vec, result_corresponds, spec_err2_view, spec_err3_view,
    spec_err4_view, spec_err5_view, spec_err6_view, spec_err_diags, spec_err_diags_v,
    spec_leaf_error, spec_merge_views, spec_missing_element_msg, spec_no_children_msg,
    lemma_merge_vec_bridge, ErrorView, KdlBindError,
};
use crate::kdl_utils::{
    spec_get_handle, spec_get_number, spec_get_transform, spec_get_variant, spec_must_get_handle,
    spec_must_get_number, spec_must_get_scale, spec_must_get_string, Transform, TransformView,
};
use crate::num::{Number, Vec3, BITS_0_25, BITS_64_0};
use vstd::prelude::*;

verus! {

/// The default text point size, as a carried number.
pub open spec fn spec_default_text_pt() -> Number {
    Number::Float(BITS_64_0)
}

/// The default dynamic-object size: uniform one quarter.
pub open spec fn spec_default_dynamic_size() -> Vec3 {
    Vec3 { x: Number::Float(BITS_0_25), y: Number::Float(BITS_0_25), z: Number::Float(BITS_0_25) }
}

/// What a plane spawns as: a rigid surface, or an invisible volume that
/// kills on contact.
#[derive(Debug, Clone, Copy, PartialEq, Eq, Structural)]
pub enum SerialPlaneType {
    Static,
    Death,
}

impl Default for SerialPlaneType {
    /// A plane with no `type` entry is static.
    fn default() -> (r: SerialPlaneType)
        ensures
            r == SerialPlaneType::Static,
    {
        SerialPlaneType::Static
    }
}

/// The names under which a plane type is written in a document.
pub open spec fn spec_plane_type_names() -> Seq<Seq<char>> {
    seq!["static"@, "death"@]
}

/// The plane type at a position of the variant-name list.
pub open spec fn spec_plane_type_of_index(i: int) -> SerialPlaneType {
    if i == 0 {
        SerialPlaneType::Static
    } else {
        SerialPlaneType::Death
    }
}

impl SerialPlaneType {
    pub fn variant_names() -> (v: Vec<String>)
        ensures
            v.deep_view() == spec_plane_type_names(),
    {
        let mut v: Vec<String> = Vec::new();
        v.push("static".to_owned());
        v.push("death".to_owned());
        proof {
            assert(v.deep_view() =~= spec_plane_type_names());
        }
        v
    }

    pub fn from_index(i: usize) -> (r: SerialPlaneType)
        requires
            i < 2,
        ensures
            r == spec_plane_type_of_index(i as int),
    {
        if i == 0 {
            SerialPlaneType::Static
        } else {
            SerialPlaneType::Death
        }
    }
}

/// How a floating text is aligned.
#[derive(Debug, Clone, Copy, PartialEq, Eq, Structural)]
pub enum SerialAlign {
    Left,
    Center,
    Right,
}

impl Default for SerialAlign {
    /// A text with no `align` entry is centered.
    fn default() -> (r: SerialAlign)
        ensures
            r == SerialAlign::Center,
    {
        SerialAlign::Center
    }
}

/// The names under which an alignment is written in a document.
pub open spec fn spec_align_names() -> Seq<Seq<char>> {
    seq!["left"@, "center"@, "right"@]
}

/// The alignment at a position of the variant-name list.
pub open spec fn spec_align_of_index(i: int) -> SerialAlign {
    if i == 0 {
        SerialAlign::Left
    } else if i == 1 {
        SerialAlign::Center
    } else {
        SerialAlign::Right
    }
}

impl SerialAlign {
    pub fn variant_names() -> (v: Vec<String>)
        ensures
            v.deep_view() == spec_align_names(),
    {
        let mut v: Vec<String> = Vec::new();
        v.push("left".to_owned());
        v.push("center".to_owned());
        v.push("right".to_owned());
        proof {
            assert(v.deep_view() =~= spec_align_names());
        }
        v
    }

    pub fn from_index(i: usize) -> (r: SerialAlign)
        requires
            i < 3,
        ensures
            r == spec_align_of_index(i as int),
    {
        if i == 0 {
            SerialAlign::Left
        } else if i == 1 {
            SerialAlign::Center
        } else {
            SerialAlign::Right
        }
    }
}

/// The shape of a dynamic object, which fixes both its mesh and its
/// collider.
#[derive(Debug, Clone, Copy, PartialEq, Eq, Hash, Structural)]
pub enum DynamicObjectType {
    Sphere,
    Cube,
}

impl Default for DynamicObjectType {
    /// A dynamic object with no `type` entry is a sphere.
    fn default() -> (r: DynamicObjectType)
        ensures
            r == DynamicObjectType::Sphere,
    {
        DynamicObjectType::Sphere
    }
}

/// The names under which a dynamic-object type is written in a document.
pub open spec fn spec_dynamic_type_names() -> Seq<Seq<char>> {
    seq!["sphere"@, "cube"@]
}

/// The dynamic-object type at a position of the variant-name list.
pub open spec fn spec_dynamic_type_of_index(i: int) -> DynamicObjectType {
    if i == 0 {
        DynamicObjectType::Sphere
    } else {
        DynamicObjectType::Cube
    }
}

impl DynamicObjectType {
    pub fn variant_names() -> (v: Vec<String>)
        ensures
            v.deep_view() == spec_dynamic_type_names(),
    {
        let mut v: Vec<String> = Vec::new();
        v.push("sphere".to_owned());
        v.push("cube".to_owned());
        proof {
            assert(v.deep_view() =~= spec_dynamic_type_names());
        }
        v
    }

    pub fn from_index(i: usize) -> (r: DynamicObjectType)
        requires
            i < 2,
        ensures
            r == spec_dynamic_type_of_index(i as int),
    {
        if i == 0 {
            DynamicObjectType::Sphere
        } else {
            DynamicObjectType::Cube
        }
    }
}

/// The level's background music: one audio asset.
#[derive(Debug, Clone, PartialEq)]
pub struct SerialMusic {
    pub audio: AssetRef,
}

#[verifier::ext_equal]
pub struct MusicView {
    pub audio: AssetRefView,
}

impl View for SerialMusic {
    type V = MusicView;

    open spec fn view(&self) -> MusicView {
        MusicView { audio: self.audio@ }
    }
}

impl DeepView for SerialMusic {
    type V = MusicView;

    open spec fn deep_view(&self) -> MusicView {
        self.view()
    }
}

/// A music zone: an audio asset played inside a trigger volume.
#[derive(Debug, Clone, PartialEq)]
pub struct SerialTriggeredMusic {
    pub audio: AssetRef,
    pub dimensions: Vec3,
    pub trans: Transform,
}

#[verifier::ext_equal]
pub struct TriggeredMusicView {
    pub audio: AssetRefView,
    pub dimensions: Vec3,
    pub trans: TransformView,
}

impl View for SerialTriggeredMusic {
    type V = TriggeredMusicView;

    open spec fn view(&self) -> TriggeredMusicView {
        TriggeredMusicView { audio: self.audio@, dimensions: self.dimensions, trans: self.trans@ }
    }
}

impl DeepView for SerialTriggeredMusic {
    type V = TriggeredMusicView;

    open spec fn deep_view(&self) -> TriggeredMusicView {
        self.view()
    }
}

/// A ground or death plane.
#[derive(Debug, Clone, PartialEq)]
pub struct SerialPlane {
    pub width: Number,
    pub length: Number,
    pub trans: Transform,
    pub material: AssetRef,
    pub ty: SerialPlaneType,
}

#[verifier::ext_equal]
pub struct PlaneView {
    pub width: Number,
    pub length: Number,
    pub trans: TransformView,
    pub material: AssetRefView,
    pub ty: SerialPlaneType,
}

impl View for SerialPlane {
    type V = PlaneView;

    open spec fn view(&self) -> PlaneView {
        PlaneView {
            width: self.width,
            length: self.length,
            trans: self.trans@,
            material: self.material@,
            ty: self.ty,
        }
    }
}

impl DeepView for SerialPlane {
    type V = PlaneView;

    open spec fn deep_view(&self) -> PlaneView {
        self.view()
    }
}

/// A static box.
#[derive(Debug, Clone, PartialEq)]
pub struct SerialCuboid {
    pub material: AssetRef,
    pub dimensions: Vec3,
    pub trans: Transform,
}

#[verifier::ext_equal]
pub struct CuboidView {
    pub material: AssetRefView,
    pub dimensions: Vec3,
    pub trans: TransformView,
}

impl View for SerialCuboid {
    type V = CuboidView;

    open spec fn view(&self) -> CuboidView {
        CuboidView { material: self.material@, dimensions: self.dimensions, trans: self.trans@ }
    }
}

impl DeepView for SerialCuboid {
    type V = CuboidView;

    open spec fn deep_view(&self) -> CuboidView {
        self.view()
    }
}

/// A floating text.
#[derive(Debug, Clone, PartialEq)]
pub struct SerialText {
    pub text: String,
    pub trans: Transform,
    pub material: AssetRef,
    pub pt: Number,
    pub font: AssetRef,
    pub align: SerialAlign,
}

#[verifier::ext_equal]
pub struct TextView {
    pub text: Seq<char>,
    pub trans: TransformView,
    pub material: AssetRefView,
    pub pt: Number,
    pub font: AssetRefView,
    pub align: SerialAlign,
}

impl View for SerialText {
    type V = TextView;

    open spec fn view(&self) -> TextView {
        TextView {
            text: self.text@,
            trans: self.trans@,
            material: self.material@,
            pt: self.pt,
            font: self.font@,
            align: self.align,
        }
    }
}

impl DeepView for SerialText {
    type V = TextView;

    open spec fn deep_view(&self) -> TextView {
        self.view()
    }
}

/// A named button.
#[derive(Debug, Clone, PartialEq)]
pub struct SerialButton {
    pub name: String,
    pub trans: Transform,
}

#[verifier::ext_equal]
pub struct ButtonView {
    pub name: Seq<char>,
    pub trans: TransformView,
}

impl View for SerialButton {
    type V = ButtonView;

    open spec fn view(&self) -> ButtonView {
        ButtonView { name: self.name@, trans: self.trans@ }
    }
}

impl DeepView for SerialButton {
    type V = ButtonView;

    open spec fn deep_view(&self) -> ButtonView {
        self.view()
    }
}

/// A door controlled by the button of the same name.
#[derive(Debug, Clone, PartialEq)]
pub struct SerialButtonDoor {
    pub name: String,
    pub trans: Transform,
    pub open_trans: Transform,
    pub dimensions: Vec3,
    pub material: AssetRef,
}

#[verifier::ext_equal]
pub struct ButtonDoorView {
    pub name: Seq<char>,
    pub trans: TransformView,
    pub open_trans: TransformView,
    pub dimensions: Vec3,
    pub material: AssetRefView,
}

impl View for SerialButtonDoor {
    type V = ButtonDoorView;

    open spec fn view(&self) -> ButtonDoorView {
        ButtonDoorView {
            name: self.name@,
            trans: self.trans@,
            open_trans: self.open_trans@,
            dimensions: self.dimensions,
            material: self.material@,
        }
    }
}

impl DeepView for SerialButtonDoor {
    type V = ButtonDoorView;

    open spec fn deep_view(&self) -> ButtonDoorView {
        self.view()
    }
}

/// A dynamic prop: a sphere or cube with physics.
#[derive(Debug, Clone, PartialEq)]
pub struct SerialDynamicObject {
    pub ty: DynamicObjectType,
    pub dimensions: Vec3,
    pub trans: Transform,
    pub material: AssetRef,
}

#[verifier::ext_equal]
pub struct DynamicObjectView {
    pub ty: DynamicObjectType,
    pub dimensions: Vec3,
    pub trans: TransformView,
    pub material: AssetRefView,
}

impl View for SerialDynamicObject {
    type V = DynamicObjectView;

    open spec fn view(&self) -> DynamicObjectView {
        DynamicObjectView {
            ty: self.ty,
            dimensions: self.dimensions,
            trans: self.trans@,
            material: self.material@,
        }
    }
}

impl DeepView for SerialDynamicObject {
    type V = DynamicObjectView;

    open spec fn deep_view(&self) -> DynamicObjectView {
        self.view()
    }
}

/// The bound level: every descriptor a document produced.
#[derive(Debug, Clone, PartialEq)]
pub struct SerialLevel {
    pub spawn: Transform,
    pub finish: Transform,
    pub default_music: Option<SerialMusic>,
    pub triggered_music: Vec<SerialTriggeredMusic>,
    pub planes: Vec<SerialPlane>,
    pub cuboids: Vec<SerialCuboid>,
    pub texts: Vec<SerialText>,
    pub buttons: Vec<SerialButton>,
    pub button_doors: Vec<SerialButtonDoor>,
    pub dynamic_objects: Vec<SerialDynamicObject>,
}

#[verifier::ext_equal]
pub struct LevelView {
    pub spawn: TransformView,
    pub finish: TransformView,
    pub default_music: Option<MusicView>,
    pub triggered_music: Seq<TriggeredMusicView>,
    pub planes: Seq<PlaneView>,
    pub cuboids: Seq<CuboidView>,
    pub texts: Seq<TextView>,
    pub buttons: Seq<ButtonView>,
    pub button_doors: Seq<ButtonDoorView>,
    pub dynamic_objects: Seq<DynamicObjectView>,
}

impl View for SerialLevel {
    type V = LevelView;

    open spec fn view(&self) -> LevelView {
        LevelView {
            spawn: self.spawn@,
            finish: self.finish@,
            default_music: self.default_music.deep_view(),
            triggered_music: self.triggered_music.deep_view(),
            planes: self.planes.deep_view(),
            cuboids: self.cuboids.deep_view(),
            texts: self.texts.deep_view(),
            buttons: self.buttons.deep_view(),
            button_doors: self.button_doors.deep_view(),
            dynamic_objects: self.dynamic_objects.deep_view(),
        }
    }
}

/// The transform written in a node's children, or the identity when the
/// node has none.
pub open spec fn spec_node_transform(node: KdlNode, source: Seq<char>) -> Result<
    TransformView,
    ErrorView,
> {
    match node.children {
        None => Result::Ok(TransformView::spec_identity()),
        Some(d) => spec_get_transform(d, source),
    }
}

fn node_transform(node: &KdlNode, source: &String) -> (r: Result<Transform, KdlBindError>)
    ensures
        match r {
            Ok(t) => spec_node_transform(*node, source@) == Result::<TransformView, ErrorView>::Ok(
                t@,
            ),
            Err(e) => spec_node_transform(*node, source@) == Result::<
                TransformView,
                ErrorView,
            >::Err(e@),
        },
{
    match node.children() {
        None => Ok(Transform::identity()),
        Some(d) => d.get_transform(source),
    }
}

/// The scale written in a required child node of the given name.
pub open spec fn spec_child_scale(node: KdlNode, name: Seq<char>, source: Seq<char>) -> Result<
    Vec3,
    ErrorView,
> {
    match node.children {
        None => Result::Err(spec_leaf_error(source, spec_no_children_msg(), Some(node.span))),
        Some(d) => match spec_first_node(d.nodes@, name) {
            None => Result::Err(spec_leaf_error(source, spec_missing_element_msg(name), None)),
            Some(n) => spec_must_get_scale(n, 0, source),
        },
    }
}

fn child_scale(node: &KdlNode, name: &str, source: &String) -> (r: Result<Vec3, KdlBindError>)
    ensures
        match r {
            Ok(v) => spec_child_scale(*node, name@, source@) == Result::<Vec3, ErrorView>::Ok(v),
            Err(e) => spec_child_scale(*node, name@, source@) == Result::<Vec3, ErrorView>::Err(
                e@,
            ),
        },
{
    match node.must_children(source) {
        Err(e) => Err(e),
        Ok(d) => match d.must_get(name, source) {
            Err(e) => Err(e),
            Ok(n) => n.must_get_scale(0, source),
        },
    }
}

/// The transform written in the children of a required child node of the
/// given name.
pub open spec fn spec_child_doc_transform(node: KdlNode, name: Seq<char>, source: Seq<char>) -> Result<
    TransformView,
    ErrorView,
> {
    match node.children {
        None => Result::Err(spec_leaf_error(source, spec_no_children_msg(), Some(node.span))),
        Some(d) => match spec_first_node(d.nodes@, name) {
            None => Result::Err(spec_leaf_error(source, spec_missing_element_msg(name), None)),
            Some(n) => match n.children {
                None => Result::Err(
                    spec_leaf_error(source, spec_no_children_msg(), Some(n.span)),
                ),
                Some(d2) => spec_get_transform(d2, source),
            },
        },
    }
}

fn child_doc_transform(node: &KdlNode, name: &str, source: &String) -> (r: Result<
    Transform,
    KdlBindError,
>)
    ensures
        match r {
            Ok(t) => spec_child_doc_transform(*node, name@, source@) == Result::<
                TransformView,
                ErrorView,
            >::Ok(t@),
            Err(e) => spec_child_doc_transform(*node, name@, source@) == Result::<
                TransformView,
                ErrorView,
            >::Err(e@),
        },
{
    match node.must_children(source) {
        Err(e) => Err(e),
        Ok(d) => match d.must_children(name, source) {
            Err(e) => Err(e),
            Ok(d2) => d2.get_transform(source),
        },
    }
}

/// The transform written in a node's children, where children are
/// required.
pub open spec fn spec_children_transform(node: KdlNode, source: Seq<char>) -> Result<
    TransformView,
    ErrorView,
> {
    match node.children {
        None => Result::Err(spec_leaf_error(source, spec_no_children_msg(), Some(node.span))),
        Some(d) => spec_get_transform(d, source),
    }
}

/// What binding a `music` node yields: its audio asset.
pub open spec fn spec_bind_music(node: KdlNode, catalog: AssetCatalog, source: Seq<char>) -> Result<
    MusicView,
    ErrorView,
> {
    match spec_must_get_handle(node, KeyView::Index(0), AssetKind::Audio, catalog, source) {
        Result::Ok(a) => Result::Ok(MusicView { audio: a }),
        Result::Err(e) => Result::Err(e),
    }
}

impl SerialMusic {
    /// Binds a `music` node: one required audio-asset reference.
    pub fn bind(node: &KdlNode, catalog: &AssetCatalog, source: &String) -> (r: Result<
        SerialMusic,
        KdlBindError,
    >)
        ensures
            match r {
                Ok(m) => spec_bind_music(*node, *catalog, source@) == Result::<
                    MusicView,
                    ErrorView,
                >::Ok(m@),
                Err(e) => spec_bind_music(*node, *catalog, source@) == Result::<
                    MusicView,
                    ErrorView,
                >::Err(e@),
            },
    {
        match node.must_get_handle(NodeKey::Index(0), AssetKind::Audio, catalog, source) {
            Ok(audio) => Ok(SerialMusic { audio }),
            Err(e) => Err(e),
        }
    }
}

/// What binding a `triggered_music` node yields: an audio asset, a trigger
/// volume size, and a transform.
pub open spec fn spec_bind_triggered_music(
    node: KdlNode,
    catalog: AssetCatalog,
    source: Seq<char>,
) -> Result<TriggeredMusicView, ErrorView> {
    let ra = spec_must_get_handle(node, KeyView::Index(0), AssetKind::Audio, catalog, source);
    let rd = spec_child_scale(node, "size"@, source);
    let rt = spec_children_transform(node, source);
    if ra is Ok && rd is Ok && rt is Ok {
        Result::Ok(
            TriggeredMusicView { audio: ra->Ok_0, dimensions: rd->Ok_0, trans: rt->Ok_0 },
        )
    } else {
        Result::Err(spec_err3_view(ra, rd, rt))
    }
}

impl SerialTriggeredMusic {
    /// Binds a `triggered_music` node: a required audio-asset reference, a
    /// required `size` child, and the transform of its children.
    pub fn bind(node: &KdlNode, catalog: &AssetCatalog, source: &String) -> (r: Result<
        SerialTriggeredMusic,
        KdlBindError,
    >)
        ensures
            match r {
                Ok(m) => spec_bind_triggered_music(*node, *catalog, source@) == Result::<
                    TriggeredMusicView,
                    ErrorView,
                >::Ok(m@),
                Err(e) => spec_bind_triggered_music(*node, *catalog, source@) == Result::<
                    TriggeredMusicView,
                    ErrorView,
                >::Err(e@),
            },
    {
        let audio = node.must_get_handle(NodeKey::Index(0), AssetKind::Audio, catalog, source);
        let dimensions = child_scale(node, "size", source);
        let trans: Result<Transform, KdlBindError> = match node.must_children(source) {
            Err(e) => Err(e),
            Ok(d) => d.get_transform(source),
        };
        let ghost ra = spec_must_get_handle(
            *node,
            KeyView::Index(0),
            AssetKind::Audio,
            *catalog,
            source@,
        );
        let ghost rd = spec_child_scale(*node, "size"@, source@);
        let ghost rt = spec_children_transform(*node, source@);
        let ghost ga = audio;
        let ghost gd = dimensions;
        let ghost gt = trans;
        match merge3(audio, dimensions, trans) {
            Ok((a, d, t)) => Ok(SerialTriggeredMusic { audio: a, dimensions: d, trans: t }),
            Err(e) => {
                proof {
                    assert(spec_err_diags(ga) == spec_err_diags_v(ra));
                    assert(spec_err_diags(gd) == spec_err_diags_v(rd));
                    assert(spec_err_diags(gt) == spec_err_diags_v(rt));
                    assert(e@.diagnostics =~= spec_err3_view(ra, rd, rt).diagnostics);
                    assert(e@ =~= spec_err3_view(ra, rd, rt));
                }
                Err(e)
            },
        }
    }
}

/// What binding a `plane` node yields: a required size, an optional second
/// size falling back to the first, an optional type defaulting to static,
/// an optional material defaulting to the built-in plane material, and an
/// optional transform.
pub open spec fn spec_bind_plane(node: KdlNode, catalog: AssetCatalog, source: Seq<char>) -> Result<
    PlaneView,
    ErrorView,
> {
    let rsize = spec_must_get_number(node, KeyView::Index(0), source);
    let rsize2 = spec_get_number(node, KeyView::Index(1), source);
    let rty = spec_get_variant(node, KeyView::Prop("type"@), spec_plane_type_names(), source);
    let rmat = spec_get_handle(node, KeyView::Prop("material"@), AssetKind::Material, catalog, source);
    let rtrans = spec_node_transform(node, source);
    if rsize is Ok && rsize2 is Ok && rty is Ok && rmat is Ok && rtrans is Ok {
        Result::Ok(
            PlaneView {
                width: rsize->Ok_0,
                length: match rsize2->Ok_0 {
                    Some(n) => n,
                    None => rsize->Ok_0,
                },
                trans: rtrans->Ok_0,
                material: match rmat->Ok_0 {
                    Some(m) => m,
                    None => spec_default_plane_material(),
                },
                ty: match rty->Ok_0 {
                    Some(i) => spec_plane_type_of_index(i),
                    None => SerialPlaneType::Static,
                },
            },
        )
    } else {
        Result::Err(spec_err5_view(rsize, rsize2, rty, rmat, rtrans))
    }
}

impl SerialPlane {
    /// Binds a `plane` node.
    pub fn bind(node: &KdlNode, catalog: &AssetCatalog, source: &String) -> (r: Result<
        SerialPlane,
        KdlBindError,
    >)
        ensures
            match r {
                Ok(p) => spec_bind_plane(*node, *catalog, source@) == Result::<
                    PlaneView,
                    ErrorView,
                >::Ok(p@),
                Err(e) => spec_bind_plane(*node, *catalog, source@) == Result::<
                    PlaneView,
                    ErrorView,
                >::Err(e@),
            },
    {
        let size = node.must_get_number(NodeKey::Index(0), source);
        let size2 = node.get_number(NodeKey::Index(1), source);
        let ty_names = SerialPlaneType::variant_names();
        let ty = node.get_variant(NodeKey::Key("type".to_owned()), &ty_names, source);
        let material = node.get_handle(
            NodeKey::Key("material".to_owned()),
            AssetKind::Material,
            catalog,
            source,
        );
        let trans = node_transform(node, source);
        let ghost rsize = spec_must_get_number(*node, KeyView::Index(0), source@);
        let ghost rsize2 = spec_get_number(*node, KeyView::Index(1), source@);
        let ghost rty = spec_get_variant(
            *node,
            KeyView::Prop("type"@),
            spec_plane_type_names(),
            source@,
        );
        let ghost rmat = spec_get_handle(
            *node,
            KeyView::Prop("material"@),
            AssetKind::Material,
            *catalog,
            source@,
        );
        let ghost rtrans = spec_node_transform(*node, source@);
        let ghost g1 = size;
        let ghost g2 = size2;
        let ghost g3 = ty;
        let ghost g4 = material;
        let ghost g5 = trans;
        match merge5(size, size2, ty, material, trans) {
            Ok((s, s2, t, m, tr)) => {
                let length = match s2 {
                    Some(n) => n,
                    None => s,
                };
                let mat = match m {
                    Some(m) => m,
                    None => default_plane_material(),
                };
                let plane_ty = match t {
                    Some(i) => SerialPlaneType::from_index(i),
                    None => SerialPlaneType::Static,
                };
                Ok(SerialPlane { width: s, length, trans: tr, material: mat, ty: plane_ty })
            },
            Err(e) => {
                proof {
                    assert(spec_err_diags(g1) == spec_err_diags_v(rsize));
                    assert(spec_err_diags(g2) == spec_err_diags_v(rsize2));
                    assert(spec_err_diags(g3) == spec_err_diags_v(rty));
                    assert(spec_err_diags(g4) == spec_err_diags_v(rmat));
                    assert(spec_err_diags(g5) == spec_err_diags_v(rtrans));
                    assert(e@.diagnostics =~= spec_err5_view(
                        rsize,
                        rsize2,
                        rty,
                        rmat,
                        rtrans,
                    ).diagnostics);
                    assert(e@ =~= spec_err5_view(rsize, rsize2, rty, rmat, rtrans));
                }
                Err(e)
            },
        }
    }
}

/// What binding a `cuboid` node yields: an optional material defaulting to
/// the plane material, a required `size` child, and the transform of its
/// children (identity when it has none).
pub open spec fn spec_bind_cuboid(node: KdlNode, catalog: AssetCatalog, source: Seq<char>) -> Result<
    CuboidView,
    ErrorView,
> {
    let rmat = spec_get_handle(node, KeyView::Prop("material"@), AssetKind::Material, catalog, source);
    let rdim = spec_child_scale(node, "size"@, source);
    let rtrans = spec_node_transform(node, source);
    if rmat is Ok && rdim is Ok && rtrans is Ok {
        Result::Ok(
            CuboidView {
                material: match rmat->Ok_0 {
                    Some(m) => m,
                    None => spec_default_plane_material(),
                },
                dimensions: rdim->Ok_0,
                trans: rtrans->Ok_0,
            },
        )
    } else {
        Result::Err(spec_err3_view(rmat, rdim, rtrans))
    }
}

impl SerialCuboid {
    /// Binds a `cuboid` node.
    pub fn bind(node: &KdlNode, catalog: &AssetCatalog, source: &String) -> (r: Result<
        SerialCuboid,
        KdlBindError,
    >)
        ensures
            match r {
                Ok(c) => spec_bind_cuboid(*node, *catalog, source@) == Result::<
                    CuboidView,
                    ErrorView,
                >::Ok(c@),
                Err(e) => spec_bind_cuboid(*node, *catalog, source@) == Result::<
                    CuboidView,
                    ErrorView,
                >::Err(e@),
            },
    {
        let material = node.get_handle(
            NodeKey::Key("material".to_owned()),
            AssetKind::Material,
            catalog,
            source,
        );
        let dimensions = child_scale(node, "size", source);
        let trans = node_transform(node, source);
        let ghost rmat = spec_get_handle(
            *node,
            KeyView::Prop("material"@),
            AssetKind::Material,
            *catalog,
            source@,
        );
        let ghost rdim = spec_child_scale(*node, "size"@, source@);
        let ghost rtrans = spec_node_transform(*node, source@);
        let ghost g1 = material;
        let ghost g2 = dimensions;
        let ghost g3 = trans;
        match merge3(material, dimensions, trans) {
            Ok((m, d, tr)) => {
                let mat = match m {
                    Some(m) => m,
                    None => default_plane_material(),
                };
                Ok(SerialCuboid { material: mat, dimensions: d, trans: tr })
            },
            Err(e) => {
                proof {
                    assert(spec_err_diags(g1) == spec_err_diags_v(rmat));
                    assert(spec_err_diags(g2) == spec_err_diags_v(rdim));
                    assert(spec_err_diags(g3) == spec_err_diags_v(rtrans));
                    assert(e@.diagnostics =~= spec_err3_view(rmat, rdim, rtrans).diagnostics);
                    assert(e@ =~= spec_err3_view(rmat, rdim, rtrans));
                }
                Err(e)
            },
        }
    }
}

/// What binding a `text` node yields: a required string, an optional point
/// size defaulting to 64, an optional font and material with their built-in
/// defaults, an optional alignment defaulting to center, and an optional
/// transform.
pub open spec fn spec_bind_text(node: KdlNode, catalog: AssetCatalog, source: Seq<char>) -> Result<
    TextView,
    ErrorView,
> {
    let rtext = spec_must_get_string(node, KeyView::Index(0), source);
    let rpt = spec_get_number(node, KeyView::Prop("pt"@), source);
    let rfont = spec_get_handle(node, KeyView::Prop("font"@), AssetKind::Font, catalog, source);
    let ralign = spec_get_variant(node, KeyView::Prop("align"@), spec_align_names(), source);
    let rmat = spec_get_handle(node, KeyView::Prop("material"@), AssetKind::Material, catalog, source);
    let rtrans = spec_node_transform(node, source);
    if rtext is Ok && rpt is Ok && rfont is Ok && ralign is Ok && rmat is Ok && rtrans is Ok {
        Result::Ok(
            TextView {
                text: rtext->Ok_0,
                trans: rtrans->Ok_0,
                material: match rmat->Ok_0 {
                    Some(m) => m,
                    None => spec_default_text_material(),
                },
                pt: match rpt->Ok_0 {
                    Some(n) => n,
                    None => spec_default_text_pt(),
                },
                font: match rfont->Ok_0 {
                    Some(f) => f,
                    None => spec_default_font(),
                },
                align: match ralign->Ok_0 {
                    Some(i) => spec_align_of_index(i),
                    None => SerialAlign::Center,
                },
            },
        )
    } else {
        Result::Err(spec_err6_view(rtext, rpt, rfont, ralign, rmat, rtrans))
    }
}

impl SerialText {
    /// Binds a `text` node.
    pub fn bind(node: &KdlNode, catalog: &AssetCatalog, source: &String) -> (r: Result<
        SerialText,
        KdlBindError,
    >)
        ensures
            match r {
                Ok(t) => spec_bind_text(*node, *catalog, source@) == Result::<
                    TextView,
                    ErrorView,
                >::Ok(t@),
                Err(e) => spec_bind_text(*node, *catalog, source@) == Result::<
                    TextView,
                    ErrorView,
                >::Err(e@),
            },
    {
        let text = node.must_get_string(NodeKey::Index(0), source);
        let pt = node.get_number(NodeKey::Key("pt".to_owned()), source);
        let font = node.get_handle(
            NodeKey::Key("font".to_owned()),
            AssetKind::Font,
            catalog,
            source,
        );
        let align_names = SerialAlign::variant_names();
        let align = node.get_variant(NodeKey::Key("align".to_owned()), &align_names, source);
        let material = node.get_handle(
            NodeKey::Key("material".to_owned()),
            AssetKind::Material,
            catalog,
            source,
        );
        let trans = node_transform(node, source);
        let ghost rtext = spec_must_get_string(*node, KeyView::Index(0), source@);
        let ghost rpt = spec_get_number(*node, KeyView::Prop("pt"@), source@);
        let ghost rfont = spec_get_handle(
            *node,
            KeyView::Prop("font"@),
            AssetKind::Font,
            *catalog,
            source@,
        );
        let ghost ralign = spec_get_variant(
            *node,
            KeyView::Prop("align"@),
            spec_align_names(),
            source@,
        );
        let ghost rmat = spec_get_handle(
            *node,
            KeyView::Prop("material"@),
            AssetKind::Material,
            *catalog,
            source@,
        );
        let ghost rtrans = spec_node_transform(*node, source@);
        let ghost g1 = text;
        let ghost g2 = pt;
        let ghost g3 = font;
        let ghost g4 = align;
        let ghost g5 = material;
        let ghost g6 = trans;
        let first_five = merge5(text, pt, font, align, material);
        let ghost gff = first_five;
        match merge2(first_five, trans) {
            Ok(((tx, p, f, al, m), tr)) => {
                let out = SerialText {
                    text: tx,
                    trans: tr,
                    material: match m {
                        Some(m) => m,
                        None => default_text_material(),
                    },
                    pt: match p {
                        Some(n) => n,
                        None => Number::Float(BITS_64_0),
                    },
                    font: match f {
                        Some(f) => f,
                        None => default_font(),
                    },
                    align: match al {
                        Some(i) => SerialAlign::from_index(i),
                        None => SerialAlign::Center,
                    },
                };
                Ok(out)
            },
            Err(e) => {
                proof {
                    assert(spec_err_diags(g1) == spec_err_diags_v(rtext));
                    assert(spec_err_diags(g2) == spec_err_diags_v(rpt));
                    assert(spec_err_diags(g3) == spec_err_diags_v(rfont));
                    assert(spec_err_diags(g4) == spec_err_diags_v(ralign));
                    assert(spec_err_diags(g5) == spec_err_diags_v(rmat));
                    assert(spec_err_diags(g6) == spec_err_diags_v(rtrans));
                    assert(e@.diagnostics =~= spec_err6_view(
                        rtext,
                        rpt,
                        rfont,
                        ralign,
                        rmat,
                        rtrans,
                    ).diagnostics);
                    assert(e@ =~= spec_err6_view(rtext, rpt, rfont, ralign, rmat, rtrans));
                }
                Err(e)
            },
        }
    }
}

/// What binding a `button` node yields: a required name and an optional
/// transform.
pub open spec fn spec_bind_button(node: KdlNode, source: Seq<char>) -> Result<
    ButtonView,
    ErrorView,
> {
    let rname = spec_must_get_string(node, KeyView::Index(0), source);
    let rtrans = spec_node_transform(node, source);
    if rname is Ok && rtrans is Ok {
        Result::Ok(ButtonView { name: rname->Ok_0, trans: rtrans->Ok_0 })
    } else {
        Result::Err(spec_err2_view(rname, rtrans))
    }
}

impl SerialButton {
    /// Binds a `button` node.
    pub fn bind(node: &KdlNode, source: &String) -> (r: Result<SerialButton, KdlBindError>)
        ensures
            match r {
                Ok(b) => spec_bind_button(*node, source@) == Result::<ButtonView, ErrorView>::Ok(
                    b@,
                ),
                Err(e) => spec_bind_button(*node, source@) == Result::<ButtonView, ErrorView>::Err(
                    e@,
                ),
            },
    {
        let name = node.must_get_string(NodeKey::Index(0), source);
        let trans = node_transform(node, source);
        let ghost rname = spec_must_get_string(*node, KeyView::Index(0), source@);
        let ghost rtrans = spec_node_transform(*node, source@);
        let ghost g1 = name;
        let ghost g2 = trans;
        match merge2(name, trans) {
            Ok((n, tr)) => Ok(SerialButton { name: n, trans: tr }),
            Err(e) => {
                proof {
                    assert(spec_err_diags(g1) == spec_err_diags_v(rname));
                    assert(spec_err_diags(g2) == spec_err_diags_v(rtrans));
                    assert(e@.diagnostics =~= spec_err2_view(rname, rtrans).diagnostics);
                    assert(e@ =~= spec_err2_view(rname, rtrans));
                }
                Err(e)
            },
        }
    }
}

/// What binding a `button_door` node yields: a required link name, required
/// `default` and `open` transform children, a required `size` child, and an
/// optional material defaulting to the plane material.
pub open spec fn spec_bind_button_door(
    node: KdlNode,
    catalog: AssetCatalog,
    source: Seq<char>,
) -> Result<ButtonDoorView, ErrorView> {
    let rname = spec_must_get_string(node, KeyView::Index(0), source);
    let rtrans = spec_child_doc_transform(node, "default"@, source);
    let ropen = spec_child_doc_transform(node, "open"@, source);
    let rdim = spec_child_scale(node, "size"@, source);
    let rmat = spec_get_handle(node, KeyView::Prop("material"@), AssetKind::Material, catalog, source);
    if rname is Ok && rtrans is Ok && ropen is Ok && rdim is Ok && rmat is Ok {
        Result::Ok(
            ButtonDoorView {
                name: rname->Ok_0,
                trans: rtrans->Ok_0,
                open_trans: ropen->Ok_0,
                dimensions: rdim->Ok_0,
                material: match rmat->Ok_0 {
                    Some(m) => m,
                    None => spec_default_plane_material(),
                },
            },
        )
    } else {
        Result::Err(spec_err5_view(rname, rtrans, ropen, rdim, rmat))
    }
}

impl SerialButtonDoor {
    /// Binds a `button_door` node.
    pub fn bind(node: &KdlNode, catalog: &AssetCatalog, source: &String) -> (r: Result<
        SerialButtonDoor,
        KdlBindError,
    >)
        ensures
            match r {
                Ok(d) => spec_bind_button_door(*node, *catalog, source@) == Result::<
                    ButtonDoorView,
                    ErrorView,
                >::Ok(d@),
                Err(e) => spec_bind_button_door(*node, *catalog, source@) == Result::<
                    ButtonDoorView,
                    ErrorView,
                >::Err(e@),
            },
    {
        let name = node.must_get_string(NodeKey::Index(0), source);
        let trans = child_doc_transform(node, "default", source);
        let open_trans = child_doc_transform(node, "open", source);
        let dimensions = child_scale(node, "size", source);
        let material = node.get_handle(
            NodeKey::Key("material".to_owned()),
            AssetKind::Material,
            catalog,
            source,
        );
        let ghost rname = spec_must_get_string(*node, KeyView::Index(0), source@);
        let ghost rtrans = spec_child_doc_transform(*node, "default"@, source@);
        let ghost ropen = spec_child_doc_transform(*node, "open"@, source@);
        let ghost rdim = spec_child_scale(*node, "size"@, source@);
        let ghost rmat = spec_get_handle(
            *node,
            KeyView::Prop("material"@),
            AssetKind::Material,
            *catalog,
            source@,
        );
        let ghost g1 = name;
        let ghost g2 = trans;
        let ghost g3 = open_trans;
        let ghost g4 = dimensions;
        let ghost g5 = material;
        match merge5(name, trans, open_trans, dimensions, material) {
            Ok((n, tr, op, d, m)) => {
                let mat = match m {
                    Some(m) => m,
                    None => default_plane_material(),
                };
                Ok(
                    SerialButtonDoor {
                        name: n,
                        trans: tr,
                        open_trans: op,
                        dimensions: d,
                        material: mat,
                    },
                )
            },
            Err(e) => {
                proof {
                    assert(spec_err_diags(g1) == spec_err_diags_v(rname));
                    assert(spec_err_diags(g2) == spec_err_diags_v(rtrans));
                    assert(spec_err_diags(g3) == spec_err_diags_v(ropen));
                    assert(spec_err_diags(g4) == spec_err_diags_v(rdim));
                    assert(spec_err_diags(g5) == spec_err_diags_v(rmat));
                    assert(e@.diagnostics =~= spec_err5_view(
                        rname,
                        rtrans,
                        ropen,
                        rdim,
                        rmat,
                    ).diagnostics);
                    assert(e@ =~= spec_err5_view(rname, rtrans, ropen, rdim, rmat));
                }
                Err(e)
            },
        }
    }
}

/// The size written in an optional `size` child: absent children or an
/// absent child node give the default quarter-size.
pub open spec fn spec_dynamic_size(node: KdlNode, source: Seq<char>) -> Result<Vec3, ErrorView> {
    match node.children {
        None => Result::Ok(spec_default_dynamic_size()),
        Some(d) => match spec_first_node(d.nodes@, "size"@) {
            None => Result::Ok(spec_default_dynamic_size()),
            Some(n) => spec_must_get_scale(n, 0, source),
        },
    }
}

/// What binding a `dyn` node yields: an optional shape defaulting to a
/// sphere, an optional material defaulting to the plane material, an
/// optional transform, and an optional `size` child defaulting to a uniform
/// quarter.
pub open spec fn spec_bind_dynamic(node: KdlNode, catalog: AssetCatalog, source: Seq<char>) -> Result<
    DynamicObjectView,
    ErrorView,
> {
    let rty = spec_get_variant(node, KeyView::Prop("type"@), spec_dynamic_type_names(), source);
    let rmat = spec_get_handle(node, KeyView::Prop("material"@), AssetKind::Material, catalog, source);
    let rtrans = spec_node_transform(node, source);
    let rdim = spec_dynamic_size(node, source);
    if rty is Ok && rmat is Ok && rtrans is Ok && rdim is Ok {
        Result::Ok(
            DynamicObjectView {
                ty: match rty->Ok_0 {
                    Some(i) => spec_dynamic_type_of_index(i),
                    None => DynamicObjectType::Sphere,
                },
                dimensions: rdim->Ok_0,
                trans: rtrans->Ok_0,
                material: match rmat->Ok_0 {
                    Some(m) => m,
                    None => spec_default_plane_material(),
                },
            },
        )
    } else {
        Result::Err(spec_err4_view(rty, rmat, rtrans, rdim))
    }
}

impl SerialDynamicObject {
    /// Binds a `dyn` node.
    pub fn bind(node: &KdlNode, catalog: &AssetCatalog, source: &String) -> (r: Result<
        SerialDynamicObject,
        KdlBindError,
    >)
        ensures
            match r {
                Ok(o) => spec_bind_dynamic(*node, *catalog, source@) == Result::<
                    DynamicObjectView,
                    ErrorView,
                >::Ok(o@),
                Err(e) => spec_bind_dynamic(*node, *catalog, source@) == Result::<
                    DynamicObjectView,
                    ErrorView,
                >::Err(e@),
            },
    {
        let ty_names = DynamicObjectType::variant_names();
        let ty = node.get_variant(NodeKey::Key("type".to_owned()), &ty_names, source);
        let material = node.get_handle(
            NodeKey::Key("material".to_owned()),
            AssetKind::Material,
            catalog,
            source,
        );
        let trans = node_transform(node, source);
        let dimensions: Result<Vec3, KdlBindError> = match node.children() {
            None => Ok(default_dynamic_size()),
            Some(d) => match d.get("size") {
                None => Ok(default_dynamic_size()),
                Some(n) => n.must_get_scale(0, source),
            },
        };
        let ghost rty = spec_get_variant(
            *node,
            KeyView::Prop("type"@),
            spec_dynamic_type_names(),
            source@,
        );
        let ghost rmat = spec_get_handle(
            *node,
            KeyView::Prop("material"@),
            AssetKind::Material,
            *catalog,
            source@,
        );
        let ghost rtrans = spec_node_transform(*node, source@);
        let ghost rdim = spec_dynamic_size(*node, source@);
        let ghost g1 = ty;
        let ghost g2 = material;
        let ghost g3 = trans;
        let ghost g4 = dimensions;
        match merge4(ty, material, trans, dimensions) {
            Ok((t, m, tr, d)) => {
                let out = SerialDynamicObject {
                    ty: match t {
                        Some(i) => DynamicObjectType::from_index(i),
                        None => DynamicObjectType::Sphere,
                    },
                    dimensions: d,
                    trans: tr,
                    material: match m {
                        Some(m) => m,
                        None => default_plane_material(),
                    },
                };
                Ok(out)
            },
            Err(e) => {
                proof {
                    assert(spec_err_diags(g1) == spec_err_diags_v(rty));
                    assert(spec_err_diags(g2) == spec_err_diags_v(rmat));
                    assert(spec_err_diags(g3) == spec_err_diags_v(rtrans));
                    assert(spec_err_diags(g4) == spec_err_diags_v(rdim));
                    assert(e@.diagnostics =~= spec_err4_view(rty, rmat, rtrans, rdim).diagnostics);
                    assert(e@ =~= spec_err4_view(rty, rmat, rtrans, rdim));
                }
                Err(e)
            },
        }
    }
}

/// The default dynamic-object size, as a value.
pub fn default_dynamic_size() -> (v: Vec3)
    ensures
        v == spec_default_dynamic_size(),
{
    Vec3 {
        x: Number::Float(BITS_0_25),
        y: Number::Float(BITS_0_25),
        z: Number::Float(BITS_0_25),
    }
}


/// The bind results of every `triggered_music` node, in document order.
pub open spec fn spec_triggered_music_results(nodes: Seq<KdlNode>, catalog: AssetCatalog, source: Seq<char>) -> Seq<
    Result<TriggeredMusicView, ErrorView>,
>
    decreases nodes.len(),
{
    if nodes.len() == 0 {
        Seq::empty()
    } else {
        let rest = spec_triggered_music_results(nodes.drop_last(), catalog, source);
        if nodes.last().name@ == "triggered_music"@ {
            rest.push(spec_bind_triggered_music(nodes.last(), catalog, source))
        } else {
            rest
        }
    }
}

fn bind_all_triggered_music(doc: &KdlDocument, catalog: &AssetCatalog, source: &String) -> (r: Result<
    Vec<SerialTriggeredMusic>,
    KdlBindError,
>)
    ensures
        match r {
            Ok(v) => spec_merge_views(spec_triggered_music_results(doc.nodes@, *catalog, source@)) == Result::<
                Seq<TriggeredMusicView>,
                ErrorView,
            >::Ok(v.deep_view()),
            Err(e) => spec_merge_views(spec_triggered_music_results(doc.nodes@, *catalog, source@)) == Result::<
                Seq<TriggeredMusicView>,
                ErrorView,
            >::Err(e@),
        },
{
    let mut results: Vec<Result<SerialTriggeredMusic, KdlBindError>> = Vec::new();
    let mut i: usize = 0;
    proof {
        assert(doc.nodes@.take(0) =~= Seq::<KdlNode>::empty());
        assert(results@ =~= Seq::<Result<SerialTriggeredMusic, KdlBindError>>::empty());
    }
    while i < doc.nodes.len()
        invariant
            i <= doc.nodes@.len(),
            results@.len() == spec_triggered_music_results(doc.nodes@.take(i as int), *catalog, source@).len(),
            forall|j: int|
                0 <= j < results@.len() ==> result_corresponds(
                    #[trigger] results@[j],
                    spec_triggered_music_results(doc.nodes@.take(i as int), *catalog, source@)[j],
                ),
        decreases doc.nodes@.len() - i,
    {
        proof {
            assert(doc.nodes@.take(i + 1).drop_last() =~= doc.nodes@.take(i as int));
            assert(doc.nodes@.take(i + 1).last() == doc.nodes@[i as int]);
        }
        let node = &doc.nodes[i];
        if str_eq_string("triggered_music", &node.name) {
            let res = SerialTriggeredMusic::bind(node, catalog, source);
            results.push(res);
        }
        i += 1;
    }
    proof {
        assert(doc.nodes@.take(i as int) =~= doc.nodes@);
    }
    let ghost grs = results@;
    let ghost specs = spec_triggered_music_results(doc.nodes@, *catalog, source@);
    proof {
        lemma_merge_vec_bridge::<SerialTriggeredMusic>(grs, specs);
    }
    let ghost merged_spec = spec_merge_views(specs);
    let merged = merge_vec(results);
    match merged {
        Ok(v) => {
            proof {
                assert(merged_spec matches Result::Ok(vs) && vs =~= v.deep_view());
            }
            Ok(v)
        },
        Err(e) => {
            proof {
                assert(merged_spec matches Result::Err(ev) && ev =~= e@);
            }
            Err(e)
        },
    }
}

/// The bind results of every `plane` node, in document order.
pub open spec fn spec_plane_results(nodes: Seq<KdlNode>, catalog: AssetCatalog, source: Seq<char>) -> Seq<
    Result<PlaneView, ErrorView>,
>
    decreases nodes.len(),
{
    if nodes.len() == 0 {
        Seq::empty()
    } else {
        let rest = spec_plane_results(nodes.drop_last(), catalog, source);
        if nodes.last().name@ == "plane"@ {
            rest.push(spec_bind_plane(nodes.last(), catalog, source))
        } else {
            rest
        }
    }
}

fn bind_all_planes(doc: &KdlDocument, catalog: &AssetCatalog, source: &String) -> (r: Result<
    Vec<SerialPlane>,
    KdlBindError,
>)
    ensures
        match r {
            Ok(v) => spec_merge_views(spec_plane_results(doc.nodes@, *catalog, source@)) == Result::<
                Seq<PlaneView>,
                ErrorView,
            >::Ok(v.deep_view()),
            Err(e) => spec_merge_views(spec_plane_results(doc.nodes@, *catalog, source@)) == Result::<
                Seq<PlaneView>,
                ErrorView,
            >::Err(e@),
        },
{
    let mut results: Vec<Result<SerialPlane, KdlBindError>> = Vec::new();
    let mut i: usize = 0;
    proof {
        assert(doc.nodes@.take(0) =~= Seq::<KdlNode>::empty());
        assert(results@ =~= Seq::<Result<SerialPlane, KdlBindError>>::empty());
    }
    while i < doc.nodes.len()
        invariant
            i <= doc.nodes@.len(),
            results@.len() == spec_plane_results(doc.nodes@.take(i as int), *catalog, source@).len(),
            forall|j: int|
                0 <= j < results@.len() ==> result_corresponds(
                    #[trigger] results@[j],
                    spec_plane_results(doc.nodes@.take(i as int), *catalog, source@)[j],
                ),
        decreases doc.nodes@.len() - i,
    {
        proof {
            assert(doc.nodes@.take(i + 1).drop_last() =~= doc.nodes@.take(i as int));
            assert(doc.nodes@.take(i + 1).last() == doc.nodes@[i as int]);
        }
        let node = &doc.nodes[i];
        if str_eq_string("plane", &node.name) {
            let res = SerialPlane::bind(node, catalog, source);
            results.push(res);
        }
        i += 1;
    }
    proof {
        assert(doc.nodes@.take(i as int) =~= doc.nodes@);
    }
    let ghost grs = results@;
    let ghost specs = spec_plane_results(doc.nodes@, *catalog, source@);
    proof {
        lemma_merge_vec_bridge::<SerialPlane>(grs, specs);
    }
    let ghost merged_spec = spec_merge_views(specs);
    let merged = merge_vec(results);
    match merged {
        Ok(v) => {
            proof {
                assert(merged_spec matches Result::Ok(vs) && vs =~= v.deep_view());
            }
            Ok(v)
        },
        Err(e) => {
            proof {
                assert(merged_spec matches Result::Err(ev) && ev =~= e@);
            }
            Err(e)
        },
    }
}

/// The bind results of every `cuboid` node, in document order.
pub open spec fn spec_cuboid_results(nodes: Seq<KdlNode>, catalog: AssetCatalog, source: Seq<char>) -> Seq<
    Result<CuboidView, ErrorView>,
>
    decreases nodes.len(),
{
    if nodes.len() == 0 {
        Seq::empty()
    } else {
        let rest = spec_cuboid_results(nodes.drop_last(), catalog, source);
        if nodes.last().name@ == "cuboid"@ {
            rest.push(spec_bind_cuboid(nodes.last(), catalog, source))
        } else {
            rest
        }
    }
}

fn bind_all_cuboids(doc: &KdlDocument, catalog: &AssetCatalog, source: &String) -> (r: Result<
    Vec<SerialCuboid>,
    KdlBindError,
>)
    ensures
        match r {
            Ok(v) => spec_merge_views(spec_cuboid_results(doc.nodes@, *catalog, source@)) == Result::<
                Seq<CuboidView>,
                ErrorView,
            >::Ok(v.deep_view()),
            Err(e) => spec_merge_views(spec_cuboid_results(doc.nodes@, *catalog, source@)) == Result::<
                Seq<CuboidView>,
                ErrorView,
            >::Err(e@),
        },
{
    let mut results: Vec<Result<SerialCuboid, KdlBindError>> = Vec::new();
    let mut i: usize = 0;
    proof {
        assert(doc.nodes@.take(0) =~= Seq::<KdlNode>::empty());
        assert(results@ =~= Seq::<Result<SerialCuboid, KdlBindError>>::empty());
    }
    while i < doc.nodes.len()
        invariant
            i <= doc.nodes@.len(),
            results@.len() == spec_cuboid_results(doc.nodes@.take(i as int), *catalog, source@).len(),
            forall|j: int|
                0 <= j < results@.len() ==> result_corresponds(
                    #[trigger] results@[j],
                    spec_cuboid_results(doc.nodes@.take(i as int), *catalog, source@)[j],
                ),
        decreases doc.nodes@.len() - i,
    {
        proof {
            assert(doc.nodes@.take(i + 1).drop_last() =~= doc.nodes@.take(i as int));
            assert(doc.nodes@.take(i + 1).last() == doc.nodes@[i as int]);
        }
        let node = &doc.nodes[i];
        if str_eq_string("cuboid", &node.name) {
            let res = SerialCuboid::bind(node, catalog, source);
            results.push(res);
        }
        i += 1;
    }
    proof {
        assert(doc.nodes@.take(i as int) =~= doc.nodes@);
    }
    let ghost grs = results@;
    let ghost specs = spec_cuboid_results(doc.nodes@, *catalog, source@);
    proof {
        lemma_merge_vec_bridge::<SerialCuboid>(grs, specs);
    }
    let ghost merged_spec = spec_merge_views(specs);
    let merged = merge_vec(results);
    match merged {
        Ok(v) => {
            proof {
                assert(merged_spec matches Result::Ok(vs) && vs =~= v.deep_view());
            }
            Ok(v)
        },
        Err(e) => {
            proof {
                assert(merged_spec matches Result::Err(ev) && ev =~= e@);
            }
            Err(e)
        },
    }
}

/// The bind results of every `text` node, in document order.
pub open spec fn spec_text_results(nodes: Seq<KdlNode>, catalog: AssetCatalog, source: Seq<char>) -> Seq<
    Result<TextView, ErrorView>,
>
    decreases nodes.len(),
{
    if nodes.len() == 0 {
        Seq::empty()
    } else {
        let rest = spec_text_results(nodes.drop_last(), catalog, source);
        if nodes.last().name@ == "text"@ {
            rest.push(spec_bind_text(nodes.last(), catalog, source))
        } else {
            rest
        }
    }
}

fn bind_all_texts(doc: &KdlDocument, catalog: &AssetCatalog, source: &String) -> (r: Result<
    Vec<SerialText>,
    KdlBindError,
>)
    ensures
        match r {
            Ok(v) => spec_merge_views(spec_text_results(doc.nodes@, *catalog, source@)) == Result::<
                Seq<TextView>,
                ErrorView,
            >::Ok(v.deep_view()),
            Err(e) => spec_merge_views(spec_text_results(doc.nodes@, *catalog, source@)) == Result::<
                Seq<TextView>,
                ErrorView,
            >::Err(e@),
        },
{
    let mut results: Vec<Result<SerialText, KdlBindError>> = Vec::new();
    let mut i: usize = 0;
    proof {
        assert(doc.nodes@.take(0) =~= Seq::<KdlNode>::empty());
        assert(results@ =~= Seq::<Result<SerialText, KdlBindError>>::empty());
    }
    while i < doc.nodes.len()
        invariant
            i <= doc.nodes@.len(),
            results@.len() == spec_text_results(doc.nodes@.take(i as int), *catalog, source@).len(),
            forall|j: int|
                0 <= j < results@.len() ==> result_corresponds(
                    #[trigger] results@[j],
                    spec_text_results(doc.nodes@.take(i as int), *catalog, source@)[j],
                ),
        decreases doc.nodes@.len() - i,
    {
        proof {
            assert(doc.nodes@.take(i + 1).drop_last() =~= doc.nodes@.take(i as int));
            assert(doc.nodes@.take(i + 1).last() == doc.nodes@[i as int]);
        }
        let node = &doc.nodes[i];
        if str_eq_string("text", &node.name) {
            let res = SerialText::bind(node, catalog, source);
            results.push(res);
        }
        i += 1;
    }
    proof {
        assert(doc.nodes@.take(i as int) =~= doc.nodes@);
    }
    let ghost grs = results@;
    let ghost specs = spec_text_results(doc.nodes@, *catalog, source@);
    proof {
        lemma_merge_vec_bridge::<SerialText>(grs, specs);
    }
    let ghost merged_spec = spec_merge_views(specs);
    let merged = merge_vec(results);
    match merged {
        Ok(v) => {
            proof {
                assert(merged_spec matches Result::Ok(vs) && vs =~= v.deep_view());
            }
            Ok(v)
        },
        Err(e) => {
            proof {
                assert(merged_spec matches Result::Err(ev) && ev =~= e@);
            }
            Err(e)
        },
    }
}

/// The bind results of every `button` node, in document order.
pub open spec fn spec_button_results(nodes: Seq<KdlNode>, source: Seq<char>) -> Seq<
    Result<ButtonView, ErrorView>,
>
    decreases nodes.len(),
{
    if nodes.len() == 0 {
        Seq::empty()
    } else {
        let rest = spec_button_results(nodes.drop_last(), source);
        if nodes.last().name@ == "button"@ {
            rest.push(spec_bind_button(nodes.last(), source))
        } else {
            rest
        }
    }
}

fn bind_all_buttons(doc: &KdlDocument, catalog: &AssetCatalog, source: &String) -> (r: Result<
    Vec<SerialButton>,
    KdlBindError,
>)
    ensures
        match r {
            Ok(v) => spec_merge_views(spec_button_results(doc.nodes@, source@)) == Result::<
                Seq<ButtonView>,
                ErrorView,
            >::Ok(v.deep_view()),
            Err(e) => spec_merge_views(spec_button_results(doc.nodes@, source@)) == Result::<
                Seq<ButtonView>,
                ErrorView,
            >::Err(e@),
        },
{
    let mut results: Vec<Result<SerialButton, KdlBindError>> = Vec::new();
    let mut i: usize = 0;
    proof {
        assert(doc.nodes@.take(0) =~= Seq::<KdlNode>::empty());
        assert(results@ =~= Seq::<Result<SerialButton, KdlBindError>>::empty());
    }
    while i < doc.nodes.len()
        invariant
            i <= doc.nodes@.len(),
            results@.len() == spec_button_results(doc.nodes@.take(i as int), source@).len(),
            forall|j: int|
                0 <= j < results@.len() ==> result_corresponds(
                    #[trigger] results@[j],
                    spec_button_results(doc.nodes@.take(i as int), source@)[j],
                ),
        decreases doc.nodes@.len() - i,
    {
        proof {
            assert(doc.nodes@.take(i + 1).drop_last() =~= doc.nodes@.take(i as int));
            assert(doc.nodes@.take(i + 1).last() == doc.nodes@[i as int]);
        }
        let node = &doc.nodes[i];
        if str_eq_string("button", &node.name) {
            let res = SerialButton::bind(node, source);
            results.push(res);
        }
        i += 1;
    }
    proof {
        assert(doc.nodes@.take(i as int) =~= doc.nodes@);
    }
    let ghost grs = results@;
    let ghost specs = spec_button_results(doc.nodes@, source@);
    proof {
        lemma_merge_vec_bridge::<SerialButton>(grs, specs);
    }
    let ghost merged_spec = spec_merge_views(specs);
    let merged = merge_vec(results);
    match merged {
        Ok(v) => {
            proof {
                assert(merged_spec matches Result::Ok(vs) && vs =~= v.deep_view());
            }
            Ok(v)
        },
        Err(e) => {
            proof {
                assert(merged_spec matches Result::Err(ev) && ev =~= e@);
            }
            Err(e)
        },
    }
}

/// The bind results of every `button_door` node, in document order.
pub open spec fn spec_button_door_results(nodes: Seq<KdlNode>, catalog: AssetCatalog, source: Seq<char>) -> Seq<
    Result<ButtonDoorView, ErrorView>,
>
    decreases nodes.len(),
{
    if nodes.len() == 0 {
        Seq::empty()
    } else {
        let rest = spec_button_door_results(nodes.drop_last(), catalog, source);
        if nodes.last().name@ == "button_door"@ {
            rest.push(spec_bind_button_door(nodes.last(), catalog, source))
        } else {
            rest
        }
    }
}

fn bind_all_button_doors(doc: &KdlDocument, catalog: &AssetCatalog, source: &String) -> (r: Result<
    Vec<SerialButtonDoor>,
    KdlBindError,
>)
    ensures
        match r {
            Ok(v) => spec_merge_views(spec_button_door_results(doc.nodes@, *catalog, source@)) == Result::<
                Seq<ButtonDoorView>,
                ErrorView,
            >::Ok(v.deep_view()),
            Err(e) => spec_merge_views(spec_button_door_results(doc.nodes@, *catalog, source@)) == Result::<
                Seq<ButtonDoorView>,
                ErrorView,
            >::Err(e@),
        },
{
    let mut results: Vec<Result<SerialButtonDoor, KdlBindError>> = Vec::new();
    let mut i: usize = 0;
    proof {
        assert(doc.nodes@.take(0) =~= Seq::<KdlNode>::empty());
        assert(results@ =~= Seq::<Result<SerialButtonDoor, KdlBindError>>::empty());
    }
    while i < doc.nodes.len()
        invariant
            i <= doc.nodes@.len(),
            results@.len() == spec_button_door_results(doc.nodes@.take(i as int), *catalog, source@).len(),
            forall|j: int|
                0 <= j < results@.len() ==> result_corresponds(
                    #[trigger] results@[j],
                    spec_button_door_results(doc.nodes@.take(i as int), *catalog, source@)[j],
                ),
        decreases doc.nodes@.len() - i,
    {
        proof {
            assert(doc.nodes@.take(i + 1).drop_last() =~= doc.nodes@.take(i as int));
            assert(doc.nodes@.take(i + 1).last() == doc.nodes@[i as int]);
        }
        let node = &doc.nodes[i];
        if str_eq_string("button_door", &node.name) {
            let res = SerialButtonDoor::bind(node, catalog, source);
            results.push(res);
        }
        i += 1;
    }
    proof {
        assert(doc.nodes@.take(i as int) =~= doc.nodes@);
    }
    let ghost grs = results@;
    let ghost specs = spec_button_door_results(doc.nodes@, *catalog, source@);
    proof {
        lemma_merge_vec_bridge::<SerialButtonDoor>(grs, specs);
    }
    let ghost merged_spec = spec_merge_views(specs);
    let merged = merge_vec(results);
    match merged {
        Ok(v) => {
            proof {
                assert(merged_spec matches Result::Ok(vs) && vs =~= v.deep_view());
            }
            Ok(v)
        },
        Err(e) => {
            proof {
                assert(merged_spec matches Result::Err(ev) && ev =~= e@);
            }
            Err(e)
        },
    }
}

/// The bind results of every `dyn` node, in document order.
pub open spec fn spec_dynamic_results(nodes: Seq<KdlNode>, catalog: AssetCatalog, source: Seq<char>) -> Seq<
    Result<DynamicObjectView, ErrorView>,
>
    decreases nodes.len(),
{
    if nodes.len() == 0 {
        Seq::empty()
    } else {
        let rest = spec_dynamic_results(nodes.drop_last(), catalog, source);
        if nodes.last().name@ == "dyn"@ {
            rest.push(spec_bind_dynamic(nodes.last(), catalog, source))
        } else {
            rest
        }
    }
}

fn bind_all_dynamic_objects(doc: &KdlDocument, catalog: &AssetCatalog, source: &String) -> (r: Result<
    Vec<SerialDynamicObject>,
    KdlBindError,
>)
    ensures
        match r {
            Ok(v) => spec_merge_views(spec_dynamic_results(doc.nodes@, *catalog, source@)) == Result::<
                Seq<DynamicObjectView>,
                ErrorView,
            >::Ok(v.deep_view()),
            Err(e) => spec_merge_views(spec_dynamic_results(doc.nodes@, *catalog, source@)) == Result::<
                Seq<DynamicObjectView>,
                ErrorView,
            >::Err(e@),
        },
{
    let mut results: Vec<Result<SerialDynamicObject, KdlBindError>> = Vec::new();
    let mut i: usize = 0;
    proof {
        assert(doc.nodes@.take(0) =~= Seq::<KdlNode>::empty());
        assert(results@ =~= Seq::<Result<SerialDynamicObject, KdlBindError>>::empty());
    }
    while i < doc.nodes.len()
        invariant
            i <= doc.nodes@.len(),
            results@.len() == spec_dynamic_results(doc.nodes@.take(i as int), *catalog, source@).len(),
            forall|j: int|
                0 <= j < results@.len() ==> result_corresponds(
                    #[trigger] results@[j],
                    spec_dynamic_results(doc.nodes@.take(i as int), *catalog, source@)[j],
                ),
        decreases doc.nodes@.len() - i,
    {
        proof {
            assert(doc.nodes@.take(i + 1).drop_last() =~= doc.nodes@.take(i as int));
            assert(doc.nodes@.take(i + 1).last() == doc.nodes@[i as int]);
        }
        let node = &doc.nodes[i];
        if str_eq_string("dyn", &node.name) {
            let res = SerialDynamicObject::bind(node, catalog, source);
            results.push(res);
        }
        i += 1;
    }
    proof {
        assert(doc.nodes@.take(i as int) =~= doc.nodes@);
    }
    let ghost grs = results@;
    let ghost specs = spec_dynamic_results(doc.nodes@, *catalog, source@);
    proof {
        lemma_merge_vec_bridge::<SerialDynamicObject>(grs, specs);
    }
    let ghost merged_spec = spec_merge_views(specs);
    let merged = merge_vec(results);
    match merged {
        Ok(v) => {
            proof {
                assert(merged_spec matches Result::Ok(vs) && vs =~= v.deep_view());
            }
            Ok(v)
        },
        Err(e) => {
            proof {
                assert(merged_spec matches Result::Err(ev) && ev =~= e@);
            }
            Err(e)
        },
    }
}


/// The transform of a required top-level child: the named node must exist
/// and have children.
pub open spec fn spec_doc_child_transform(doc: KdlDocument, name: Seq<char>, source: Seq<char>) -> Result<
    TransformView,
    ErrorView,
> {
    match spec_first_node(doc.nodes@, name) {
        None => Result::Err(spec_leaf_error(source, spec_missing_element_msg(name), None)),
        Some(n) => spec_children_transform(n, source),
    }
}

/// The optional default music of a document: the first `music` node, if
/// any.
pub open spec fn spec_bind_default_music(doc: KdlDocument, catalog: AssetCatalog, source: Seq<char>) -> Result<
    Option<MusicView>,
    ErrorView,
> {
    match spec_first_node(doc.nodes@, "music"@) {
        None => Result::Ok(None),
        Some(n) => match spec_bind_music(n, catalog, source) {
            Result::Ok(m) => Result::Ok(Some(m)),
            Result::Err(e) => Result::Err(e),
        },
    }
}

/// The one error merging the ten category results of a level bind: the
/// first failing category's display string and source, and every failing
/// category's diagnostics concatenated in category order.
pub open spec fn spec_level_err_view(
    r1: Result<TransformView, ErrorView>,
    r2: Result<TransformView, ErrorView>,
    r3: Result<Option<MusicView>, ErrorView>,
    r4: Result<Seq<TriggeredMusicView>, ErrorView>,
    r5: Result<Seq<PlaneView>, ErrorView>,
    r6: Result<Seq<CuboidView>, ErrorView>,
    r7: Result<Seq<TextView>, ErrorView>,
    r8: Result<Seq<ButtonView>, ErrorView>,
    r9: Result<Seq<ButtonDoorView>, ErrorView>,
    r10: Result<Seq<DynamicObjectView>, ErrorView>,
) -> ErrorView {
    ErrorView {
        display: if r1 is Err {
            r1->Err_0.display
        } else if r2 is Err {
            r2->Err_0.display
        } else if r3 is Err {
            r3->Err_0.display
        } else if r4 is Err {
            r4->Err_0.display
        } else if r5 is Err {
            r5->Err_0.display
        } else if r6 is Err {
            r6->Err_0.display
        } else if r7 is Err {
            r7->Err_0.display
        } else if r8 is Err {
            r8->Err_0.display
        } else if r9 is Err {
            r9->Err_0.display
        } else {
            r10->Err_0.display
        },
        source: if r1 is Err {
            r1->Err_0.source
        } else if r2 is Err {
            r2->Err_0.source
        } else if r3 is Err {
            r3->Err_0.source
        } else if r4 is Err {
            r4->Err_0.source
        } else if r5 is Err {
            r5->Err_0.source
        } else if r6 is Err {
            r6->Err_0.source
        } else if r7 is Err {
            r7->Err_0.source
        } else if r8 is Err {
            r8->Err_0.source
        } else if r9 is Err {
            r9->Err_0.source
        } else {
            r10->Err_0.source
        },
        diagnostics: spec_err_diags_v(r1) + spec_err_diags_v(r2) + spec_err_diags_v(r3)
            + spec_err_diags_v(r4) + spec_err_diags_v(r5) + spec_err_diags_v(r6) + spec_err_diags_v(
            r7,
        ) + spec_err_diags_v(r8) + spec_err_diags_v(r9) + spec_err_diags_v(r10),
    }
}

/// What binding a whole level document yields: the required `spawn` and
/// `finish` transforms, the optional default music, and every node of each
/// entity category bound in document order — or one error that collects
/// every failure in the document.
pub open spec fn spec_bind_level(doc: KdlDocument, catalog: AssetCatalog, source: Seq<char>) -> Result<
    LevelView,
    ErrorView,
> {
    let r1 = spec_doc_child_transform(doc, "spawn"@, source);
    let r2 = spec_doc_child_transform(doc, "finish"@, source);
    let r3 = spec_bind_default_music(doc, catalog, source);
    let r4 = spec_merge_views(spec_triggered_music_results(doc.nodes@, catalog, source));
    let r5 = spec_merge_views(spec_plane_results(doc.nodes@, catalog, source));
    let r6 = spec_merge_views(spec_cuboid_results(doc.nodes@, catalog, source));
    let r7 = spec_merge_views(spec_text_results(doc.nodes@, catalog, source));
    let r8 = spec_merge_views(spec_button_results(doc.nodes@, source));
    let r9 = spec_merge_views(spec_button_door_results(doc.nodes@, catalog, source));
    let r10 = spec_merge_views(spec_dynamic_results(doc.nodes@, catalog, source));
    if r1 is Ok && r2 is Ok && r3 is Ok && r4 is Ok && r5 is Ok && r6 is Ok && r7 is Ok && r8 is Ok
        && r9 is Ok && r10 is Ok {
        Result::Ok(
            LevelView {
                spawn: r1->Ok_0,
                finish: r2->Ok_0,
                default_music: r3->Ok_0,
                triggered_music: r4->Ok_0,
                planes: r5->Ok_0,
                cuboids: r6->Ok_0,
                texts: r7->Ok_0,
                buttons: r8->Ok_0,
                button_doors: r9->Ok_0,
                dynamic_objects: r10->Ok_0,
            },
        )
    } else {
        Result::Err(spec_level_err_view(r1, r2, r3, r4, r5, r6, r7, r8, r9, r10))
    }
}

impl SerialLevel {
    /// Binds a whole level document against the given asset catalog.
    ///
    /// Every category of the document is bound independently and the
    /// results are merged, so one call reports every diagnostic in the
    /// document rather than stopping at the first.
    pub fn bind(doc: &KdlDocument, catalog: &AssetCatalog, source: &String) -> (r: Result<
        SerialLevel,
        KdlBindError,
    >)
        ensures
            match r {
                Ok(level) => spec_bind_level(*doc, *catalog, source@) == Result::<
                    LevelView,
                    ErrorView,
                >::Ok(level@),
                Err(e) => spec_bind_level(*doc, *catalog, source@) == Result::<
                    LevelView,
                    ErrorView,
                >::Err(e@),
            },
    {
        let spawn: Result<Transform, KdlBindError> = match doc.must_get("spawn", source) {
            Err(e) => Err(e),
            Ok(n) => match n.must_children(source) {
                Err(e) => Err(e),
                Ok(d) => d.get_transform(source),
            },
        };
        let finish: Result<Transform, KdlBindError> = match doc.must_get("finish", source) {
            Err(e) => Err(e),
            Ok(n) => match n.must_children(source) {
                Err(e) => Err(e),
                Ok(d) => d.get_transform(source),
            },
        };
        let default_music: Result<Option<SerialMusic>, KdlBindError> = match doc.get("music") {
            None => Ok(None),
            Some(n) => match SerialMusic::bind(n, catalog, source) {
                Ok(m) => Ok(Some(m)),
                Err(e) => Err(e),
            },
        };
        let triggered_music = bind_all_triggered_music(doc, catalog, source);
        let planes = bind_all_planes(doc, catalog, source);
        let cuboids = bind_all_cuboids(doc, catalog, source);
        let texts = bind_all_texts(doc, catalog, source);
        let buttons = bind_all_buttons(doc, catalog, source);
        let button_doors = bind_all_button_doors(doc, catalog, source);
        let dynamic_objects = bind_all_dynamic_objects(doc, catalog, source);

        let ghost r1 = spec_doc_child_transform(*doc, "spawn"@, source@);
        let ghost r2 = spec_doc_child_transform(*doc, "finish"@, source@);
        let ghost r3 = spec_bind_default_music(*doc, *catalog, source@);
        let ghost r4 = spec_merge_views(spec_triggered_music_results(doc.nodes@, *catalog, source@));
        let ghost r5 = spec_merge_views(spec_plane_results(doc.nodes@, *catalog, source@));
        let ghost r6 = spec_merge_views(spec_cuboid_results(doc.nodes@, *catalog, source@));
        let ghost r7 = spec_merge_views(spec_text_results(doc.nodes@, *catalog, source@));
        let ghost r8 = spec_merge_views(spec_button_results(doc.nodes@, source@));
        let ghost r9 = spec_merge_views(spec_button_door_results(doc.nodes@, *catalog, source@));
        let ghost r10 = spec_merge_views(spec_dynamic_results(doc.nodes@, *catalog, source@));
        let ghost g1 = spawn;
        let ghost g2 = finish;
        let ghost g3 = default_music;
        let ghost g4 = triggered_music;
        let ghost g5 = planes;
        let ghost g6 = cuboids;
        let ghost g7 = texts;
        let ghost g8 = buttons;
        let ghost g9 = button_doors;
        let ghost g10 = dynamic_objects;

        let first_half = merge5(spawn, finish, default_music, triggered_music, planes);
        let second_half = merge5(cuboids, texts, buttons, button_doors, dynamic_objects);
        let ghost gh1 = first_half;
        let ghost gh2 = second_half;
        match merge2(first_half, second_half) {
            Ok(((sp, fi, mu, tm, pl), (cu, tx, bu, bd, dy))) => {
                let level = SerialLevel {
                    spawn: sp,
                    finish: fi,
                    default_music: mu,
                    triggered_music: tm,
                    planes: pl,
                    cuboids: cu,
                    texts: tx,
                    buttons: bu,
                    button_doors: bd,
                    dynamic_objects: dy,
                };
                proof {
                    assert(spec_bind_level(*doc, *catalog, source@) matches Result::Ok(v) && v =~= level@);
                }
                Ok(level)
            },
            Err(e) => {
                proof {
                    assert(spec_err_diags(g1) == spec_err_diags_v(r1));
                    assert(spec_err_diags(g2) == spec_err_diags_v(r2));
                    assert(spec_err_diags(g3) == spec_err_diags_v(r3));
                    assert(spec_err_diags(g4) == spec_err_diags_v(r4));
                    assert(spec_err_diags(g5) == spec_err_diags_v(r5));
                    assert(spec_err_diags(g6) == spec_err_diags_v(r6));
                    assert(spec_err_diags(g7) == spec_err_diags_v(r7));
                    assert(spec_err_diags(g8) == spec_err_diags_v(r8));
                    assert(spec_err_diags(g9) == spec_err_diags_v(r9));
                    assert(spec_err_diags(g10) == spec_err_diags_v(r10));
                    assert(spec_err_diags(gh1) =~= spec_err_diags_v(r1) + spec_err_diags_v(r2)
                        + spec_err_diags_v(r3) + spec_err_diags_v(r4) + spec_err_diags_v(r5));
                    assert(spec_err_diags(gh2) =~= spec_err_diags_v(r6) + spec_err_diags_v(r7)
                        + spec_err_diags_v(r8) + spec_err_diags_v(r9) + spec_err_diags_v(r10));
                    assert(e@.diagnostics =~= spec_level_err_view(
                        r1, r2, r3, r4, r5, r6, r7, r8, r9, r10,
                    ).diagnostics);
                    assert(e@ =~= spec_level_err_view(r1, r2, r3, r4, r5, r6, r7, r8, r9, r10));
                }
                Err(e)
            },
        }
    }
}

} // verus!
