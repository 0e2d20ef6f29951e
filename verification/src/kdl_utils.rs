//! The extraction layer: typed, span-aware accessors over the document
//! model.
//!
//! `must_*` accessors fail with a missing-element or missing-entry
//! diagnostic when the addressed item is absent; plain `get_*` accessors
//! return `None` on absence and fail only on a type mismatch, so callers can
//! apply defaults.  The composite `get_transform` reads an optional `pos`
//! child, an optional `scale` child and the ordered list of `rot` children.

use crate::asset_ref::{load, spec_asset_error_msg, spec_load, AssetCatalog, AssetKind, AssetRef, AssetRefView};
use crate::doc::{
    spec_entry, spec_first_node, str_eq_string, KdlDocument, KdlEntry, KdlNode, KdlValue,
    KdlValueType, KeyView, NodeKey,
};
use crate::error::{
    lemma_merge_vec_bridge, merge2, merge3, merge_vec, result_corresponds, spec_err2_view,
    spec_err3_view, spec_err_diags, spec_err_diags_v, spec_leaf_error, spec_merge_views,
    spec_missing_element_msg, spec_no_children_msg, spec_no_entry_msg, spec_not_a_variant_msg,
    spec_parse_error_msg, spec_wrong_value_type_msg, ErrorView, KdlBindError,
};
use crate::num::{Number, Vec3};
use vstd::prelude::*;

verus! {

/// An axis a rotation can name.
#[derive(Debug, Clone, Copy, PartialEq, Eq, Structural)]
pub enum KdlAxis {
    X,
    Y,
    Z,
}

/// The variant names under which an axis is written in a document.
pub open spec fn spec_axis_names() -> Seq<Seq<char>> {
    seq!["x"@, "y"@, "z"@]
}

/// The axis at a position of the variant-name list.
pub open spec fn spec_axis_of_index(i: int) -> KdlAxis {
    if i == 0 {
        KdlAxis::X
    } else if i == 1 {
        KdlAxis::Y
    } else {
        KdlAxis::Z
    }
}

impl KdlAxis {
    /// The names a rotation axis may be written as, in variant order.
    pub fn variant_names() -> (v: Vec<String>)
        ensures
            v.deep_view() == spec_axis_names(),
    {
        let mut v: Vec<String> = Vec::new();
        v.push("x".to_owned());
        v.push("y".to_owned());
        v.push("z".to_owned());
        proof {
            assert(v.deep_view() =~= spec_axis_names());
        }
        v
    }

    /// The axis at a position of the variant-name list.
    pub fn from_index(i: usize) -> (a: KdlAxis)
        requires
            i < 3,
        ensures
            a == spec_axis_of_index(i as int),
    {
        if i == 0 {
            KdlAxis::X
        } else if i == 1 {
            KdlAxis::Y
        } else {
            KdlAxis::Z
        }
    }
}

/// One rotation declaration: an axis and an angle in degrees.
#[derive(Debug, Clone, Copy, PartialEq, Eq, Structural)]
pub struct Rotation {
    pub axis: KdlAxis,
    pub angle: Number,
}

impl View for Rotation {
    type V = Rotation;

    open spec fn view(&self) -> Rotation {
        *self
    }
}

/// A bound transform: a translation, an ordered list of rotations, and a
/// scale.
///
/// The rotations stand in document order.  Composing them into one
/// orientation folds `accum = rotation_i * accum` over this list, so the
/// last-declared rotation is applied as the outermost transform.
#[derive(Debug, Clone, PartialEq)]
pub struct Transform {
    pub translation: Vec3,
    pub rotations: Vec<Rotation>,
    pub scale: Vec3,
}

/// The mathematical value of a bound transform.
#[verifier::ext_equal]
pub struct TransformView {
    pub translation: Vec3,
    pub rotations: Seq<Rotation>,
    pub scale: Vec3,
}

impl View for Transform {
    type V = TransformView;

    open spec fn view(&self) -> TransformView {
        TransformView { translation: self.translation, rotations: self.rotations@, scale: self.scale }
    }
}

impl Transform {
    /// The default transform: no translation, no rotation, unit scale.
    pub fn identity() -> (t: Transform)
        ensures
            t@ == TransformView::spec_identity(),
    {
        let t = Transform { translation: Vec3::zero(), rotations: Vec::new(), scale: Vec3::one() };
        proof {
            assert(t@.rotations =~= Seq::<Rotation>::empty());
        }
        t
    }
}

impl TransformView {
    pub open spec fn spec_identity() -> TransformView {
        TransformView {
            translation: Vec3::spec_zero(),
            rotations: Seq::empty(),
            scale: Vec3::spec_one(),
        }
    }
}

/// The entry a `must_*` accessor addresses, or the missing-entry error.
pub open spec fn spec_must_entry(node: KdlNode, key: KeyView, source: Seq<char>) -> Result<
    KdlEntry,
    ErrorView,
> {
    match spec_entry(node, key) {
        Some(e) => Result::Ok(e),
        None => Result::Err(spec_leaf_error(source, spec_no_entry_msg(key), Some(node.span))),
    }
}

/// The numeric content of a required entry, or the error reporting its
/// absence or its kind.
pub open spec fn spec_must_get_number(node: KdlNode, key: KeyView, source: Seq<char>) -> Result<
    Number,
    ErrorView,
> {
    match spec_must_entry(node, key, source) {
        Result::Err(e) => Result::Err(e),
        Result::Ok(e) => match e.value.spec_as_number() {
            Some(n) => Result::Ok(n),
            None => Result::Err(
                spec_leaf_error(
                    source,
                    spec_wrong_value_type_msg(
                        e.value.spec_value_type(),
                        seq![KdlValueType::Integer, KdlValueType::Float],
                    ),
                    Some(e.span),
                ),
            ),
        },
    }
}

/// The numeric content of an optional entry: absent gives `None`, a
/// non-numeric value is the only failure.
pub open spec fn spec_get_number(node: KdlNode, key: KeyView, source: Seq<char>) -> Result<
    Option<Number>,
    ErrorView,
> {
    match spec_entry(node, key) {
        None => Result::Ok(None),
        Some(e) => match e.value.spec_as_number() {
            Some(n) => Result::Ok(Some(n)),
            None => Result::Err(
                spec_leaf_error(
                    source,
                    spec_wrong_value_type_msg(
                        e.value.spec_value_type(),
                        seq![KdlValueType::Integer, KdlValueType::Float],
                    ),
                    Some(e.span),
                ),
            ),
        },
    }
}

/// The string content of a required entry, or the error reporting its
/// absence or its kind.
pub open spec fn spec_must_get_string(node: KdlNode, key: KeyView, source: Seq<char>) -> Result<
    Seq<char>,
    ErrorView,
> {
    match spec_must_entry(node, key, source) {
        Result::Err(e) => Result::Err(e),
        Result::Ok(e) => match e.value.spec_as_string() {
            Some(s) => Result::Ok(s),
            None => Result::Err(
                spec_leaf_error(
                    source,
                    spec_wrong_value_type_msg(e.value.spec_value_type(), seq![KdlValueType::String]),
                    Some(e.span),
                ),
            ),
        },
    }
}

/// The string content of an optional entry: absent gives `None`, a
/// non-string value is the only failure.
pub open spec fn spec_get_string(node: KdlNode, key: KeyView, source: Seq<char>) -> Result<
    Option<Seq<char>>,
    ErrorView,
> {
    match spec_entry(node, key) {
        None => Result::Ok(None),
        Some(e) => match e.value.spec_as_string() {
            Some(s) => Result::Ok(Some(s)),
            None => Result::Err(
                spec_leaf_error(
                    source,
                    spec_wrong_value_type_msg(e.value.spec_value_type(), seq![KdlValueType::String]),
                    Some(e.span),
                ),
            ),
        },
    }
}

/// The position of the first variant name a string matches.
pub open spec fn spec_variant_index(names: Seq<Seq<char>>, s: Seq<char>) -> Option<int>
    decreases names.len(),
{
    if names.len() == 0 {
        None
    } else if names.first() == s {
        Some(0)
    } else {
        match spec_variant_index(names.drop_first(), s) {
            Some(i) => Some(i + 1),
            None => None,
        }
    }
}

/// An option shifted by an offset, used to relate a scan of a suffix to the
/// whole list.
pub open spec fn spec_shift_opt(o: Option<int>, k: int) -> Option<int> {
    match o {
        Some(i) => Some(i + k),
        None => None,
    }
}

/// The matched variant of a required entry: the position of the first name
/// the string equals, or the error reporting absence, a non-string value,
/// or an unknown variant.
pub open spec fn spec_must_get_variant(
    node: KdlNode,
    key: KeyView,
    names: Seq<Seq<char>>,
    source: Seq<char>,
) -> Result<int, ErrorView> {
    match spec_must_get_string(node, key, source) {
        Result::Err(e) => Result::Err(e),
        Result::Ok(s) => match spec_variant_index(names, s) {
            Some(i) => Result::Ok(i),
            None => Result::Err(
                spec_leaf_error(
                    source,
                    spec_not_a_variant_msg(s, names),
                    Some(spec_entry(node, key)->Some_0.span),
                ),
            ),
        },
    }
}

/// The matched variant of an optional entry: absent gives `None`.
pub open spec fn spec_get_variant(
    node: KdlNode,
    key: KeyView,
    names: Seq<Seq<char>>,
    source: Seq<char>,
) -> Result<Option<int>, ErrorView> {
    match spec_entry(node, key) {
        None => Result::Ok(None),
        Some(_) => match spec_must_get_variant(node, key, names, source) {
            Result::Ok(i) => Result::Ok(Some(i)),
            Result::Err(e) => Result::Err(e),
        },
    }
}

/// The resolved asset reference of a required entry, or the error reporting
/// absence, a non-string value, or a failed resolution.
pub open spec fn spec_must_get_handle(
    node: KdlNode,
    key: KeyView,
    kind: AssetKind,
    catalog: AssetCatalog,
    source: Seq<char>,
) -> Result<AssetRefView, ErrorView> {
    match spec_must_get_string(node, key, source) {
        Result::Err(e) => Result::Err(e),
        Result::Ok(s) => match spec_load(s, kind, catalog) {
            Result::Ok(a) => Result::Ok(a),
            Result::Err(err) => Result::Err(
                spec_leaf_error(
                    source,
                    spec_parse_error_msg(spec_asset_error_msg(err)),
                    Some(spec_entry(node, key)->Some_0.span),
                ),
            ),
        },
    }
}

/// The resolved asset reference of an optional entry: absent gives `None`.
pub open spec fn spec_get_handle(
    node: KdlNode,
    key: KeyView,
    kind: AssetKind,
    catalog: AssetCatalog,
    source: Seq<char>,
) -> Result<Option<AssetRefView>, ErrorView> {
    match spec_entry(node, key) {
        None => Result::Ok(None),
        Some(_) => match spec_must_get_handle(node, key, kind, catalog, source) {
            Result::Ok(a) => Result::Ok(Some(a)),
            Result::Err(e) => Result::Err(e),
        },
    }
}

impl KdlNode {
    /// The entry addressed by the key, or a missing-entry error spanning
    /// this node.
    pub fn must_entry(&self, key: NodeKey, source: &String) -> (r: Result<&KdlEntry, KdlBindError>)
        ensures
            match r {
                Ok(e) => spec_must_entry(*self, key@, source@) == Result::<KdlEntry, ErrorView>::Ok(
                    *e,
                ),
                Err(e) => spec_must_entry(*self, key@, source@) == Result::<
                    KdlEntry,
                    ErrorView,
                >::Err(e@),
            },
    {
        match self.entry(&key) {
            Some(e) => Ok(e),
            None => Err(KdlBindError::no_entry(source, &key, self.span)),
        }
    }

    /// The value addressed by the key, or a missing-entry error.
    pub fn must_get(&self, key: NodeKey, source: &String) -> (r: Result<&KdlValue, KdlBindError>)
        ensures
            match r {
                Ok(v) => spec_must_entry(*self, key@, source@) matches Result::Ok(e) && e.value
                    == *v,
                Err(e) => spec_must_entry(*self, key@, source@) == Result::<
                    KdlEntry,
                    ErrorView,
                >::Err(e@),
            },
    {
        match self.must_entry(key, source) {
            Ok(e) => Ok(e.value()),
            Err(e) => Err(e),
        }
    }

    /// The numeric content of a required entry.
    pub fn must_get_number(&self, key: NodeKey, source: &String) -> (r: Result<
        Number,
        KdlBindError,
    >)
        ensures
            match r {
                Ok(n) => spec_must_get_number(*self, key@, source@) == Result::<
                    Number,
                    ErrorView,
                >::Ok(n),
                Err(e) => spec_must_get_number(*self, key@, source@) == Result::<
                    Number,
                    ErrorView,
                >::Err(e@),
            },
    {
        match self.must_entry(key, source) {
            Err(e) => Err(e),
            Ok(entry) => match entry.value.as_number() {
                Some(n) => Ok(n),
                None => {
                    let types = [KdlValueType::Integer, KdlValueType::Float];
                    proof {
                        assert(types@ =~= seq![KdlValueType::Integer, KdlValueType::Float]);
                    }
                    Err(
                        KdlBindError::wrong_value_type(
                            source,
                            entry.value.value_type(),
                            &types,
                            entry.span,
                        ),
                    )
                },
            },
        }
    }

    /// The numeric content of an optional entry: `None` when absent.
    pub fn get_number(&self, key: NodeKey, source: &String) -> (r: Result<
        Option<Number>,
        KdlBindError,
    >)
        ensures
            match r {
                Ok(n) => spec_get_number(*self, key@, source@) == Result::<
                    Option<Number>,
                    ErrorView,
                >::Ok(n),
                Err(e) => spec_get_number(*self, key@, source@) == Result::<
                    Option<Number>,
                    ErrorView,
                >::Err(e@),
            },
    {
        match self.entry(&key) {
            None => Ok(None),
            Some(entry) => match entry.value.as_number() {
                Some(n) => Ok(Some(n)),
                None => {
                    let types = [KdlValueType::Integer, KdlValueType::Float];
                    proof {
                        assert(types@ =~= seq![KdlValueType::Integer, KdlValueType::Float]);
                    }
                    Err(
                        KdlBindError::wrong_value_type(
                            source,
                            entry.value.value_type(),
                            &types,
                            entry.span,
                        ),
                    )
                },
            },
        }
    }

    /// The string content of a required entry.
    pub fn must_get_string(&self, key: NodeKey, source: &String) -> (r: Result<
        String,
        KdlBindError,
    >)
        ensures
            match r {
                Ok(s) => spec_must_get_string(*self, key@, source@) == Result::<
                    Seq<char>,
                    ErrorView,
                >::Ok(s@),
                Err(e) => spec_must_get_string(*self, key@, source@) == Result::<
                    Seq<char>,
                    ErrorView,
                >::Err(e@),
            },
    {
        match self.must_entry(key, source) {
            Err(e) => Err(e),
            Ok(entry) => match entry.value.as_string() {
                Some(s) => Ok(s.clone()),
                None => {
                    let types = [KdlValueType::String];
                    proof {
                        assert(types@ =~= seq![KdlValueType::String]);
                    }
                    Err(
                        KdlBindError::wrong_value_type(
                            source,
                            entry.value.value_type(),
                            &types,
                            entry.span,
                        ),
                    )
                },
            },
        }
    }

    /// The string content of an optional entry: `None` when absent.
    pub fn get_string(&self, key: NodeKey, source: &String) -> (r: Result<
        Option<String>,
        KdlBindError,
    >)
        ensures
            match r {
                Ok(s) => spec_get_string(*self, key@, source@) == Result::<
                    Option<Seq<char>>,
                    ErrorView,
                >::Ok(s.deep_view()),
                Err(e) => spec_get_string(*self, key@, source@) == Result::<
                    Option<Seq<char>>,
                    ErrorView,
                >::Err(e@),
            },
    {
        match self.entry(&key) {
            None => Ok(None),
            Some(entry) => match entry.value.as_string() {
                Some(s) => Ok(Some(s.clone())),
                None => {
                    let types = [KdlValueType::String];
                    proof {
                        assert(types@ =~= seq![KdlValueType::String]);
                    }
                    Err(
                        KdlBindError::wrong_value_type(
                            source,
                            entry.value.value_type(),
                            &types,
                            entry.span,
                        ),
                    )
                },
            },
        }
    }

    /// This node's children, or a no-children error spanning the node.
    pub fn must_children(&self, source: &String) -> (r: Result<&KdlDocument, KdlBindError>)
        ensures
            match r {
                Ok(d) => self.children == Some(*d),
                Err(e) => self.children is None && e@ == spec_leaf_error(
                    source@,
                    spec_no_children_msg(),
                    Some(self.span),
                ),
            },
    {
        match &self.children {
            Some(d) => Ok(d),
            None => Err(KdlBindError::no_children(source, self.span)),
        }
    }

    /// The first child node of the given name, or an error when the node
    /// has no children or none of them matches.
    pub fn must_child(&self, name: &str, source: &String) -> (r: Result<&KdlNode, KdlBindError>)
        ensures
            match r {
                Ok(n) => self.children matches Some(d) && spec_first_node(d.nodes@, name@)
                    == Some(*n),
                Err(e) => {
                    ||| (self.children is None && e@ == spec_leaf_error(
                        source@,
                        spec_no_children_msg(),
                        Some(self.span),
                    ))
                    ||| (self.children matches Some(d) && spec_first_node(d.nodes@, name@) is None
                        && e@ == spec_leaf_error(source@, spec_missing_element_msg(name@), None))
                },
            },
    {
        match self.must_children(source) {
            Ok(d) => d.must_get(name, source),
            Err(e) => Err(e),
        }
    }
}

/// The position of the first variant name the string matches, scanning in
/// order.
fn find_variant(variants: &Vec<String>, s: &String) -> (r: Option<usize>)
    ensures
        match r {
            Some(i) => spec_variant_index(variants.deep_view(), s@) == Some(i as int) && i
                < variants@.len(),
            None => spec_variant_index(variants.deep_view(), s@) is None,
        },
{
    let ghost names = variants.deep_view();
    let mut i: usize = 0;
    proof {
        assert(names.skip(0) =~= names);
    }
    while i < variants.len()
        invariant
            i <= variants@.len(),
            names == variants.deep_view(),
            spec_variant_index(names, s@) == spec_shift_opt(
                spec_variant_index(names.skip(i as int), s@),
                i as int,
            ),
        decreases variants@.len() - i,
    {
        proof {
            assert(names.skip(i as int).first() == names[i as int]);
            assert(names[i as int] == variants@[i as int]@);
        }
        let vi = &variants[i];
        if *s == *vi {
            return Some(i);
        }
        proof {
            assert(names.skip(i as int).drop_first() =~= names.skip(i + 1));
        }
        i += 1;
    }
    None
}

impl KdlNode {
    /// The position of the first allowed variant name a required string
    /// entry matches.
    pub fn must_get_variant(&self, key: NodeKey, variants: &Vec<String>, source: &String) -> (r:
        Result<usize, KdlBindError>)
        requires
            variants@.len() >= 1,
        ensures
            match r {
                Ok(i) => spec_must_get_variant(*self, key@, variants.deep_view(), source@)
                    == Result::<int, ErrorView>::Ok(i as int) && i < variants@.len(),
                Err(e) => spec_must_get_variant(*self, key@, variants.deep_view(), source@)
                    == Result::<int, ErrorView>::Err(e@),
            },
    {
        match self.must_entry(key, source) {
            Err(e) => Err(e),
            Ok(entry) => match entry.value.as_string() {
                None => {
                    let types = [KdlValueType::String];
                    proof {
                        assert(types@ =~= seq![KdlValueType::String]);
                    }
                    Err(
                        KdlBindError::wrong_value_type(
                            source,
                            entry.value.value_type(),
                            &types,
                            entry.span,
                        ),
                    )
                },
                Some(s) => match find_variant(variants, s) {
                    Some(i) => Ok(i),
                    None => Err(KdlBindError::not_a_variant(source, s.as_str(), variants, entry.span)),
                },
            },
        }
    }

    /// The matched variant of an optional entry: `None` when absent.
    pub fn get_variant(&self, key: NodeKey, variants: &Vec<String>, source: &String) -> (r: Result<
        Option<usize>,
        KdlBindError,
    >)
        requires
            variants@.len() >= 1,
        ensures
            match r {
                Ok(oi) => spec_get_variant(*self, key@, variants.deep_view(), source@) == Result::<
                    Option<int>,
                    ErrorView,
                >::Ok(
                    match oi {
                        Some(i) => Some(i as int),
                        None => None,
                    },
                ) && (oi matches Some(i) ==> i < variants@.len()),
                Err(e) => spec_get_variant(*self, key@, variants.deep_view(), source@) == Result::<
                    Option<int>,
                    ErrorView,
                >::Err(e@),
            },
    {
        match self.entry(&key) {
            None => Ok(None),
            Some(_) => match self.must_get_variant(key, variants, source) {
                Ok(i) => Ok(Some(i)),
                Err(e) => Err(e),
            },
        }
    }

    /// The resolved asset reference of a required entry.
    pub fn must_get_handle(
        &self,
        key: NodeKey,
        kind: AssetKind,
        catalog: &AssetCatalog,
        source: &String,
    ) -> (r: Result<AssetRef, KdlBindError>)
        ensures
            match r {
                Ok(a) => spec_must_get_handle(*self, key@, kind, *catalog, source@) == Result::<
                    AssetRefView,
                    ErrorView,
                >::Ok(a@),
                Err(e) => spec_must_get_handle(*self, key@, kind, *catalog, source@) == Result::<
                    AssetRefView,
                    ErrorView,
                >::Err(e@),
            },
    {
        match self.must_entry(key, source) {
            Err(e) => Err(e),
            Ok(entry) => match entry.value.as_string() {
                None => {
                    let types = [KdlValueType::String];
                    proof {
                        assert(types@ =~= seq![KdlValueType::String]);
                    }
                    Err(
                        KdlBindError::wrong_value_type(
                            source,
                            entry.value.value_type(),
                            &types,
                            entry.span,
                        ),
                    )
                },
                Some(s) => match load(s.as_str(), kind, catalog) {
                    Ok(a) => Ok(a),
                    Err(err) => {
                        let msg = err.message();
                        Err(KdlBindError::parse_error(source, msg.as_str(), entry.span))
                    },
                },
            },
        }
    }

    /// The resolved asset reference of an optional entry: `None` when
    /// absent.
    pub fn get_handle(
        &self,
        key: NodeKey,
        kind: AssetKind,
        catalog: &AssetCatalog,
        source: &String,
    ) -> (r: Result<Option<AssetRef>, KdlBindError>)
        ensures
            match r {
                Ok(oa) => spec_get_handle(*self, key@, kind, *catalog, source@) == Result::<
                    Option<AssetRefView>,
                    ErrorView,
                >::Ok(
                    match oa {
                        Some(a) => Some(a@),
                        None => None,
                    },
                ),
                Err(e) => spec_get_handle(*self, key@, kind, *catalog, source@) == Result::<
                    Option<AssetRefView>,
                    ErrorView,
                >::Err(e@),
            },
    {
        match self.entry(&key) {
            None => Ok(None),
            Some(_) => match self.must_get_handle(key, kind, catalog, source) {
                Ok(a) => Ok(Some(a)),
                Err(e) => Err(e),
            },
        }
    }
}

/// Three required positional numbers starting at an offset, as a vector.
pub open spec fn spec_must_get_vec3(node: KdlNode, off: usize, source: Seq<char>) -> Result<
    Vec3,
    ErrorView,
> {
    let rx = spec_must_get_number(node, KeyView::Index(off as int), source);
    let ry = spec_must_get_number(node, KeyView::Index(off + 1), source);
    let rz = spec_must_get_number(node, KeyView::Index(off + 2), source);
    if rx is Ok && ry is Ok && rz is Ok {
        Result::Ok(Vec3 { x: rx->Ok_0, y: ry->Ok_0, z: rz->Ok_0 })
    } else {
        Result::Err(spec_err3_view(rx, ry, rz))
    }
}

/// The numeric content of a positional entry taken as-is: absent or
/// non-numeric both give `None`.
pub open spec fn spec_opt_raw_number(node: KdlNode, idx: usize) -> Option<Number> {
    match spec_entry(node, KeyView::Index(idx as int)) {
        Some(e) => e.value.spec_as_number(),
        None => None,
    }
}

/// One to three positional numbers starting at an offset: missing trailing
/// components fall back to the first (uniform-scale shorthand).
pub open spec fn spec_must_get_scale(node: KdlNode, off: usize, source: Seq<char>) -> Result<
    Vec3,
    ErrorView,
> {
    match spec_must_get_number(node, KeyView::Index(off as int), source) {
        Result::Err(e) => Result::Err(e),
        Result::Ok(x) => Result::Ok(
            Vec3 {
                x,
                y: match spec_opt_raw_number(node, (off + 1) as usize) {
                    Some(n) => n,
                    None => x,
                },
                z: match spec_opt_raw_number(node, (off + 2) as usize) {
                    Some(n) => n,
                    None => x,
                },
            },
        ),
    }
}

/// A rotation declaration: an axis variant and a degree angle at the next
/// position.
pub open spec fn spec_must_get_rotation(node: KdlNode, off: usize, source: Seq<char>) -> Result<
    Rotation,
    ErrorView,
> {
    let ra = spec_must_get_variant(node, KeyView::Index(off as int), spec_axis_names(), source);
    let rb = spec_must_get_number(node, KeyView::Index(off + 1), source);
    if ra is Ok && rb is Ok {
        Result::Ok(Rotation { axis: spec_axis_of_index(ra->Ok_0), angle: rb->Ok_0 })
    } else {
        Result::Err(spec_err2_view(ra, rb))
    }
}

impl KdlNode {
    /// Three required positional numbers starting at the given offset.
    pub fn must_get_vec3(&self, arg_offset: usize, source: &String) -> (r: Result<
        Vec3,
        KdlBindError,
    >)
        requires
            arg_offset + 2 <= usize::MAX,
        ensures
            match r {
                Ok(v) => spec_must_get_vec3(*self, arg_offset, source@) == Result::<
                    Vec3,
                    ErrorView,
                >::Ok(v),
                Err(e) => spec_must_get_vec3(*self, arg_offset, source@) == Result::<
                    Vec3,
                    ErrorView,
                >::Err(e@),
            },
    {
        let x = self.must_get_number(NodeKey::Index(arg_offset), source);
        let y = self.must_get_number(NodeKey::Index(arg_offset + 1), source);
        let z = self.must_get_number(NodeKey::Index(arg_offset + 2), source);
        let ghost rx = spec_must_get_number(*self, KeyView::Index(arg_offset as int), source@);
        let ghost ry = spec_must_get_number(*self, KeyView::Index(arg_offset + 1), source@);
        let ghost rz = spec_must_get_number(*self, KeyView::Index(arg_offset + 2), source@);
        let ghost gx = x;
        let ghost gy = y;
        let ghost gz = z;
        match merge3(x, y, z) {
            Ok((a, b, c)) => Ok(Vec3 { x: a, y: b, z: c }),
            Err(e) => {
                proof {
                    assert(spec_err_diags(gx) == spec_err_diags_v(rx));
                    assert(spec_err_diags(gy) == spec_err_diags_v(ry));
                    assert(spec_err_diags(gz) == spec_err_diags_v(rz));
                    assert(e@.diagnostics =~= spec_err3_view(rx, ry, rz).diagnostics);
                    assert(e@ =~= spec_err3_view(rx, ry, rz));
                }
                Err(e)
            },
        }
    }

    /// One to three positional numbers starting at the given offset, the
    /// first value standing in for missing trailing components.
    pub fn must_get_scale(&self, arg_offset: usize, source: &String) -> (r: Result<
        Vec3,
        KdlBindError,
    >)
        requires
            arg_offset + 2 <= usize::MAX,
        ensures
            match r {
                Ok(v) => spec_must_get_scale(*self, arg_offset, source@) == Result::<
                    Vec3,
                    ErrorView,
                >::Ok(v),
                Err(e) => spec_must_get_scale(*self, arg_offset, source@) == Result::<
                    Vec3,
                    ErrorView,
                >::Err(e@),
            },
    {
        match self.must_get_number(NodeKey::Index(arg_offset), source) {
            Err(e) => Err(e),
            Ok(x) => {
                let y = match self.get(&NodeKey::Index(arg_offset + 1)) {
                    Some(v) => v.as_number(),
                    None => None,
                };
                let z = match self.get(&NodeKey::Index(arg_offset + 2)) {
                    Some(v) => v.as_number(),
                    None => None,
                };
                let yv = match y {
                    Some(n) => n,
                    None => x,
                };
                let zv = match z {
                    Some(n) => n,
                    None => x,
                };
                Ok(Vec3 { x, y: yv, z: zv })
            },
        }
    }

    /// A rotation declaration: an axis name and a degree angle.
    pub fn must_get_rotation(&self, arg_offset: usize, source: &String) -> (r: Result<
        Rotation,
        KdlBindError,
    >)
        requires
            arg_offset + 1 <= usize::MAX,
        ensures
            match r {
                Ok(rot) => spec_must_get_rotation(*self, arg_offset, source@) == Result::<
                    Rotation,
                    ErrorView,
                >::Ok(rot),
                Err(e) => spec_must_get_rotation(*self, arg_offset, source@) == Result::<
                    Rotation,
                    ErrorView,
                >::Err(e@),
            },
    {
        let names = KdlAxis::variant_names();
        let axis: Result<KdlAxis, KdlBindError> = match self.must_get_variant(
            NodeKey::Index(arg_offset),
            &names,
            source,
        ) {
            Ok(i) => Ok(KdlAxis::from_index(i)),
            Err(e) => Err(e),
        };
        let angle = self.must_get_number(NodeKey::Index(arg_offset + 1), source);
        let ghost ra = spec_must_get_variant(
            *self,
            KeyView::Index(arg_offset as int),
            spec_axis_names(),
            source@,
        );
        let ghost rb = spec_must_get_number(*self, KeyView::Index(arg_offset + 1), source@);
        let ghost gaxis = axis;
        let ghost gangle = angle;
        match merge2(axis, angle) {
            Ok((a, b)) => Ok(Rotation { axis: a, angle: b }),
            Err(e) => {
                proof {
                    assert(spec_err_diags(gaxis) == spec_err_diags_v(
                        ra,
                    ));
                    assert(spec_err_diags(gangle) == spec_err_diags_v(
                        rb,
                    ));
                    assert(e@.diagnostics =~= spec_err2_view(ra, rb).diagnostics);
                    assert(e@ =~= spec_err2_view(ra, rb));
                }
                Err(e)
            },
        }
    }
}

/// The optional `pos` child of a transform document: three required
/// numbers when the child is present.
pub open spec fn spec_transform_translation(doc: KdlDocument, source: Seq<char>) -> Result<
    Option<Vec3>,
    ErrorView,
> {
    match spec_first_node(doc.nodes@, "pos"@) {
        None => Result::Ok(None),
        Some(n) => match spec_must_get_vec3(n, 0, source) {
            Result::Ok(v) => Result::Ok(Some(v)),
            Result::Err(e) => Result::Err(e),
        },
    }
}

/// The optional `scale` child of a transform document: one to three
/// numbers when the child is present.
pub open spec fn spec_transform_scale(doc: KdlDocument, source: Seq<char>) -> Result<
    Option<Vec3>,
    ErrorView,
> {
    match spec_first_node(doc.nodes@, "scale"@) {
        None => Result::Ok(None),
        Some(n) => match spec_must_get_scale(n, 0, source) {
            Result::Ok(v) => Result::Ok(Some(v)),
            Result::Err(e) => Result::Err(e),
        },
    }
}

/// The rotation declarations of a transform document, one per `rot` child,
/// in document order.
pub open spec fn spec_rot_results(nodes: Seq<KdlNode>, source: Seq<char>) -> Seq<
    Result<Rotation, ErrorView>,
>
    decreases nodes.len(),
{
    if nodes.len() == 0 {
        Seq::empty()
    } else {
        let rest = spec_rot_results(nodes.drop_last(), source);
        if nodes.last().name@ == "rot"@ {
            rest.push(spec_must_get_rotation(nodes.last(), 0, source))
        } else {
            rest
        }
    }
}

/// A whole transform read from a document: the optional `pos` and `scale`
/// children and every `rot` child, merged so that each part's diagnostics
/// are collected.
pub open spec fn spec_get_transform(doc: KdlDocument, source: Seq<char>) -> Result<
    TransformView,
    ErrorView,
> {
    let rt = spec_transform_translation(doc, source);
    let rs = spec_transform_scale(doc, source);
    let rr = spec_merge_views(spec_rot_results(doc.nodes@, source));
    if rt is Ok && rs is Ok && rr is Ok {
        Result::Ok(
            TransformView {
                translation: match rt->Ok_0 {
                    Some(v) => v,
                    None => Vec3::spec_zero(),
                },
                rotations: rr->Ok_0,
                scale: match rs->Ok_0 {
                    Some(v) => v,
                    None => Vec3::spec_one(),
                },
            },
        )
    } else {
        Result::Err(spec_err3_view(rt, rs, rr))
    }
}

impl KdlDocument {
    /// Reads a transform from this document: an optional `pos` child, an
    /// optional `scale` child, and zero or more `rot` children composed in
    /// document order.
    pub fn get_transform(&self, source: &String) -> (r: Result<Transform, KdlBindError>)
        ensures
            match r {
                Ok(t) => spec_get_transform(*self, source@) == Result::<
                    TransformView,
                    ErrorView,
                >::Ok(t@),
                Err(e) => spec_get_transform(*self, source@) == Result::<
                    TransformView,
                    ErrorView,
                >::Err(e@),
            },
    {
        let translation: Result<Option<Vec3>, KdlBindError> = match self.get("pos") {
            None => Ok(None),
            Some(n) => match n.must_get_vec3(0, source) {
                Ok(v) => Ok(Some(v)),
                Err(e) => Err(e),
            },
        };
        let scale: Result<Option<Vec3>, KdlBindError> = match self.get("scale") {
            None => Ok(None),
            Some(n) => match n.must_get_scale(0, source) {
                Ok(v) => Ok(Some(v)),
                Err(e) => Err(e),
            },
        };
        let ghost rt = spec_transform_translation(*self, source@);
        let ghost rs = spec_transform_scale(*self, source@);

        let mut rot_results: Vec<Result<Rotation, KdlBindError>> = Vec::new();
        let mut i: usize = 0;
        proof {
            assert(self.nodes@.take(0) =~= Seq::<KdlNode>::empty());
            assert(rot_results@ =~= Seq::<Result<Rotation, KdlBindError>>::empty());
        }
        while i < self.nodes.len()
            invariant
                i <= self.nodes@.len(),
                rot_results@.len() == spec_rot_results(self.nodes@.take(i as int), source@).len(),
                forall|j: int|
                    0 <= j < rot_results@.len() ==> result_corresponds(
                        #[trigger] rot_results@[j],
                        spec_rot_results(self.nodes@.take(i as int), source@)[j],
                    ),
            decreases self.nodes@.len() - i,
        {
            proof {
                assert(self.nodes@.take(i + 1).drop_last() =~= self.nodes@.take(i as int));
                assert(self.nodes@.take(i + 1).last() == self.nodes@[i as int]);
            }
            let node = &self.nodes[i];
            if str_eq_string("rot", &node.name) {
                let res = node.must_get_rotation(0, source);
                rot_results.push(res);
            }
            i += 1;
        }
        proof {
            assert(self.nodes@.take(i as int) =~= self.nodes@);
        }
        let ghost grs = rot_results@;
        let ghost rot_specs = spec_rot_results(self.nodes@, source@);
        let ghost rr = spec_merge_views(rot_specs);
        proof {
            lemma_merge_vec_bridge::<Rotation>(grs, rot_specs);
        }
        let rotations = merge_vec(rot_results);
        let ghost gtr = translation;
        let ghost gsc = scale;
        let ghost grot = rotations;
        match merge3(translation, scale, rotations) {
            Ok((t, s, rots)) => {
                let tv = match t {
                    Some(v) => v,
                    None => Vec3::zero(),
                };
                let sv = match s {
                    Some(v) => v,
                    None => Vec3::one(),
                };
                let out = Transform { translation: tv, rotations: rots, scale: sv };
                proof {
                    assert(rr matches Result::Ok(vs) && vs =~= out@.rotations);
                    assert(spec_get_transform(*self, source@) matches Result::Ok(v) && v =~= out@);
                }
                Ok(out)
            },
            Err(e) => {
                proof {
                    assert(spec_err_diags(gtr) == spec_err_diags_v(rt));
                    assert(spec_err_diags(gsc) == spec_err_diags_v(rs));
                    if grot is Err {
                        assert(rr matches Result::Err(ev) && ev =~= grot->Err_0@);
                    }
                    assert(spec_err_diags(grot) == spec_err_diags_v(
                        rr,
                    ));
                    assert(e@.diagnostics =~= spec_err3_view(rt, rs, rr).diagnostics);
                    assert(e@ =~= spec_err3_view(rt, rs, rr));
                }
                Err(e)
            },
        }
    }

    /// The first node of the given name, or a missing-element error.
    pub fn must_get(&self, name: &str, source: &String) -> (r: Result<&KdlNode, KdlBindError>)
        ensures
            match r {
                Ok(n) => spec_first_node(self.nodes@, name@) == Some(*n),
                Err(e) => spec_first_node(self.nodes@, name@) is None && e@ == spec_leaf_error(
                    source@,
                    spec_missing_element_msg(name@),
                    None,
                ),
            },
    {
        match self.get(name) {
            Some(n) => Ok(n),
            None => Err(KdlBindError::missing_element(source, name)),
        }
    }

    /// The children of the first node of the given name, or the error for
    /// the missing node or its missing children.
    pub fn must_children(&self, name: &str, source: &String) -> (r: Result<
        &KdlDocument,
        KdlBindError,
    >)
        ensures
            match r {
                Ok(d) => spec_first_node(self.nodes@, name@) matches Some(n) && n.children == Some(
                    *d,
                ),
                Err(e) => {
                    ||| (spec_first_node(self.nodes@, name@) is None && e@ == spec_leaf_error(
                        source@,
                        spec_missing_element_msg(name@),
                        None,
                    ))
                    ||| (spec_first_node(self.nodes@, name@) matches Some(n) && n.children is None
                        && e@ == spec_leaf_error(source@, spec_no_children_msg(), Some(n.span)))
                },
            },
    {
        match self.must_get(name, source) {
            Ok(n) => n.must_children(source),
            Err(e) => Err(e),
        }
    }
}

} // verus!
