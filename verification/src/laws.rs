//! The properties the binder is built around, stated and proved once.
//!
//! Binding collects every diagnostic in a document instead of stopping at
//! the first failure, is deterministic, and applies its documented
//! defaults.  Each law here is stated over the specification functions
//! that the executable functions' contracts tie their results to.

use crate::asset_ref::{AssetCatalog, AssetKind};
use crate::doc::{spec_entry, spec_first_node, KdlDocument, KdlNode, KeyView};
use crate::error::{
    spec_concat_err_diags_v, spec_err2_view, spec_err3_view, spec_err4_view, spec_err5_view,
    spec_err6_view, spec_err_diags_v, spec_merge2_views, spec_merge_views, DiagnosticView,
    ErrorView, Severity,
};
use crate::kdl_utils::{
    spec_axis_names, spec_get_handle, spec_get_number, spec_get_transform, spec_get_variant,
    spec_must_get_handle, spec_must_get_number, spec_must_get_rotation, spec_must_get_scale,
    spec_must_get_string, spec_must_get_variant, spec_must_get_vec3, spec_rot_results,
    spec_transform_scale, spec_transform_translation,
};
use crate::level::{
    spec_align_names, spec_bind_button, spec_bind_button_door, spec_bind_cuboid,
    spec_bind_default_music, spec_bind_dynamic, spec_bind_level, spec_bind_music, spec_bind_plane,
    spec_bind_text, spec_bind_triggered_music, spec_button_door_results, spec_button_results,
    spec_child_doc_transform, spec_child_scale, spec_children_transform, spec_cuboid_results,
    spec_default_dynamic_size, spec_doc_child_transform, spec_dynamic_results, spec_dynamic_size,
    spec_dynamic_type_names, spec_node_transform, spec_plane_results, spec_plane_type_names,
    spec_text_results, spec_triggered_music_results, LevelView, SerialAlign, SerialLevel,
    SerialPlaneType,
};
use vstd::prelude::*;

verus! {

/// Whether `sub` stands somewhere inside `sup` as a contiguous run.
pub open spec fn is_infix(sub: Seq<DiagnosticView>, sup: Seq<DiagnosticView>) -> bool {
    exists|off: int|
        0 <= off && off + sub.len() <= sup.len() && #[trigger] sup.subrange(off, off + sub.len())
            == sub
}

/// A failed sequence merge carries exactly the concatenation of its
/// elements' diagnostics, in element order.
pub proof fn lemma_merge_views_err_diags<T>(rs: Seq<Result<T, ErrorView>>)
    ensures
        spec_merge_views(rs) matches Err(e) ==> e.diagnostics == spec_concat_err_diags_v(rs),
    decreases rs.len(),
{
    if rs.len() > 0 {
        lemma_merge_views_err_diags(rs.drop_last());
        match (spec_merge_views(rs.drop_last()), rs.last()) {
            (Result::Ok(_), Result::Err(e)) => {
                lemma_merge_views_ok_no_diags(rs.drop_last());
                assert(e.diagnostics =~= spec_concat_err_diags_v(rs));
            },
            (Result::Err(e), Result::Ok(_)) => {
                assert(e.diagnostics + spec_err_diags_v(rs.last()) =~= e.diagnostics);
            },
            _ => {},
        }
    }
}

/// A successful sequence merge had no failing element, so the elements
/// contribute no diagnostics.
pub proof fn lemma_merge_views_ok_no_diags<T>(rs: Seq<Result<T, ErrorView>>)
    ensures
        spec_merge_views(rs) is Ok ==> spec_concat_err_diags_v(rs) == Seq::<
            DiagnosticView,
        >::empty(),
    decreases rs.len(),
{
    if rs.len() > 0 {
        lemma_merge_views_ok_no_diags(rs.drop_last());
        if spec_merge_views(rs) is Ok {
            assert(spec_concat_err_diags_v(rs) =~= Seq::<DiagnosticView>::empty());
        }
    }
}

/// No early exit: one failing element makes the whole merge fail, and its
/// diagnostics stand unchanged, as a contiguous run, in the merged error.
pub proof fn lemma_merge_views_keeps_every_failure<T>(rs: Seq<Result<T, ErrorView>>, k: int)
    requires
        0 <= k < rs.len(),
        rs[k] is Err,
    ensures
        spec_merge_views(rs) is Err,
        is_infix(rs[k]->Err_0.diagnostics, spec_merge_views(rs)->Err_0.diagnostics),
    decreases rs.len(),
{
    let n = rs.len() - 1;
    let prev = spec_merge_views(rs.drop_last());
    assert(rs.last() == rs[n]);
    if k == n {
        let e = rs[k]->Err_0;
        let sub = e.diagnostics;
        match prev {
            Result::Ok(_) => {
                let sup = spec_merge_views(rs)->Err_0.diagnostics;
                assert(sup.subrange(0, 0 + sub.len() as int) =~= sub);
                assert(is_infix(sub, sup));
            },
            Result::Err(p) => {
                let off = p.diagnostics.len() as int;
                let sup = spec_merge_views(rs)->Err_0.diagnostics;
                assert(sup == p.diagnostics + e.diagnostics);
                assert(sup.subrange(off, off + sub.len()) =~= sub);
                assert(is_infix(sub, sup));
            },
        }
    } else {
        assert(rs.drop_last()[k] == rs[k]);
        lemma_merge_views_keeps_every_failure(rs.drop_last(), k);
        let p = prev->Err_0;
        let sub = rs[k]->Err_0.diagnostics;
        let off = choose|off: int|
            0 <= off && off + sub.len() <= p.diagnostics.len() && #[trigger] p.diagnostics.subrange(
                off,
                off + sub.len(),
            ) == sub;
        match rs.last() {
            Result::Ok(_) => {
                let sup = spec_merge_views(rs)->Err_0.diagnostics;
                assert(sup == p.diagnostics);
                assert(sup.subrange(off, off + sub.len()) == sub);
                assert(is_infix(sub, sup));
            },
            Result::Err(e) => {
                let sup = spec_merge_views(rs)->Err_0.diagnostics;
                assert(sup == p.diagnostics + e.diagnostics);
                assert(sup.subrange(off, off + sub.len()) =~= sub);
                assert(is_infix(sub, sup));
            },
        }
    }
}

/// No early exit at the top: the bind of a document fails exactly when one
/// of its parts fails, and the error concatenates the diagnostics of every
/// part, in document order within each category.
pub proof fn lemma_bind_no_early_exit(doc: KdlDocument, catalog: AssetCatalog, source: Seq<char>)
    ensures
        spec_bind_level(doc, catalog, source) is Err <==> {
            ||| spec_doc_child_transform(doc, "spawn"@, source) is Err
            ||| spec_doc_child_transform(doc, "finish"@, source) is Err
            ||| spec_bind_default_music(doc, catalog, source) is Err
            ||| spec_merge_views(spec_triggered_music_results(doc.nodes@, catalog, source)) is Err
            ||| spec_merge_views(spec_plane_results(doc.nodes@, catalog, source)) is Err
            ||| spec_merge_views(spec_cuboid_results(doc.nodes@, catalog, source)) is Err
            ||| spec_merge_views(spec_text_results(doc.nodes@, catalog, source)) is Err
            ||| spec_merge_views(spec_button_results(doc.nodes@, source)) is Err
            ||| spec_merge_views(spec_button_door_results(doc.nodes@, catalog, source)) is Err
            ||| spec_merge_views(spec_dynamic_results(doc.nodes@, catalog, source)) is Err
        },
        spec_bind_level(doc, catalog, source) matches Err(e) ==> e.diagnostics
            == spec_err_diags_v(spec_doc_child_transform(doc, "spawn"@, source)) + spec_err_diags_v(
            spec_doc_child_transform(doc, "finish"@, source),
        ) + spec_err_diags_v(spec_bind_default_music(doc, catalog, source)) + spec_err_diags_v(
            spec_merge_views(spec_triggered_music_results(doc.nodes@, catalog, source)),
        ) + spec_err_diags_v(spec_merge_views(spec_plane_results(doc.nodes@, catalog, source)))
            + spec_err_diags_v(spec_merge_views(spec_cuboid_results(doc.nodes@, catalog, source)))
            + spec_err_diags_v(spec_merge_views(spec_text_results(doc.nodes@, catalog, source)))
            + spec_err_diags_v(spec_merge_views(spec_button_results(doc.nodes@, source)))
            + spec_err_diags_v(
            spec_merge_views(spec_button_door_results(doc.nodes@, catalog, source)),
        ) + spec_err_diags_v(spec_merge_views(spec_dynamic_results(doc.nodes@, catalog, source))),
{
}

/// A plane node whose bind fails is reported: its diagnostics stand as a
/// contiguous run in the single error the whole bind produces, whatever
/// else in the document failed alongside it.
pub proof fn lemma_bind_reports_failing_plane(
    doc: KdlDocument,
    catalog: AssetCatalog,
    source: Seq<char>,
    k: int,
)
    requires
        0 <= k < spec_plane_results(doc.nodes@, catalog, source).len(),
        spec_plane_results(doc.nodes@, catalog, source)[k] is Err,
    ensures
        spec_bind_level(doc, catalog, source) is Err,
        is_infix(
            spec_plane_results(doc.nodes@, catalog, source)[k]->Err_0.diagnostics,
            spec_bind_level(doc, catalog, source)->Err_0.diagnostics,
        ),
{
    let rs = spec_plane_results(doc.nodes@, catalog, source);
    lemma_merge_views_keeps_every_failure(rs, k);
    let merged = spec_merge_views(rs)->Err_0.diagnostics;
    let sub = rs[k]->Err_0.diagnostics;
    let off = choose|off: int|
        0 <= off && off + sub.len() <= merged.len() && #[trigger] merged.subrange(
            off,
            off + sub.len(),
        ) == sub;
    let total = spec_bind_level(doc, catalog, source)->Err_0.diagnostics;
    let v1 = spec_err_diags_v(spec_doc_child_transform(doc, "spawn"@, source));
    let v2 = spec_err_diags_v(spec_doc_child_transform(doc, "finish"@, source));
    let v3 = spec_err_diags_v(spec_bind_default_music(doc, catalog, source));
    let v4 = spec_err_diags_v(
        spec_merge_views(spec_triggered_music_results(doc.nodes@, catalog, source)),
    );
    let lead = v1.len() + v2.len() + v3.len() + v4.len();
    assert(total.subrange(lead + off, lead + off + sub.len()) =~= sub);
}

/// A text node whose bind fails is reported in the same way: nothing about
/// a failing sibling of another kind hides it.
pub proof fn lemma_bind_reports_failing_text(
    doc: KdlDocument,
    catalog: AssetCatalog,
    source: Seq<char>,
    k: int,
)
    requires
        0 <= k < spec_text_results(doc.nodes@, catalog, source).len(),
        spec_text_results(doc.nodes@, catalog, source)[k] is Err,
    ensures
        spec_bind_level(doc, catalog, source) is Err,
        is_infix(
            spec_text_results(doc.nodes@, catalog, source)[k]->Err_0.diagnostics,
            spec_bind_level(doc, catalog, source)->Err_0.diagnostics,
        ),
{
    let rs = spec_text_results(doc.nodes@, catalog, source);
    lemma_merge_views_keeps_every_failure(rs, k);
    let merged = spec_merge_views(rs)->Err_0.diagnostics;
    let sub = rs[k]->Err_0.diagnostics;
    let off = choose|off: int|
        0 <= off && off + sub.len() <= merged.len() && #[trigger] merged.subrange(
            off,
            off + sub.len(),
        ) == sub;
    let total = spec_bind_level(doc, catalog, source)->Err_0.diagnostics;
    let v1 = spec_err_diags_v(spec_doc_child_transform(doc, "spawn"@, source));
    let v2 = spec_err_diags_v(spec_doc_child_transform(doc, "finish"@, source));
    let v3 = spec_err_diags_v(spec_bind_default_music(doc, catalog, source));
    let v4 = spec_err_diags_v(
        spec_merge_views(spec_triggered_music_results(doc.nodes@, catalog, source)),
    );
    let v5 = spec_err_diags_v(spec_merge_views(spec_plane_results(doc.nodes@, catalog, source)));
    let v6 = spec_err_diags_v(spec_merge_views(spec_cuboid_results(doc.nodes@, catalog, source)));
    let lead = v1.len() + v2.len() + v3.len() + v4.len() + v5.len() + v6.len();
    assert(total.subrange(lead + off, lead + off + sub.len()) =~= sub);
}

/// Binding is deterministic and idempotent: the result is a function of
/// the document, the catalog and the source text alone, so two successful
/// binds of the same document carry structurally equal descriptors.
pub proof fn lemma_bind_deterministic(
    doc: KdlDocument,
    catalog: AssetCatalog,
    source: Seq<char>,
    a: SerialLevel,
    b: SerialLevel,
)
    requires
        spec_bind_level(doc, catalog, source) == Result::<
            LevelView,
            ErrorView,
        >::Ok(a@),
        spec_bind_level(doc, catalog, source) == Result::<
            LevelView,
            ErrorView,
        >::Ok(b@),
    ensures
        a@ == b@,
{
}

/// Default application: a plane node with no `type` entry binds to a
/// static plane.
pub proof fn lemma_plane_default_type(node: KdlNode, catalog: AssetCatalog, source: Seq<char>)
    requires
        spec_entry(node, KeyView::Prop("type"@)) is None,
        spec_bind_plane(node, catalog, source) is Ok,
    ensures
        spec_bind_plane(node, catalog, source)->Ok_0.ty == SerialPlaneType::Static,
{
}

/// Default application: a text node with no `align` entry binds centered.
pub proof fn lemma_text_default_align(node: KdlNode, catalog: AssetCatalog, source: Seq<char>)
    requires
        spec_entry(node, KeyView::Prop("align"@)) is None,
        spec_bind_text(node, catalog, source) is Ok,
    ensures
        spec_bind_text(node, catalog, source)->Ok_0.align == SerialAlign::Center,
{
}

/// Default application: a text node with no `pt` entry binds to 64 points.
pub proof fn lemma_text_default_pt(node: KdlNode, catalog: AssetCatalog, source: Seq<char>)
    requires
        spec_entry(node, KeyView::Prop("pt"@)) is None,
        spec_bind_text(node, catalog, source) is Ok,
    ensures
        spec_bind_text(node, catalog, source)->Ok_0.pt == crate::level::spec_default_text_pt(),
{
}

/// Default application: a dynamic object with no `size` child binds to a
/// uniform quarter-size.
pub proof fn lemma_dynamic_default_size(node: KdlNode, catalog: AssetCatalog, source: Seq<char>)
    requires
        match node.children {
            None => true,
            Some(d) => spec_first_node(d.nodes@, "size"@) is None,
        },
        spec_bind_dynamic(node, catalog, source) is Ok,
    ensures
        spec_bind_dynamic(node, catalog, source)->Ok_0.dimensions == spec_default_dynamic_size(),
{
}

/// The merge combinator is associative over the diagnostics it collects:
/// merging a merged pair with a third result carries the same diagnostics,
/// in the same order, as merging the first with a merged pair of the
/// others.
pub proof fn lemma_merge_associative<A, B, C>(
    ra: Result<A, ErrorView>,
    rb: Result<B, ErrorView>,
    rc: Result<C, ErrorView>,
)
    ensures
        spec_err_diags_v(spec_merge2_views(spec_merge2_views(ra, rb), rc)) == spec_err_diags_v(
            spec_merge2_views(ra, spec_merge2_views(rb, rc)),
        ),
        spec_err_diags_v(spec_merge2_views(spec_merge2_views(ra, rb), rc)).to_multiset()
            == spec_err_diags_v(spec_merge2_views(ra, spec_merge2_views(rb, rc))).to_multiset(),
{
    assert(spec_err_diags_v(spec_merge2_views(spec_merge2_views(ra, rb), rc)) =~= spec_err_diags_v(
        spec_merge2_views(ra, spec_merge2_views(rb, rc)),
    ));
}

/// The rotation declarations of a transform bind in document order: the
/// i-th entry of the rotation results is the bind of the i-th `rot` child.
/// Composing the bound list folds each rotation onto the accumulated
/// orientation in this order, so the last-declared rotation is applied as
/// the outermost transform.
pub proof fn lemma_rotations_in_document_order(nodes: Seq<KdlNode>, source: Seq<char>)
    ensures
        spec_rot_results(nodes, source).len() == spec_named_nodes(nodes, "rot"@).len(),
        forall|i: int|
            0 <= i < spec_rot_results(nodes, source).len() ==> spec_rot_results(nodes, source)[i]
                == spec_must_get_rotation(#[trigger] spec_named_nodes(nodes, "rot"@)[i], 0, source),
    decreases nodes.len(),
{
    if nodes.len() > 0 {
        lemma_rotations_in_document_order(nodes.drop_last(), source);
    }
}

/// The nodes of a given name, in document order.
pub open spec fn spec_named_nodes(nodes: Seq<KdlNode>, name: Seq<char>) -> Seq<KdlNode>
    decreases nodes.len(),
{
    if nodes.len() == 0 {
        Seq::empty()
    } else {
        let rest = spec_named_nodes(nodes.drop_last(), name);
        if nodes.last().name@ == name {
            rest.push(nodes.last())
        } else {
            rest
        }
    }
}


/// An error that `is_failure` accepts: at least one diagnostic, and every
/// diagnostic of error severity.
pub open spec fn spec_failing(e: ErrorView) -> bool {
    &&& e.diagnostics.len() >= 1
    &&& forall|i: int|
        0 <= i < e.diagnostics.len() ==> (#[trigger] e.diagnostics[i]).severity == Severity::Error
}

/// A result whose failure, if any, `is_failure` accepts.
pub open spec fn spec_sound<T>(r: Result<T, ErrorView>) -> bool {
    r matches Err(e) ==> spec_failing(e)
}

proof fn lemma_failing_err2<A, B>(ra: Result<A, ErrorView>, rb: Result<B, ErrorView>)
    requires
        spec_sound(ra),
        spec_sound(rb),
        ra is Err || rb is Err,
    ensures
        spec_failing(spec_err2_view(ra, rb)),
{
    let da = spec_err_diags_v(ra);
    let db = spec_err_diags_v(rb);
    let d = spec_err2_view(ra, rb).diagnostics;
    assert forall|i: int| 0 <= i < d.len() implies (#[trigger] d[i]).severity == Severity::Error by {
        if i < da.len() {
            assert(d[i] == da[i]);
        } else {
            assert(d[i] == db[i - da.len()]);
        }
    }
}

proof fn lemma_failing_err3<A, B, C>(
    ra: Result<A, ErrorView>,
    rb: Result<B, ErrorView>,
    rc: Result<C, ErrorView>,
)
    requires
        spec_sound(ra),
        spec_sound(rb),
        spec_sound(rc),
        ra is Err || rb is Err || rc is Err,
    ensures
        spec_failing(spec_err3_view(ra, rb, rc)),
{
    let da = spec_err_diags_v(ra);
    let db = spec_err_diags_v(rb);
    let dc = spec_err_diags_v(rc);
    let d = spec_err3_view(ra, rb, rc).diagnostics;
    assert forall|i: int| 0 <= i < d.len() implies (#[trigger] d[i]).severity == Severity::Error by {
        if i < da.len() {
            assert(d[i] == (da + db)[i] && (da + db)[i] == da[i]);
        } else if i < da.len() + db.len() {
            assert(d[i] == (da + db)[i] && (da + db)[i] == db[i - da.len()]);
        } else {
            assert(d[i] == dc[i - da.len() - db.len()]);
        }
    }
}

proof fn lemma_failing_err4<A, B, C, D>(
    ra: Result<A, ErrorView>,
    rb: Result<B, ErrorView>,
    rc: Result<C, ErrorView>,
    rd: Result<D, ErrorView>,
)
    requires
        spec_sound(ra),
        spec_sound(rb),
        spec_sound(rc),
        spec_sound(rd),
        ra is Err || rb is Err || rc is Err || rd is Err,
    ensures
        spec_failing(spec_err4_view(ra, rb, rc, rd)),
{
    let da = spec_err_diags_v(ra);
    let db = spec_err_diags_v(rb);
    let dc = spec_err_diags_v(rc);
    let dd = spec_err_diags_v(rd);
    let d = spec_err4_view(ra, rb, rc, rd).diagnostics;
    assert forall|i: int| 0 <= i < d.len() implies (#[trigger] d[i]).severity == Severity::Error by {
        if i < da.len() {
            assert(d[i] == da[i]);
        } else if i < da.len() + db.len() {
            assert(d[i] == db[i - da.len()]);
        } else if i < da.len() + db.len() + dc.len() {
            assert(d[i] == dc[i - da.len() - db.len()]);
        } else {
            assert(d[i] == dd[i - da.len() - db.len() - dc.len()]);
        }
    }
}

proof fn lemma_failing_err5<A, B, C, D, E>(
    ra: Result<A, ErrorView>,
    rb: Result<B, ErrorView>,
    rc: Result<C, ErrorView>,
    rd: Result<D, ErrorView>,
    re: Result<E, ErrorView>,
)
    requires
        spec_sound(ra),
        spec_sound(rb),
        spec_sound(rc),
        spec_sound(rd),
        spec_sound(re),
        ra is Err || rb is Err || rc is Err || rd is Err || re is Err,
    ensures
        spec_failing(spec_err5_view(ra, rb, rc, rd, re)),
{
    let da = spec_err_diags_v(ra);
    let db = spec_err_diags_v(rb);
    let dc = spec_err_diags_v(rc);
    let dd = spec_err_diags_v(rd);
    let de = spec_err_diags_v(re);
    let d = spec_err5_view(ra, rb, rc, rd, re).diagnostics;
    assert forall|i: int| 0 <= i < d.len() implies (#[trigger] d[i]).severity == Severity::Error by {
        if i < da.len() {
            assert(d[i] == da[i]);
        } else if i < da.len() + db.len() {
            assert(d[i] == db[i - da.len()]);
        } else if i < da.len() + db.len() + dc.len() {
            assert(d[i] == dc[i - da.len() - db.len()]);
        } else if i < da.len() + db.len() + dc.len() + dd.len() {
            assert(d[i] == dd[i - da.len() - db.len() - dc.len()]);
        } else {
            assert(d[i] == de[i - da.len() - db.len() - dc.len() - dd.len()]);
        }
    }
}

proof fn lemma_failing_err6<A, B, C, D, E, F>(
    ra: Result<A, ErrorView>,
    rb: Result<B, ErrorView>,
    rc: Result<C, ErrorView>,
    rd: Result<D, ErrorView>,
    re: Result<E, ErrorView>,
    rf: Result<F, ErrorView>,
)
    requires
        spec_sound(ra),
        spec_sound(rb),
        spec_sound(rc),
        spec_sound(rd),
        spec_sound(re),
        spec_sound(rf),
        ra is Err || rb is Err || rc is Err || rd is Err || re is Err || rf is Err,
    ensures
        spec_failing(spec_err6_view(ra, rb, rc, rd, re, rf)),
{
    let da = spec_err_diags_v(ra);
    let db = spec_err_diags_v(rb);
    let dc = spec_err_diags_v(rc);
    let dd = spec_err_diags_v(rd);
    let de = spec_err_diags_v(re);
    let df = spec_err_diags_v(rf);
    let d = spec_err6_view(ra, rb, rc, rd, re, rf).diagnostics;
    assert forall|i: int| 0 <= i < d.len() implies (#[trigger] d[i]).severity == Severity::Error by {
        if i < da.len() {
            assert(d[i] == da[i]);
        } else if i < da.len() + db.len() {
            assert(d[i] == db[i - da.len()]);
        } else if i < da.len() + db.len() + dc.len() {
            assert(d[i] == dc[i - da.len() - db.len()]);
        } else if i < da.len() + db.len() + dc.len() + dd.len() {
            assert(d[i] == dd[i - da.len() - db.len() - dc.len()]);
        } else if i < da.len() + db.len() + dc.len() + dd.len() + de.len() {
            assert(d[i] == de[i - da.len() - db.len() - dc.len() - dd.len()]);
        } else {
            assert(d[i] == df[i - da.len() - db.len() - dc.len() - dd.len() - de.len()]);
        }
    }
}

/// A merged sequence of sound results fails soundly.
proof fn lemma_sound_merge_views<T>(rs: Seq<Result<T, ErrorView>>)
    requires
        forall|i: int| 0 <= i < rs.len() ==> spec_sound(#[trigger] rs[i]),
    ensures
        spec_sound(spec_merge_views(rs)),
    decreases rs.len(),
{
    if rs.len() > 0 {
        assert(forall|i: int|
            0 <= i < rs.drop_last().len() ==> spec_sound(#[trigger] rs.drop_last()[i]));
        lemma_sound_merge_views(rs.drop_last());
        assert(rs.last() == rs[rs.len() - 1]);
        match (spec_merge_views(rs.drop_last()), rs.last()) {
            (Result::Err(e0), Result::Err(e1)) => {
                let d = e0.diagnostics + e1.diagnostics;
                assert forall|i: int|
                    0 <= i < d.len() implies (#[trigger] d[i]).severity == Severity::Error by {
                    if i < e0.diagnostics.len() {
                        assert(d[i] == e0.diagnostics[i]);
                    } else {
                        assert(d[i] == e1.diagnostics[i - e0.diagnostics.len()]);
                    }
                }
            },
            _ => {},
        }
    }
}

proof fn lemma_sound_must_get_scale(node: KdlNode, off: usize, source: Seq<char>)
    ensures
        spec_sound(spec_must_get_scale(node, off, source)),
{
}

proof fn lemma_sound_must_get_vec3(node: KdlNode, off: usize, source: Seq<char>)
    ensures
        spec_sound(spec_must_get_vec3(node, off, source)),
{
    let rx = spec_must_get_number(node, KeyView::Index(off as int), source);
    let ry = spec_must_get_number(node, KeyView::Index(off + 1), source);
    let rz = spec_must_get_number(node, KeyView::Index(off + 2), source);
    if !(rx is Ok && ry is Ok && rz is Ok) {
        lemma_failing_err3(rx, ry, rz);
    }
}

proof fn lemma_sound_must_get_rotation(node: KdlNode, off: usize, source: Seq<char>)
    ensures
        spec_sound(spec_must_get_rotation(node, off, source)),
{
    let ra = spec_must_get_variant(
        node,
        KeyView::Index(off as int),
        spec_axis_names(),
        source,
    );
    let rb = spec_must_get_number(node, KeyView::Index(off + 1), source);
    if !(ra is Ok && rb is Ok) {
        lemma_failing_err2(ra, rb);
    }
}

proof fn lemma_sound_rot_results(nodes: Seq<KdlNode>, source: Seq<char>)
    ensures
        forall|i: int|
            0 <= i < spec_rot_results(nodes, source).len() ==> spec_sound(
                #[trigger] spec_rot_results(nodes, source)[i],
            ),
    decreases nodes.len(),
{
    if nodes.len() > 0 {
        lemma_sound_rot_results(nodes.drop_last(), source);
        let rest = spec_rot_results(nodes.drop_last(), source);
        let full = spec_rot_results(nodes, source);
        if nodes.last().name@ == "rot"@ {
            lemma_sound_must_get_rotation(nodes.last(), 0, source);
            assert forall|i: int| 0 <= i < full.len() implies spec_sound(#[trigger] full[i]) by {
                if i < rest.len() {
                    assert(full[i] == rest[i]);
                } else {
                    assert(full[i] == full.last());
                }
            }
        } else {
            assert forall|i: int| 0 <= i < full.len() implies spec_sound(#[trigger] full[i]) by {
                assert(full[i] == rest[i]);
            }
        }
    }
}

proof fn lemma_sound_get_transform(doc: KdlDocument, source: Seq<char>)
    ensures
        spec_sound(spec_get_transform(doc, source)),
{
    let rt = spec_transform_translation(doc, source);
    let rs = spec_transform_scale(doc, source);
    let rr = spec_merge_views(spec_rot_results(doc.nodes@, source));
    match spec_first_node(doc.nodes@, "pos"@) {
        Some(n) => lemma_sound_must_get_vec3(n, 0, source),
        None => {},
    }
    match spec_first_node(doc.nodes@, "scale"@) {
        Some(n) => lemma_sound_must_get_scale(n, 0, source),
        None => {},
    }
    lemma_sound_rot_results(doc.nodes@, source);
    lemma_sound_merge_views(spec_rot_results(doc.nodes@, source));
    if !(rt is Ok && rs is Ok && rr is Ok) {
        lemma_failing_err3(rt, rs, rr);
    }
}

proof fn lemma_sound_node_transform(node: KdlNode, source: Seq<char>)
    ensures
        spec_sound(spec_node_transform(node, source)),
{
    match node.children {
        Some(d) => lemma_sound_get_transform(d, source),
        None => {},
    }
}

proof fn lemma_sound_children_transform(node: KdlNode, source: Seq<char>)
    ensures
        spec_sound(spec_children_transform(node, source)),
{
    match node.children {
        Some(d) => lemma_sound_get_transform(d, source),
        None => {},
    }
}

proof fn lemma_sound_child_scale(node: KdlNode, name: Seq<char>, source: Seq<char>)
    ensures
        spec_sound(spec_child_scale(node, name, source)),
{
    match node.children {
        Some(d) => match spec_first_node(d.nodes@, name) {
            Some(n) => lemma_sound_must_get_scale(n, 0, source),
            None => {},
        },
        None => {},
    }
}

proof fn lemma_sound_child_doc_transform(node: KdlNode, name: Seq<char>, source: Seq<char>)
    ensures
        spec_sound(spec_child_doc_transform(node, name, source)),
{
    match node.children {
        Some(d) => match spec_first_node(d.nodes@, name) {
            Some(n) => match n.children {
                Some(d2) => lemma_sound_get_transform(d2, source),
                None => {},
            },
            None => {},
        },
        None => {},
    }
}

proof fn lemma_sound_bind_plane(node: KdlNode, catalog: AssetCatalog, source: Seq<char>)
    ensures
        spec_sound(spec_bind_plane(node, catalog, source)),
{
    let rsize = spec_must_get_number(node, KeyView::Index(0), source);
    let rsize2 = spec_get_number(node, KeyView::Index(1), source);
    let rty = spec_get_variant(
        node,
        KeyView::Prop("type"@),
        spec_plane_type_names(),
        source,
    );
    let rmat = spec_get_handle(
        node,
        KeyView::Prop("material"@),
        AssetKind::Material,
        catalog,
        source,
    );
    let rtrans = spec_node_transform(node, source);
    lemma_sound_node_transform(node, source);
    if !(rsize is Ok && rsize2 is Ok && rty is Ok && rmat is Ok && rtrans is Ok) {
        lemma_failing_err5(rsize, rsize2, rty, rmat, rtrans);
    }
}

proof fn lemma_sound_bind_text(node: KdlNode, catalog: AssetCatalog, source: Seq<char>)
    ensures
        spec_sound(spec_bind_text(node, catalog, source)),
{
    let rtext = spec_must_get_string(node, KeyView::Index(0), source);
    let rpt = spec_get_number(node, KeyView::Prop("pt"@), source);
    let rfont = spec_get_handle(
        node,
        KeyView::Prop("font"@),
        AssetKind::Font,
        catalog,
        source,
    );
    let ralign = spec_get_variant(
        node,
        KeyView::Prop("align"@),
        spec_align_names(),
        source,
    );
    let rmat = spec_get_handle(
        node,
        KeyView::Prop("material"@),
        AssetKind::Material,
        catalog,
        source,
    );
    let rtrans = spec_node_transform(node, source);
    lemma_sound_node_transform(node, source);
    if !(rtext is Ok && rpt is Ok && rfont is Ok && ralign is Ok && rmat is Ok && rtrans is Ok) {
        lemma_failing_err6(rtext, rpt, rfont, ralign, rmat, rtrans);
    }
}

proof fn lemma_sound_bind_music(node: KdlNode, catalog: AssetCatalog, source: Seq<char>)
    ensures
        spec_sound(spec_bind_music(node, catalog, source)),
{
}

proof fn lemma_sound_bind_triggered_music(node: KdlNode, catalog: AssetCatalog, source: Seq<char>)
    ensures
        spec_sound(spec_bind_triggered_music(node, catalog, source)),
{
    let ra = spec_must_get_handle(
        node,
        KeyView::Index(0),
        AssetKind::Audio,
        catalog,
        source,
    );
    let rd = spec_child_scale(node, "size"@, source);
    let rt = spec_children_transform(node, source);
    lemma_sound_child_scale(node, "size"@, source);
    lemma_sound_children_transform(node, source);
    if !(ra is Ok && rd is Ok && rt is Ok) {
        lemma_failing_err3(ra, rd, rt);
    }
}

proof fn lemma_sound_bind_cuboid(node: KdlNode, catalog: AssetCatalog, source: Seq<char>)
    ensures
        spec_sound(spec_bind_cuboid(node, catalog, source)),
{
    let rmat = spec_get_handle(
        node,
        KeyView::Prop("material"@),
        AssetKind::Material,
        catalog,
        source,
    );
    let rdim = spec_child_scale(node, "size"@, source);
    let rtrans = spec_node_transform(node, source);
    lemma_sound_child_scale(node, "size"@, source);
    lemma_sound_node_transform(node, source);
    if !(rmat is Ok && rdim is Ok && rtrans is Ok) {
        lemma_failing_err3(rmat, rdim, rtrans);
    }
}

proof fn lemma_sound_bind_button(node: KdlNode, source: Seq<char>)
    ensures
        spec_sound(spec_bind_button(node, source)),
{
    let rname = spec_must_get_string(node, KeyView::Index(0), source);
    let rtrans = spec_node_transform(node, source);
    lemma_sound_node_transform(node, source);
    if !(rname is Ok && rtrans is Ok) {
        lemma_failing_err2(rname, rtrans);
    }
}

proof fn lemma_sound_bind_button_door(node: KdlNode, catalog: AssetCatalog, source: Seq<char>)
    ensures
        spec_sound(spec_bind_button_door(node, catalog, source)),
{
    let rname = spec_must_get_string(node, KeyView::Index(0), source);
    let rtrans = spec_child_doc_transform(node, "default"@, source);
    let ropen = spec_child_doc_transform(node, "open"@, source);
    let rdim = spec_child_scale(node, "size"@, source);
    let rmat = spec_get_handle(
        node,
        KeyView::Prop("material"@),
        AssetKind::Material,
        catalog,
        source,
    );
    lemma_sound_child_doc_transform(node, "default"@, source);
    lemma_sound_child_doc_transform(node, "open"@, source);
    lemma_sound_child_scale(node, "size"@, source);
    if !(rname is Ok && rtrans is Ok && ropen is Ok && rdim is Ok && rmat is Ok) {
        lemma_failing_err5(rname, rtrans, ropen, rdim, rmat);
    }
}

proof fn lemma_sound_bind_dynamic(node: KdlNode, catalog: AssetCatalog, source: Seq<char>)
    ensures
        spec_sound(spec_bind_dynamic(node, catalog, source)),
{
    let rty = spec_get_variant(
        node,
        KeyView::Prop("type"@),
        spec_dynamic_type_names(),
        source,
    );
    let rmat = spec_get_handle(
        node,
        KeyView::Prop("material"@),
        AssetKind::Material,
        catalog,
        source,
    );
    let rtrans = spec_node_transform(node, source);
    let rdim = spec_dynamic_size(node, source);
    lemma_sound_node_transform(node, source);
    match node.children {
        Some(d) => match spec_first_node(d.nodes@, "size"@) {
            Some(n) => lemma_sound_must_get_scale(n, 0, source),
            None => {},
        },
        None => {},
    }
    if !(rty is Ok && rmat is Ok && rtrans is Ok && rdim is Ok) {
        lemma_failing_err4(rty, rmat, rtrans, rdim);
    }
}

proof fn lemma_sound_doc_child_transform(doc: KdlDocument, name: Seq<char>, source: Seq<char>)
    ensures
        spec_sound(spec_doc_child_transform(doc, name, source)),
{
    match spec_first_node(doc.nodes@, name) {
        Some(n) => lemma_sound_children_transform(n, source),
        None => {},
    }
}

proof fn lemma_sound_default_music(doc: KdlDocument, catalog: AssetCatalog, source: Seq<char>)
    ensures
        spec_sound(spec_bind_default_music(doc, catalog, source)),
{
    match spec_first_node(doc.nodes@, "music"@) {
        Some(n) => lemma_sound_bind_music(n, catalog, source),
        None => {},
    }
}

proof fn lemma_sound_triggered_music_results(
    nodes: Seq<KdlNode>,
    catalog: AssetCatalog,
    source: Seq<char>,
)
    ensures
        forall|i: int|
            0 <= i < spec_triggered_music_results(nodes, catalog, source).len() ==> spec_sound(
                #[trigger] spec_triggered_music_results(nodes, catalog, source)[i],
            ),
    decreases nodes.len(),
{
    if nodes.len() > 0 {
        lemma_sound_triggered_music_results(nodes.drop_last(), catalog, source);
        let rest = spec_triggered_music_results(nodes.drop_last(), catalog, source);
        let full = spec_triggered_music_results(nodes, catalog, source);
        if nodes.last().name@ == "triggered_music"@ {
            lemma_sound_bind_triggered_music(nodes.last(), catalog, source);
            assert forall|i: int| 0 <= i < full.len() implies spec_sound(#[trigger] full[i]) by {
                if i < rest.len() {
                    assert(full[i] == rest[i]);
                } else {
                    assert(full[i] == full.last());
                }
            }
        } else {
            assert forall|i: int| 0 <= i < full.len() implies spec_sound(#[trigger] full[i]) by {
                assert(full[i] == rest[i]);
            }
        }
    }
}

proof fn lemma_sound_plane_results(nodes: Seq<KdlNode>, catalog: AssetCatalog, source: Seq<char>)
    ensures
        forall|i: int|
            0 <= i < spec_plane_results(nodes, catalog, source).len() ==> spec_sound(
                #[trigger] spec_plane_results(nodes, catalog, source)[i],
            ),
    decreases nodes.len(),
{
    if nodes.len() > 0 {
        lemma_sound_plane_results(nodes.drop_last(), catalog, source);
        let rest = spec_plane_results(nodes.drop_last(), catalog, source);
        let full = spec_plane_results(nodes, catalog, source);
        if nodes.last().name@ == "plane"@ {
            lemma_sound_bind_plane(nodes.last(), catalog, source);
            assert forall|i: int| 0 <= i < full.len() implies spec_sound(#[trigger] full[i]) by {
                if i < rest.len() {
                    assert(full[i] == rest[i]);
                } else {
                    assert(full[i] == full.last());
                }
            }
        } else {
            assert forall|i: int| 0 <= i < full.len() implies spec_sound(#[trigger] full[i]) by {
                assert(full[i] == rest[i]);
            }
        }
    }
}

proof fn lemma_sound_cuboid_results(nodes: Seq<KdlNode>, catalog: AssetCatalog, source: Seq<char>)
    ensures
        forall|i: int|
            0 <= i < spec_cuboid_results(nodes, catalog, source).len() ==> spec_sound(
                #[trigger] spec_cuboid_results(nodes, catalog, source)[i],
            ),
    decreases nodes.len(),
{
    if nodes.len() > 0 {
        lemma_sound_cuboid_results(nodes.drop_last(), catalog, source);
        let rest = spec_cuboid_results(nodes.drop_last(), catalog, source);
        let full = spec_cuboid_results(nodes, catalog, source);
        if nodes.last().name@ == "cuboid"@ {
            lemma_sound_bind_cuboid(nodes.last(), catalog, source);
            assert forall|i: int| 0 <= i < full.len() implies spec_sound(#[trigger] full[i]) by {
                if i < rest.len() {
                    assert(full[i] == rest[i]);
                } else {
                    assert(full[i] == full.last());
                }
            }
        } else {
            assert forall|i: int| 0 <= i < full.len() implies spec_sound(#[trigger] full[i]) by {
                assert(full[i] == rest[i]);
            }
        }
    }
}

proof fn lemma_sound_text_results(nodes: Seq<KdlNode>, catalog: AssetCatalog, source: Seq<char>)
    ensures
        forall|i: int|
            0 <= i < spec_text_results(nodes, catalog, source).len() ==> spec_sound(
                #[trigger] spec_text_results(nodes, catalog, source)[i],
            ),
    decreases nodes.len(),
{
    if nodes.len() > 0 {
        lemma_sound_text_results(nodes.drop_last(), catalog, source);
        let rest = spec_text_results(nodes.drop_last(), catalog, source);
        let full = spec_text_results(nodes, catalog, source);
        if nodes.last().name@ == "text"@ {
            lemma_sound_bind_text(nodes.last(), catalog, source);
            assert forall|i: int| 0 <= i < full.len() implies spec_sound(#[trigger] full[i]) by {
                if i < rest.len() {
                    assert(full[i] == rest[i]);
                } else {
                    assert(full[i] == full.last());
                }
            }
        } else {
            assert forall|i: int| 0 <= i < full.len() implies spec_sound(#[trigger] full[i]) by {
                assert(full[i] == rest[i]);
            }
        }
    }
}

proof fn lemma_sound_button_results(nodes: Seq<KdlNode>, source: Seq<char>)
    ensures
        forall|i: int|
            0 <= i < spec_button_results(nodes, source).len() ==> spec_sound(
                #[trigger] spec_button_results(nodes, source)[i],
            ),
    decreases nodes.len(),
{
    if nodes.len() > 0 {
        lemma_sound_button_results(nodes.drop_last(), source);
        let rest = spec_button_results(nodes.drop_last(), source);
        let full = spec_button_results(nodes, source);
        if nodes.last().name@ == "button"@ {
            lemma_sound_bind_button(nodes.last(), source);
            assert forall|i: int| 0 <= i < full.len() implies spec_sound(#[trigger] full[i]) by {
                if i < rest.len() {
                    assert(full[i] == rest[i]);
                } else {
                    assert(full[i] == full.last());
                }
            }
        } else {
            assert forall|i: int| 0 <= i < full.len() implies spec_sound(#[trigger] full[i]) by {
                assert(full[i] == rest[i]);
            }
        }
    }
}

proof fn lemma_sound_button_door_results(
    nodes: Seq<KdlNode>,
    catalog: AssetCatalog,
    source: Seq<char>,
)
    ensures
        forall|i: int|
            0 <= i < spec_button_door_results(nodes, catalog, source).len() ==> spec_sound(
                #[trigger] spec_button_door_results(nodes, catalog, source)[i],
            ),
    decreases nodes.len(),
{
    if nodes.len() > 0 {
        lemma_sound_button_door_results(nodes.drop_last(), catalog, source);
        let rest = spec_button_door_results(nodes.drop_last(), catalog, source);
        let full = spec_button_door_results(nodes, catalog, source);
        if nodes.last().name@ == "button_door"@ {
            lemma_sound_bind_button_door(nodes.last(), catalog, source);
            assert forall|i: int| 0 <= i < full.len() implies spec_sound(#[trigger] full[i]) by {
                if i < rest.len() {
                    assert(full[i] == rest[i]);
                } else {
                    assert(full[i] == full.last());
                }
            }
        } else {
            assert forall|i: int| 0 <= i < full.len() implies spec_sound(#[trigger] full[i]) by {
                assert(full[i] == rest[i]);
            }
        }
    }
}

proof fn lemma_sound_dynamic_results(nodes: Seq<KdlNode>, catalog: AssetCatalog, source: Seq<char>)
    ensures
        forall|i: int|
            0 <= i < spec_dynamic_results(nodes, catalog, source).len() ==> spec_sound(
                #[trigger] spec_dynamic_results(nodes, catalog, source)[i],
            ),
    decreases nodes.len(),
{
    if nodes.len() > 0 {
        lemma_sound_dynamic_results(nodes.drop_last(), catalog, source);
        let rest = spec_dynamic_results(nodes.drop_last(), catalog, source);
        let full = spec_dynamic_results(nodes, catalog, source);
        if nodes.last().name@ == "dyn"@ {
            lemma_sound_bind_dynamic(nodes.last(), catalog, source);
            assert forall|i: int| 0 <= i < full.len() implies spec_sound(#[trigger] full[i]) by {
                if i < rest.len() {
                    assert(full[i] == rest[i]);
                } else {
                    assert(full[i] == full.last());
                }
            }
        } else {
            assert forall|i: int| 0 <= i < full.len() implies spec_sound(#[trigger] full[i]) by {
                assert(full[i] == rest[i]);
            }
        }
    }
}

/// A failed bind is a failure: the error a bind produces always carries at
/// least one diagnostic, every one of error severity, so `is_failure`
/// accepts it.  A bind error is never diagnostic-free.
pub proof fn lemma_bind_error_is_failure(doc: KdlDocument, catalog: AssetCatalog, source: Seq<char>)
    ensures
        spec_bind_level(doc, catalog, source) matches Err(e) ==> e.spec_is_failure(),
        spec_bind_level(doc, catalog, source) matches Err(e) ==> e.diagnostics.len() >= 1,
{
    let r1 = spec_doc_child_transform(doc, "spawn"@, source);
    let r2 = spec_doc_child_transform(doc, "finish"@, source);
    let r3 = spec_bind_default_music(doc, catalog, source);
    let r4 = spec_merge_views(spec_triggered_music_results(doc.nodes@, catalog, source));
    let r5 = spec_merge_views(spec_plane_results(doc.nodes@, catalog, source));
    let r6 = spec_merge_views(spec_cuboid_results(doc.nodes@, catalog, source));
    let r7 = spec_merge_views(spec_text_results(doc.nodes@, catalog, source));
    let r8 = spec_merge_views(spec_button_results(doc.nodes@, source));
    let r9 = spec_merge_views(spec_button_door_results(doc.nodes@, catalog, source));
    let r10 = spec_merge_views(spec_dynamic_results(doc.nodes@, catalog, source));
    lemma_sound_doc_child_transform(doc, "spawn"@, source);
    lemma_sound_doc_child_transform(doc, "finish"@, source);
    lemma_sound_default_music(doc, catalog, source);
    lemma_sound_triggered_music_results(doc.nodes@, catalog, source);
    lemma_sound_merge_views(spec_triggered_music_results(doc.nodes@, catalog, source));
    lemma_sound_plane_results(doc.nodes@, catalog, source);
    lemma_sound_merge_views(spec_plane_results(doc.nodes@, catalog, source));
    lemma_sound_cuboid_results(doc.nodes@, catalog, source);
    lemma_sound_merge_views(spec_cuboid_results(doc.nodes@, catalog, source));
    lemma_sound_text_results(doc.nodes@, catalog, source);
    lemma_sound_merge_views(spec_text_results(doc.nodes@, catalog, source));
    lemma_sound_button_results(doc.nodes@, source);
    lemma_sound_merge_views(spec_button_results(doc.nodes@, source));
    lemma_sound_button_door_results(doc.nodes@, catalog, source);
    lemma_sound_merge_views(spec_button_door_results(doc.nodes@, catalog, source));
    lemma_sound_dynamic_results(doc.nodes@, catalog, source);
    lemma_sound_merge_views(spec_dynamic_results(doc.nodes@, catalog, source));
    if spec_bind_level(doc, catalog, source) is Err {
        let e = spec_bind_level(doc, catalog, source)->Err_0;
        let d1 = spec_err_diags_v(r1);
        let d2 = spec_err_diags_v(r2);
        let d3 = spec_err_diags_v(r3);
        let d4 = spec_err_diags_v(r4);
        let d5 = spec_err_diags_v(r5);
        let d6 = spec_err_diags_v(r6);
        let d7 = spec_err_diags_v(r7);
        let d8 = spec_err_diags_v(r8);
        let d9 = spec_err_diags_v(r9);
        let d10 = spec_err_diags_v(r10);
        let d = e.diagnostics;
        assert forall|i: int|
            0 <= i < d.len() implies (#[trigger] d[i]).severity == Severity::Error by {
            let l1 = d1.len();
            let l2 = l1 + d2.len();
            let l3 = l2 + d3.len();
            let l4 = l3 + d4.len();
            let l5 = l4 + d5.len();
            let l6 = l5 + d6.len();
            let l7 = l6 + d7.len();
            let l8 = l7 + d8.len();
            let l9 = l8 + d9.len();
            if i < l1 {
                assert(d[i] == d1[i]);
            } else if i < l2 {
                assert(d[i] == d2[i - l1]);
            } else if i < l3 {
                assert(d[i] == d3[i - l2]);
            } else if i < l4 {
                assert(d[i] == d4[i - l3]);
            } else if i < l5 {
                assert(d[i] == d5[i - l4]);
            } else if i < l6 {
                assert(d[i] == d6[i - l5]);
            } else if i < l7 {
                assert(d[i] == d7[i - l6]);
            } else if i < l8 {
                assert(d[i] == d8[i - l7]);
            } else if i < l9 {
                assert(d[i] == d9[i - l8]);
            } else {
                assert(d[i] == d10[i - l9]);
            }
        }
        assert(d.len() >= 1);
        assert(d[0].severity.spec_rank() >= Severity::Error.spec_rank());
    }
}

} // verus!
