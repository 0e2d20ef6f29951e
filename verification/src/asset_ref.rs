//! Resolution of asset-reference strings.
//!
//! A reference is either `builtin:<name>` (looked up in the built-in asset
//! table), `preload:<name>` (looked up in the preload table), or any other
//! string, taken as a path relative to the current document and left for the
//! loader.  The tables are explicit registries handed into every bind call.

use crate::strings::{push_quoted, spec_quoted};
use vstd::prelude::*;
use vstd::string::StrSliceExecFns;

verus! {

/// The closed set of asset kinds the level language can reference.
#[derive(Debug, Clone, Copy, PartialEq, Eq, Structural)]
pub enum AssetKind {
    Font,
    Image,
    Scene,
    Material,
    Audio,
}

/// The display name of an asset kind, as reference errors report it.
pub open spec fn spec_kind_name(kind: AssetKind) -> Seq<char> {
    match kind {
        AssetKind::Font => "font"@,
        AssetKind::Image => "image"@,
        AssetKind::Scene => "scene"@,
        AssetKind::Material => "material"@,
        AssetKind::Audio => "audio"@,
    }
}

fn push_kind_name(out: &mut String, kind: AssetKind)
    ensures
        final(out)@ == old(out)@ + spec_kind_name(kind),
{
    match kind {
        AssetKind::Font => out.push_str("font"),
        AssetKind::Image => out.push_str("image"),
        AssetKind::Scene => out.push_str("scene"),
        AssetKind::Material => out.push_str("material"),
        AssetKind::Audio => out.push_str("audio"),
    }
}

/// One named asset of a given kind, as a registry lists it.
#[derive(Debug, Clone, PartialEq)]
pub struct AssetName {
    pub kind: AssetKind,
    pub name: String,
}

impl AssetName {
    pub fn new(kind: AssetKind, name: String) -> (a: AssetName)
        ensures
            a == (AssetName { kind, name }),
    {
        AssetName { kind, name }
    }
}

/// The registries a bind call resolves references against: the built-in
/// asset table and the preload table (including entries still loading).
#[derive(Debug, Clone, PartialEq)]
pub struct AssetCatalog {
    pub builtins: Vec<AssetName>,
    pub preloads: Vec<AssetName>,
}

/// Whether a registry lists an asset of the given kind and name.
pub open spec fn spec_catalog_contains(entries: Seq<AssetName>, kind: AssetKind, name: Seq<char>) -> bool {
    exists|i: int| 0 <= i < entries.len() && entries[i].kind == kind && entries[i].name@ == name
}

fn catalog_contains(entries: &Vec<AssetName>, kind: AssetKind, name: &String) -> (r: bool)
    ensures
        r == spec_catalog_contains(entries@, kind, name@),
{
    let mut i: usize = 0;
    while i < entries.len()
        invariant
            i <= entries@.len(),
            forall|j: int|
                0 <= j < i ==> !(entries@[j].kind == kind && entries@[j].name@ == name@),
        decreases entries@.len() - i,
    {
        if entries[i].kind == kind && entries[i].name == *name {
            return true;
        }
        i += 1;
    }
    false
}

impl AssetCatalog {
    pub fn new(builtins: Vec<AssetName>, preloads: Vec<AssetName>) -> (c: AssetCatalog)
        ensures
            c == (AssetCatalog { builtins, preloads }),
    {
        AssetCatalog { builtins, preloads }
    }

    /// An empty catalog: every builtin or preload reference fails against it.
    pub fn empty() -> (c: AssetCatalog)
        ensures
            c.builtins@ == Seq::<AssetName>::empty(),
            c.preloads@ == Seq::<AssetName>::empty(),
    {
        let c = AssetCatalog { builtins: Vec::new(), preloads: Vec::new() };
        proof {
            assert(c.builtins@ =~= Seq::<AssetName>::empty());
            assert(c.preloads@ =~= Seq::<AssetName>::empty());
        }
        c
    }
}

/// A resolved asset reference, to be turned into a live handle by the
/// loader.
#[derive(Debug, Clone, PartialEq)]
pub enum AssetRef {
    /// A named asset baked into the application.
    Builtin(String),
    /// A named asset from the preload index.
    Preload(String),
    /// A path relative to the current document, queued for loading.
    Path(String),
}

/// The mathematical value of a resolved asset reference.
pub enum AssetRefView {
    Builtin(Seq<char>),
    Preload(Seq<char>),
    Path(Seq<char>),
}

impl View for AssetRef {
    type V = AssetRefView;

    open spec fn view(&self) -> AssetRefView {
        match self {
            AssetRef::Builtin(name) => AssetRefView::Builtin(name@),
            AssetRef::Preload(name) => AssetRefView::Preload(name@),
            AssetRef::Path(path) => AssetRefView::Path(path@),
        }
    }
}

impl DeepView for AssetRef {
    type V = AssetRefView;

    open spec fn deep_view(&self) -> AssetRefView {
        self.view()
    }
}

/// Why an asset reference did not resolve.
#[derive(Debug, Clone, PartialEq)]
pub enum AssetRefError {
    /// No builtin of this kind has the referenced name.
    MissingBuiltin(AssetKind, String),
    /// No preload of this kind has the referenced name.
    MissingPreload(AssetKind, String),
}

/// The mathematical value of a resolution error.
pub enum AssetRefErrorView {
    MissingBuiltin(AssetKind, Seq<char>),
    MissingPreload(AssetKind, Seq<char>),
}

impl View for AssetRefError {
    type V = AssetRefErrorView;

    open spec fn view(&self) -> AssetRefErrorView {
        match self {
            AssetRefError::MissingBuiltin(kind, name) => AssetRefErrorView::MissingBuiltin(
                *kind,
                name@,
            ),
            AssetRefError::MissingPreload(kind, name) => AssetRefErrorView::MissingPreload(
                *kind,
                name@,
            ),
        }
    }
}

/// The message of a resolution error, naming the kind and the missing name.
pub open spec fn spec_asset_error_msg(e: AssetRefErrorView) -> Seq<char> {
    match e {
        AssetRefErrorView::MissingBuiltin(kind, name) => "No builtin with type "@ + spec_quoted(
            spec_kind_name(kind),
        ) + " and name "@ + spec_quoted(name),
        AssetRefErrorView::MissingPreload(kind, name) => "No preload with type "@ + spec_quoted(
            spec_kind_name(kind),
        ) + " and name "@ + spec_quoted(name),
    }
}

impl AssetRefError {
    /// Renders this error as the message a diagnostic carries.
    pub fn message(&self) -> (r: String)
        ensures
            r@ == spec_asset_error_msg(self@),
    {
        let mut out = String::new();
        match self {
            AssetRefError::MissingBuiltin(kind, name) => {
                out.push_str("No builtin with type ");
                out.push('\'');
                push_kind_name(&mut out, *kind);
                out.push('\'');
                out.push_str(" and name ");
                push_quoted(&mut out, name.as_str());
            },
            AssetRefError::MissingPreload(kind, name) => {
                out.push_str("No preload with type ");
                out.push('\'');
                push_kind_name(&mut out, *kind);
                out.push('\'');
                out.push_str(" and name ");
                push_quoted(&mut out, name.as_str());
            },
        }
        proof {
            assert(out@ =~= spec_asset_error_msg(self@));
        }
        out
    }
}

/// The preload the default text font stands for.
pub open spec fn spec_default_font() -> AssetRefView {
    AssetRefView::Preload("text"@)
}

/// The preload the default glowing text material stands for.
pub open spec fn spec_default_text_material() -> AssetRefView {
    AssetRefView::Preload("glow-text"@)
}

/// The preload the default plane material stands for.
pub open spec fn spec_default_plane_material() -> AssetRefView {
    AssetRefView::Preload("default-plane"@)
}

/// The default text font: the preload named `text`.
pub fn default_font() -> (a: AssetRef)
    ensures
        a@ == spec_default_font(),
{
    AssetRef::Preload("text".to_owned())
}

/// The default text material: the preload named `glow-text`.
pub fn default_text_material() -> (a: AssetRef)
    ensures
        a@ == spec_default_text_material(),
{
    AssetRef::Preload("glow-text".to_owned())
}

/// The default plane material: the preload named `default-plane`.
pub fn default_plane_material() -> (a: AssetRef)
    ensures
        a@ == spec_default_plane_material(),
{
    AssetRef::Preload("default-plane".to_owned())
}

/// Whether `s` starts with `prefix`, comparing characters.
fn has_prefix(s: &str, prefix: &str) -> (r: bool)
    ensures
        r == prefix@.is_prefix_of(s@),
{
    let n = prefix.unicode_len();
    let m = s.unicode_len();
    if m < n {
        proof {
            assert(!prefix@.is_prefix_of(s@));
        }
        return false;
    }
    let mut i: usize = 0;
    while i < n
        invariant
            i <= n,
            n == prefix@.len(),
            n <= s@.len(),
            forall|j: int| 0 <= j < i ==> s@[j] == prefix@[j],
        decreases n - i,
    {
        if s.get_char(i) != prefix.get_char(i) {
            proof {
                assert(!prefix@.is_prefix_of(s@)) by {
                    assert(s@.subrange(0, n as int)[i as int] != prefix@[i as int]);
                }
            }
            return false;
        }
        i += 1;
    }
    proof {
        assert(s@.subrange(0, n as int) =~= prefix@);
    }
    true
}

/// The characters of `s` from position `k` on, as a fresh string.
fn suffix_from(s: &str, k: usize) -> (r: String)
    requires
        k <= s@.len(),
    ensures
        r@ == s@.skip(k as int),
{
    let n = s.unicode_len();
    let mut out = String::new();
    let mut i: usize = k;
    while i < n
        invariant
            k <= i <= n,
            n == s@.len(),
            out@ == s@.subrange(k as int, i as int),
        decreases n - i,
    {
        let c = s.get_char(i);
        out.push(c);
        proof {
            assert(out@ =~= s@.subrange(k as int, i + 1));
        }
        i += 1;
    }
    proof {
        assert(s@.subrange(k as int, n as int) =~= s@.skip(k as int));
    }
    out
}

/// How the reference string `path` resolves for an asset of kind `kind`
/// against the given catalog.
pub open spec fn spec_load(path: Seq<char>, kind: AssetKind, catalog: AssetCatalog) -> Result<
    AssetRefView,
    AssetRefErrorView,
> {
    if "builtin:"@.is_prefix_of(path) {
        let name = path.skip("builtin:"@.len() as int);
        if spec_catalog_contains(catalog.builtins@, kind, name) {
            Result::Ok(AssetRefView::Builtin(name))
        } else {
            Result::Err(AssetRefErrorView::MissingBuiltin(kind, name))
        }
    } else if "preload:"@.is_prefix_of(path) {
        let name = path.skip("preload:"@.len() as int);
        if spec_catalog_contains(catalog.preloads@, kind, name) {
            Result::Ok(AssetRefView::Preload(name))
        } else {
            Result::Err(AssetRefErrorView::MissingPreload(kind, name))
        }
    } else {
        Result::Ok(AssetRefView::Path(path))
    }
}

/// Resolves an asset-reference string: a `builtin:` name against the
/// built-in table, a `preload:` name against the preload table, anything
/// else as a document-relative path.
pub fn load(path: &str, kind: AssetKind, catalog: &AssetCatalog) -> (r: Result<
    AssetRef,
    AssetRefError,
>)
    ensures
        match r {
            Ok(a) => spec_load(path@, kind, *catalog) == Result::<
                AssetRefView,
                AssetRefErrorView,
            >::Ok(a@),
            Err(e) => spec_load(path@, kind, *catalog) == Result::<
                AssetRefView,
                AssetRefErrorView,
            >::Err(e@),
        },
{
    let builtin_prefix = "builtin:";
    let preload_prefix = "preload:";
    if has_prefix(path, builtin_prefix) {
        let name = suffix_from(path, builtin_prefix.unicode_len());
        if catalog_contains(&catalog.builtins, kind, &name) {
            Ok(AssetRef::Builtin(name))
        } else {
            Err(AssetRefError::MissingBuiltin(kind, name))
        }
    } else if has_prefix(path, preload_prefix) {
        let name = suffix_from(path, preload_prefix.unicode_len());
        if catalog_contains(&catalog.preloads, kind, &name) {
            Ok(AssetRef::Preload(name))
        } else {
            Err(AssetRefError::MissingPreload(kind, name))
        }
    } else {
        Ok(AssetRef::Path(path.to_owned()))
    }
}

} // verus!
