use kdl_bind::asset_ref::{
    default_font, default_plane_material, default_text_material, load, AssetCatalog, AssetKind,
    AssetName, AssetRef, AssetRefError,
};

fn s(x: &str) -> String {
    x.to_string()
}

fn catalog() -> AssetCatalog {
    AssetCatalog::new(
        vec![
            AssetName::new(AssetKind::Image, s("text-atlas")),
            AssetName::new(AssetKind::Font, s("pixel")),
        ],
        vec![
            AssetName::new(AssetKind::Font, s("text")),
            AssetName::new(AssetKind::Material, s("glow-text")),
        ],
    )
}

#[test]
fn builtin_reference_resolves_when_listed() {
    let r = load("builtin:pixel", AssetKind::Font, &catalog());
    assert_eq!(r.unwrap(), AssetRef::Builtin(s("pixel")));
}

#[test]
fn builtin_lookup_is_keyed_by_kind_too() {
    // `text-atlas` is listed as an image, not as a font
    let r = load("builtin:text-atlas", AssetKind::Font, &catalog());
    assert_eq!(
        r.unwrap_err(),
        AssetRefError::MissingBuiltin(AssetKind::Font, s("text-atlas"))
    );
}

#[test]
fn missing_builtin_error_names_kind_and_name() {
    let err = load("builtin:does-not-exist", AssetKind::Font, &catalog()).unwrap_err();
    assert_eq!(
        err.message(),
        "No builtin with type 'font' and name 'does-not-exist'"
    );
}

#[test]
fn preload_reference_resolves_when_listed() {
    let r = load("preload:text", AssetKind::Font, &catalog());
    assert_eq!(r.unwrap(), AssetRef::Preload(s("text")));
}

#[test]
fn missing_preload_error_names_kind_and_name() {
    let err = load("preload:unknown", AssetKind::Material, &catalog()).unwrap_err();
    assert_eq!(
        err,
        AssetRefError::MissingPreload(AssetKind::Material, s("unknown"))
    );
    assert_eq!(
        err.message(),
        "No preload with type 'material' and name 'unknown'"
    );
}

#[test]
fn any_other_string_is_a_relative_path() {
    let r = load("sounds/clank.ogg", AssetKind::Audio, &catalog());
    assert_eq!(r.unwrap(), AssetRef::Path(s("sounds/clank.ogg")));
    // even one that merely contains a prefix-like word
    let r = load("a/builtin:x", AssetKind::Font, &catalog());
    assert_eq!(r.unwrap(), AssetRef::Path(s("a/builtin:x")));
}

#[test]
fn defaults_are_the_documented_preloads() {
    assert_eq!(default_font(), AssetRef::Preload(s("text")));
    assert_eq!(default_text_material(), AssetRef::Preload(s("glow-text")));
    assert_eq!(
        default_plane_material(),
        AssetRef::Preload(s("default-plane"))
    );
}
