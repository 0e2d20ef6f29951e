//! Binder for a small declarative level-description language.
//!
//! A level file is parsed (elsewhere) into a generic tree of named nodes with
//! scalar entries.  This crate turns such a tree into strongly-typed scene
//! descriptors, collecting every diagnostic in the document in a single pass
//! instead of stopping at the first failure.

pub mod asset_ref;
pub mod doc;
pub mod error;
pub mod index;
pub mod kdl_utils;
pub mod laws;
pub mod level;
pub mod num;
pub mod spawn;
pub mod strings;

pub use asset_ref::{AssetCatalog, AssetKind, AssetName, AssetRef};
pub use doc::{KdlDocument, KdlEntry, KdlNode, KdlValue, NodeKey, Span};
pub use error::{KdlBindDiagnostic, KdlBindError, Severity};
pub use level::SerialLevel;
pub use num::{Number, Vec3};
