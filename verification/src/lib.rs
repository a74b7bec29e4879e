//! A project-scaffolding engine.
//!
//! A catalog of starter-project templates is indexed by key. Each template
//! carries a file tree whose contents and relative paths may hold
//! `{{identifier}}` placeholder tokens, together with a schema declaring the
//! variables those tokens may name (required flag, optional default, naming
//! rule). A generation request names a template, supplies variable bindings
//! and a target, and receives either a fully rendered project with a manifest
//! of the files written, or a structured error; the target is never left in a
//! partially written state.
//!
//! The modules, leaf first:
//! - [`text`]: byte classification and the naming rules for variable values.
//! - [`context`]: variable bindings and the render context built from them.
//! - [`render`]: the placeholder substitution engine on byte strings.
//! - [`digest`]: the content digest recorded in manifests.
//! - [`catalog`]: template descriptors, schemas, and the keyed catalog.
//! - [`validate`]: checking bindings against a template's schema.
//! - [`materialize`]: staging, conflict policy, and the atomic commit model.

pub mod catalog;
pub mod context;
pub mod errors;
pub mod digest;
pub mod materialize;
pub mod render;
pub mod text;
pub mod validate;
