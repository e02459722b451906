//! An in-memory model of a package manifest's dependency declarations, with
//! fuzzy filtering for interactive selection and a write-back step that
//! re-encodes one dependency into its minimal manifest form while leaving
//! every other part of the file untouched.
//!
//! The document tree itself is toml_edit's, reached through a small trusted
//! boundary in `toml_doc`; fuzzy scores come from fuzzy_matcher through
//! `fuzzy`. Everything else — the dependency model, the encoding decisions,
//! feature ordering, lookups and the view ranking — is verified.

pub mod dep;
pub mod document;
pub mod encode;
pub mod fuzzy;
pub mod strorder;
pub mod toml_doc;
