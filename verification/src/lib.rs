//! Turns the description of a component realm into the source text of an
//! integration-test harness.
//!
//! A [`RustTestCode`] collects the facts of one realm: its components, the
//! capability routes between them, the mocks that stand in for dependencies
//! and the protocols to exercise. A [`RustTestCodeGenerator`] then renders the
//! collected realm as text. What each call records, and what text comes out,
//! is defined by the model in [`realm`].
pub mod builder;
pub mod emitter;
pub mod import_set;
pub mod laws;
pub mod realm;
pub mod snippet;
pub mod text;

pub use builder::{ComponentRef, RustTestCode, TopologyError};
pub use emitter::RustTestCodeGenerator;
pub use import_set::ImportSet;
