//! Scoped emission of nested tagged text.
//!
//! A sink accepts text through the [`Open`](scope::Open) trait. Opening a
//! scope writes an opening tag and returns a [`WriteScope`](scope::WriteScope)
//! guard; releasing the guard writes the matching closing tag. The guard's
//! contracts pin down exactly what the sink holds after each step, so
//! well-formed nesting is enforced by construction.
//!
//! Text and attribute values are written as they stand: nothing escapes
//! reserved markup characters, that is the caller's business.

pub mod html;
pub mod laws;
pub mod scope;
pub mod sink;
pub mod xml;

pub use scope::Closer;
pub use scope::CloserDynComp;
pub use scope::ConstantCloseOpener;
pub use scope::ConstantCloser;
pub use scope::DynConstantCloser;
pub use scope::Open;
pub use scope::Opener;
pub use scope::open;
pub use scope::open_scope;
pub use scope::ref_open;
pub use scope::WriteScope;
pub use scope::partial_write;
pub use sink::WrapFmt;
