//! Pieces that several components share.

pub mod resolve_symlink;
pub mod shlock;

pub use resolve_symlink::resolve_symlink;
pub use shlock::SharedLock;
