//! A minimal pluggable virtual-filesystem layer.
//!
//! Independent filesystem backends ("drives") are mounted under
//! single-letter identifiers and addressed through one uniform path
//! syntax (`LETTER:/a/b/c`) and one uniform handle API.  Backends are
//! plain data: a table of optional operation slots bound to a closed
//! polymorphic state value, dispatched by variant matching.  Node
//! ownership is arena-based: every handle carries a stable index into
//! its backend's node tables.


pub mod kernel;
pub mod tmpfs;
pub mod vfs;
