//! Atomic, reversible system updates on a copy-on-write filesystem.
//!
//! Changes are applied inside a throwaway snapshot of the live root and, only
//! on success, the snapshot is promoted to become the new root while the old
//! root is kept as a rollback target. This crate holds the decision logic:
//! snapshot numbering and allocation, parsing of the outputs that identify the
//! root subvolume and the storage device, the ordered rename plans that
//! promote a snapshot or restore the previous root, and a model of the
//! volume's top-level namespace on which the promotion protocol is proved.
//! Process execution and filesystem access stay with the caller, which feeds
//! command outputs in and carries command plans out.

pub mod allocator;
pub mod command;
pub mod config;
pub mod detect;
pub mod sandbox;
pub mod session;
pub mod swap;
pub mod text;
pub mod volume;
