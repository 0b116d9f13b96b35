//! A shadow register table for embedded systems: a fixed-size byte table
//! with block-granular dirty tracking, shared by a host role that writes and
//! marks blocks dirty and a kernel role that syncs dirty blocks to hardware.
//!
//! Host writes mark the blocks they touch dirty and may ask a persistence
//! trigger to save; kernel writes mirror the hardware and never mark dirty;
//! the kernel walks the dirty blocks and clears them once synced. Writes can
//! also be staged and committed at once.
pub mod bitmap;
pub mod builder;
pub mod error;
pub mod helpers;
pub mod host_staged;
pub mod host_view;
pub mod kernel_view;
pub mod laws;
pub mod persist;
pub mod policy;
pub mod prelude;
pub mod slice;
pub mod staged;
pub mod storage;
pub mod table;
pub mod types;

pub use builder::ShadowStorageBuilder;
pub use error::ShadowError;
pub use helpers::{block_span, range_span};
pub use host_staged::HostViewStaged;
pub use host_view::HostView;
pub use kernel_view::KernelView;
pub use persist::{KeySink, NoPersist, PersistEvent, PersistTrigger};
pub use policy::{AccessPolicy, AllowAllPolicy, NoPersistPolicy, PersistPolicy};
pub use slice::{RWSlice, ROSlice, WOSlice};
pub use staged::PatchStagingBuffer;
pub use storage::{
    DefaultsWriter, HostShadow, KernelShadow, NoStage, ShadowStorage, ShadowStorageBase,
    WithStage,
};
pub use table::ShadowTable;
pub use types::{StagingBuffer, WriteResult};
