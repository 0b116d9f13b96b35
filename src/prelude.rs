//! The items most programs need, for a single `use`.
pub use crate::builder::ShadowStorageBuilder;
pub use crate::error::ShadowError;
pub use crate::host_staged::HostViewStaged;
pub use crate::host_view::HostView;
pub use crate::kernel_view::KernelView;
pub use crate::persist::{KeySink, NoPersist, PersistEvent, PersistTrigger};
pub use crate::policy::{AccessPolicy, AllowAllPolicy, NoPersistPolicy, PersistPolicy};
pub use crate::staged::PatchStagingBuffer;
pub use crate::storage::{HostShadow, KernelShadow, ShadowStorage};
pub use crate::types::{StagingBuffer, WriteResult};
