//! A phased builder for shadow storages.
use crate::persist::{NoPersist, PersistTrigger};
use crate::policy::{AccessPolicy, AllowAllPolicy, NoPersistPolicy, PersistPolicy};
use crate::storage::ShadowStorage;
use core::marker::PhantomData;
use vstd::prelude::*;

verus! {

/// Builder state: the total size comes next.
pub struct NeedTotalSize;

/// Builder state: the block size comes next.
pub struct NeedBlockSize;

/// Builder state: the block count comes next.
pub struct NeedBlockCount;

/// Builder state: the access policy comes next.
pub struct NeedAccessPolicy;

/// Builder state: the persistence policy comes next.
pub struct NeedPersistPolicy;

/// Builder state: the persistence trigger comes next.
pub struct NeedPersistTrigger;

/// Builder state: ready to build.
pub struct Ready;

/// Phased builder for a [`ShadowStorage`]: total size, block size, block
/// count, access policy, persistence policy and trigger, in that order.
pub struct ShadowStorageBuilder<
    const TS: usize,
    const BS: usize,
    const BC: usize,
    AP,
    PP,
    PT,
    PK,
    State,
> {
    access_policy: AP,
    persist_policy: PP,
    persist_trigger: PT,
    _phantom: PhantomData<(PK, State)>,
}

impl ShadowStorageBuilder<0, 0, 0, (), (), (), (), NeedTotalSize> {
    /// Starts a builder.
    pub fn new() -> (r: Self) {
        ShadowStorageBuilder {
            access_policy: (),
            persist_policy: (),
            persist_trigger: (),
            _phantom: PhantomData,
        }
    }

    /// Sets the total size of the table in bytes.
    pub fn total_size<const TS: usize>(self) -> (r: ShadowStorageBuilder<
        TS,
        0,
        0,
        (),
        (),
        (),
        (),
        NeedBlockSize,
    >) {
        ShadowStorageBuilder {
            access_policy: (),
            persist_policy: (),
            persist_trigger: (),
            _phantom: PhantomData,
        }
    }
}

impl<const TS: usize> ShadowStorageBuilder<TS, 0, 0, (), (), (), (), NeedBlockSize> {
    /// Sets the block size in bytes.
    pub fn block_size<const BS: usize>(self) -> (r: ShadowStorageBuilder<
        TS,
        BS,
        0,
        (),
        (),
        (),
        (),
        NeedBlockCount,
    >) {
        ShadowStorageBuilder {
            access_policy: (),
            persist_policy: (),
            persist_trigger: (),
            _phantom: PhantomData,
        }
    }
}

impl<const TS: usize, const BS: usize> ShadowStorageBuilder<
    TS,
    BS,
    0,
    (),
    (),
    (),
    (),
    NeedBlockCount,
> {
    /// Sets the number of blocks. The total size must equal block size
    /// times block count: for a 1024-byte table with 64-byte blocks, use 16.
    pub fn block_count<const BC: usize>(self) -> (r: ShadowStorageBuilder<
        TS,
        BS,
        BC,
        (),
        (),
        (),
        (),
        NeedAccessPolicy,
    >)
        requires
            crate::helpers::geometry_ok(TS as int, BS as int, BC as int),
        ensures
            r.geometry_checked(),
            TS == BS * BC,
    {
        ShadowStorageBuilder {
            access_policy: (),
            persist_policy: (),
            persist_trigger: (),
            _phantom: PhantomData,
        }
    }
}

impl<const TS: usize, const BS: usize, const BC: usize> ShadowStorageBuilder<
    TS,
    BS,
    BC,
    (),
    (),
    (),
    (),
    NeedAccessPolicy,
> {
    /// Sets the access policy.
    pub fn access_policy<AP: AccessPolicy>(self, policy: AP) -> (r: ShadowStorageBuilder<
        TS,
        BS,
        BC,
        AP,
        (),
        (),
        (),
        NeedPersistPolicy,
    >)
        ensures
            r.access() == policy,
    {
        ShadowStorageBuilder {
            access_policy: policy,
            persist_policy: (),
            persist_trigger: (),
            _phantom: PhantomData,
        }
    }

    /// Uses the default allow-all access policy.
    pub fn default_access(self) -> (r: ShadowStorageBuilder<
        TS,
        BS,
        BC,
        AllowAllPolicy,
        (),
        (),
        (),
        NeedPersistPolicy,
    >) {
        self.access_policy(AllowAllPolicy {  })
    }
}

impl<const TS: usize, const BS: usize, const BC: usize, AP> ShadowStorageBuilder<
    TS,
    BS,
    BC,
    AP,
    (),
    (),
    (),
    NeedPersistPolicy,
> where AP: AccessPolicy {
    /// Sets a persistence policy with its key type.
    pub fn persist_policy<PP, PK>(self, policy: PP) -> (r: ShadowStorageBuilder<
        TS,
        BS,
        BC,
        AP,
        PP,
        (),
        PK,
        NeedPersistTrigger,
    >) where PP: PersistPolicy<PK>,
        ensures
            r.access() == self.access(),
            r.persist() == policy,
    {
        ShadowStorageBuilder {
            access_policy: self.access_policy,
            persist_policy: policy,
            persist_trigger: (),
            _phantom: PhantomData,
        }
    }

    /// Uses no persistence: a policy that never persists and a trigger that
    /// drops everything.
    pub fn no_persist(self) -> (r: ShadowStorageBuilder<
        TS,
        BS,
        BC,
        AP,
        NoPersistPolicy,
        NoPersist,
        (),
        Ready,
    >)
        ensures
            r.access() == self.access(),
    {
        ShadowStorageBuilder {
            access_policy: self.access_policy,
            persist_policy: NoPersistPolicy {  },
            persist_trigger: NoPersist,
            _phantom: PhantomData,
        }
    }
}

impl<const TS: usize, const BS: usize, const BC: usize, AP, PP, PK> ShadowStorageBuilder<
    TS,
    BS,
    BC,
    AP,
    PP,
    (),
    PK,
    NeedPersistTrigger,
> where AP: AccessPolicy, PP: PersistPolicy<PK> {
    /// Sets the trigger that receives the persistence keys.
    pub fn persist_trigger<PT>(self, trigger: PT) -> (r: ShadowStorageBuilder<
        TS,
        BS,
        BC,
        AP,
        PP,
        PT,
        PK,
        Ready,
    >) where PT: PersistTrigger<PK>,
        ensures
            r.access() == self.access(),
            r.persist() == self.persist(),
            r.trigger() == trigger,
    {
        ShadowStorageBuilder {
            access_policy: self.access_policy,
            persist_policy: self.persist_policy,
            persist_trigger: trigger,
            _phantom: PhantomData,
        }
    }
}

impl<const TS: usize, const BS: usize, const BC: usize, AP, PP, PT, PK, State> ShadowStorageBuilder<
    TS,
    BS,
    BC,
    AP,
    PP,
    PT,
    PK,
    State,
> {
    /// Whether the sizes this builder carries form a valid geometry.
    pub open spec fn geometry_checked(&self) -> bool {
        crate::helpers::geometry_ok(TS as int, BS as int, BC as int)
    }

    /// The access policy chosen so far.
    pub closed spec fn access(&self) -> AP {
        self.access_policy
    }

    /// The persistence policy chosen so far.
    pub closed spec fn persist(&self) -> PP {
        self.persist_policy
    }

    /// The persistence trigger chosen so far.
    pub closed spec fn trigger(&self) -> PT {
        self.persist_trigger
    }
}

impl<const TS: usize, const BS: usize, const BC: usize, AP, PP, PT, PK> ShadowStorageBuilder<
    TS,
    BS,
    BC,
    AP,
    PP,
    PT,
    PK,
    Ready,
> where AP: AccessPolicy, PP: PersistPolicy<PK>, PT: PersistTrigger<PK> {
    /// Builds the storage: a zeroed table with no dirty block and the chosen
    /// policies and trigger.
    pub fn build(self) -> (r: ShadowStorage<TS, BS, BC, AP, PP, PT, PK>)
        requires
            crate::helpers::geometry_ok(TS as int, BS as int, BC as int),
        ensures
            r.wf(),
            r.table().bytes_view() == Seq::new(TS as nat, |i: int| 0u8),
            r.table().dirty_view() == Set::<int>::empty(),
    {
        ShadowStorage::new(self.access_policy, self.persist_policy, self.persist_trigger)
    }
}

} // verus!
