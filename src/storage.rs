//! The storage that owns a table, its policies and its trigger, and hands
//! out short-lived views of them.
use crate::error::ShadowError;
use crate::helpers::range_span;
use crate::host_staged::HostViewStaged;
use crate::host_view::HostView;
use crate::kernel_view::KernelView;
use crate::persist::PersistTrigger;
use crate::policy::{AccessPolicy, PersistPolicy};
use crate::table::ShadowTable;
use crate::types::StagingBuffer;
use core::marker::PhantomData;
use vstd::prelude::*;

verus! {

/// Relies on `critical_section::with`: it acquires the critical section,
/// calls its closure exactly once, releases the section and returns the
/// closure's result. Here the closure only calls `g` on `a` and `b`.
#[verifier::external_body]
fn in_critical_section<A, B, R, G: FnOnce(A, B) -> R>(a: A, b: B, g: G) -> (r: R)
    requires
        g.requires((a, b)),
    ensures
        g.ensures((a, b), r),
{
    critical_section::with(|_cs| g(a, b))
}

/// Marker type for storage without staging support.
pub struct NoStage;

/// Wrapper for storage with staging support.
pub struct WithStage<SB: StagingBuffer> {
    sb: SB,
}

impl<SB: StagingBuffer> WithStage<SB> {
    /// The staging buffer.
    pub closed spec fn buffer(&self) -> SB {
        self.sb
    }
}

/// Writes default bytes into a table without marking anything dirty.
pub struct DefaultsWriter<'a, const TS: usize, const BS: usize, const BC: usize> {
    table: &'a mut ShadowTable<TS, BS, BC>,
}

impl<'a, const TS: usize, const BS: usize, const BC: usize> DefaultsWriter<'a, TS, BS, BC> {
    /// The table being written.
    pub closed spec fn table(&self) -> ShadowTable<TS, BS, BC> {
        *self.table
    }

    /// Copies `data` into the table at `addr`; no dirty bit changes.
    pub fn write(&mut self, addr: u16, data: &[u8]) -> (r: Result<(), ShadowError>)
        requires
            old(self).table().wf(),
        ensures
            final(self).table().wf(),
            final(self).table().dirty_view() == old(self).table().dirty_view(),
            match crate::helpers::range_span_spec(TS as int, addr as int, data@.len() as int) {
                Err(e) => r == Err::<(), ShadowError>(e) && final(self).table() == old(
                    self,
                ).table(),
                Ok(_) => r is Ok && final(self).table().bytes_view() == crate::slice::splice(
                    old(self).table().bytes_view(),
                    addr as int,
                    data@,
                ),
            },
    {
        let (off, end) = range_span::<TS>(addr, data.len())?;
        let window = self.table.window_mut(off, end);
        crate::slice::copy_in(window, 0, data);
        proof {
            self.table.lemma_len();
            assert(self.table().bytes_view() =~= crate::slice::splice(
                old(self).table().bytes_view(),
                addr as int,
                data@,
            ));
        }
        Ok(())
    }
}

/// Core shadow table storage with configurable policies.
///
/// `TS` is the table size in bytes, `BS` the block size and `BC` the block
/// count; `AP` and `PP` are the access and persistence policies, `PT` the
/// persistence trigger, `PK` the persistence key type and `SS` the stage
/// state (`NoStage` or `WithStage<SB>`).
pub struct ShadowStorageBase<const TS: usize, const BS: usize, const BC: usize, AP, PP, PT, PK, SS> where
    AP: AccessPolicy,
    PP: PersistPolicy<PK>,
    PT: PersistTrigger<PK>,
 {
    table: ShadowTable<TS, BS, BC>,
    access_policy: AP,
    persist_policy: PP,
    persist_trigger: PT,
    stage_state: SS,
    _phantom: PhantomData<PK>,
}

/// Shadow storage without staging support.
pub type ShadowStorage<const TS: usize, const BS: usize, const BC: usize, AP, PP, PT, PK> =
    ShadowStorageBase<TS, BS, BC, AP, PP, PT, PK, NoStage>;

impl<const TS: usize, const BS: usize, const BC: usize, AP, PP, PT, PK, SS> ShadowStorageBase<
    TS,
    BS,
    BC,
    AP,
    PP,
    PT,
    PK,
    SS,
> where AP: AccessPolicy, PP: PersistPolicy<PK>, PT: PersistTrigger<PK> {
    /// The table.
    pub closed spec fn table(&self) -> ShadowTable<TS, BS, BC> {
        self.table
    }

    /// The stage state.
    pub closed spec fn stage_state(&self) -> SS {
        self.stage_state
    }

    pub open spec fn wf(&self) -> bool {
        self.table().wf()
    }

    /// A short-lived handle for the host role.
    pub fn host_shadow(&mut self) -> (r: HostShadow<'_, TS, BS, BC, AP, PP, PT, PK, SS>)
        ensures
            r.storage() == *old(self),
    {
        HostShadow { storage: self }
    }

    /// A short-lived handle for the kernel role.
    pub fn kernel_shadow(&mut self) -> (r: KernelShadow<'_, TS, BS, BC, AP, PP, PT, PK, SS>)
        ensures
            r.storage() == *old(self),
    {
        KernelShadow { storage: self }
    }

    /// Loads initial values into the table without marking dirty, inside a
    /// critical section. `f` receives a writer whose `write` copies bytes in.
    pub fn load_defaults<F>(&mut self, f: F) -> (r: Result<(), ShadowError>) where
        F: FnOnce(&mut DefaultsWriter<'_, TS, BS, BC>) -> Result<(), ShadowError>,
        requires
            old(self).wf(),
            forall|w: &mut DefaultsWriter<'_, TS, BS, BC>| f.requires((w,)),
        ensures
            final(self).wf(),
            exists|w: &mut DefaultsWriter<'_, TS, BS, BC>|
                f.ensures((w,), r) && (*w).table() == old(self).table(),
    {
        let r = in_critical_section(&mut *self, f, Self::run_load_defaults);
        proof {
            self.table.lemma_wf();
        }
        r
    }

    /// Loads initial values into the table without marking dirty. The caller
    /// already holds exclusive access (for instance during boot).
    pub fn load_defaults_unchecked<F>(&mut self, f: F) -> (r: Result<(), ShadowError>) where
        F: FnOnce(&mut DefaultsWriter<'_, TS, BS, BC>) -> Result<(), ShadowError>,
        requires
            old(self).wf(),
            forall|w: &mut DefaultsWriter<'_, TS, BS, BC>| f.requires((w,)),
        ensures
            final(self).wf(),
            exists|w: &mut DefaultsWriter<'_, TS, BS, BC>|
                f.ensures((w,), r) && (*w).table() == old(self).table(),
    {
        let r = Self::run_load_defaults(&mut *self, f);
        proof {
            self.table.lemma_wf();
        }
        r
    }

    fn run_load_defaults<F>(storage: &mut Self, f: F) -> (r: Result<(), ShadowError>) where
        F: FnOnce(&mut DefaultsWriter<'_, TS, BS, BC>) -> Result<(), ShadowError>,
        requires
            old(storage).wf(),
            forall|w: &mut DefaultsWriter<'_, TS, BS, BC>| f.requires((w,)),
        ensures
            exists|w: &mut DefaultsWriter<'_, TS, BS, BC>|
                f.ensures((w,), r) && (*w).table() == old(storage).table(),
    {
        let mut writer = DefaultsWriter { table: &mut storage.table };
        assert(writer.table() == old(storage).table());
        let r = f(&mut writer);
        assert(exists|w: &mut DefaultsWriter<'_, TS, BS, BC>|
            f.ensures((w,), r) && (*w).table() == old(storage).table());
        r
    }
}

impl<const TS: usize, const BS: usize, const BC: usize, AP, PP, PT, PK> ShadowStorageBase<
    TS,
    BS,
    BC,
    AP,
    PP,
    PT,
    PK,
    NoStage,
> where AP: AccessPolicy, PP: PersistPolicy<PK>, PT: PersistTrigger<PK> {
    /// A storage with a zeroed table, no dirty block and the given policies.
    pub fn new(policy: AP, persist: PP, trigger: PT) -> (r: Self)
        requires
            crate::helpers::geometry_ok(TS as int, BS as int, BC as int),
        ensures
            r.wf(),
            r.table().bytes_view() == Seq::new(TS as nat, |i: int| 0u8),
            r.table().dirty_view() == Set::<int>::empty(),
    {
        ShadowStorageBase {
            table: ShadowTable::new(),
            access_policy: policy,
            persist_policy: persist,
            persist_trigger: trigger,
            stage_state: NoStage,
            _phantom: PhantomData,
        }
    }

    /// Upgrades this storage to staged mode with the given staging buffer;
    /// the table, policies and trigger move over unchanged.
    pub fn with_staging<SB: StagingBuffer>(self, sb: SB) -> (r: ShadowStorageBase<
        TS,
        BS,
        BC,
        AP,
        PP,
        PT,
        PK,
        WithStage<SB>,
    >)
        ensures
            r.table() == self.table(),
            r.stage_state().buffer() == sb,
    {
        ShadowStorageBase {
            table: self.table,
            access_policy: self.access_policy,
            persist_policy: self.persist_policy,
            persist_trigger: self.persist_trigger,
            stage_state: WithStage { sb },
            _phantom: PhantomData,
        }
    }
}

/// Host-side handle on a storage.
pub struct HostShadow<'a, const TS: usize, const BS: usize, const BC: usize, AP, PP, PT, PK, SS> where
    AP: AccessPolicy,
    PP: PersistPolicy<PK>,
    PT: PersistTrigger<PK>,
 {
    storage: &'a mut ShadowStorageBase<TS, BS, BC, AP, PP, PT, PK, SS>,
}

impl<'a, const TS: usize, const BS: usize, const BC: usize, AP, PP, PT, PK, SS> HostShadow<
    'a,
    TS,
    BS,
    BC,
    AP,
    PP,
    PT,
    PK,
    SS,
> where AP: AccessPolicy, PP: PersistPolicy<PK>, PT: PersistTrigger<PK> {
    /// The storage this handle works on.
    pub closed spec fn storage(&self) -> ShadowStorageBase<TS, BS, BC, AP, PP, PT, PK, SS> {
        *self.storage
    }
}

impl<'a, const TS: usize, const BS: usize, const BC: usize, AP, PP, PT, PK> HostShadow<
    'a,
    TS,
    BS,
    BC,
    AP,
    PP,
    PT,
    PK,
    NoStage,
> where AP: AccessPolicy, PP: PersistPolicy<PK>, PT: PersistTrigger<PK> {
    /// Runs `f` on a host view inside a critical section.
    pub fn with_view<R, F>(&mut self, f: F) -> (r: R) where
        F: FnOnce(&mut HostView<'_, TS, BS, BC, AP, PP, PT, PK>) -> R,
        requires
            old(self).storage().wf(),
            forall|v: &mut HostView<'_, TS, BS, BC, AP, PP, PT, PK>| f.requires((v,)),
        ensures
            final(self).storage().wf(),
            exists|v: &mut HostView<'_, TS, BS, BC, AP, PP, PT, PK>|
                f.ensures((v,), r) && (*v).table() == old(self).storage().table(),
    {
        let r = in_critical_section(&mut *self.storage, f, Self::run_view);
        proof {
            self.storage.table.lemma_wf();
        }
        r
    }

    /// Runs `f` on a host view; the caller already holds exclusive access
    /// (for instance inside an interrupt handler).
    pub fn with_view_unchecked<R, F>(&mut self, f: F) -> (r: R) where
        F: FnOnce(&mut HostView<'_, TS, BS, BC, AP, PP, PT, PK>) -> R,
        requires
            old(self).storage().wf(),
            forall|v: &mut HostView<'_, TS, BS, BC, AP, PP, PT, PK>| f.requires((v,)),
        ensures
            final(self).storage().wf(),
            exists|v: &mut HostView<'_, TS, BS, BC, AP, PP, PT, PK>|
                f.ensures((v,), r) && (*v).table() == old(self).storage().table(),
    {
        let r = Self::run_view(&mut *self.storage, f);
        proof {
            self.storage.table.lemma_wf();
        }
        r
    }

    fn run_view<R, F>(
        storage: &mut ShadowStorageBase<TS, BS, BC, AP, PP, PT, PK, NoStage>,
        f: F,
    ) -> (r: R) where F: FnOnce(&mut HostView<'_, TS, BS, BC, AP, PP, PT, PK>) -> R,
        requires
            old(storage).wf(),
            forall|v: &mut HostView<'_, TS, BS, BC, AP, PP, PT, PK>| f.requires((v,)),
        ensures
            exists|v: &mut HostView<'_, TS, BS, BC, AP, PP, PT, PK>|
                f.ensures((v,), r) && (*v).table() == old(storage).table(),
    {
        let mut view = HostView::new(
            &mut storage.table,
            &storage.access_policy,
            &storage.persist_policy,
            &mut storage.persist_trigger,
        );
        let r = f(&mut view);
        assert(exists|v: &mut HostView<'_, TS, BS, BC, AP, PP, PT, PK>|
            f.ensures((v,), r) && (*v).table() == old(storage).table());
        r
    }
}

impl<'a, const TS: usize, const BS: usize, const BC: usize, AP, PP, PT, PK, SB> HostShadow<
    'a,
    TS,
    BS,
    BC,
    AP,
    PP,
    PT,
    PK,
    WithStage<SB>,
> where AP: AccessPolicy, PP: PersistPolicy<PK>, PT: PersistTrigger<PK>, SB: StagingBuffer {
    /// Runs `f` on a staged host view inside a critical section.
    pub fn with_view<R, F>(&mut self, f: F) -> (r: R) where
        F: FnOnce(&mut HostViewStaged<'_, TS, BS, BC, AP, PP, PT, PK, SB>) -> R,
        requires
            old(self).storage().wf(),
            forall|v: &mut HostViewStaged<'_, TS, BS, BC, AP, PP, PT, PK, SB>| f.requires((v,)),
        ensures
            final(self).storage().wf(),
            exists|v: &mut HostViewStaged<'_, TS, BS, BC, AP, PP, PT, PK, SB>|
                f.ensures((v,), r) && (*v).base().table() == old(self).storage().table(),
    {
        let r = in_critical_section(&mut *self.storage, f, Self::run_view);
        proof {
            self.storage.table.lemma_wf();
        }
        r
    }

    /// Runs `f` on a staged host view; the caller already holds exclusive
    /// access.
    pub fn with_view_unchecked<R, F>(&mut self, f: F) -> (r: R) where
        F: FnOnce(&mut HostViewStaged<'_, TS, BS, BC, AP, PP, PT, PK, SB>) -> R,
        requires
            old(self).storage().wf(),
            forall|v: &mut HostViewStaged<'_, TS, BS, BC, AP, PP, PT, PK, SB>| f.requires((v,)),
        ensures
            final(self).storage().wf(),
            exists|v: &mut HostViewStaged<'_, TS, BS, BC, AP, PP, PT, PK, SB>|
                f.ensures((v,), r) && (*v).base().table() == old(self).storage().table(),
    {
        let r = Self::run_view(&mut *self.storage, f);
        proof {
            self.storage.table.lemma_wf();
        }
        r
    }

    fn run_view<R, F>(
        storage: &mut ShadowStorageBase<TS, BS, BC, AP, PP, PT, PK, WithStage<SB>>,
        f: F,
    ) -> (r: R) where F: FnOnce(&mut HostViewStaged<'_, TS, BS, BC, AP, PP, PT, PK, SB>) -> R,
        requires
            old(storage).wf(),
            forall|v: &mut HostViewStaged<'_, TS, BS, BC, AP, PP, PT, PK, SB>| f.requires((v,)),
        ensures
            exists|v: &mut HostViewStaged<'_, TS, BS, BC, AP, PP, PT, PK, SB>|
                f.ensures((v,), r) && (*v).base().table() == old(storage).table(),
    {
        let base = HostView::new(
            &mut storage.table,
            &storage.access_policy,
            &storage.persist_policy,
            &mut storage.persist_trigger,
        );
        let mut view = HostViewStaged::new(base, &mut storage.stage_state.sb);
        let r = f(&mut view);
        assert(exists|v: &mut HostViewStaged<'_, TS, BS, BC, AP, PP, PT, PK, SB>|
            f.ensures((v,), r) && (*v).base().table() == old(storage).table());
        r
    }
}

/// Kernel-side handle on a storage.
pub struct KernelShadow<'a, const TS: usize, const BS: usize, const BC: usize, AP, PP, PT, PK, SS> where
    AP: AccessPolicy,
    PP: PersistPolicy<PK>,
    PT: PersistTrigger<PK>,
 {
    storage: &'a mut ShadowStorageBase<TS, BS, BC, AP, PP, PT, PK, SS>,
}

impl<'a, const TS: usize, const BS: usize, const BC: usize, AP, PP, PT, PK, SS> KernelShadow<
    'a,
    TS,
    BS,
    BC,
    AP,
    PP,
    PT,
    PK,
    SS,
> where AP: AccessPolicy, PP: PersistPolicy<PK>, PT: PersistTrigger<PK> {
    /// The storage this handle works on.
    pub closed spec fn storage(&self) -> ShadowStorageBase<TS, BS, BC, AP, PP, PT, PK, SS> {
        *self.storage
    }

    /// Runs `f` on a kernel view inside a critical section.
    pub fn with_view<R, F>(&mut self, f: F) -> (r: R) where
        F: FnOnce(&mut KernelView<'_, TS, BS, BC>) -> R,
        requires
            old(self).storage().wf(),
            forall|v: &mut KernelView<'_, TS, BS, BC>| f.requires((v,)),
        ensures
            final(self).storage().wf(),
            exists|v: &mut KernelView<'_, TS, BS, BC>|
                f.ensures((v,), r) && (*v).table() == old(self).storage().table(),
    {
        let r = in_critical_section(&mut *self.storage, f, Self::run_view);
        proof {
            self.storage.table.lemma_wf();
        }
        r
    }

    /// Runs `f` on a kernel view; the caller already holds exclusive access
    /// (for instance inside an interrupt handler).
    pub fn with_view_unchecked<R, F>(&mut self, f: F) -> (r: R) where
        F: FnOnce(&mut KernelView<'_, TS, BS, BC>) -> R,
        requires
            old(self).storage().wf(),
            forall|v: &mut KernelView<'_, TS, BS, BC>| f.requires((v,)),
        ensures
            final(self).storage().wf(),
            exists|v: &mut KernelView<'_, TS, BS, BC>|
                f.ensures((v,), r) && (*v).table() == old(self).storage().table(),
    {
        let r = Self::run_view(&mut *self.storage, f);
        proof {
            self.storage.table.lemma_wf();
        }
        r
    }

    fn run_view<R, F>(storage: &mut ShadowStorageBase<TS, BS, BC, AP, PP, PT, PK, SS>, f: F) -> (r:
        R) where F: FnOnce(&mut KernelView<'_, TS, BS, BC>) -> R,
        requires
            old(storage).wf(),
            forall|v: &mut KernelView<'_, TS, BS, BC>| f.requires((v,)),
        ensures
            exists|v: &mut KernelView<'_, TS, BS, BC>|
                f.ensures((v,), r) && (*v).table() == old(storage).table(),
    {
        let mut view = KernelView::new(&mut storage.table);
        let r = f(&mut view);
        assert(exists|v: &mut KernelView<'_, TS, BS, BC>|
            f.ensures((v,), r) && (*v).table() == old(storage).table());
        r
    }
}

} // verus!
