//! The host (application) view of a shadow table.
use crate::error::ShadowError;
use crate::helpers::range_span;
use crate::persist::{KeySink, PersistEvent, PersistTrigger};
use crate::policy::{AccessPolicy, PersistPolicy};
use crate::slice::{RWSlice, ROSlice, WOSlice};
use crate::table::ShadowTable;
use crate::types::WriteResult;
use core::marker::PhantomData;
use vstd::prelude::*;

verus! {

/// Application/host-side view of the shadow table.
///
/// Writes through this view mark blocks dirty and may trigger persistence.
/// Reads and writes are subject to the configured access policy.
pub struct HostView<'a, const TS: usize, const BS: usize, const BC: usize, AP, PP, PT, PK> where
    AP: AccessPolicy,
    PP: PersistPolicy<PK>,
    PT: PersistTrigger<PK>,
 {
    table: &'a mut ShadowTable<TS, BS, BC>,
    access_policy: &'a AP,
    persist_policy: &'a PP,
    persist_trigger: &'a mut PT,
    requests: Ghost<nat>,
    events: Ghost<Seq<PersistEvent<PK>>>,
    _phantom: PhantomData<PK>,
}

impl<'a, const TS: usize, const BS: usize, const BC: usize, AP, PP, PT, PK> HostView<
    'a,
    TS,
    BS,
    BC,
    AP,
    PP,
    PT,
    PK,
> where AP: AccessPolicy, PP: PersistPolicy<PK>, PT: PersistTrigger<PK> {
    /// The table this view works on.
    pub closed spec fn table(&self) -> ShadowTable<TS, BS, BC> {
        *self.table
    }

    /// The access policy.
    pub closed spec fn access(&self) -> AP {
        *self.access_policy
    }

    /// The persistence policy.
    pub closed spec fn persist(&self) -> PP {
        *self.persist_policy
    }

    /// The persistence trigger.
    pub closed spec fn trigger(&self) -> PT {
        *self.persist_trigger
    }

    /// How many times this view has called `request_persist` on its trigger.
    pub closed spec fn persist_requests(&self) -> nat {
        self.requests@
    }

    /// The calls this view has made on its trigger, oldest first.
    pub closed spec fn persist_events(&self) -> Seq<PersistEvent<PK>> {
        self.events@
    }

    /// The borrow of the table this view holds.
    pub closed spec fn table_ref(&self) -> &'a mut ShadowTable<TS, BS, BC> {
        self.table
    }

    /// Once a view is no longer used, its borrowed table holds what the
    /// view last saw.
    pub proof fn lemma_done(&self)
        requires
            has_resolved(*self),
        ensures
            *final(self.table_ref()) == self.table(),
    {
    }

    pub open spec fn wf(&self) -> bool {
        self.table().wf()
    }

    /// The trigger calls of a host write to `(addr, len)`: when it is dirty,
    /// the keys the persistence policy files it under, then one
    /// `request_persist` if the policy asks for a save.
    pub open spec fn write_events(&self, dirty: bool, addr: u16, len: usize) -> Seq<
        PersistEvent<PK>,
    > {
        if dirty {
            crate::persist::key_events(crate::policy::persist_keys(&self.persist(), addr, len))
                + if self.persist().wants_persist(addr, len) {
                seq![PersistEvent::Request]
            } else {
                Seq::empty()
            }
        } else {
            Seq::empty()
        }
    }

    /// Whether the write to `(addr, len)` that just happened asks for a save.
    pub open spec fn persist_step(&self, dirty: bool, addr: u16, len: usize) -> nat {
        if dirty && self.persist().wants_persist(addr, len) {
            1
        } else {
            0
        }
    }

    /// A host view over `table` with the given policies and trigger.
    pub fn new(
        table: &'a mut ShadowTable<TS, BS, BC>,
        access_policy: &'a AP,
        persist_policy: &'a PP,
        persist_trigger: &'a mut PT,
    ) -> (r: Self)
        ensures
            r.table() == *old(table),
            *final(r.table_ref()) == *final(table),
            r.access() == *access_policy,
            r.persist() == *persist_policy,
            r.trigger() == *old(persist_trigger),
            r.persist_requests() == 0,
            r.persist_events() == Seq::<PersistEvent<PK>>::empty(),
    {
        HostView {
            table,
            access_policy,
            persist_policy,
            persist_trigger,
            requests: Ghost(0),
            events: Ghost(Seq::empty()),
            _phantom: PhantomData,
        }
    }

    /// Provides read access via `ROSlice`; `Denied` if the access policy
    /// rejects the read.
    pub fn with_ro_slice<F, R>(&self, addr: u16, len: usize, f: F) -> (r: Result<R, ShadowError>) where
        F: FnOnce(ROSlice<'_>) -> R,
        requires
            self.wf(),
            forall|s: ROSlice| f.requires((s,)),
        ensures
            !self.access().read_allowed(addr, len) ==> r == Err::<R, ShadowError>(
                ShadowError::Denied,
            ),
            self.access().read_allowed(addr, len) ==> match crate::helpers::range_span_spec(
                TS as int,
                addr as int,
                len as int,
            ) {
                Err(e) => r == Err::<R, ShadowError>(e),
                Ok((o, e)) => r is Ok && exists|s: ROSlice|
                    s@ == self.table().bytes_view().subrange(o as int, e as int) && f.ensures(
                        (s,),
                        r->Ok_0,
                    ),
            },
    {
        if !self.access_policy.can_read(addr, len) {
            return Err(ShadowError::Denied);
        }
        let data = self.table.span(addr, len)?;
        let out = f(ROSlice::new(data));
        Ok(out)
    }

    /// Marks `(addr, len)` dirty after a dirty write and runs the persist
    /// policy, requesting a save when it asks for one.
    fn after_dirty_write(&mut self, addr: u16, len: usize)
        requires
            old(self).wf(),
            crate::helpers::range_ok(TS as int, addr as int, len as int),
        ensures
            final(self).wf(),
            final(self).table().bytes_view() == old(self).table().bytes_view(),
            final(self).table().dirty_view() == old(self).table().dirty_view().union(
                crate::table::span_blocks(BS as int, addr as int, len as int),
            ),
            final(self).access() == old(self).access(),
            final(self).persist() == old(self).persist(),
            final(self).persist_requests() == old(self).persist_requests() + old(
                self,
            ).persist_step(true, addr, len),
            final(self).persist_events() == old(self).persist_events() + old(self).write_events(true, addr, len),
            final(self).table().is_dirty_spec(addr as int, len as int),
            final(self).table().any_dirty_spec(),
    {
        proof {
            ShadowTable::<TS, BS, BC>::lemma_span_has_first(addr as int, len as int);
            crate::helpers::lemma_block_span_in_table(
                TS as int,
                BS as int,
                BC as int,
                addr as int,
                len as int,
            );
        }
        let _ = self.table.mark_dirty(addr, len);
        let should_persist = self.push_persist_keys(addr, len);
        if should_persist {
            self.request_persist();
        }
        assert(self.table().dirty_view().contains(addr as int / BS as int));
    }

    /// Provides write access via `WOSlice`; `Denied` if the access policy
    /// rejects the write.
    ///
    /// Return `WriteResult::Dirty` from the callback to mark the range as
    /// modified and run the persistence policy, `WriteResult::Clean` to skip
    /// both.
    pub fn with_wo_slice<F, R>(&mut self, addr: u16, len: usize, f: F) -> (r: Result<
        WriteResult<R>,
        ShadowError,
    >) where F: FnOnce(WOSlice<'_>) -> WriteResult<R>,
        requires
            old(self).wf(),
            forall|s: WOSlice| f.requires((s,)),
        ensures
            final(self).wf(),
            final(self).access() == old(self).access(),
            final(self).persist() == old(self).persist(),
            !old(self).access().write_allowed(addr, len) ==> r == Err::<
                WriteResult<R>,
                ShadowError,
            >(ShadowError::Denied),
            old(self).access().write_allowed(addr, len) ==> match crate::helpers::range_span_spec(
                TS as int,
                addr as int,
                len as int,
            ) {
                Err(e) => r == Err::<WriteResult<R>, ShadowError>(e),
                Ok(_) => r is Ok,
            },
            r is Err ==> {
                &&& final(self).table() == old(self).table()
                &&& final(self).trigger() == old(self).trigger()
                &&& final(self).persist_requests() == old(self).persist_requests()
                &&& final(self).persist_events() == old(self).persist_events()
            },
            r is Ok ==> {
                &&& exists|s: WOSlice|
                    s@ == old(self).table().bytes_view().subrange(addr as int, addr + len)
                        && f.ensures((s,), r->Ok_0)
                &&& final(self).table().bytes_view().subrange(0, addr as int) == old(
                    self,
                ).table().bytes_view().subrange(0, addr as int)
                &&& final(self).table().bytes_view().subrange(addr + len, TS as int) == old(
                    self,
                ).table().bytes_view().subrange(addr + len, TS as int)
                &&& final(self).table().dirty_view() == if r->Ok_0 is Dirty {
                    old(self).table().dirty_view().union(
                        crate::table::span_blocks(BS as int, addr as int, len as int),
                    )
                } else {
                    old(self).table().dirty_view()
                }
                &&& final(self).persist_requests() == old(self).persist_requests() + old(
                    self,
                ).persist_step(r->Ok_0 is Dirty, addr, len)
                &&& final(self).persist_events() == old(self).persist_events() + old(
                    self,
                ).write_events(r->Ok_0 is Dirty, addr, len)
                &&& r->Ok_0 is Clean ==> final(self).trigger() == old(self).trigger()
                &&& r->Ok_0 is Dirty ==> final(self).table().is_dirty_spec(addr as int, len as int)
                &&& r->Ok_0 is Dirty ==> final(self).table().any_dirty_spec()
            },
    {
        if !self.access_policy.can_write(addr, len) {
            return Err(ShadowError::Denied);
        }
        let (off, end) = range_span::<TS>(addr, len)?;
        let window = self.table.window_mut(off, end);
        let result = f(WOSlice::new(window));
        proof {
            self.table.lemma_len();
            assert(self.table().bytes_view().subrange(0, off as int) =~= old(
                self,
            ).table().bytes_view().subrange(0, off as int));
            assert(self.table().bytes_view().subrange(end as int, TS as int) =~= old(
                self,
            ).table().bytes_view().subrange(end as int, TS as int));
        }
        if result.is_dirty() {
            self.after_dirty_write(addr, len);
        }
        Ok(result)
    }

    /// Provides read-write access via `RWSlice`; `Denied` if the access
    /// policy rejects either the read or the write. Dirty marking and
    /// persistence follow the callback's `WriteResult` as in `with_wo_slice`.
    pub fn with_rw_slice<F, R>(&mut self, addr: u16, len: usize, f: F) -> (r: Result<
        WriteResult<R>,
        ShadowError,
    >) where F: FnOnce(RWSlice<'_>) -> WriteResult<R>,
        requires
            old(self).wf(),
            forall|s: RWSlice| f.requires((s,)),
        ensures
            final(self).wf(),
            final(self).access() == old(self).access(),
            final(self).persist() == old(self).persist(),
            !(old(self).access().read_allowed(addr, len) && old(self).access().write_allowed(
                addr,
                len,
            )) ==> r == Err::<WriteResult<R>, ShadowError>(ShadowError::Denied),
            (old(self).access().read_allowed(addr, len) && old(self).access().write_allowed(
                addr,
                len,
            )) ==> match crate::helpers::range_span_spec(TS as int, addr as int, len as int) {
                Err(e) => r == Err::<WriteResult<R>, ShadowError>(e),
                Ok(_) => r is Ok,
            },
            r is Err ==> {
                &&& final(self).table() == old(self).table()
                &&& final(self).trigger() == old(self).trigger()
                &&& final(self).persist_requests() == old(self).persist_requests()
                &&& final(self).persist_events() == old(self).persist_events()
            },
            r is Ok ==> {
                &&& exists|s: RWSlice|
                    s@ == old(self).table().bytes_view().subrange(addr as int, addr + len)
                        && f.ensures((s,), r->Ok_0)
                &&& final(self).table().bytes_view().subrange(0, addr as int) == old(
                    self,
                ).table().bytes_view().subrange(0, addr as int)
                &&& final(self).table().bytes_view().subrange(addr + len, TS as int) == old(
                    self,
                ).table().bytes_view().subrange(addr + len, TS as int)
                &&& final(self).table().dirty_view() == if r->Ok_0 is Dirty {
                    old(self).table().dirty_view().union(
                        crate::table::span_blocks(BS as int, addr as int, len as int),
                    )
                } else {
                    old(self).table().dirty_view()
                }
                &&& final(self).persist_requests() == old(self).persist_requests() + old(
                    self,
                ).persist_step(r->Ok_0 is Dirty, addr, len)
                &&& final(self).persist_events() == old(self).persist_events() + old(
                    self,
                ).write_events(r->Ok_0 is Dirty, addr, len)
                &&& r->Ok_0 is Clean ==> final(self).trigger() == old(self).trigger()
                &&& r->Ok_0 is Dirty ==> final(self).table().is_dirty_spec(addr as int, len as int)
                &&& r->Ok_0 is Dirty ==> final(self).table().any_dirty_spec()
            },
    {
        if !self.access_policy.can_read(addr, len) || !self.access_policy.can_write(addr, len) {
            return Err(ShadowError::Denied);
        }
        let (off, end) = range_span::<TS>(addr, len)?;
        let window = self.table.window_mut(off, end);
        let result = f(RWSlice::new(window));
        proof {
            self.table.lemma_len();
            assert(self.table().bytes_view().subrange(0, off as int) =~= old(
                self,
            ).table().bytes_view().subrange(0, off as int));
            assert(self.table().bytes_view().subrange(end as int, TS as int) =~= old(
                self,
            ).table().bytes_view().subrange(end as int, TS as int));
        }
        if result.is_dirty() {
            self.after_dirty_write(addr, len);
        }
        Ok(result)
    }

    /// Copies `data` into the table at `addr` and marks the range dirty,
    /// without running the persistence policy.
    pub(crate) fn write_no_persist(&mut self, addr: u16, data: &[u8]) -> (r: Result<
        (),
        ShadowError,
    >)
        requires
            old(self).wf(),
        ensures
            final(self).wf(),
            final(self).access() == old(self).access(),
            final(self).persist() == old(self).persist(),
            final(self).trigger() == old(self).trigger(),
            final(self).persist_requests() == old(self).persist_requests(),
            final(self).persist_events() == old(self).persist_events(),
            match crate::helpers::range_span_spec(TS as int, addr as int, data@.len() as int) {
                Err(e) => r == Err::<(), ShadowError>(e) && final(self).table() == old(self).table(),
                Ok(_) => {
                    &&& r is Ok
                    &&& final(self).table().bytes_view() == crate::slice::splice(
                        old(self).table().bytes_view(),
                        addr as int,
                        data@,
                    )
                    &&& final(self).table().dirty_view() == old(self).table().dirty_view().union(
                        crate::table::span_blocks(BS as int, addr as int, data@.len() as int),
                    )
                },
            },
    {
        let len = data.len();
        let (off, end) = range_span::<TS>(addr, len)?;
        let window = self.table.window_mut(off, end);
        crate::slice::copy_in(window, 0, data);
        proof {
            self.table.lemma_len();
            assert(self.table().bytes_view() =~= crate::slice::splice(
                old(self).table().bytes_view(),
                addr as int,
                data@,
            ));
            crate::helpers::lemma_block_span_in_table(
                TS as int,
                BS as int,
                BC as int,
                addr as int,
                len as int,
            );
        }
        let _ = self.table.mark_dirty(addr, len);
        Ok(())
    }

    /// Host write of `data` at `addr`: copies the bytes, marks the range
    /// dirty and runs the persistence policy; `Denied` if the access policy
    /// rejects the write.
    pub fn write_range(&mut self, addr: u16, data: &[u8]) -> (r: Result<(), ShadowError>)
        requires
            old(self).wf(),
        ensures
            final(self).wf(),
            final(self).access() == old(self).access(),
            final(self).persist() == old(self).persist(),
            !old(self).access().write_allowed(addr, data@.len() as usize) ==> r == Err::<
                (),
                ShadowError,
            >(ShadowError::Denied),
            old(self).access().write_allowed(addr, data@.len() as usize) ==> match crate::helpers::range_span_spec(
                TS as int,
                addr as int,
                data@.len() as int,
            ) {
                Err(e) => r == Err::<(), ShadowError>(e),
                Ok(_) => r is Ok,
            },
            r is Err ==> {
                &&& final(self).table() == old(self).table()
                &&& final(self).trigger() == old(self).trigger()
                &&& final(self).persist_requests() == old(self).persist_requests()
                &&& final(self).persist_events() == old(self).persist_events()
            },
            r is Ok ==> {
                &&& final(self).table().bytes_view() == crate::slice::splice(
                    old(self).table().bytes_view(),
                    addr as int,
                    data@,
                )
                &&& final(self).table().dirty_view() == old(self).table().dirty_view().union(
                    crate::table::span_blocks(BS as int, addr as int, data@.len() as int),
                )
                &&& final(self).persist_requests() == old(self).persist_requests() + old(
                    self,
                ).persist_step(true, addr, data@.len() as usize)
                &&& final(self).persist_events() == old(self).persist_events() + old(
                    self,
                ).write_events(true, addr, data@.len() as usize)
            },
    {
        let len = data.len();
        if !self.access_policy.can_write(addr, len) {
            return Err(ShadowError::Denied);
        }
        self.write_no_persist(addr, data)?;
        let should_persist = self.push_persist_keys(addr, len);
        if should_persist {
            self.request_persist();
        }
        Ok(())
    }

    /// Host read of `out.len()` bytes at `addr` into `out`; `Denied` if the
    /// access policy rejects the read.
    pub fn read_range(&self, addr: u16, out: &mut [u8]) -> (r: Result<(), ShadowError>)
        requires
            self.wf(),
        ensures
            !self.access().read_allowed(addr, old(out)@.len() as usize) ==> r == Err::<
                (),
                ShadowError,
            >(ShadowError::Denied),
            self.access().read_allowed(addr, old(out)@.len() as usize) ==> match crate::helpers::range_span_spec(
                TS as int,
                addr as int,
                old(out)@.len() as int,
            ) {
                Err(e) => r == Err::<(), ShadowError>(e),
                Ok((o, e)) => r is Ok && final(out)@ == self.table().bytes_view().subrange(
                    o as int,
                    e as int,
                ),
            },
            r is Err ==> final(out)@ == old(out)@,
    {
        let len = out.len();
        if !self.access_policy.can_read(addr, len) {
            return Err(ShadowError::Denied);
        }
        let data = self.table.span(addr, len)?;
        ROSlice::new(data).copy_to_slice(out);
        Ok(())
    }

    /// Asks the access policy whether `(addr, len)` may be read.
    pub(crate) fn check_read(&self, addr: u16, len: usize) -> (r: bool)
        ensures
            r == self.access().read_allowed(addr, len),
    {
        self.access_policy.can_read(addr, len)
    }

    /// Asks the access policy whether `(addr, len)` may be written.
    pub(crate) fn check_write(&self, addr: u16, len: usize) -> (r: bool)
        ensures
            r == self.access().write_allowed(addr, len),
    {
        self.access_policy.can_write(addr, len)
    }

    /// Runs the persistence policy for `(addr, len)`, feeding its keys to
    /// the trigger, and returns whether it asks for a save.
    pub(crate) fn push_persist_keys(&mut self, addr: u16, len: usize) -> (r: bool)
        ensures
            r == old(self).persist().wants_persist(addr, len),
            final(self).table() == old(self).table(),
            final(self).access() == old(self).access(),
            final(self).persist() == old(self).persist(),
            final(self).persist_requests() == old(self).persist_requests(),
            final(self).persist_events() == old(self).persist_events()
                + crate::persist::key_events(
                crate::policy::persist_keys(&old(self).persist(), addr, len),
            ),
    {
        let mut sink = KeySink::new(&mut *self.persist_trigger);
        let r = self.persist_policy.push_persist_keys_for_range(addr, len, &mut sink);
        let ghost keys = sink.pushed();
        assert(keys =~= crate::policy::persist_keys(self.persist_policy, addr, len));
        self.events = Ghost(self.events@ + crate::persist::key_events(keys));
        r
    }

    /// Asks the trigger to persist the queued keys.
    pub(crate) fn request_persist(&mut self)
        ensures
            final(self).table() == old(self).table(),
            final(self).access() == old(self).access(),
            final(self).persist() == old(self).persist(),
            final(self).persist_requests() == old(self).persist_requests() + 1,
            final(self).persist_events() == old(self).persist_events().push(
                PersistEvent::Request,
            ),
    {
        self.persist_trigger.request_persist();
        self.requests = Ghost(self.requests@ + 1);
        self.events = Ghost(self.events@.push(PersistEvent::Request));
    }

    /// Returns true if any block overlapping the given range is dirty.
    pub fn is_dirty(&self, addr: u16, len: usize) -> (r: Result<bool, ShadowError>)
        requires
            self.wf(),
        ensures
            match crate::helpers::block_span_spec(
                TS as int,
                BS as int,
                BC as int,
                addr as int,
                len as int,
            ) {
                Err(e) => r == Err::<bool, ShadowError>(e),
                Ok(_) => r == Ok::<bool, ShadowError>(
                    self.table().is_dirty_spec(addr as int, len as int),
                ),
            },
    {
        self.table.is_dirty(addr, len)
    }

    /// Returns true if any block in the table is dirty.
    pub fn any_dirty(&self) -> (r: bool)
        requires
            self.wf(),
        ensures
            r == self.table().any_dirty_spec(),
    {
        self.table.any_dirty()
    }
}

} // verus!
