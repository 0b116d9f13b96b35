//! The host view with a staging buffer in front of the table.
use crate::error::ShadowError;
use crate::host_view::HostView;
use crate::persist::{PersistEvent, PersistTrigger};
use crate::policy::{AccessPolicy, PersistPolicy};
use crate::slice::{RWSlice, ROSlice, WOSlice};
use crate::types::{StagingBuffer, WriteResult};
use vstd::prelude::*;

verus! {

/// Whether every entry is a legal range of a `ts`-byte table.
pub open spec fn entries_fit(ts: int, entries: Seq<(u16, Seq<u8>)>) -> bool {
    forall|k: int|
        0 <= k < entries.len() ==> crate::helpers::range_ok(
            ts,
            #[trigger] entries[k].0 as int,
            entries[k].1.len() as int,
        )
}

/// The blocks of `bs` bytes touched by the entries.
pub open spec fn entries_blocks(bs: int, entries: Seq<(u16, Seq<u8>)>) -> Set<int>
    decreases entries.len(),
{
    if entries.len() == 0 {
        Set::empty()
    } else {
        entries_blocks(bs, entries.drop_last()).union(
            crate::table::span_blocks(bs, entries.last().0 as int, entries.last().1.len() as int),
        )
    }
}

/// The `push_key` events the persistence policy `pp` causes for the
/// entries, entry by entry in order.
pub open spec fn entries_key_events<PK, PP: PersistPolicy<PK>>(
    pp: &PP,
    entries: Seq<(u16, Seq<u8>)>,
) -> Seq<PersistEvent<PK>>
    decreases entries.len(),
{
    if entries.len() == 0 {
        Seq::empty()
    } else {
        entries_key_events(pp, entries.drop_last()) + crate::persist::key_events(
            crate::policy::persist_keys(pp, entries.last().0, entries.last().1.len() as usize),
        )
    }
}

/// Host view with transactional staging support.
///
/// Writes can be staged, read back overlaid on the table, and committed to
/// the table at once.
pub struct HostViewStaged<'a, const TS: usize, const BS: usize, const BC: usize, AP, PP, PT, PK, SB> where
    AP: AccessPolicy,
    PP: PersistPolicy<PK>,
    PT: PersistTrigger<PK>,
    SB: StagingBuffer,
 {
    base: HostView<'a, TS, BS, BC, AP, PP, PT, PK>,
    sb: &'a mut SB,
}

impl<'a, const TS: usize, const BS: usize, const BC: usize, AP, PP, PT, PK, SB> HostViewStaged<
    'a,
    TS,
    BS,
    BC,
    AP,
    PP,
    PT,
    PK,
    SB,
> where AP: AccessPolicy, PP: PersistPolicy<PK>, PT: PersistTrigger<PK>, SB: StagingBuffer {
    /// The host view underneath.
    pub closed spec fn base(&self) -> HostView<'a, TS, BS, BC, AP, PP, PT, PK> {
        self.base
    }

    /// The staging buffer.
    pub closed spec fn stage(&self) -> SB {
        *self.sb
    }

    pub open spec fn wf(&self) -> bool {
        self.base().wf() && self.stage().stage_wf()
    }

    /// Whether the persistence policy asks for a save for some entry.
    pub open spec fn any_wants_persist(&self, entries: Seq<(u16, Seq<u8>)>) -> bool {
        exists|k: int|
            0 <= k < entries.len() && #[trigger] self.base().persist().wants_persist(
                entries[k].0,
                entries[k].1.len() as usize,
            )
    }

    /// A staged view over `base` and the staging buffer `sb`.
    pub fn new(base: HostView<'a, TS, BS, BC, AP, PP, PT, PK>, sb: &'a mut SB) -> (r: Self)
        ensures
            r.base() == base,
            r.stage() == *old(sb),
    {
        HostViewStaged { base, sb }
    }

    /// Provides read access via `ROSlice`; `Denied` if the access policy
    /// rejects the read.
    pub fn with_ro_slice<F, R>(&self, addr: u16, len: usize, f: F) -> (r: Result<R, ShadowError>) where
        F: FnOnce(ROSlice<'_>) -> R,
        requires
            self.wf(),
            forall|s: ROSlice| f.requires((s,)),
        ensures
            !self.base().access().read_allowed(addr, len) ==> r == Err::<R, ShadowError>(
                ShadowError::Denied,
            ),
            self.base().access().read_allowed(addr, len) ==> match crate::helpers::range_span_spec(
                TS as int,
                addr as int,
                len as int,
            ) {
                Err(e) => r == Err::<R, ShadowError>(e),
                Ok((o, e)) => r is Ok && exists|s: ROSlice|
                    s@ == self.base().table().bytes_view().subrange(o as int, e as int) && f.ensures(
                        (s,),
                        r->Ok_0,
                    ),
            },
    {
        self.base.with_ro_slice(addr, len, f)
    }

    /// Provides write access via `WOSlice`; `Denied` if the access policy
    /// rejects the write.
    ///
    /// Return `WriteResult::Dirty` from the callback to mark the range as
    /// modified and run the persistence policy, `WriteResult::Clean` to skip
    /// both.
    pub fn with_wo_slice<F, R>(&mut self, addr: u16, len: usize, f: F) -> (r: Result<
        WriteResult<R>,
        ShadowError,
    >) where F: FnOnce(WOSlice<'_>) -> WriteResult<R>,
        requires
            old(self).wf(),
            forall|s: WOSlice| f.requires((s,)),
        ensures
            final(self).wf(),
            final(self).stage() == old(self).stage(),
            final(self).base().access() == old(self).base().access(),
            final(self).base().persist() == old(self).base().persist(),
            !old(self).base().access().write_allowed(addr, len) ==> r == Err::<
                WriteResult<R>,
                ShadowError,
            >(ShadowError::Denied),
            old(self).base().access().write_allowed(addr, len) ==> match crate::helpers::range_span_spec(
                TS as int,
                addr as int,
                len as int,
            ) {
                Err(e) => r == Err::<WriteResult<R>, ShadowError>(e),
                Ok(_) => r is Ok,
            },
            r is Err ==> {
                &&& final(self).base().table() == old(self).base().table()
                &&& final(self).base().trigger() == old(self).base().trigger()
                &&& final(self).base().persist_requests() == old(self).base().persist_requests()
                &&& final(self).base().persist_events() == old(self).base().persist_events()
            },
            r is Ok ==> {
                &&& exists|s: WOSlice|
                    s@ == old(self).base().table().bytes_view().subrange(addr as int, addr + len)
                        && f.ensures((s,), r->Ok_0)
                &&& final(self).base().table().bytes_view().subrange(0, addr as int) == old(self).base().table().bytes_view().subrange(0, addr as int)
                &&& final(self).base().table().bytes_view().subrange(addr + len, TS as int) == old(self).base().table().bytes_view().subrange(addr + len, TS as int)
                &&& final(self).base().table().dirty_view() == if r->Ok_0 is Dirty {
                    old(self).base().table().dirty_view().union(
                        crate::table::span_blocks(BS as int, addr as int, len as int),
                    )
                } else {
                    old(self).base().table().dirty_view()
                }
                &&& final(self).base().persist_requests() == old(self).base().persist_requests() + old(self).base().persist_step(r->Ok_0 is Dirty, addr, len)
                &&& final(self).base().persist_events() == old(self).base().persist_events() + old(
                    self,
                ).base().write_events(r->Ok_0 is Dirty, addr, len)
                &&& r->Ok_0 is Clean ==> final(self).base().trigger() == old(self).base().trigger()
                &&& r->Ok_0 is Dirty ==> final(self).base().table().is_dirty_spec(
                    addr as int,
                    len as int,
                )
                &&& r->Ok_0 is Dirty ==> final(self).base().table().any_dirty_spec()
            },
    {
        self.base.with_wo_slice(addr, len, f)
    }

    /// Provides read-write access via `RWSlice`; `Denied` if the access
    /// policy rejects either the read or the write. Dirty marking and
    /// persistence follow the callback's `WriteResult` as in `with_wo_slice`.
    pub fn with_rw_slice<F, R>(&mut self, addr: u16, len: usize, f: F) -> (r: Result<
        WriteResult<R>,
        ShadowError,
    >) where F: FnOnce(RWSlice<'_>) -> WriteResult<R>,
        requires
            old(self).wf(),
            forall|s: RWSlice| f.requires((s,)),
        ensures
            final(self).wf(),
            final(self).stage() == old(self).stage(),
            final(self).base().access() == old(self).base().access(),
            final(self).base().persist() == old(self).base().persist(),
            !(old(self).base().access().read_allowed(addr, len) && old(self).base().access().write_allowed(
                addr,
                len,
            )) ==> r == Err::<WriteResult<R>, ShadowError>(ShadowError::Denied),
            (old(self).base().access().read_allowed(addr, len) && old(self).base().access().write_allowed(
                addr,
                len,
            )) ==> match crate::helpers::range_span_spec(TS as int, addr as int, len as int) {
                Err(e) => r == Err::<WriteResult<R>, ShadowError>(e),
                Ok(_) => r is Ok,
            },
            r is Err ==> {
                &&& final(self).base().table() == old(self).base().table()
                &&& final(self).base().trigger() == old(self).base().trigger()
                &&& final(self).base().persist_requests() == old(self).base().persist_requests()
                &&& final(self).base().persist_events() == old(self).base().persist_events()
            },
            r is Ok ==> {
                &&& exists|s: RWSlice|
                    s@ == old(self).base().table().bytes_view().subrange(addr as int, addr + len)
                        && f.ensures((s,), r->Ok_0)
                &&& final(self).base().table().bytes_view().subrange(0, addr as int) == old(self).base().table().bytes_view().subrange(0, addr as int)
                &&& final(self).base().table().bytes_view().subrange(addr + len, TS as int) == old(self).base().table().bytes_view().subrange(addr + len, TS as int)
                &&& final(self).base().table().dirty_view() == if r->Ok_0 is Dirty {
                    old(self).base().table().dirty_view().union(
                        crate::table::span_blocks(BS as int, addr as int, len as int),
                    )
                } else {
                    old(self).base().table().dirty_view()
                }
                &&& final(self).base().persist_requests() == old(self).base().persist_requests() + old(self).base().persist_step(r->Ok_0 is Dirty, addr, len)
                &&& final(self).base().persist_events() == old(self).base().persist_events() + old(
                    self,
                ).base().write_events(r->Ok_0 is Dirty, addr, len)
                &&& r->Ok_0 is Clean ==> final(self).base().trigger() == old(self).base().trigger()
                &&& r->Ok_0 is Dirty ==> final(self).base().table().is_dirty_spec(
                    addr as int,
                    len as int,
                )
                &&& r->Ok_0 is Dirty ==> final(self).base().table().any_dirty_spec()
            },
    {
        self.base.with_rw_slice(addr, len, f)
    }

    /// Stages a write of `len` bytes at `addr`: the callback fills a
    /// zeroed buffer and returns `Dirty` to keep it or `Clean` to drop it.
    /// `Denied` if the access policy rejects the write, `StageFull` if the
    /// buffer has no room. The table is not touched.
    pub fn alloc_staged<F, R>(&mut self, addr: u16, len: usize, f: F) -> (r: Result<
        WriteResult<R>,
        ShadowError,
    >) where F: FnOnce(RWSlice<'_>) -> WriteResult<R>,
        requires
            old(self).wf(),
            forall|s: RWSlice| f.requires((s,)),
        ensures
            final(self).wf(),
            final(self).base() == old(self).base(),
            !old(self).base().access().write_allowed(addr, len) ==> r == Err::<
                WriteResult<R>,
                ShadowError,
            >(ShadowError::Denied),
            old(self).base().access().write_allowed(addr, len) ==> (r is Err <==> !old(
                self,
            ).stage().has_room(len as nat)),
            old(self).base().access().write_allowed(addr, len) && r is Err ==> r == Err::<
                WriteResult<R>,
                ShadowError,
            >(ShadowError::StageFull),
            r is Err ==> final(self).stage() == old(self).stage(),
            r is Ok ==> exists|s: RWSlice|
                s@ == Seq::new(len as nat, |i: int| 0u8) && f.ensures((s,), r->Ok_0),
            r is Ok ==> (r->Ok_0 is Dirty) ==> final(self).stage().data_used() == old(
                self,
            ).stage().data_used() + len,
            r is Ok ==> (r->Ok_0 is Clean) ==> final(self).stage().data_used() == old(
                self,
            ).stage().data_used(),
            r is Ok ==> (r->Ok_0 is Dirty) ==> exists|b: Seq<u8>|
                b.len() == len && final(self).stage().staged() == old(self).stage().staged().push(
                    (addr, b),
                ),
            r is Ok ==> (r->Ok_0 is Clean) ==> final(self).stage().staged() == old(
                self,
            ).stage().staged(),
    {
        if !self.base.check_write(addr, len) {
            return Err(ShadowError::Denied);
        }
        let writer = |s: &mut [u8]| -> (w: WriteResult<R>)
            requires
                forall|x: RWSlice| f.requires((x,)),
            ensures
                exists|x: RWSlice| x@ == old(s)@ && f.ensures((x,), w),
            { f(RWSlice::new(s)) };
        self.sb.alloc_staged(addr, len, writer)
    }

    /// Commits all staged writes to the shadow table, oldest first.
    ///
    /// Each entry is copied into the table and marks its blocks dirty; the
    /// persistence policy sees every entry, and a single save is requested
    /// at the end if any entry asked for one. On success the staging buffer
    /// is cleared. If an entry does not fit the table, its error is
    /// returned and the staging buffer is left intact; the entries before
    /// it have been written.
    pub fn commit_staged(&mut self) -> (r: Result<(), ShadowError>)
        requires
            old(self).wf(),
        ensures
            final(self).wf(),
            final(self).base().access() == old(self).base().access(),
            final(self).base().persist() == old(self).base().persist(),
            r is Ok <==> entries_fit(TS as int, old(self).stage().staged()),
            r is Ok ==> {
                &&& final(self).base().table().bytes_view() == crate::types::apply_entries(
                    old(self).base().table().bytes_view(),
                    old(self).stage().staged(),
                )
                &&& final(self).base().table().dirty_view() == old(
                    self,
                ).base().table().dirty_view().union(
                    entries_blocks(BS as int, old(self).stage().staged()),
                )
                &&& final(self).stage().staged() == Seq::<(u16, Seq<u8>)>::empty()
                &&& final(self).base().persist_requests() == old(self).base().persist_requests() + if old(
                    self,
                ).any_wants_persist(old(self).stage().staged()) {
                    1nat
                } else {
                    0nat
                }
                &&& final(self).base().persist_events() == old(self).base().persist_events()
                    + entries_key_events(&old(self).base().persist(), old(self).stage().staged())
                    + if old(self).any_wants_persist(old(self).stage().staged()) {
                    seq![PersistEvent::Request]
                } else {
                    Seq::<PersistEvent<PK>>::empty()
                }
            },
            old(self).stage().staged().len() == 0 ==> {
                &&& r is Ok
                &&& final(self).base() == old(self).base()
                &&& final(self).stage() == old(self).stage()
            },
            r is Ok && old(self).stage().staged().len() > 0 ==> final(self).stage().data_used()
                == 0,
            r is Err ==> {
                &&& exists|k: int|
                    0 <= k < old(self).stage().staged().len() && entries_fit(
                        TS as int,
                        old(self).stage().staged().subrange(0, k),
                    ) && #[trigger] crate::helpers::range_span_spec(
                        TS as int,
                        old(self).stage().staged()[k].0 as int,
                        old(self).stage().staged()[k].1.len() as int,
                    ) == Err::<(usize, usize), ShadowError>(r->Err_0)
                        && final(self).base().persist_events() == old(self).base().persist_events()
                        + entries_key_events(
                        &old(self).base().persist(),
                        old(self).stage().staged().subrange(0, k),
                    )
                &&& final(self).stage() == old(self).stage()
                &&& final(self).base().persist_requests() == old(self).base().persist_requests()
            },
    {
        let ghost entries = self.stage().staged();
        let ghost bytes0 = self.base().table().bytes_view();
        let ghost dirty0 = self.base().table().dirty_view();
        let ghost requests0 = self.base().persist_requests();
        let ghost events0 = self.base().persist_events();
        let ghost pp = self.base().persist();
        if !self.sb.any_staged() {
            assert(entries =~= Seq::<(u16, Seq<u8>)>::empty());
            assert(dirty0.union(Set::<int>::empty()) =~= dirty0);
            return Ok(());
        }
        let n = self.sb.staged_count();
        let mut should_persist = false;
        let mut i: usize = 0;
        while i < n
            invariant
                self.wf(),
                *self.sb == old(self).stage(),
                entries == self.stage().staged(),
                n == entries.len(),
                0 <= i <= n,
                self.base().access() == old(self).base().access(),
                self.base().persist() == old(self).base().persist(),
                self.base().persist_requests() == requests0,
                requests0 == old(self).base().persist_requests(),
                events0 == old(self).base().persist_events(),
                pp == old(self).base().persist(),
                self.base().persist_events() == events0 + entries_key_events(
                    &pp,
                    entries.subrange(0, i as int),
                ),
                entries_fit(TS as int, entries.subrange(0, i as int)),
                self.base().table().bytes_view() == crate::types::apply_entries(
                    bytes0,
                    entries.subrange(0, i as int),
                ),
                self.base().table().dirty_view() == dirty0.union(
                    entries_blocks(BS as int, entries.subrange(0, i as int)),
                ),
                bytes0 == old(self).base().table().bytes_view(),
                dirty0 == old(self).base().table().dirty_view(),
                should_persist == self.any_wants_persist(entries.subrange(0, i as int)),
            decreases n - i,
        {
            let (addr, data) = self.sb.staged_entry(i);
            let ghost prefix = entries.subrange(0, i + 1);
            proof {
                assert(prefix.drop_last() =~= entries.subrange(0, i as int));
                assert(prefix.last() == entries[i as int]);
            }
            match self.base.write_no_persist(addr, data) {
                Ok(()) => {},
                Err(e) => {
                    proof {
                        assert(!crate::helpers::range_ok(
                            TS as int,
                            entries[i as int].0 as int,
                            entries[i as int].1.len() as int,
                        ));
                        assert(!entries_fit(TS as int, entries));
                        assert(crate::helpers::range_span_spec(
                            TS as int,
                            entries[i as int].0 as int,
                            entries[i as int].1.len() as int,
                        ) == Err::<(usize, usize), ShadowError>(e));
                    }
                    return Err(e);
                },
            }
            let p = self.base.push_persist_keys(addr, data.len());
            should_persist = should_persist || p;
            proof {
                assert(entries_key_events(&pp, prefix) =~= entries_key_events(
                    &pp,
                    entries.subrange(0, i as int),
                ) + crate::persist::key_events(
                    crate::policy::persist_keys(&pp, addr, data@.len() as usize),
                ));
                assert(self.base().persist_events() =~= events0 + entries_key_events(&pp, prefix));
                assert forall|k: int| 0 <= k < prefix.len() implies crate::helpers::range_ok(
                    TS as int,
                    #[trigger] prefix[k].0 as int,
                    prefix[k].1.len() as int,
                ) by {
                    if k < i {
                        assert(prefix[k] == entries.subrange(0, i as int)[k]);
                    }
                }
                let prev = entries.subrange(0, i as int);
                assert(prefix[i as int] == entries[i as int]);
                assert(p == self.base().persist().wants_persist(
                    prefix[i as int].0,
                    prefix[i as int].1.len() as usize,
                ));
                if p {
                    assert(self.any_wants_persist(prefix));
                }
                if self.any_wants_persist(prev) {
                    let k = choose|k: int|
                        0 <= k < prev.len() && #[trigger] self.base().persist().wants_persist(
                            prev[k].0,
                            prev[k].1.len() as usize,
                        );
                    assert(prefix[k] == prev[k]);
                    assert(self.any_wants_persist(prefix));
                }
                if self.any_wants_persist(prefix) {
                    let k = choose|k: int|
                        0 <= k < prefix.len() && #[trigger] self.base().persist().wants_persist(
                            prefix[k].0,
                            prefix[k].1.len() as usize,
                        );
                    if k < i {
                        assert(prefix[k] == prev[k]);
                        assert(self.any_wants_persist(prev));
                    }
                }
            }
            i = i + 1;
        }
        proof {
            assert(entries.subrange(0, n as int) =~= entries);
        }
        let _ = self.sb.clear_staged();
        if should_persist {
            self.base.request_persist();
        }
        Ok(())
    }

    /// Returns true if there are any staged writes pending.
    pub fn is_staged(&self) -> (r: bool)
        requires
            self.wf(),
        ensures
            r == (self.stage().staged().len() > 0),
    {
        self.sb.any_staged()
    }

    /// Whether some call of `f` with the address and bytes of entry `k` of
    /// `entries` succeeds.
    pub open spec fn entry_accepted<F: FnMut(u16, ROSlice<'_>) -> Result<(), ShadowError>>(
        f: F,
        entries: Seq<(u16, Seq<u8>)>,
        k: int,
    ) -> bool {
        exists|s: ROSlice, out: Result<(), ShadowError>|
            s@ == entries[k].1 && out is Ok && #[trigger] f.ensures((entries[k].0, s), out)
    }

    /// Iterates over each staged write, oldest first, providing its address
    /// and data, and stops at the first error.
    pub fn iter_staged<F>(&self, f: F) -> (r: Result<(), ShadowError>) where
        F: FnMut(u16, ROSlice<'_>) -> Result<(), ShadowError>,
        requires
            self.wf(),
            forall|a: u16, s: ROSlice| f.requires((a, s)),
        ensures
            r is Ok ==> forall|k: int|
                0 <= k < self.stage().staged().len() ==> #[trigger] Self::entry_accepted(
                    f,
                    self.stage().staged(),
                    k,
                ),
            r is Err ==> exists|k: int, s: ROSlice|
                0 <= k < self.stage().staged().len() && s@ == self.stage().staged()[k].1
                    && #[trigger] f.ensures((self.stage().staged()[k].0, s), r) && forall|j: int|
                    0 <= j < k ==> #[trigger] Self::entry_accepted(f, self.stage().staged(), j),
    {
        let ghost f0 = f;
        let mut visit = f;
        let ghost entries = self.stage().staged();
        let n = self.sb.staged_count();
        let mut i: usize = 0;
        while i < n
            invariant
                visit == f0,
                f0 == f,
                self.wf(),
                entries == self.stage().staged(),
                n == entries.len(),
                0 <= i <= n,
                forall|a: u16, s: ROSlice| visit.requires((a, s)),
                forall|k: int| 0 <= k < i ==> #[trigger] Self::entry_accepted(f0, entries, k),
            decreases n - i,
        {
            let (addr, data) = self.sb.staged_entry(i);
            let s = ROSlice::new(data);
            let res: Result<(), ShadowError> = visit(addr, s);
            if res.is_err() {
                assert(f0.ensures((entries[i as int].0, s), res));
                return res;
            }
            assert(f0.ensures((entries[i as int].0, s), res));
            assert(Self::entry_accepted(f0, entries, i as int));
            i = i + 1;
        }
        Ok(())
    }

    /// Clears all staged writes without committing them.
    pub fn clear_staged(&mut self) -> (r: Result<(), ShadowError>)
        requires
            old(self).wf(),
        ensures
            final(self).wf(),
            final(self).base() == old(self).base(),
            r is Ok,
            final(self).stage().staged() == Seq::<(u16, Seq<u8>)>::empty(),
    {
        self.sb.clear_staged()
    }

    /// Reads `out.len()` bytes at `addr` as if the staged writes had been
    /// applied, later entries winning; `Denied` if the access policy
    /// rejects the read.
    pub fn read_range_overlay(&self, addr: u16, out: &mut [u8]) -> (r: Result<(), ShadowError>)
        requires
            self.wf(),
        ensures
            !self.base().access().read_allowed(addr, old(out)@.len() as usize) ==> r == Err::<
                (),
                ShadowError,
            >(ShadowError::Denied),
            self.base().access().read_allowed(addr, old(out)@.len() as usize) ==> match crate::helpers::range_span_spec(
                TS as int,
                addr as int,
                old(out)@.len() as int,
            ) {
                Err(e) => r == Err::<(), ShadowError>(e),
                Ok((o, e)) => r is Ok && final(out)@ == crate::types::overlay(
                    self.base().table().bytes_view().subrange(o as int, e as int),
                    addr as int,
                    self.stage().staged(),
                ),
            },
            r is Err ==> final(out)@ == old(out)@,
    {
        self.base.read_range(addr, out)?;
        self.sb.apply_overlay(addr, out)
    }

    /// Writes `data` directly to the table at `addr`, bypassing staging,
    /// as `HostView::write_range` does.
    pub fn write_range(&mut self, addr: u16, data: &[u8]) -> (r: Result<(), ShadowError>)
        requires
            old(self).wf(),
        ensures
            final(self).wf(),
            final(self).stage() == old(self).stage(),
            final(self).base().access() == old(self).base().access(),
            final(self).base().persist() == old(self).base().persist(),
            !old(self).base().access().write_allowed(addr, data@.len() as usize) ==> r == Err::<
                (),
                ShadowError,
            >(ShadowError::Denied),
            old(self).base().access().write_allowed(addr, data@.len() as usize) ==> match crate::helpers::range_span_spec(
                TS as int,
                addr as int,
                data@.len() as int,
            ) {
                Err(e) => r == Err::<(), ShadowError>(e),
                Ok(_) => r is Ok,
            },
            r is Err ==> final(self).base().table() == old(self).base().table(),
            r is Ok ==> {
                &&& final(self).base().table().bytes_view() == crate::slice::splice(
                    old(self).base().table().bytes_view(),
                    addr as int,
                    data@,
                )
                &&& final(self).base().table().dirty_view() == old(
                    self,
                ).base().table().dirty_view().union(
                    crate::table::span_blocks(BS as int, addr as int, data@.len() as int),
                )
                &&& final(self).base().persist_requests() == old(self).base().persist_requests()
                    + old(self).base().persist_step(true, addr, data@.len() as usize)
                &&& final(self).base().persist_events() == old(self).base().persist_events()
                    + old(self).base().write_events(true, addr, data@.len() as usize)
            },
    {
        self.base.write_range(addr, data)
    }

    /// Reads `out.len()` bytes at `addr` from the table, ignoring staged
    /// writes.
    pub fn read_range(&self, addr: u16, out: &mut [u8]) -> (r: Result<(), ShadowError>)
        requires
            self.wf(),
        ensures
            !self.base().access().read_allowed(addr, old(out)@.len() as usize) ==> r == Err::<
                (),
                ShadowError,
            >(ShadowError::Denied),
            self.base().access().read_allowed(addr, old(out)@.len() as usize) ==> match crate::helpers::range_span_spec(
                TS as int,
                addr as int,
                old(out)@.len() as int,
            ) {
                Err(e) => r == Err::<(), ShadowError>(e),
                Ok((o, e)) => r is Ok && final(out)@ == self.base().table().bytes_view().subrange(
                    o as int,
                    e as int,
                ),
            },
            r is Err ==> final(out)@ == old(out)@,
    {
        self.base.read_range(addr, out)
    }
}

} // verus!
