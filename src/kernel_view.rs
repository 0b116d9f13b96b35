//! The kernel (hardware driver) view of a shadow table.
use crate::error::ShadowError;
use crate::helpers::range_span;
use crate::slice::{RWSlice, ROSlice};
use crate::table::ShadowTable;
use vstd::prelude::*;

verus! {

/// Hardware/kernel-side view of the shadow table.
///
/// Provides read/write access without marking blocks dirty, plus methods to
/// query and clear dirty state.
pub struct KernelView<'a, const TS: usize, const BS: usize, const BC: usize> {
    table: &'a mut ShadowTable<TS, BS, BC>,
}

impl<'a, const TS: usize, const BS: usize, const BC: usize> KernelView<'a, TS, BS, BC> {
    /// The table this view works on.
    pub closed spec fn table(&self) -> ShadowTable<TS, BS, BC> {
        *self.table
    }

    /// The borrow of the table this view holds.
    pub closed spec fn table_ref(&self) -> &'a mut ShadowTable<TS, BS, BC> {
        self.table
    }

    pub open spec fn wf(&self) -> bool {
        self.table().wf()
    }

    /// Once a view is no longer used, its borrowed table holds what the
    /// view last saw.
    pub proof fn lemma_done(&self)
        requires
            has_resolved(*self),
        ensures
            *final(self.table_ref()) == self.table(),
    {
    }

    /// A kernel view of `table`.
    pub fn new(table: &'a mut ShadowTable<TS, BS, BC>) -> (r: Self)
        ensures
            r.table() == *old(table),
            *final(r.table_ref()) == *final(table),
    {
        KernelView { table }
    }

    /// Provides read access via `ROSlice`. Never changes dirty state.
    pub fn with_ro_slice<F, R>(&self, addr: u16, len: usize, f: F) -> (r: Result<R, ShadowError>) where
        F: FnOnce(ROSlice<'_>) -> R,
        requires
            self.wf(),
            forall|s: ROSlice| f.requires((s,)),
        ensures
            match crate::helpers::range_span_spec(TS as int, addr as int, len as int) {
                Err(e) => r == Err::<R, ShadowError>(e),
                Ok((o, e)) => r is Ok && exists|s: ROSlice|
                    s@ == self.table().bytes_view().subrange(o as int, e as int) && f.ensures(
                        (s,),
                        r->Ok_0,
                    ),
            },
    {
        let data = self.table.span(addr, len)?;
        let s = ROSlice::new(data);
        let out = f(s);
        Ok(out)
    }

    /// Provides read-write access via `RWSlice`. Never marks dirty: kernel
    /// writes mirror the hardware and must not be written back to it.
    pub fn with_rw_slice<F, R>(&mut self, addr: u16, len: usize, f: F) -> (r: Result<
        R,
        ShadowError,
    >) where F: FnOnce(RWSlice<'_>) -> R,
        requires
            old(self).wf(),
            forall|s: RWSlice| f.requires((s,)),
        ensures
            final(self).wf(),
            final(self).table().dirty_view() == old(self).table().dirty_view(),
            match crate::helpers::range_span_spec(TS as int, addr as int, len as int) {
                Err(e) => r == Err::<R, ShadowError>(e) && final(self).table() == old(self).table(),
                Ok((o, e)) => {
                    &&& r is Ok
                    &&& exists|s: RWSlice|
                        s@ == old(self).table().bytes_view().subrange(o as int, e as int)
                            && f.ensures((s,), r->Ok_0)
                    &&& final(self).table().bytes_view().subrange(0, o as int) == old(
                        self,
                    ).table().bytes_view().subrange(0, o as int)
                    &&& final(self).table().bytes_view().subrange(e as int, TS as int) == old(
                        self,
                    ).table().bytes_view().subrange(e as int, TS as int)
                },
            },
    {
        let (off, end) = range_span::<TS>(addr, len)?;
        let window = self.table.window_mut(off, end);
        let out = f(RWSlice::new(window));
        proof {
            self.table.lemma_len();
            assert(self.table().bytes_view().subrange(0, off as int) =~= old(
                self,
            ).table().bytes_view().subrange(0, off as int));
            assert(self.table().bytes_view().subrange(end as int, TS as int) =~= old(
                self,
            ).table().bytes_view().subrange(end as int, TS as int));
        }
        Ok(out)
    }

    /// Reads `out.len()` bytes at `addr` into `out`.
    pub fn read_range(&self, addr: u16, out: &mut [u8]) -> (r: Result<(), ShadowError>)
        requires
            self.wf(),
        ensures
            match crate::helpers::range_span_spec(TS as int, addr as int, old(out)@.len() as int) {
                Err(e) => r == Err::<(), ShadowError>(e) && final(out)@ == old(out)@,
                Ok((o, e)) => r is Ok && final(out)@ == self.table().bytes_view().subrange(
                    o as int,
                    e as int,
                ),
            },
    {
        let data = self.table.span(addr, out.len())?;
        ROSlice::new(data).copy_to_slice(out);
        Ok(())
    }

    /// Copies `data` into the table at `addr` without marking dirty.
    pub fn write_range(&mut self, addr: u16, data: &[u8]) -> (r: Result<(), ShadowError>)
        requires
            old(self).wf(),
        ensures
            final(self).wf(),
            final(self).table().dirty_view() == old(self).table().dirty_view(),
            match crate::helpers::range_span_spec(TS as int, addr as int, data@.len() as int) {
                Err(e) => r == Err::<(), ShadowError>(e) && final(self).table() == old(
                    self,
                ).table(),
                Ok(_) => r is Ok && final(self).table().bytes_view() == crate::slice::splice(
                    old(self).table().bytes_view(),
                    addr as int,
                    data@,
                ),
            },
    {
        let (off, end) = range_span::<TS>(addr, data.len())?;
        let window = self.table.window_mut(off, end);
        crate::slice::copy_in(window, 0, data);
        proof {
            self.table.lemma_len();
            assert(self.table().bytes_view() =~= crate::slice::splice(
                old(self).table().bytes_view(),
                addr as int,
                data@,
            ));
        }
        Ok(())
    }

    /// Iterates over each dirty block in ascending order, providing its
    /// address and data, and stops at the first error.
    pub fn iter_dirty<F>(&self, f: F) -> (r: Result<(), ShadowError>) where
        F: FnMut(u16, ROSlice<'_>) -> Result<(), ShadowError>,
        requires
            self.wf(),
            forall|a: u16, s: ROSlice| f.requires((a, s)),
        ensures
            r is Ok ==> forall|i: int| #[trigger]
                self.table().dirty_view().contains(i) ==> self.table().block_accepted(f, i),
            r is Err ==> exists|i: int| #[trigger]
                self.table().dirty_view().contains(i) && self.table().block_result(f, i, r)
                    && forall|j: int| #[trigger]
                    self.table().dirty_view().contains(j) && j < i ==> self.table().block_accepted(
                        f,
                        j,
                    ),
    {
        self.table.iter_dirty(f)
    }

    /// Marks all blocks overlapping the given range as clean.
    pub fn mark_clean(&mut self, addr: u16, len: usize) -> (r: Result<(), ShadowError>)
        requires
            old(self).wf(),
        ensures
            final(self).wf(),
            final(self).table().bytes_view() == old(self).table().bytes_view(),
            match crate::helpers::block_span_spec(
                TS as int,
                BS as int,
                BC as int,
                addr as int,
                len as int,
            ) {
                Err(e) => r == Err::<(), ShadowError>(e) && final(self).table().dirty_view() == old(
                    self,
                ).table().dirty_view(),
                Ok(_) => r is Ok && final(self).table().dirty_view() == old(
                    self,
                ).table().dirty_view().difference(
                    crate::table::span_blocks(BS as int, addr as int, len as int),
                ),
            },
    {
        self.table.clear_dirty(addr, len)
    }

    /// Clears the dirty bits of every block overlapping the given range,
    /// whole blocks even for a partial range.
    pub fn clear_dirty(&mut self, addr: u16, len: usize) -> (r: Result<(), ShadowError>)
        requires
            old(self).wf(),
        ensures
            final(self).wf(),
            final(self).table().bytes_view() == old(self).table().bytes_view(),
            match crate::helpers::block_span_spec(
                TS as int,
                BS as int,
                BC as int,
                addr as int,
                len as int,
            ) {
                Err(e) => r == Err::<(), ShadowError>(e) && final(self).table().dirty_view() == old(
                    self,
                ).table().dirty_view(),
                Ok(_) => r is Ok && final(self).table().dirty_view() == old(
                    self,
                ).table().dirty_view().difference(
                    crate::table::span_blocks(BS as int, addr as int, len as int),
                ),
            },
    {
        self.table.clear_dirty(addr, len)
    }

    /// Returns true if any block overlapping the given range is dirty.
    pub fn is_dirty(&self, addr: u16, len: usize) -> (r: Result<bool, ShadowError>)
        requires
            self.wf(),
        ensures
            match crate::helpers::block_span_spec(
                TS as int,
                BS as int,
                BC as int,
                addr as int,
                len as int,
            ) {
                Err(e) => r == Err::<bool, ShadowError>(e),
                Ok(_) => r == Ok::<bool, ShadowError>(
                    self.table().is_dirty_spec(addr as int, len as int),
                ),
            },
    {
        self.table.is_dirty(addr, len)
    }

    /// Returns true if any block in the table is dirty.
    pub fn any_dirty(&self) -> (r: bool)
        requires
            self.wf(),
        ensures
            r == self.table().any_dirty_spec(),
    {
        self.table.any_dirty()
    }

    /// Clears all dirty flags in the table.
    pub fn clear_all_dirty(&mut self)
        requires
            old(self).wf(),
        ensures
            final(self).wf(),
            final(self).table().bytes_view() == old(self).table().bytes_view(),
            final(self).table().dirty_view() == Set::<int>::empty(),
    {
        self.table.clear_all_dirty()
    }
}

} // verus!
