//! The write-result tag and the staging buffer contract.
use crate::error::ShadowError;
use vstd::prelude::*;

verus! {

/// `bytes` after writing each entry in order, later entries over earlier
/// ones.
pub open spec fn apply_entries(bytes: Seq<u8>, entries: Seq<(u16, Seq<u8>)>) -> Seq<u8>
    decreases entries.len(),
{
    if entries.len() == 0 {
        bytes
    } else {
        crate::slice::splice(
            apply_entries(bytes, entries.drop_last()),
            entries.last().0 as int,
            entries.last().1,
        )
    }
}

/// `out`, read from address `addr`, with the part of entry `e` that overlaps
/// it copied over it.
pub open spec fn overlay_one(out: Seq<u8>, addr: int, e: (u16, Seq<u8>)) -> Seq<u8> {
    Seq::new(
        out.len(),
        |j: int|
            if e.0 as int <= addr + j < e.0 as int + e.1.len() {
                e.1[addr + j - e.0 as int]
            } else {
                out[j]
            },
    )
}

/// `out`, read from address `addr`, with every entry overlaid in order.
pub open spec fn overlay(out: Seq<u8>, addr: int, entries: Seq<(u16, Seq<u8>)>) -> Seq<u8>
    decreases entries.len(),
{
    if entries.len() == 0 {
        out
    } else {
        overlay_one(overlay(out, addr, entries.drop_last()), addr, entries.last())
    }
}

/// Result of a write callback: whether the written range should be marked
/// dirty, and the callback's own value.
#[derive(Debug, Clone, Copy, PartialEq, Eq)]
pub enum WriteResult<R> {
    /// Mark the written range as dirty and return the result.
    Dirty(R),
    /// Do not mark dirty; return the result.
    Clean(R),
}

impl<R> WriteResult<R> {
    /// The value carried by either variant.
    pub open spec fn value(self) -> R {
        match self {
            WriteResult::Dirty(r) => r,
            WriteResult::Clean(r) => r,
        }
    }

    /// Returns true if this result indicates dirty.
    pub fn is_dirty(&self) -> (r: bool)
        ensures
            r == (*self is Dirty),
    {
        match self {
            WriteResult::Dirty(_) => true,
            WriteResult::Clean(_) => false,
        }
    }

    /// Unwraps the inner value regardless of dirty state.
    pub fn into_inner(self) -> (r: R)
        ensures
            r == self.value(),
    {
        match self {
            WriteResult::Dirty(r) => r,
            WriteResult::Clean(r) => r,
        }
    }
}

/// Buffer for staging writes before committing them to the shadow table.
///
/// A buffer holds an ordered log of `(address, bytes)` entries, oldest first.
pub trait StagingBuffer: Sized {
    /// The staged entries, oldest first.
    spec fn staged(&self) -> Seq<(u16, Seq<u8>)>;

    /// The buffer's internal invariant.
    spec fn stage_wf(&self) -> bool;

    /// Bytes of staging space taken by the entries.
    spec fn data_used(&self) -> nat;

    /// Whether one more entry of `len` bytes fits.
    spec fn has_room(&self, len: nat) -> bool;

    /// Returns true if any writes are staged.
    fn any_staged(&self) -> (r: bool)
        requires
            self.stage_wf(),
        ensures
            r == (self.staged().len() > 0),
    ;

    /// Reserves a zero-filled region of `len` bytes for a write to `addr`
    /// and hands it to `f`. If `f` returns `Dirty`, the region becomes a new
    /// entry; if `Clean`, the space is reclaimed and nothing is recorded.
    /// Fails with `StageFull`, changing nothing, when the entry does not fit.
    fn alloc_staged<R, F: FnOnce(&mut [u8]) -> WriteResult<R>>(
        &mut self,
        addr: u16,
        len: usize,
        f: F,
    ) -> (r: Result<WriteResult<R>, ShadowError>)
        requires
            old(self).stage_wf(),
            forall|s: &mut [u8]| f.requires((s,)),
        ensures
            final(self).stage_wf(),
            r is Err <==> !old(self).has_room(len as nat),
            r is Err ==> r == Err::<WriteResult<R>, ShadowError>(ShadowError::StageFull),
            r is Err ==> *final(self) == *old(self),
            r is Ok ==> exists|s: &mut [u8]|
                s@ == Seq::new(len as nat, |i: int| 0u8) && f.ensures((s,), r->Ok_0),
            r is Ok ==> (r->Ok_0 is Dirty) ==> exists|b: Seq<u8>|
                b.len() == len && final(self).staged() == old(self).staged().push((addr, b)),
            r is Ok ==> (r->Ok_0 is Dirty) ==> final(self).data_used() == old(self).data_used()
                + len,
            r is Ok ==> (r->Ok_0 is Clean) ==> final(self).staged() == old(self).staged(),
            r is Ok ==> (r->Ok_0 is Clean) ==> final(self).data_used() == old(self).data_used(),
    ;

    /// Clears all staged writes.
    fn clear_staged(&mut self) -> (r: Result<(), ShadowError>)
        requires
            old(self).stage_wf(),
        ensures
            final(self).stage_wf(),
            r is Ok,
            final(self).staged() == Seq::<(u16, Seq<u8>)>::empty(),
            final(self).data_used() == 0,
    ;

    /// Overlays the staged entries, oldest first, on `out`, which holds the
    /// bytes read from `addr`.
    fn apply_overlay(&self, addr: u16, out: &mut [u8]) -> (r: Result<(), ShadowError>)
        requires
            self.stage_wf(),
            addr + old(out)@.len() <= usize::MAX,
        ensures
            r is Ok,
            final(out)@ == overlay(old(out)@, addr as int, self.staged()),
    ;

    /// The number of staged entries.
    fn staged_count(&self) -> (r: usize)
        requires
            self.stage_wf(),
        ensures
            r == self.staged().len(),
    ;

    /// The address and bytes of entry `i`.
    fn staged_entry(&self, i: usize) -> (r: (u16, &[u8]))
        requires
            self.stage_wf(),
            i < self.staged().len(),
        ensures
            r.0 == self.staged()[i as int].0,
            r.1@ == self.staged()[i as int].1,
    ;

    /// Iterates over all staged writes in order, stopping at the first
    /// error, which is returned.
    fn iter_staged<F>(&self, f: F) -> (r: Result<(), ShadowError>) where
        F: FnMut(u16, &[u8]) -> Result<(), ShadowError>,
        requires
            self.stage_wf(),
            forall|a: u16, s: &[u8]| f.requires((a, s)),
        ensures
            r is Ok ==> forall|k: int|
                0 <= k < self.staged().len() ==> #[trigger] staged_accepted(f, self.staged(), k),
            r is Err ==> exists|k: int, s: &[u8]|
                0 <= k < self.staged().len() && s@ == self.staged()[k].1 && #[trigger] f.ensures(
                    (self.staged()[k].0, s),
                    r,
                ) && forall|j: int|
                    0 <= j < k ==> #[trigger] staged_accepted(f, self.staged(), j),
    {
        let ghost f0 = f;
        let mut visit = f;
        let n = self.staged_count();
        let mut i: usize = 0;
        while i < n
            invariant
                visit == f0,
                f0 == f,
                self.stage_wf(),
                n == self.staged().len(),
                0 <= i <= n,
                forall|a: u16, s: &[u8]| visit.requires((a, s)),
                forall|k: int| 0 <= k < i ==> #[trigger] staged_accepted(f0, self.staged(), k),
            decreases n - i,
        {
            let (addr, data) = self.staged_entry(i);
            let res: Result<(), ShadowError> = visit(addr, data);
            assert(f0.ensures((self.staged()[i as int].0, data), res));
            if res.is_err() {
                return res;
            }
            assert(staged_accepted(f0, self.staged(), i as int));
            i = i + 1;
        }
        Ok(())
    }
}

/// Whether some call of `f` with the address and bytes of entry `k` of
/// `entries` succeeds.
pub open spec fn staged_accepted<F: FnMut(u16, &[u8]) -> Result<(), ShadowError>>(
    f: F,
    entries: Seq<(u16, Seq<u8>)>,
    k: int,
) -> bool {
    exists|s: &[u8], out: Result<(), ShadowError>|
        s@ == entries[k].1 && out is Ok && #[trigger] f.ensures((entries[k].0, s), out)
}

} // verus!
