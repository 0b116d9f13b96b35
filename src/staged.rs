//! The patch staging buffer: an append-only log of writes over a fixed arena.
use crate::error::ShadowError;
use crate::types::{StagingBuffer, WriteResult};
use vstd::prelude::*;

verus! {

broadcast use vstd::array::group_array_axioms;

#[derive(Clone, Copy)]
struct StagedWrite {
    addr: u16,
    len: usize,
    off: usize,
}

/// Fixed-capacity staging buffer for transactional writes.
///
/// `DC` is the data capacity in bytes, `EC` is the max number of entries.
pub struct PatchStagingBuffer<const DC: usize, const EC: usize> {
    data: [u8; DC],
    data_len: usize,
    entries: [StagedWrite; EC],
    entry_count: usize,
}

impl<const DC: usize, const EC: usize> PatchStagingBuffer<DC, EC> {
    /// Number of recorded entries.
    pub closed spec fn count(&self) -> nat {
        self.entry_count as nat
    }

    /// Entry `k`: its address and its bytes in the arena.
    pub closed spec fn entry_view(&self, k: int) -> (u16, Seq<u8>) {
        let e = self.entries@[k];
        (e.addr, self.data@.subrange(e.off as int, e.off + e.len))
    }

    /// Where the bytes of entry `k` lie in the arena: offset and length.
    pub closed spec fn entry_span(&self, k: int) -> (int, int) {
        (self.entries@[k].off as int, self.entries@[k].len as int)
    }

    /// The entries' bytes lie inside the used part of the arena, one after
    /// the other in insertion order, without overlap.
    pub open spec fn arena_laid_out(&self) -> bool {
        &&& forall|k: int|
            0 <= k < self.count() ==> #[trigger] self.entry_span(k).0 + self.entry_span(k).1
                <= self.data_used()
        &&& forall|j: int, k: int|
            0 <= j < k < self.count() ==> #[trigger] self.entry_span(j).0 + self.entry_span(j).1
                <= #[trigger] self.entry_span(k).0
    }

    /// A well-formed buffer uses at most `DC` bytes and `EC` entries.
    pub proof fn lemma_bounds(&self)
        requires
            self.stage_wf(),
        ensures
            self.data_used() <= DC,
            self.count() <= EC,
            self.arena_laid_out(),
            self.staged().len() == self.count(),
    {
    }

    /// An empty buffer.
    pub fn new() -> (r: Self)
        ensures
            r.stage_wf(),
            r.staged() == Seq::<(u16, Seq<u8>)>::empty(),
            r.data_used() == 0,
            r.count() == 0,
    {
        let r = PatchStagingBuffer {
            data: [0u8; DC],
            data_len: 0,
            entries: [StagedWrite { addr: 0, len: 0, off: 0 }; EC],
            entry_count: 0,
        };
        assert(r.staged() =~= Seq::<(u16, Seq<u8>)>::empty());
        r
    }

    /// Bytes of the arena in use.
    pub fn data_len(&self) -> (r: usize)
        ensures
            r == self.data_used(),
    {
        self.data_len
    }

    /// Number of recorded entries.
    pub fn entry_count(&self) -> (r: usize)
        ensures
            r == self.count(),
    {
        self.entry_count
    }

    /// The arena bytes `[off, end)`, zeroed, for writing.
    fn zeroed_window(&mut self, off: usize, end: usize) -> (r: &mut [u8])
        requires
            off <= end <= DC,
        ensures
            r@ == Seq::new((end - off) as nat, |i: int| 0u8),
            final(self).data@ == old(self).data@.subrange(0, off as int) + final(r)@ + old(
                self,
            ).data@.subrange(end as int, DC as int),
            final(self).data_len == old(self).data_len,
            final(self).entries == old(self).entries,
            final(self).entry_count == old(self).entry_count,
    {
        let mut i = off;
        while i < end
            invariant
                off <= i <= end <= DC,
                self.data_len == old(self).data_len,
                self.entries == old(self).entries,
                self.entry_count == old(self).entry_count,
                self.data@.len() == DC,
                forall|k: int|
                    0 <= k < DC ==> #[trigger] self.data@[k] == if off <= k < i {
                        0u8
                    } else {
                        old(self).data@[k]
                    },
            decreases end - i,
        {
            self.data[i] = 0u8;
            i = i + 1;
        }
        let ghost zeroed = self.data@;
        let s = vstd::array::ref_mut_array_unsizing_coercion(&mut self.data);
        let (_pre, rest) = s.split_at_mut(off);
        let (mid, _post) = rest.split_at_mut(end - off);
        assert(mid@ =~= Seq::new((end - off) as nat, |i: int| 0u8));
        assert(zeroed.subrange(0, off as int) =~= old(self).data@.subrange(0, off as int));
        assert(zeroed.subrange(end as int, DC as int) =~= old(self).data@.subrange(
            end as int,
            DC as int,
        ));
        mid
    }

}

impl<const DC: usize, const EC: usize> StagingBuffer for PatchStagingBuffer<DC, EC> {
    open spec fn staged(&self) -> Seq<(u16, Seq<u8>)> {
        Seq::new(self.count(), |k: int| self.entry_view(k))
    }

    closed spec fn data_used(&self) -> nat {
        self.data_len as nat
    }

    closed spec fn stage_wf(&self) -> bool {
        &&& self.data_len <= DC
        &&& self.entry_count <= EC
        &&& self.entries@.len() == EC
        &&& self.data@.len() == DC
        &&& forall|k: int|
            0 <= k < self.entry_count ==> #[trigger] self.entries@[k].off
                + self.entries@[k].len <= self.data_len
        &&& self.arena_laid_out()
    }

    open spec fn has_room(&self, len: nat) -> bool {
        self.data_used() + len <= DC && self.count() < EC
    }

    fn apply_overlay(&self, addr: u16, out: &mut [u8]) -> (r: Result<(), ShadowError>) {
        let n = out.len();
        let count = self.entry_count;
        let mut k: usize = 0;
        while k < count
            invariant
                self.stage_wf(),
                count == self.staged().len(),
                n == out@.len(),
                addr + n <= usize::MAX,
                0 <= k <= count,
                out@ == crate::types::overlay(old(out)@, addr as int, self.staged().subrange(0, k as int)),
            decreases count - k,
        {
            let e = self.entries[k];
            let ghost prev = out@;
            let mut j: usize = 0;
            while j < n
                invariant
                    self.stage_wf(),
                    k < count == self.staged().len(),
                    e == self.entries@[k as int],
                    n == out@.len() == prev.len(),
                    addr + n <= usize::MAX,
                    0 <= j <= n,
                    forall|q: int|
                        0 <= q < n ==> #[trigger] out@[q] == if q < j {
                            crate::types::overlay_one(prev, addr as int, self.staged()[k as int])[q]
                        } else {
                            prev[q]
                        },
                decreases n - j,
            {
                if (addr as usize) + j >= e.addr as usize && (addr as usize) + j - (
                e.addr as usize) < e.len {
                    let idx = e.off + ((addr as usize) + j - (e.addr as usize));
                    out[j] = self.data[idx];
                }
                j = j + 1;
            }
            proof {
                let staged_k = self.staged().subrange(0, k + 1);
                assert(staged_k.drop_last() =~= self.staged().subrange(0, k as int));
                assert(staged_k.last() == self.staged()[k as int]);
                assert(out@ =~= crate::types::overlay_one(prev, addr as int, self.staged()[k as int]));
            }
            k = k + 1;
        }
        assert(self.staged().subrange(0, count as int) =~= self.staged());
        Ok(())
    }

    fn any_staged(&self) -> (r: bool) {
        self.entry_count > 0
    }

    fn alloc_staged<R, F: FnOnce(&mut [u8]) -> WriteResult<R>>(
        &mut self,
        addr: u16,
        len: usize,
        f: F,
    ) -> (r: Result<WriteResult<R>, ShadowError>) {
        if self.entry_count >= EC || len > DC - self.data_len {
            return Err(ShadowError::StageFull);
        }
        let off = self.data_len;
        let end = off + len;
        let ghost old_staged = self.staged();
        let window = self.zeroed_window(off, end);
        let result = f(window);
        proof {
            assert forall|k: int| 0 <= k < self.entry_count implies #[trigger] self.entry_view(k)
                == old_staged[k] by {
                let e = self.entries@[k];
                assert(self.data@.subrange(e.off as int, e.off + e.len) =~= old(
                    self,
                ).data@.subrange(e.off as int, e.off + e.len));
            }
        }
        if result.is_dirty() {
            let ghost before = self.entries@;
            self.entries[self.entry_count] = StagedWrite { addr, len, off };
            self.entry_count = self.entry_count + 1;
            self.data_len = end;
            proof {
                let b = self.data@.subrange(off as int, end as int);
                assert forall|k: int| 0 <= k < old_staged.len() implies #[trigger] self.entry_view(k)
                    == old_staged[k] by {
                    assert(self.entries@[k] == before[k]);
                }
                assert(self.entry_view(old_staged.len() as int) == (addr, b));
                assert forall|j: int, k: int|
                    0 <= j < k < self.count() implies #[trigger] self.entry_span(j).0
                    + self.entry_span(j).1 <= #[trigger] self.entry_span(k).0 by {
                    assert(self.entries@[j] == old(self).entries@[j]);
                    assert(old(self).entries@[j].off + old(self).entries@[j].len <= old(
                        self,
                    ).data_len);
                    if k < old_staged.len() {
                        assert(self.entries@[k] == old(self).entries@[k]);
                        assert(old(self).entry_span(j).0 + old(self).entry_span(j).1 <= old(
                            self,
                        ).entry_span(k).0);
                    }
                }
                assert forall|k: int| 0 <= k < self.count() implies #[trigger] self.entry_span(k).0
                    + self.entry_span(k).1 <= self.data_used() by {
                    if k < old_staged.len() {
                        assert(self.entries@[k] == old(self).entries@[k]);
                        assert(old(self).entries@[k].off + old(self).entries@[k].len <= old(
                            self,
                        ).data_len);
                    }
                }
                assert(self.staged() =~= old_staged.push((addr, b)));
                assert(self.data@.len() == DC);
                assert(b.len() == len);
            }
            assert(self.arena_laid_out());
        } else {
            assert(self.staged() =~= old_staged);
            assert forall|j: int, k: int|
                0 <= j < k < self.count() implies #[trigger] self.entry_span(j).0
                + self.entry_span(j).1 <= #[trigger] self.entry_span(k).0 by {
                assert(old(self).entry_span(j).0 + old(self).entry_span(j).1 <= old(
                    self,
                ).entry_span(k).0);
            }
            assert forall|k: int| 0 <= k < self.count() implies #[trigger] self.entry_span(k).0
                + self.entry_span(k).1 <= self.data_used() by {
                assert(old(self).entries@[k].off + old(self).entries@[k].len <= old(
                    self,
                ).data_len);
            }
            assert(self.arena_laid_out());
        }
        Ok(result)
    }

    fn clear_staged(&mut self) -> (r: Result<(), ShadowError>) {
        self.data_len = 0;
        self.entry_count = 0;
        assert(self.staged() =~= Seq::<(u16, Seq<u8>)>::empty());
        Ok(())
    }

    fn staged_count(&self) -> (r: usize) {
        self.entry_count
    }

    fn staged_entry(&self, i: usize) -> (r: (u16, &[u8])) {
        let e = self.entries[i];
        let all: &[u8] = self.data.as_slice();
        (e.addr, &all[e.off..e.off + e.len])
    }
}

} // verus!
