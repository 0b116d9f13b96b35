//! The shadow table: a byte buffer plus one dirty bit per block.
use crate::bitmap::{
    bitmap_first_index, bitmap_get, bitmap_new, bitmap_next_index, bitmap_set,
    DirtyBitmap,
};
use crate::error::ShadowError;
use crate::helpers::{block_span, range_span};
use crate::slice::ROSlice;
use vstd::prelude::*;

verus! {

broadcast use vstd::array::group_array_axioms, vstd::function::group_function_axioms;

/// Block indices touched by the range `(addr, len)` with blocks of `bs` bytes.
pub open spec fn span_blocks(bs: int, addr: int, len: int) -> Set<int> {
    Set::new(|i: int| addr / bs <= i <= (addr + len - 1) / bs)
}

/// Shadow table with block-granular dirty tracking.
///
/// `TS` is the size in bytes, `BS` the block size and `BC` the block count.
pub struct ShadowTable<const TS: usize, const BS: usize, const BC: usize> {
    bytes: [u8; TS],
    dirty: DirtyBitmap,
}

impl<const TS: usize, const BS: usize, const BC: usize> ShadowTable<TS, BS, BC> {
    /// The table's bytes.
    pub closed spec fn bytes_view(&self) -> Seq<u8> {
        self.bytes@
    }

    /// The indices of the dirty blocks. Bits of the bitmap at or above
    /// `BC` belong to no block and are not part of it.
    pub closed spec fn dirty_view(&self) -> Set<int> {
        Set::new(|i: int| 0 <= i < BC && crate::bitmap::dirty_bits(self.dirty).contains(i))
    }

    pub open spec fn wf(&self) -> bool {
        &&& crate::helpers::geometry_ok(TS as int, BS as int, BC as int)
        &&& self.bytes_view().len() == TS
        &&& forall|i: int| #[trigger] self.dirty_view().contains(i) ==> 0 <= i < BC
    }

    /// Whether any block touched by `(addr, len)` is dirty.
    pub open spec fn is_dirty_spec(&self, addr: int, len: int) -> bool {
        exists|i: int| #[trigger]
            span_blocks(BS as int, addr, len).contains(i) && self.dirty_view().contains(i)
    }

    /// Whether any block is dirty.
    pub open spec fn any_dirty_spec(&self) -> bool {
        exists|i: int| #[trigger] self.dirty_view().contains(i)
    }

    /// The bytes of block `i`.
    pub open spec fn block_bytes(&self, i: int) -> Seq<u8> {
        self.bytes_view().subrange(i * BS, (i + 1) * BS)
    }

    /// `next` is what `clear_dirty(addr, len)` leaves of this table: the
    /// same bytes, and the blocks of the range cleared when the range is
    /// legal.
    pub open spec fn clear_effect(&self, next: Self, addr: u16, len: usize) -> bool {
        &&& next.bytes_view() == self.bytes_view()
        &&& next.dirty_view() == if crate::helpers::block_span_spec(
            TS as int,
            BS as int,
            BC as int,
            addr as int,
            len as int,
        ) is Ok {
            self.dirty_view().difference(span_blocks(BS as int, addr as int, len as int))
        } else {
            self.dirty_view()
        }
    }

    /// A legal range touches at least its first block.
    pub proof fn lemma_span_has_first(addr: int, len: int)
        requires
            crate::helpers::geometry_ok(TS as int, BS as int, BC as int),
            0 <= addr,
            0 <= len,
            crate::helpers::range_ok(TS as int, addr, len),
        ensures
            span_blocks(BS as int, addr, len).contains(addr / BS as int),
    {
        crate::helpers::lemma_block_span_in_table(TS as int, BS as int, BC as int, addr, len);
    }

    /// Every table of a valid geometry is well formed.
    pub proof fn lemma_wf(&self)
        requires
            crate::helpers::geometry_ok(TS as int, BS as int, BC as int),
        ensures
            self.wf(),
    {
    }

    /// The byte array always holds `TS` bytes.
    pub proof fn lemma_len(&self)
        ensures
            self.bytes_view().len() == TS,
    {
    }

    /// A zero-filled table with no dirty block.
    pub fn new() -> (r: Self)
        requires
            crate::helpers::geometry_ok(TS as int, BS as int, BC as int),
        ensures
            r.wf(),
            r.bytes_view() == Seq::new(TS as nat, |i: int| 0u8),
            r.dirty_view() == Set::<int>::empty(),
    {
        let t = ShadowTable { bytes: [0u8; TS], dirty: bitmap_new() };
        proof {
            assert(t.bytes@ =~= Seq::new(TS as nat, |i: int| 0u8));
            assert(t.dirty_view() =~= Set::<int>::empty());
        }
        t
    }

    /// The bytes of the range `(addr, len)`.
    pub fn span(&self, addr: u16, len: usize) -> (r: Result<&[u8], ShadowError>)
        requires
            self.wf(),
        ensures
            match crate::helpers::range_span_spec(TS as int, addr as int, len as int) {
                Err(e) => r == Err::<&[u8], ShadowError>(e),
                Ok((o, e)) => r is Ok && r->Ok_0@ == self.bytes_view().subrange(o as int, e as int),
            },
    {
        let (off, end) = range_span::<TS>(addr, len)?;
        let all: &[u8] = self.bytes.as_slice();
        Ok(&all[off..end])
    }

    /// The bytes `[off, end)`, for writing. Dirty bits are not touched.
    pub fn window_mut(&mut self, off: usize, end: usize) -> (r: &mut [u8])
        requires
            old(self).wf(),
            off <= end <= TS,
        ensures
            r@ == old(self).bytes_view().subrange(off as int, end as int),
            final(self).bytes_view() == old(self).bytes_view().subrange(0, off as int) + final(r)@
                + old(self).bytes_view().subrange(end as int, TS as int),
            final(self).dirty_view() == old(self).dirty_view(),
    {
        let s = vstd::array::ref_mut_array_unsizing_coercion(&mut self.bytes);
        let (_pre, rest) = s.split_at_mut(off);
        let (mid, _post) = rest.split_at_mut(end - off);
        mid
    }

    /// Provides read access to the bytes of `(addr, len)`.
    pub fn with_bytes<F, R>(&self, addr: u16, len: usize, f: F) -> (r: Result<R, ShadowError>) where
        F: FnOnce(&[u8]) -> Result<R, ShadowError>,
        requires
            self.wf(),
            forall|s: &[u8]| f.requires((s,)),
        ensures
            match crate::helpers::range_span_spec(TS as int, addr as int, len as int) {
                Err(e) => r == Err::<R, ShadowError>(e),
                Ok((o, e)) => exists|s: &[u8]|
                    s@ == self.bytes_view().subrange(o as int, e as int) && f.ensures((s,), r),
            },
    {
        let s = self.span(addr, len)?;
        f(s)
    }

    /// Provides write access to the bytes of `(addr, len)`. Dirty bits are
    /// not touched.
    pub fn with_bytes_mut<F, R>(&mut self, addr: u16, len: usize, f: F) -> (r: Result<
        R,
        ShadowError,
    >) where F: FnOnce(&mut [u8]) -> Result<R, ShadowError>,
        requires
            old(self).wf(),
            forall|s: &mut [u8]| f.requires((s,)),
        ensures
            final(self).wf(),
            final(self).dirty_view() == old(self).dirty_view(),
            match crate::helpers::range_span_spec(TS as int, addr as int, len as int) {
                Err(e) => r == Err::<R, ShadowError>(e) && final(self).bytes_view()
                    == old(self).bytes_view(),
                Ok((o, e)) => {
                    &&& final(self).bytes_view().subrange(0, o as int)
                        == old(self).bytes_view().subrange(0, o as int)
                    &&& final(self).bytes_view().subrange(e as int, TS as int)
                        == old(self).bytes_view().subrange(e as int, TS as int)
                },
            },
    {
        let (off, end) = range_span::<TS>(addr, len)?;
        let s = self.window_mut(off, end);
        let r = f(s);
        proof {
            self.lemma_len();
            assert(self.bytes_view().subrange(0, off as int) =~= old(self).bytes_view().subrange(
                0,
                off as int,
            ));
            assert(self.bytes_view().subrange(end as int, TS as int) =~= old(
                self,
            ).bytes_view().subrange(end as int, TS as int));
        }
        r
    }

    /// Marks every block touched by `(addr, len)` dirty.
    pub fn mark_dirty(&mut self, addr: u16, len: usize) -> (r: Result<(), ShadowError>)
        requires
            old(self).wf(),
        ensures
            final(self).wf(),
            final(self).bytes_view() == old(self).bytes_view(),
            match crate::helpers::block_span_spec(TS as int, BS as int, BC as int, addr as int, len as int) {
                Err(e) => r == Err::<(), ShadowError>(e) && final(self).dirty_view()
                    == old(self).dirty_view(),
                Ok(_) => r is Ok && final(self).dirty_view() == old(self).dirty_view().union(
                    span_blocks(BS as int, addr as int, len as int),
                ),
            },
    {
        self.apply_dirty_range(addr, len, true)
    }

    /// Clears every block touched by `(addr, len)`, whole blocks even when
    /// the range covers only part of one.
    pub fn clear_dirty(&mut self, addr: u16, len: usize) -> (r: Result<(), ShadowError>)
        requires
            old(self).wf(),
        ensures
            final(self).wf(),
            old(self).clear_effect(*final(self), addr, len),
            final(self).bytes_view() == old(self).bytes_view(),
            match crate::helpers::block_span_spec(TS as int, BS as int, BC as int, addr as int, len as int) {
                Err(e) => r == Err::<(), ShadowError>(e) && final(self).dirty_view()
                    == old(self).dirty_view(),
                Ok(_) => r is Ok && final(self).dirty_view() == old(self).dirty_view().difference(
                    span_blocks(BS as int, addr as int, len as int),
                ),
            },
    {
        self.apply_dirty_range(addr, len, false)
    }

    fn apply_dirty_range(&mut self, addr: u16, len: usize, value: bool) -> (r: Result<
        (),
        ShadowError,
    >)
        requires
            old(self).wf(),
        ensures
            final(self).wf(),
            final(self).bytes_view() == old(self).bytes_view(),
            match crate::helpers::block_span_spec(TS as int, BS as int, BC as int, addr as int, len as int) {
                Err(e) => r == Err::<(), ShadowError>(e) && final(self).dirty_view()
                    == old(self).dirty_view(),
                Ok(_) => r is Ok && final(self).dirty_view() == if value {
                    old(self).dirty_view().union(span_blocks(BS as int, addr as int, len as int))
                } else {
                    old(self).dirty_view().difference(
                        span_blocks(BS as int, addr as int, len as int),
                    )
                },
            },
    {
        let (sb, eb) = match block_span::<TS, BS, BC>(addr, len) {
            Ok(p) => p,
            Err(e) => return Err(e),
        };
        proof {
            crate::helpers::lemma_block_span_in_table(TS as int, BS as int, BC as int, addr as int, len as int);
        }
        let ghost d0 = self.dirty_view();
        let ghost span = span_blocks(BS as int, addr as int, len as int);
        let mut block: usize = sb;
        while block <= eb
            invariant
                sb <= block <= eb + 1,
                eb < BC,
                self.wf(),
                self.bytes_view() == old(self).bytes_view(),
                d0 == old(self).dirty_view(),
                span == Set::new(|i: int| sb <= i <= eb),
                self.dirty_view() == if value {
                    d0.union(Set::new(|i: int| sb <= i < block))
                } else {
                    d0.difference(Set::new(|i: int| sb <= i < block))
                },
            decreases eb + 1 - block,
        {
            let ghost before = self.dirty_view();
            bitmap_set(&mut self.dirty, block, value);
            proof {
                if value {
                    assert(self.dirty_view() =~= before.insert(block as int));
                } else {
                    assert(self.dirty_view() =~= before.remove(block as int));
                }
                if value {
                    assert(self.dirty_view() =~= d0.union(Set::new(|i: int| sb <= i < block + 1)));
                } else {
                    assert(self.dirty_view() =~= d0.difference(
                        Set::new(|i: int| sb <= i < block + 1),
                    ));
                }
            }
            block = block + 1;
        }
        proof {
            assert(Set::new(|i: int| sb <= i < block) =~= span);
        }
        Ok(())
    }

    /// Clears every dirty bit.
    pub fn clear_all_dirty(&mut self)
        requires
            old(self).wf(),
        ensures
            final(self).wf(),
            final(self).bytes_view() == old(self).bytes_view(),
            final(self).dirty_view() == Set::<int>::empty(),
    {
        self.dirty = bitmap_new();
        assert(self.dirty_view() =~= Set::<int>::empty());
    }

    /// Whether any block touched by `(addr, len)` is dirty.
    pub fn is_dirty(&self, addr: u16, len: usize) -> (r: Result<bool, ShadowError>)
        requires
            self.wf(),
        ensures
            match crate::helpers::block_span_spec(TS as int, BS as int, BC as int, addr as int, len as int) {
                Err(e) => r == Err::<bool, ShadowError>(e),
                Ok(_) => r == Ok::<bool, ShadowError>(self.is_dirty_spec(addr as int, len as int)),
            },
    {
        let bspan = block_span::<TS, BS, BC>(addr, len);
        let (sb, eb) = match bspan {
            Ok(p) => p,
            Err(e) => return Err(e),
        };
        proof {
            crate::helpers::lemma_block_span_in_table(TS as int, BS as int, BC as int, addr as int, len as int);
        }
        let ghost span = span_blocks(BS as int, addr as int, len as int);
        assert(sb == addr as int / BS as int);
        assert(eb == (addr as int + len as int - 1) / BS as int);
        assert(span =~= Set::new(|i: int| sb <= i <= eb));
        let mut block: usize = sb;
        while block <= eb
            invariant
                sb <= block <= eb + 1,
                eb < BC,
                self.wf(),
                span == Set::new(|i: int| sb <= i <= eb),
                span == span_blocks(BS as int, addr as int, len as int),
                crate::helpers::block_span_spec(TS as int, BS as int, BC as int, addr as int, len as int) == Ok::<
                    (usize, usize),
                    ShadowError,
                >((sb, eb)),
                forall|i: int| sb <= i < block ==> !self.dirty_view().contains(i),
            decreases eb + 1 - block,
        {
            if bitmap_get(&self.dirty, block) {
                assert(span_blocks(BS as int, addr as int, len as int).contains(block as int));
                assert(self.dirty_view().contains(block as int));
                assert(self.is_dirty_spec(addr as int, len as int));
                return Ok(true);
            }
            block = block + 1;
        }
        Ok(false)
    }

    /// Whether some call of `f` with the address and bytes of block `i`
    /// returns `res`.
    pub open spec fn block_result<F: FnMut(u16, ROSlice<'_>) -> Result<(), ShadowError>>(
        &self,
        f: F,
        i: int,
        res: Result<(), ShadowError>,
    ) -> bool {
        exists|s: ROSlice| s@ == self.block_bytes(i) && f.ensures((((i * BS) as u16), s), res)
    }

    /// Whether some call of `f` with the address and bytes of block `i`
    /// succeeds.
    pub open spec fn block_accepted<F: FnMut(u16, ROSlice<'_>) -> Result<(), ShadowError>>(
        &self,
        f: F,
        i: int,
    ) -> bool {
        exists|s: ROSlice, out: Result<(), ShadowError>|
            s@ == self.block_bytes(i) && out is Ok && #[trigger] f.ensures(
                (((i * BS) as u16), s),
                out,
            )
    }

    /// Calls `f` with the address and bytes of each dirty block, in
    /// ascending block order, stopping at the first error. No dirty bit
    /// changes.
    pub fn iter_dirty<F>(&self, f: F) -> (r: Result<(), ShadowError>) where
        F: FnMut(u16, ROSlice<'_>) -> Result<(), ShadowError>,
        requires
            self.wf(),
            forall|a: u16, s: ROSlice| f.requires((a, s)),
        ensures
            r is Ok ==> forall|i: int| #[trigger]
                self.dirty_view().contains(i) ==> self.block_accepted(f, i),
            r is Err ==> exists|i: int| #[trigger]
                self.dirty_view().contains(i) && self.block_result(f, i, r) && forall|j: int|
                    #[trigger] self.dirty_view().contains(j) && j < i ==> self.block_accepted(f, j),
    {
        let ghost f0 = f;
        let mut visit = f;
        let mut idx = bitmap_first_index(&self.dirty);
        let ghost mut cur: int = match idx {
            Some(b) => if b < BC {
                b as int
            } else {
                BC as int
            },
            None => BC as int,
        };
        loop
            invariant
                visit == f0,
                f0 == f,
                self.wf(),
                forall|a: u16, s: ROSlice| visit.requires((a, s)),
                0 <= cur <= BC,
                idx is None ==> cur == BC,
                idx is Some && idx->Some_0 >= BC ==> cur == BC,
                idx is Some && idx->Some_0 < BC ==> idx->Some_0 == cur
                    && self.dirty_view().contains(cur),
                forall|i: int| #[trigger]
                    self.dirty_view().contains(i) && i < cur ==> self.block_accepted(f0, i),
            decreases BC - cur,
        {
            if idx.is_none() {
                assert forall|i: int| #[trigger]
                    self.dirty_view().contains(i) implies self.block_accepted(f0, i) by {
                    assert(i < BC);
                }
                return Ok(());
            }
            let block = idx.unwrap();
            if block >= BC {
                assert forall|i: int| #[trigger]
                    self.dirty_view().contains(i) implies self.block_accepted(f0, i) by {
                    assert(i < BC);
                }
                return Ok(());
            }
            proof {
                self.lemma_len();
                assert((block + 1) * BS <= BC * BS) by (nonlinear_arith)
                    requires
                        block < BC,
                        BS >= 1,
                ;
                assert(block * BS + BS == (block + 1) * BS) by (nonlinear_arith);
            }
            let off = block * BS;
            let all: &[u8] = self.bytes.as_slice();
            let buf = ROSlice::new(&all[off..off + BS]);
            assert(buf@ == self.block_bytes(block as int));
            let res: Result<(), ShadowError> = visit(off as u16, buf);
            if res.is_err() {
                assert(self.block_result(f0, block as int, res));
                return res;
            }
            assert(f0.ensures((((block as int) * (BS as int)) as u16, buf), res));
            assert(self.block_accepted(f0, block as int));
            idx = bitmap_next_index(&self.dirty, block);
            proof {
                let old_cur = cur;
                cur = match idx {
                    Some(n) => if n < BC {
                        n as int
                    } else {
                        BC as int
                    },
                    None => BC as int,
                };
                assert forall|i: int| #[trigger]
                    self.dirty_view().contains(i) && i < cur implies self.block_accepted(f0, i) by {
                    if i > old_cur {
                        assert(i < BC);
                    }
                }
                if idx is Some && idx->Some_0 < BC {
                    assert(self.dirty_view().contains(cur));
                }
            }
        }
    }

    /// Whether any block is dirty.
    pub fn any_dirty(&self) -> (r: bool)
        requires
            self.wf(),
        ensures
            r == self.any_dirty_spec(),
    {
        match bitmap_first_index(&self.dirty) {
            None => false,
            Some(i) => {
                assert(i < BC ==> self.dirty_view().contains(i as int));
                i < BC
            },
        }
    }
}

} // verus!
