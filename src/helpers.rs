//! Address and block arithmetic shared by every table operation.
use crate::error::ShadowError;
use vstd::prelude::*;

verus! {

/// The table geometry that every storage must satisfy: `TS == BS * BC`,
/// at least one block of at least one byte, addresses fit in 16 bits, and
/// the dirty bitmap holds at most 1024 blocks.
pub open spec fn geometry_ok(ts: int, bs: int, bc: int) -> bool {
    &&& bs >= 1
    &&& bc >= 1
    &&& bc <= 1024
    &&& ts == bs * bc
    &&& ts <= 65536
}

/// Byte span `[addr, addr + len)` of a range over a `ts`-byte table, or the
/// error that rejects it.
pub open spec fn range_span_spec(ts: int, addr: int, len: int) -> Result<(usize, usize), ShadowError> {
    if len == 0 {
        Err(ShadowError::ZeroLength)
    } else if addr + len > ts {
        Err(ShadowError::OutOfBounds)
    } else {
        Ok((addr as usize, (addr + len) as usize))
    }
}

/// Inclusive block span `[addr / bs, (addr + len - 1) / bs]` of a range, or
/// the error that rejects it.
pub open spec fn block_span_spec(ts: int, bs: int, bc: int, addr: int, len: int) -> Result<
    (usize, usize),
    ShadowError,
> {
    match range_span_spec(ts, addr, len) {
        Err(e) => Err(e),
        Ok(_) => {
            if (addr + len - 1) / bs >= bc {
                Err(ShadowError::OutOfBounds)
            } else {
                Ok(((addr / bs) as usize, ((addr + len - 1) / bs) as usize))
            }
        },
    }
}

/// Whether `(addr, len)` is a legal range of a `ts`-byte table.
pub open spec fn range_ok(ts: int, addr: int, len: int) -> bool {
    range_span_spec(ts, addr, len) is Ok
}

/// Calculates the byte offset range for an address and length.
///
/// Returns `(start_offset, end_offset)` where end is exclusive.
pub fn range_span<const TS: usize>(addr: u16, len: usize) -> (r: Result<(usize, usize), ShadowError>)
    ensures
        r == range_span_spec(TS as int, addr as int, len as int),
{
    if len == 0 {
        return Err(ShadowError::ZeroLength);
    }
    let offset = addr as usize;
    let end = match offset.checked_add(len) {
        Some(e) => e,
        None => return Err(ShadowError::OutOfBounds),
    };
    if end > TS {
        return Err(ShadowError::OutOfBounds);
    }
    Ok((offset, end))
}

/// Calculates which blocks are spanned by an address range.
///
/// Returns the inclusive range `(start_block, end_block)`.
pub fn block_span<const TS: usize, const BS: usize, const BC: usize>(addr: u16, len: usize) -> (r:
    Result<(usize, usize), ShadowError>)
    requires
        BS >= 1,
    ensures
        r == block_span_spec(TS as int, BS as int, BC as int, addr as int, len as int),
{
    let (offset, end) = range_span::<TS>(addr, len)?;
    let sb = offset / BS;
    let eb = (end - 1) / BS;
    if eb >= BC {
        return Err(ShadowError::OutOfBounds);
    }
    Ok((sb, eb))
}

/// On a well-formed geometry every legal range has a block span inside the
/// table, so `block_span` fails exactly when `range_span` does.
pub proof fn lemma_block_span_in_table(ts: int, bs: int, bc: int, addr: int, len: int)
    requires
        geometry_ok(ts, bs, bc),
        0 <= addr,
        0 <= len,
    ensures
        block_span_spec(ts, bs, bc, addr, len) is Ok <==> range_ok(ts, addr, len),
        range_ok(ts, addr, len) ==> {
            &&& 0 <= addr / bs <= (addr + len - 1) / bs < bc
            &&& (addr / bs) * bs <= addr
            &&& addr + len <= ((addr + len - 1) / bs + 1) * bs
        },
{
    if range_ok(ts, addr, len) {
        let e = addr + len - 1;
        assert(0 <= e < bs * bc);
        assert(e / bs < bc) by (nonlinear_arith)
            requires
                0 <= e < bs * bc,
                bs >= 1,
        ;
        assert(addr / bs <= e / bs) by (nonlinear_arith)
            requires
                0 <= addr <= e,
                bs >= 1,
        ;
        assert((addr / bs) * bs <= addr) by (nonlinear_arith)
            requires
                0 <= addr,
                bs >= 1,
        ;
        assert(e + 1 <= (e / bs + 1) * bs) by (nonlinear_arith)
            requires
                0 <= e,
                bs >= 1,
        ;
        assert(0 <= addr / bs) by (nonlinear_arith)
            requires
                0 <= addr,
                bs >= 1,
        ;
    }
}

} // verus!
