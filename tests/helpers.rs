use embedded_shadow::{block_span, range_span, ShadowError};

#[test]
fn helpers_block_span_edge_cases() {
    // Zero length
    assert_eq!(block_span::<16, 4, 4>(0, 0), Err(ShadowError::ZeroLength));

    // Out of bounds
    assert_eq!(block_span::<16, 4, 4>(15, 2), Err(ShadowError::OutOfBounds));

    // Single byte at block boundary
    assert_eq!(block_span::<16, 4, 4>(4, 1), Ok((1, 1)));

    // Exact block
    assert_eq!(block_span::<16, 4, 4>(4, 4), Ok((1, 1)));

    // Spanning all blocks
    assert_eq!(block_span::<16, 4, 4>(0, 16), Ok((0, 3)));

    // Last byte of table
    assert_eq!(block_span::<16, 4, 4>(15, 1), Ok((3, 3)));
}

#[test]
fn range_span_bounds() {
    assert_eq!(range_span::<16>(0, 0), Err(ShadowError::ZeroLength));
    assert_eq!(range_span::<16>(0, 16), Ok((0, 16)));
    assert_eq!(range_span::<16>(10, 6), Ok((10, 16)));
    assert_eq!(range_span::<16>(10, 7), Err(ShadowError::OutOfBounds));
    assert_eq!(range_span::<16>(20, 1), Err(ShadowError::OutOfBounds));
    assert_eq!(range_span::<16>(1, usize::MAX), Err(ShadowError::OutOfBounds));
}

#[test]
fn block_span_large_blocks() {
    assert_eq!(block_span::<1024, 64, 16>(0xFF, 2), Ok((3, 4)));
    assert_eq!(block_span::<1024, 64, 16>(0x3FF, 1), Ok((15, 15)));
    assert_eq!(block_span::<1024, 64, 16>(0x3FF, 2), Err(ShadowError::OutOfBounds));
}

#[test]
fn error_messages() {
    assert_eq!(
        ShadowError::OutOfBounds.message(),
        "address or length exceeds table bounds"
    );
    assert_eq!(
        ShadowError::ZeroLength.message(),
        "operation attempted with zero length"
    );
    assert_eq!(ShadowError::Denied.message(), "access denied by policy");
    assert_eq!(
        ShadowError::StageFull.message(),
        "staging buffer capacity exceeded"
    );
}
