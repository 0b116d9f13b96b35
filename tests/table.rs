use embedded_shadow::{block_span, ShadowError, ShadowTable};

// 16-byte table, 4-byte blocks, 4 dirty blocks
type TestTable = ShadowTable<16, 4, 4>;

fn read(table: &TestTable, addr: u16, len: usize) -> Vec<u8> {
    table.with_bytes(addr, len, |data| Ok(data.to_vec())).unwrap()
}

#[test]
fn table_new_table_has_no_dirty_blocks() {
    let table = TestTable::new();
    assert!(!table.is_dirty(0, 16).unwrap());
}

#[test]
fn dirty_tracking_scenarios() {
    // Single block: mark byte 0, block 0 dirty, block 1 clean
    {
        let mut table = TestTable::new();
        table.mark_dirty(0, 1).unwrap();
        assert!(table.is_dirty(0, 4).unwrap());
        assert!(!table.is_dirty(4, 4).unwrap());
    }

    // Spanning blocks: mark bytes 2-5, blocks 0-1 dirty, block 2 clean
    {
        let mut table = TestTable::new();
        table.mark_dirty(2, 4).unwrap();
        assert!(table.is_dirty(0, 4).unwrap());
        assert!(table.is_dirty(4, 4).unwrap());
        assert!(!table.is_dirty(8, 4).unwrap());
    }

    // Exact block boundary: mark at addr=4, only block 1 dirty
    {
        let mut table = TestTable::new();
        table.mark_dirty(4, 4).unwrap();
        assert!(table.is_dirty(4, 4).unwrap());
        assert!(!table.is_dirty(0, 4).unwrap());
        assert!(!table.is_dirty(8, 4).unwrap());
    }

    // Spanning all blocks: mark entire table
    {
        let mut table = TestTable::new();
        table.mark_dirty(0, 16).unwrap();
        assert!(table.is_dirty(0, 4).unwrap());
        assert!(table.is_dirty(4, 4).unwrap());
        assert!(table.is_dirty(8, 4).unwrap());
        assert!(table.is_dirty(12, 4).unwrap());
    }
}

#[test]
fn table_is_dirty_zero_len_returns_error() {
    let mut table = TestTable::new();
    table.mark_dirty(0, 16).unwrap();
    assert_eq!(table.is_dirty(0, 0), Err(ShadowError::ZeroLength));
}

#[test]
fn table_is_dirty_out_of_bounds_returns_error() {
    let table = TestTable::new();
    assert_eq!(table.is_dirty(15, 2), Err(ShadowError::OutOfBounds));
    assert_eq!(table.is_dirty(20, 1), Err(ShadowError::OutOfBounds));
}

#[test]
fn is_dirty_query_scenarios() {
    let mut table = TestTable::new();

    // Initially: no dirty blocks
    assert!(!table.any_dirty());
    assert!(!table.is_dirty(0, 16).unwrap());

    // Mark only block 1 dirty
    table.mark_dirty(4, 4).unwrap();
    assert!(table.any_dirty());

    // Queries that include block 1 should return dirty
    assert!(table.is_dirty(3, 2).unwrap()); // spans blocks 0-1
    assert!(table.is_dirty(4, 1).unwrap()); // just block 1
    assert!(table.is_dirty(6, 3).unwrap()); // spans blocks 1-2

    // Queries that don't include block 1
    assert!(!table.is_dirty(0, 4).unwrap()); // block 0 only
    assert!(!table.is_dirty(8, 8).unwrap()); // blocks 2-3
}

#[test]
fn with_bytes_errors() {
    let mut table = TestTable::new();

    // Zero length
    assert_eq!(table.with_bytes(0, 0, |_| Ok(())), Err(ShadowError::ZeroLength));
    assert_eq!(
        table.with_bytes_mut(0, 0, |_| Ok(())),
        Err(ShadowError::ZeroLength)
    );

    // Out of bounds
    assert_eq!(table.with_bytes(14, 4, |_| Ok(())), Err(ShadowError::OutOfBounds));
    assert_eq!(
        table.with_bytes_mut(14, 4, |_| Ok(())),
        Err(ShadowError::OutOfBounds)
    );
}

#[test]
fn mark_dirty_single_block() {
    let mut table = TestTable::new();
    table.mark_dirty(0, 1).unwrap();
    assert!(table.is_dirty(0, 1).unwrap());
    assert!(table.is_dirty(0, 4).unwrap()); // whole block 0
    assert!(!table.is_dirty(4, 4).unwrap()); // block 1
}

#[test]
fn mark_dirty_spanning_blocks() {
    let mut table = TestTable::new();
    // Mark bytes 2-5 dirty (spans blocks 0 and 1)
    table.mark_dirty(2, 4).unwrap();
    assert!(table.is_dirty(0, 4).unwrap()); // block 0
    assert!(table.is_dirty(4, 4).unwrap()); // block 1
    assert!(!table.is_dirty(8, 4).unwrap()); // block 2
}

#[test]
fn clear_dirty_single_block() {
    let mut table = TestTable::new();
    table.mark_dirty(0, 16).unwrap(); // mark all dirty
    table.clear_dirty(0, 4).unwrap(); // clear block 0
    assert!(!table.is_dirty(0, 4).unwrap());
    assert!(table.is_dirty(4, 4).unwrap()); // block 1 still dirty
}

#[test]
fn clear_dirty_spanning_blocks() {
    let mut table = TestTable::new();
    table.mark_dirty(0, 16).unwrap();
    table.clear_dirty(2, 6).unwrap(); // spans blocks 0 and 1
    assert!(!table.is_dirty(0, 8).unwrap()); // blocks 0 and 1 cleared
    assert!(table.is_dirty(8, 4).unwrap()); // block 2 still dirty
}

#[test]
fn table_block_span_edge_cases() {
    // Zero length
    assert_eq!(block_span::<16, 4, 4>(0, 0), Err(ShadowError::ZeroLength));

    // Out of bounds
    assert_eq!(block_span::<16, 4, 4>(15, 2), Err(ShadowError::OutOfBounds));

    // Single byte at block boundary
    assert_eq!(block_span::<16, 4, 4>(4, 1), Ok((1, 1)));

    // Exact block
    assert_eq!(block_span::<16, 4, 4>(4, 4), Ok((1, 1)));

    // Spanning all blocks
    assert_eq!(block_span::<16, 4, 4>(0, 16), Ok((0, 3)));

    // Last byte of table
    assert_eq!(block_span::<16, 4, 4>(15, 1), Ok((3, 3)));
}

#[test]
fn any_dirty_returns_correct_value() {
    let mut table = TestTable::new();
    assert!(!table.any_dirty());

    table.mark_dirty(0, 1).unwrap();
    assert!(table.any_dirty());
}

#[test]
fn read_write_range() {
    let mut table = TestTable::new();
    let data = [1, 2, 3, 4];
    table
        .with_bytes_mut(4, 4, |buf| {
            buf.copy_from_slice(&data);
            Ok(())
        })
        .unwrap();

    assert_eq!(read(&table, 4, 4), data.to_vec());
    assert!(!table.any_dirty());
}

#[test]
fn read_write_range_errors() {
    let mut table = TestTable::new();

    // Zero length
    assert_eq!(table.with_bytes(0, 0, |_| Ok(())), Err(ShadowError::ZeroLength));
    assert_eq!(
        table.with_bytes_mut(0, 0, |_| Ok(())),
        Err(ShadowError::ZeroLength)
    );

    // Out of bounds
    assert_eq!(table.with_bytes(14, 4, |_| Ok(())), Err(ShadowError::OutOfBounds));
    assert_eq!(
        table.with_bytes_mut(14, 4, |_| Ok(())),
        Err(ShadowError::OutOfBounds)
    );
}

#[test]
fn mark_and_clear_idempotent() {
    let mut table = TestTable::new();

    // Double mark
    table.mark_dirty(0, 4).unwrap();
    table.mark_dirty(0, 4).unwrap();
    assert!(table.is_dirty(0, 4).unwrap());

    // Double clear
    table.clear_dirty(0, 4).unwrap();
    table.clear_dirty(0, 4).unwrap();
    assert!(!table.is_dirty(0, 4).unwrap());
}

#[test]
fn partial_block_queries() {
    let mut table = TestTable::new();
    table.mark_dirty(4, 4).unwrap(); // only block 1

    // Queries that include block 1 should return dirty
    assert!(table.is_dirty(3, 2).unwrap()); // spans blocks 0-1
    assert!(table.is_dirty(4, 1).unwrap()); // just block 1
    assert!(table.is_dirty(6, 3).unwrap()); // spans blocks 1-2

    // Queries that don't include block 1
    assert!(!table.is_dirty(0, 4).unwrap()); // block 0 only
    assert!(!table.is_dirty(8, 8).unwrap()); // blocks 2-3
}

#[test]
fn clear_dirty_twice_equals_once() {
    let mut once = TestTable::new();
    let mut twice = TestTable::new();
    for t in [&mut once, &mut twice] {
        t.mark_dirty(0, 16).unwrap();
    }
    once.clear_dirty(5, 2).unwrap();
    twice.clear_dirty(5, 2).unwrap();
    twice.clear_dirty(5, 2).unwrap();
    for (a, l) in [(0u16, 4usize), (4, 4), (8, 4), (12, 4)] {
        assert_eq!(once.is_dirty(a, l), twice.is_dirty(a, l));
    }
    assert!(!twice.is_dirty(4, 4).unwrap());
    assert!(twice.is_dirty(8, 4).unwrap());
}

#[test]
fn clear_all_dirty_resets_bitmap() {
    let mut table = TestTable::new();
    table.mark_dirty(0, 16).unwrap();
    table.clear_all_dirty();
    assert!(!table.any_dirty());
    assert_eq!(table.mark_dirty(0, 0), Err(ShadowError::ZeroLength));
    assert_eq!(table.clear_dirty(16, 1), Err(ShadowError::OutOfBounds));
}

#[test]
fn table_iter_dirty_visits_dirty_blocks_in_order() {
    let mut table = TestTable::new();
    table
        .with_bytes_mut(8, 4, |buf| {
            buf.copy_from_slice(&[1, 2, 3, 4]);
            Ok(())
        })
        .unwrap();
    table.mark_dirty(12, 1).unwrap();
    table.mark_dirty(9, 1).unwrap();
    let mut seen = Vec::new();
    table
        .iter_dirty(|addr, data| {
            let mut buf = [0u8; 4];
            data.copy_to_slice(&mut buf);
            seen.push((addr, buf));
            Ok(())
        })
        .unwrap();
    assert_eq!(seen, vec![(8, [1, 2, 3, 4]), (12, [0, 0, 0, 0])]);
}
