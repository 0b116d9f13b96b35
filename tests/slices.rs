use embedded_shadow::{RWSlice, ROSlice, WOSlice};

#[test]
fn ro_slice_operations() {
    let data = [0x78, 0x56, 0x34, 0x12];
    let slice = ROSlice::new(&data);

    // Test copy operations
    let mut dest = [0u8; 4];
    slice.copy_to_slice(&mut dest);
    assert_eq!(dest, data);

    let mut dest = [0u8; 2];
    slice.copy_to_slice_at(1, &mut dest);
    assert_eq!(dest, [0x56, 0x34]);

    // Test primitive reads
    assert_eq!(slice.read_u32_le_at(0), 0x12345678);
    assert_eq!(slice.read_u32_be_at(0), 0x78563412);
    assert_eq!(slice.read_u8_at(0), 0x78);
}

#[test]
fn try_read_operations() {
    let data = [0x78, 0x56, 0x34, 0x12];
    let slice = ROSlice::new(&data);

    // Successful reads
    assert_eq!(slice.try_read_u8_at(0), Some(0x78));
    assert_eq!(slice.try_read_i8_at(0), Some(0x78));
    assert_eq!(slice.try_read_u16_le_at(0), Some(0x5678));
    assert_eq!(slice.try_read_u16_be_at(0), Some(0x7856));
    assert_eq!(slice.try_read_u32_le_at(0), Some(0x12345678));
    assert_eq!(slice.try_read_u32_be_at(0), Some(0x78563412));

    // Out of bounds returns None
    assert_eq!(slice.try_read_u8_at(4), None);
    assert_eq!(slice.try_read_u16_le_at(3), None);
    assert_eq!(slice.try_read_u32_le_at(1), None);
}

#[test]
fn try_copy_to_slice_at_operations() {
    let data = [0x78, 0x56, 0x34, 0x12];
    let slice = ROSlice::new(&data);

    // Successful copy
    let mut dest = [0u8; 2];
    assert_eq!(slice.try_copy_to_slice_at(1, &mut dest), Some(()));
    assert_eq!(dest, [0x56, 0x34]);

    // Out of bounds returns None
    let mut dest = [0u8; 4];
    assert_eq!(slice.try_copy_to_slice_at(1, &mut dest), None);
}

#[test]
fn read_write_roundtrip() {
    let mut data = [0u8; 4];
    let mut slice = RWSlice::new(&mut data);

    slice.write_u32_le_at(0, 0x12345678);
    assert_eq!(slice.read_u32_le_at(0), 0x12345678);
}

#[test]
fn read_modify_write() {
    let mut data = [0x00, 0x00, 0x00, 0x01];
    let mut slice = RWSlice::new(&mut data);

    let value = slice.read_u32_le_at(0);
    slice.write_u32_le_at(0, value | 0x80000000);

    assert_eq!(data, [0x00, 0x00, 0x00, 0x81]);
}

#[test]
fn copy_from_slice() {
    let mut data = [0u8; 4];

    // Full copy
    WOSlice::new(&mut data).copy_from_slice(&[0xAA, 0xBB, 0xCC, 0xDD]);
    assert_eq!(data, [0xAA, 0xBB, 0xCC, 0xDD]);

    // Partial copy at offset
    data = [0u8; 4];
    WOSlice::new(&mut data).copy_from_slice_at(1, &[0x11, 0x22]);
    assert_eq!(data, [0x00, 0x11, 0x22, 0x00]);
}

#[test]
fn fill() {
    let mut data = [0u8; 4];

    // Full fill
    WOSlice::new(&mut data).fill(0xFF);
    assert_eq!(data, [0xFF, 0xFF, 0xFF, 0xFF]);

    // Partial fill at offset
    data = [0u8; 4];
    WOSlice::new(&mut data).fill_at(1, 2, 0xAA);
    assert_eq!(data, [0x00, 0xAA, 0xAA, 0x00]);
}

#[test]
fn write_primitives() {
    let mut data = [0u8; 4];

    WOSlice::new(&mut data).write_u32_le_at(0, 0x12345678);
    assert_eq!(data, [0x78, 0x56, 0x34, 0x12]);

    WOSlice::new(&mut data).write_u32_be_at(0, 0x12345678);
    assert_eq!(data, [0x12, 0x34, 0x56, 0x78]);
}

#[test]
fn signed_reads() {
    let data = [0xFE, 0xFF, 0xFF, 0xFF];
    let slice = ROSlice::new(&data);
    assert_eq!(slice.read_i8_at(0), -2);
    assert_eq!(slice.read_i16_le_at(0), -2);
    assert_eq!(slice.read_i16_be_at(0), -257);
    assert_eq!(slice.read_i32_le_at(0), -2);
    assert_eq!(slice.read_i32_be_at(0), -16777217);
    assert_eq!(slice.read_u16_le_at(2), 0xFFFF);
    assert_eq!(slice.try_read_i16_le_at(2), Some(-1));
    assert_eq!(slice.try_read_i32_be_at(1), None);
    assert_eq!(slice.len(), 4);
    assert!(!slice.is_empty());
}

#[test]
fn signed_writes() {
    let mut data = [0u8; 6];
    {
        let mut slice = WOSlice::new(&mut data);
        slice.write_i8_at(0, -1);
        slice.write_i16_be_at(1, -2);
        slice.write_i16_le_at(3, 0x0102);
        slice.write_u8_at(5, 7);
    }
    assert_eq!(data, [0xFF, 0xFF, 0xFE, 0x02, 0x01, 7]);

    let mut data = [0u8; 4];
    RWSlice::new(&mut data).write_i32_le_at(0, -2);
    assert_eq!(data, [0xFE, 0xFF, 0xFF, 0xFF]);
    RWSlice::new(&mut data).write_u16_be_at(2, 0xABCD);
    assert_eq!(data, [0xFE, 0xFF, 0xAB, 0xCD]);
}

#[test]
fn try_writes_out_of_bounds_leave_data() {
    let mut data = [1u8, 2, 3, 4];
    {
        let mut slice = WOSlice::new(&mut data);
        assert_eq!(slice.try_write_u32_le_at(1, 0), None);
        assert_eq!(slice.try_write_u8_at(4, 0), None);
        assert_eq!(slice.try_fill_at(3, 2, 9), None);
        assert_eq!(slice.try_copy_from_slice_at(usize::MAX, &[1]), None);
    }
    assert_eq!(data, [1, 2, 3, 4]);
    {
        let mut slice = WOSlice::new(&mut data);
        assert_eq!(slice.try_write_u16_le_at(2, 0x0A0B), Some(()));
        assert_eq!(slice.try_fill_at(0, 1, 9), Some(()));
        assert_eq!(slice.try_write_i8_at(1, -1), Some(()));
    }
    assert_eq!(data, [9, 0xFF, 0x0B, 0x0A]);
    {
        let mut slice = RWSlice::new(&mut data);
        assert_eq!(slice.try_copy_from_slice_at(2, &[5, 6]), Some(()));
        assert_eq!(slice.try_write_i32_be_at(0, 0x01020304), Some(()));
        assert_eq!(slice.try_read_u16_be_at(2), Some(0x0304));
    }
    assert_eq!(data, [1, 2, 3, 4]);
}
