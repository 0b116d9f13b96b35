use embedded_shadow::{
    AccessPolicy, AllowAllPolicy, KeySink, NoPersist, NoPersistPolicy, PatchStagingBuffer,
    PersistPolicy, PersistTrigger, ShadowError, ShadowStorage, ShadowStorageBuilder, WriteResult,
};

type TestStorage = ShadowStorage<64, 16, 4, AllowAllPolicy, NoPersistPolicy, NoPersist, ()>;

fn test_storage() -> TestStorage {
    ShadowStorage::new(
        AllowAllPolicy::default(),
        NoPersistPolicy::default(),
        NoPersist,
    )
}

struct TestAccessPolicy;

impl AccessPolicy for TestAccessPolicy {
    fn read_allowed(&self, _addr: u16, _len: usize) -> bool {
        true
    }
    fn write_allowed(&self, _addr: u16, _len: usize) -> bool {
        true
    }
    fn can_read(&self, addr: u16, len: usize) -> bool {
        self.read_allowed(addr, len)
    }
    fn can_write(&self, addr: u16, len: usize) -> bool {
        self.write_allowed(addr, len)
    }
}

struct TestPersistPolicy;

impl PersistPolicy<u32> for TestPersistPolicy {
    fn key_count(&self, _addr: u16, _len: usize) -> usize {
        0
    }
    fn key_at(&self, _addr: u16, _len: usize, _i: usize) -> u32 {
        0
    }
    fn wants_persist(&self, _addr: u16, _len: usize) -> bool {
        false
    }
    fn push_persist_keys_for_range<T: PersistTrigger<u32>>(
        &self,
        _addr: u16,
        _len: usize,
        _sink: &mut KeySink<'_, u32, T>,
    ) -> bool {
        false
    }
}

struct TestPersistTrigger;

impl PersistTrigger<u32> for TestPersistTrigger {
    fn push_key(&mut self, _key: u32) {}
    fn request_persist(&mut self) {}
}

#[test]
fn test_simple_builder() {
    let _storage = ShadowStorageBuilder::new()
        .total_size::<1024>()
        .block_size::<64>()
        .block_count::<16>() // 64 * 16 = 1024
        .default_access()
        .no_persist()
        .build();
}

#[test]
fn test_builder_with_custom_policies() {
    let _storage = ShadowStorageBuilder::new()
        .total_size::<2048>()
        .block_size::<128>()
        .block_count::<16>() // 128 * 16 = 2048
        .access_policy(TestAccessPolicy)
        .persist_policy(TestPersistPolicy)
        .persist_trigger(TestPersistTrigger)
        .build();
}

#[test]
fn load_defaults_writes_data_without_marking_dirty() {
    let mut storage = test_storage();

    storage
        .load_defaults(|write| {
            write.write(0, &[0x11, 0x22, 0x33, 0x44])?;
            write.write(32, &[0xAA, 0xBB, 0xCC, 0xDD])?;
            Ok(())
        })
        .unwrap();

    // Verify data was written
    storage.host_shadow().with_view(|view| {
        view.with_ro_slice(0, 4, |slice| {
            let mut buf = [0u8; 4];
            slice.copy_to_slice(&mut buf);
            assert_eq!(buf, [0x11, 0x22, 0x33, 0x44]);
        })
        .unwrap();

        view.with_ro_slice(32, 4, |slice| {
            let mut buf = [0u8; 4];
            slice.copy_to_slice(&mut buf);
            assert_eq!(buf, [0xAA, 0xBB, 0xCC, 0xDD]);
        })
        .unwrap();
    });

    // Verify no dirty flags
    storage.kernel_shadow().with_view(|view| {
        assert!(!view.any_dirty());
    });
}

#[test]
fn load_defaults_multiple_ranges() {
    let mut storage = test_storage();

    storage
        .load_defaults(|write| {
            for i in 0..4 {
                let addr = i * 16;
                write.write(addr, &[i as u8; 4])?;
            }
            Ok(())
        })
        .unwrap();

    // Verify all ranges written correctly
    storage.host_shadow().with_view(|view| {
        for i in 0..4 {
            let addr = i * 16;
            view.with_ro_slice(addr, 4, |slice| {
                let mut buf = [0u8; 4];
                slice.copy_to_slice(&mut buf);
                assert_eq!(buf, [i as u8; 4]);
            })
            .unwrap();
        }
    });
}

#[test]
fn load_defaults_error_propagates() {
    let mut storage = test_storage();

    let result = storage.load_defaults(|write| {
        write.write(0, &[0x11; 4])?;
        // Force an error with out-of-bounds write
        write.write(100, &[0xAA; 4])
    });

    assert!(result.is_err());
    assert_eq!(result, Err(ShadowError::OutOfBounds));
}

#[test]
fn load_defaults_unchecked_writes_without_dirty() {
    let mut storage = test_storage();
    storage
        .load_defaults_unchecked(|write| write.write(60, &[1, 2, 3, 4]))
        .unwrap();
    storage.kernel_shadow().with_view_unchecked(|view| {
        assert!(!view.any_dirty());
        view.with_ro_slice(60, 4, |s| assert_eq!(s.read_u32_be_at(0), 0x01020304))
            .unwrap();
    });
}

#[test]
fn normal_writes_work_after_load_defaults() {
    let mut storage = test_storage();

    // Load defaults
    storage
        .load_defaults(|write| {
            write.write(0, &[0x11, 0x22, 0x33, 0x44])?;
            Ok(())
        })
        .unwrap();

    // Now do a normal write
    storage.host_shadow().with_view(|view| {
        view.with_wo_slice(0, 4, |mut slice| {
            slice.copy_from_slice(&[0xAA, 0xBB, 0xCC, 0xDD]);
            WriteResult::Dirty(())
        })
        .unwrap();
    });

    // Should be dirty now
    storage.kernel_shadow().with_view(|view| {
        assert!(view.any_dirty());
        assert!(view.is_dirty(0, 4).unwrap());
    });
}

#[test]
fn full_host_kernel_sync_cycle() {
    let mut storage = test_storage();

    // 1. Host writes to addr 0 and 32 -> marks dirty
    storage.host_shadow().with_view(|view| {
        view.with_wo_slice(0, 4, |mut slice| {
            slice.copy_from_slice(&[0x11, 0x22, 0x33, 0x44]);
            WriteResult::Dirty(())
        })
        .unwrap();
        view.with_wo_slice(32, 4, |mut slice| {
            slice.copy_from_slice(&[0xAA, 0xBB, 0xCC, 0xDD]);
            WriteResult::Dirty(())
        })
        .unwrap();
    });

    // 2. Kernel iter_dirty sees both blocks
    storage.kernel_shadow().with_view(|view| {
        let mut dirty_addrs = [0u16; 4];
        let mut count = 0;
        view.iter_dirty(|addr, _data| {
            dirty_addrs[count] = addr;
            count += 1;
            Ok(())
        })
        .unwrap();
        assert_eq!(count, 2);
        assert_eq!(dirty_addrs[0], 0);
        assert_eq!(dirty_addrs[1], 32);
    });

    // 3. Kernel clears block 0 only
    storage.kernel_shadow().with_view(|view| {
        view.clear_dirty(0, 16).unwrap();
    });

    // 4. Host writes to addr 48
    storage.host_shadow().with_view(|view| {
        view.with_wo_slice(48, 4, |mut slice| {
            slice.copy_from_slice(&[0xFF, 0xFF, 0xFF, 0xFF]);
            WriteResult::Dirty(())
        })
        .unwrap();
    });

    // 5. Kernel iter_dirty sees blocks 2 (addr 32) and 3 (addr 48), but not 0
    storage.kernel_shadow().with_view(|view| {
        let mut dirty_addrs = [0u16; 4];
        let mut count = 0;
        view.iter_dirty(|addr, _data| {
            dirty_addrs[count] = addr;
            count += 1;
            Ok(())
        })
        .unwrap();
        assert_eq!(count, 2);
        assert_eq!(dirty_addrs[0], 32);
        assert_eq!(dirty_addrs[1], 48);

        // Verify block 0 is NOT dirty
        assert!(!view.is_dirty(0, 16).unwrap());
    });
}

#[test]
fn staged_storage_commit_cycle() {
    let storage = test_storage();
    let mut storage = storage.with_staging(PatchStagingBuffer::<64, 8>::new());
    storage.host_shadow().with_view(|view| {
        view.alloc_staged(4, 2, |mut s| {
            s.write_u16_be_at(0, 0xBEEF);
            WriteResult::Dirty(())
        })
        .unwrap();
        assert!(view.is_staged());
        let mut buf = [0u8; 2];
        view.read_range_overlay(4, &mut buf).unwrap();
        assert_eq!(buf, [0xBE, 0xEF]);
    });
    storage.kernel_shadow().with_view(|view| assert!(!view.any_dirty()));
    storage.host_shadow().with_view_unchecked(|view| {
        view.commit_staged().unwrap();
        assert!(!view.is_staged());
    });
    storage.kernel_shadow().with_view(|view| {
        assert!(view.is_dirty(0, 16).unwrap());
        view.with_ro_slice(4, 2, |s| assert_eq!(s.read_u16_be_at(0), 0xBEEF))
            .unwrap();
    });
}
