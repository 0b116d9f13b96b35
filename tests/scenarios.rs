use embedded_shadow::{
    AccessPolicy, AllowAllPolicy, HostView, HostViewStaged, KernelView, NoPersist,
    NoPersistPolicy, PatchStagingBuffer, PersistPolicy, PersistTrigger, KeySink, ShadowError,
    ShadowStorageBuilder, ShadowTable, StagingBuffer, WriteResult,
};

/// Denies writes that touch the bootloader area `[0x000, 0x100)`.
struct BootloaderProtect;

impl AccessPolicy for BootloaderProtect {
    fn read_allowed(&self, _addr: u16, _len: usize) -> bool {
        true
    }
    fn write_allowed(&self, addr: u16, _len: usize) -> bool {
        addr >= 0x100
    }
    fn can_read(&self, addr: u16, len: usize) -> bool {
        self.read_allowed(addr, len)
    }
    fn can_write(&self, addr: u16, len: usize) -> bool {
        self.write_allowed(addr, len)
    }
}

/// Persists writes touching `[0x200, 0x300)`, keyed by their address.
struct ConfigAreaPersist;

impl PersistPolicy<u16> for ConfigAreaPersist {
    fn key_count(&self, addr: u16, len: usize) -> usize {
        if self.wants_persist(addr, len) {
            1
        } else {
            0
        }
    }
    fn key_at(&self, addr: u16, _len: usize, _i: usize) -> u16 {
        addr
    }
    fn wants_persist(&self, addr: u16, len: usize) -> bool {
        (addr as usize) < 0x300 && addr as usize + len > 0x200
    }
    fn push_persist_keys_for_range<T: PersistTrigger<u16>>(
        &self,
        addr: u16,
        len: usize,
        sink: &mut KeySink<'_, u16, T>,
    ) -> bool {
        let end = addr as usize + len;
        if (addr as usize) < 0x300 && end > 0x200 {
            sink.push_key(addr);
            true
        } else {
            false
        }
    }
}

#[derive(Default)]
struct RecordingTrigger {
    keys: Vec<u16>,
    requests: usize,
    calls: Vec<Option<u16>>,
}

impl PersistTrigger<u16> for RecordingTrigger {
    fn push_key(&mut self, key: u16) {
        self.keys.push(key);
        self.calls.push(Some(key));
    }
    fn request_persist(&mut self) {
        self.requests += 1;
        self.calls.push(None);
    }
}

type BigTable = ShadowTable<1024, 64, 16>;

#[test]
fn scenario_basic_sync() {
    let mut storage = ShadowStorageBuilder::new()
        .total_size::<1024>()
        .block_size::<64>()
        .block_count::<16>()
        .default_access()
        .no_persist()
        .build();

    storage.host_shadow().with_view(|view| {
        view.with_wo_slice(0x100, 4, |mut s| {
            s.copy_from_slice(&[0xDE, 0xAD, 0xBE, 0xEF]);
            WriteResult::Dirty(())
        })
        .unwrap();
        view.with_wo_slice(0x200, 8, |mut s| {
            s.copy_from_slice(&[1, 2, 3, 4, 5, 6, 7, 8]);
            WriteResult::Dirty(())
        })
        .unwrap();
    });

    storage.kernel_shadow().with_view(|view| {
        let mut visited = Vec::new();
        view.iter_dirty(|addr, data| {
            visited.push((addr, data.len()));
            Ok(())
        })
        .unwrap();
        assert_eq!(visited, vec![(0x100, 64), (0x200, 64)]);
        view.clear_all_dirty();
        assert!(!view.any_dirty());
    });
}

#[test]
fn scenario_bootloader_protection() {
    let mut table = BigTable::new();
    let policy = BootloaderProtect;
    let persist = NoPersistPolicy::default();
    let mut trigger = NoPersist;
    let mut view = HostView::new(&mut table, &policy, &persist, &mut trigger);

    assert_eq!(
        view.with_wo_slice(0x00, 4, |_| WriteResult::Dirty(())),
        Err(ShadowError::Denied)
    );
    assert_eq!(
        view.with_wo_slice(0xFF, 2, |_| WriteResult::Dirty(())),
        Err(ShadowError::Denied)
    );
    assert_eq!(
        view.with_wo_slice(0x100, 4, |_| WriteResult::Dirty(())),
        Ok(WriteResult::Dirty(()))
    );
    assert_eq!(view.with_ro_slice(0x00, 4, |_| ()), Ok(()));
}

#[test]
fn scenario_staged_commit() {
    let mut table = BigTable::new();
    let policy = AllowAllPolicy::default();
    let persist = NoPersistPolicy::default();
    let mut trigger = NoPersist;
    let mut stage = PatchStagingBuffer::<64, 8>::new();
    let base = HostView::new(&mut table, &policy, &persist, &mut trigger);
    let mut view = HostViewStaged::new(base, &mut stage);

    for (addr, value) in [(0x100u16, 200u16), (0x102, 300), (0x100, 999)] {
        view.alloc_staged(addr, 2, |mut s| {
            s.write_u16_le_at(0, value);
            WriteResult::Dirty(())
        })
        .unwrap();
    }

    let before = view
        .with_ro_slice(0x100, 4, |s| (s.read_u16_le_at(0), s.read_u16_le_at(2)))
        .unwrap();
    assert_eq!(before, (0, 0));

    view.commit_staged().unwrap();

    let after = view
        .with_ro_slice(0x100, 4, |s| (s.read_u16_le_at(0), s.read_u16_le_at(2)))
        .unwrap();
    assert_eq!(after, (999, 300));
}

#[test]
fn scenario_kernel_no_dirty_write() {
    let mut table = BigTable::new();
    {
        let policy = AllowAllPolicy::default();
        let persist = NoPersistPolicy::default();
        let mut trigger = NoPersist;
        let mut host = HostView::new(&mut table, &policy, &persist, &mut trigger);
        host.with_wo_slice(0x000, 1, |mut s| {
            s.write_u8_at(0, 0xAA);
            WriteResult::Dirty(())
        })
        .unwrap();
    }
    {
        let mut kernel = KernelView::new(&mut table);
        let first = kernel.with_ro_slice(0x000, 64, |s| s.read_u8_at(0)).unwrap();
        assert_eq!(first, 0xAA);
        kernel
            .with_rw_slice(0x000, 64, |mut s| s.fill(0x55))
            .unwrap();
        assert!(kernel.is_dirty(0x000, 64).unwrap());
        assert!(!kernel.is_dirty(0x040, 1024 - 0x040).unwrap());
    }
    {
        let policy = AllowAllPolicy::default();
        let persist = NoPersistPolicy::default();
        let mut trigger = NoPersist;
        let host = HostView::new(&mut table, &policy, &persist, &mut trigger);
        assert_eq!(host.with_ro_slice(0x000, 1, |s| s.read_u8_at(0)), Ok(0x55));
    }
}

#[test]
fn scenario_persist_batching_on_commit() {
    let mut table = BigTable::new();
    let policy = AllowAllPolicy::default();
    let persist = ConfigAreaPersist;
    let mut trigger = RecordingTrigger::default();
    let mut stage = PatchStagingBuffer::<64, 8>::new();
    {
        let base = HostView::new(&mut table, &policy, &persist, &mut trigger);
        let mut view = HostViewStaged::new(base, &mut stage);
        for addr in [0x200u16, 0x240, 0x2F0, 0x380] {
            view.alloc_staged(addr, 4, |mut s| {
                s.fill(0x5A);
                WriteResult::Dirty(())
            })
            .unwrap();
        }
        view.commit_staged().unwrap();
    }
    assert_eq!(trigger.keys, vec![0x200, 0x240, 0x2F0]);
    assert_eq!(trigger.requests, 1);
    assert_eq!(
        trigger.calls,
        vec![Some(0x200), Some(0x240), Some(0x2F0), None]
    );
}

#[test]
fn direct_writes_persist_once_per_write() {
    let mut table = BigTable::new();
    let policy = AllowAllPolicy::default();
    let persist = ConfigAreaPersist;
    let mut trigger = RecordingTrigger::default();
    {
        let mut view = HostView::new(&mut table, &policy, &persist, &mut trigger);
        for addr in [0x200u16, 0x240, 0x2F0, 0x380] {
            view.write_range(addr, &[0x5A; 4]).unwrap();
        }
    }
    assert_eq!(trigger.keys, vec![0x200, 0x240, 0x2F0]);
    assert_eq!(trigger.requests, 3);
    assert_eq!(
        trigger.calls,
        vec![Some(0x200), None, Some(0x240), None, Some(0x2F0), None]
    );
}

#[test]
fn commit_matches_direct_writes() {
    let writes: [(u16, &[u8]); 4] = [
        (0x10, &[1, 2, 3, 4]),
        (0x12, &[9, 9]),
        (0x3E, &[7, 7, 7, 7]),
        (0x11, &[5]),
    ];
    let policy = AllowAllPolicy::default();
    let persist = NoPersistPolicy::default();

    let mut direct = BigTable::new();
    {
        let mut trigger = NoPersist;
        let mut view = HostView::new(&mut direct, &policy, &persist, &mut trigger);
        for (addr, data) in writes {
            view.with_wo_slice(addr, data.len(), |mut s| {
                s.copy_from_slice(data);
                WriteResult::Dirty(())
            })
            .unwrap();
        }
    }

    let mut committed = BigTable::new();
    let mut stage = PatchStagingBuffer::<64, 8>::new();
    {
        let mut trigger = NoPersist;
        let base = HostView::new(&mut committed, &policy, &persist, &mut trigger);
        let mut view = HostViewStaged::new(base, &mut stage);
        for (addr, data) in writes {
            view.alloc_staged(addr, data.len(), |mut s| {
                s.copy_from_slice(data);
                WriteResult::Dirty(())
            })
            .unwrap();
        }
        view.commit_staged().unwrap();
    }

    let bytes = |t: &BigTable| t.with_bytes(0, 1024, |d| Ok(d.to_vec())).unwrap();
    assert_eq!(bytes(&direct), bytes(&committed));
    for block in 0..16u16 {
        assert_eq!(
            direct.is_dirty(block * 64, 64),
            committed.is_dirty(block * 64, 64)
        );
    }
    assert_eq!(&bytes(&committed)[0x10..0x14], &[1, 5, 9, 9]);
}

#[test]
fn overlay_matches_commit_then_read() {
    let mut table = BigTable::new();
    table
        .with_bytes_mut(0x20, 8, |b| {
            b.copy_from_slice(&[1, 2, 3, 4, 5, 6, 7, 8]);
            Ok(())
        })
        .unwrap();
    let policy = AllowAllPolicy::default();
    let persist = NoPersistPolicy::default();
    let mut trigger = NoPersist;
    let mut stage = PatchStagingBuffer::<64, 8>::new();
    let base = HostView::new(&mut table, &policy, &persist, &mut trigger);
    let mut view = HostViewStaged::new(base, &mut stage);
    for (addr, data) in [(0x1Eu16, [0xA0u8, 0xA1, 0xA2]), (0x21, [0xB0, 0xB1, 0xB2]), (0x22, [0xC0, 0xC1, 0xC2])] {
        view.alloc_staged(addr, 3, |mut s| {
            s.copy_from_slice(&data);
            WriteResult::Dirty(())
        })
        .unwrap();
    }
    let mut overlaid = [0u8; 8];
    view.read_range_overlay(0x20, &mut overlaid).unwrap();

    // The same entries applied in order to a scratch copy of the range.
    let mut scratch = [1u8, 2, 3, 4, 5, 6, 7, 8];
    view.iter_staged(|addr, s| {
        for i in 0..s.len() {
            let pos = addr as usize + i;
            if (0x20..0x28).contains(&pos) {
                scratch[pos - 0x20] = s.read_u8_at(i);
            }
        }
        Ok(())
    })
    .unwrap();
    assert_eq!(overlaid, scratch);

    view.commit_staged().unwrap();
    let mut committed = [0u8; 8];
    view.read_range(0x20, &mut committed).unwrap();
    assert_eq!(overlaid, committed);
    assert_eq!(committed, [0xA2, 0xB0, 0xC0, 0xC1, 0xC2, 6, 7, 8]);
}

#[test]
fn denied_writes_are_no_ops() {
    let mut table = BigTable::new();
    let policy = BootloaderProtect;
    let persist = ConfigAreaPersist;
    let mut trigger = RecordingTrigger::default();
    let mut stage = PatchStagingBuffer::<64, 8>::new();
    {
        let base = HostView::new(&mut table, &policy, &persist, &mut trigger);
        let mut view = HostViewStaged::new(base, &mut stage);
        let mut called = false;
        assert_eq!(
            view.with_wo_slice(0x10, 4, |mut s| {
                called = true;
                s.fill(1);
                WriteResult::Dirty(())
            }),
            Err(ShadowError::Denied)
        );
        assert!(!called);
        assert_eq!(
            view.alloc_staged(0x10, 4, |_| WriteResult::Dirty(())),
            Err(ShadowError::Denied)
        );
        assert!(!view.is_staged());
    }
    assert!(!table.any_dirty());
    assert!(trigger.keys.is_empty());
    assert_eq!(trigger.requests, 0);
    assert_eq!(
        table.with_bytes(0x10, 4, |d| Ok(d.to_vec())).unwrap(),
        vec![0, 0, 0, 0]
    );
}

#[test]
fn reads_and_clean_writes_leave_dirty_bits() {
    let mut table = BigTable::new();
    table.mark_dirty(0x80, 1).unwrap();
    let policy = AllowAllPolicy::default();
    let persist = NoPersistPolicy::default();
    let mut trigger = NoPersist;
    {
        let mut view = HostView::new(&mut table, &policy, &persist, &mut trigger);
        view.with_ro_slice(0, 1024, |_| ()).unwrap();
        view.with_wo_slice(0x100, 16, |mut s| {
            s.fill(3);
            WriteResult::Clean(())
        })
        .unwrap();
        assert_eq!(view.is_dirty(0x100, 16), Ok(false));
        view.with_wo_slice(0x300, 2, |_| WriteResult::Dirty(())).unwrap();
        assert_eq!(view.is_dirty(0x300, 2), Ok(true));
        assert!(view.any_dirty());
    }
    let mut dirty = Vec::new();
    KernelView::new(&mut table)
        .iter_dirty(|addr, _| {
            dirty.push(addr);
            Ok(())
        })
        .unwrap();
    assert_eq!(dirty, vec![0x80, 0x300]);
}

#[test]
fn stage_buffer_is_empty_after_clear() {
    let mut stage = PatchStagingBuffer::<16, 2>::new();
    stage
        .alloc_staged(0, 16, |s| {
            s.fill(1);
            WriteResult::Dirty(())
        })
        .unwrap();
    assert_eq!(stage.alloc_staged(0, 1, |_| WriteResult::Dirty(())), Err(ShadowError::StageFull));
    stage.clear_staged().unwrap();
    assert_eq!(stage.alloc_staged(0, 1, |_| WriteResult::Dirty(())), Ok(WriteResult::Dirty(())));
}

#[test]
fn empty_commit_touches_nothing() {
    let mut table = BigTable::new();
    let policy = AllowAllPolicy::default();
    let persist = ConfigAreaPersist;
    let mut trigger = RecordingTrigger::default();
    let mut stage = PatchStagingBuffer::<64, 8>::new();
    {
        let base = HostView::new(&mut table, &policy, &persist, &mut trigger);
        let mut view = HostViewStaged::new(base, &mut stage);
        assert_eq!(view.commit_staged(), Ok(()));
    }
    assert!(trigger.calls.is_empty());
    assert!(!table.any_dirty());
}

#[test]
fn failed_commit_reports_first_bad_entry() {
    let mut table = ShadowTable::<64, 16, 4>::new();
    let policy = AllowAllPolicy::default();
    let persist = ConfigAreaPersist;
    let mut trigger = RecordingTrigger::default();
    let mut stage = PatchStagingBuffer::<64, 8>::new();
    {
        let base = HostView::new(&mut table, &policy, &persist, &mut trigger);
        let mut view = HostViewStaged::new(base, &mut stage);
        view.alloc_staged(0, 2, |_| WriteResult::Dirty(())).unwrap();
        view.alloc_staged(10, 0, |_| WriteResult::Dirty(())).unwrap();
        view.alloc_staged(100, 2, |_| WriteResult::Dirty(())).unwrap();
        assert_eq!(view.commit_staged(), Err(ShadowError::ZeroLength));
        assert!(view.is_staged());
    }
    assert_eq!(stage.entry_count(), 3);
    assert_eq!(trigger.requests, 0);
    assert!(table.is_dirty(0, 2).unwrap());
}

#[test]
fn successful_commit_empties_arena() {
    let mut table = BigTable::new();
    let policy = AllowAllPolicy::default();
    let persist = NoPersistPolicy::default();
    let mut trigger = NoPersist;
    let mut stage = PatchStagingBuffer::<64, 8>::new();
    {
        let base = HostView::new(&mut table, &policy, &persist, &mut trigger);
        let mut view = HostViewStaged::new(base, &mut stage);
        view.alloc_staged(0x40, 5, |_| WriteResult::Dirty(())).unwrap();
        view.commit_staged().unwrap();
    }
    assert_eq!(stage.data_len(), 0);
    assert_eq!(stage.entry_count(), 0);
    assert!(table.is_dirty(0x40, 5).unwrap());
}
