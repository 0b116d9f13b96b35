//! Laws that relate the operations of the library to one another.
use crate::persist::PersistEvent;
use crate::policy::PersistPolicy;
use crate::staged::PatchStagingBuffer;
use crate::table::ShadowTable;
use crate::types::StagingBuffer;
use vstd::prelude::*;

verus! {

/// Every well-formed table has `TS == BS * BC`, and every well-formed patch
/// staging buffer uses at most `DC` bytes and `EC` entries.
pub proof fn size_identity<
    const TS: usize,
    const BS: usize,
    const BC: usize,
    const DC: usize,
    const EC: usize,
>(table: ShadowTable<TS, BS, BC>, stage: PatchStagingBuffer<DC, EC>)
    requires
        table.wf(),
        stage.stage_wf(),
    ensures
        TS == BS * BC,
        1 <= BS,
        1 <= BC,
        stage.data_used() <= DC,
        stage.count() <= EC,
        stage.arena_laid_out(),
{
    stage.lemma_bounds();
}

/// Clearing the dirty bits of a range twice leaves the table as clearing
/// them once does.
pub proof fn clear_dirty_idempotent<const TS: usize, const BS: usize, const BC: usize>(
    t0: ShadowTable<TS, BS, BC>,
    t1: ShadowTable<TS, BS, BC>,
    t2: ShadowTable<TS, BS, BC>,
    addr: u16,
    len: usize,
)
    requires
        t0.clear_effect(t1, addr, len),
        t1.clear_effect(t2, addr, len),
    ensures
        t2.bytes_view() == t1.bytes_view(),
        t2.dirty_view() == t1.dirty_view(),
{
    let span = crate::table::span_blocks(BS as int, addr as int, len as int);
    assert(t0.dirty_view().difference(span).difference(span) =~= t0.dirty_view().difference(span));
}

/// The number of entries for which `wants` holds.
pub open spec fn count_wanting(wants: spec_fn(u16, usize) -> bool, entries: Seq<(u16, Seq<u8>)>) -> nat
    decreases entries.len(),
{
    if entries.len() == 0 {
        0
    } else {
        count_wanting(wants, entries.drop_last()) + if wants(
            entries.last().0,
            entries.last().1.len() as usize,
        ) {
            1nat
        } else {
            0nat
        }
    }
}

/// Commit equivalence: writing staged entries one by one, each write
/// copying its bytes and marking its blocks dirty as `write_range` does,
/// ends in the bytes and dirty blocks that `commit_staged` produces; and
/// those writes request a save once per entry the policy wants saved,
/// where the commit requests one save exactly when that count is not zero.
pub proof fn commit_equivalence(
    bs: int,
    states: Seq<(Seq<u8>, Set<int>)>,
    entries: Seq<(u16, Seq<u8>)>,
    wants: spec_fn(u16, usize) -> bool,
)
    requires
        states.len() == entries.len() + 1,
        forall|k: int|
            0 <= k < entries.len() ==> #[trigger] states[k + 1] == (
                crate::slice::splice(states[k].0, entries[k].0 as int, entries[k].1),
                states[k].1.union(
                    crate::table::span_blocks(bs, entries[k].0 as int, entries[k].1.len() as int),
                ),
            ),
    ensures
        states.last().0 == crate::types::apply_entries(states[0].0, entries),
        states.last().1 == states[0].1.union(crate::host_staged::entries_blocks(bs, entries)),
        count_wanting(wants, entries) > 0 <==> exists|k: int|
            0 <= k < entries.len() && #[trigger] wants(entries[k].0, entries[k].1.len() as usize),
    decreases entries.len(),
{
    if entries.len() == 0 {
        assert(states[0].1.union(Set::<int>::empty()) =~= states[0].1);
    } else {
        let n = entries.len() - 1;
        let prev_states = states.subrange(0, n + 1);
        let prev_entries = entries.drop_last();
        assert forall|k: int| 0 <= k < prev_entries.len() implies #[trigger] prev_states[k + 1] == (
            crate::slice::splice(prev_states[k].0, prev_entries[k].0 as int, prev_entries[k].1),
            prev_states[k].1.union(
                crate::table::span_blocks(
                    bs,
                    prev_entries[k].0 as int,
                    prev_entries[k].1.len() as int,
                ),
            ),
        ) by {
            assert(states[k + 1] == prev_states[k + 1]);
        }
        commit_equivalence(bs, prev_states, prev_entries, wants);
        assert(states[n + 1] == (
            crate::slice::splice(states[n].0, entries[n].0 as int, entries[n].1),
            states[n].1.union(
                crate::table::span_blocks(bs, entries[n].0 as int, entries[n].1.len() as int),
            ),
        ));
        assert(prev_states.last() == states[n]);
        assert(states[0].1.union(crate::host_staged::entries_blocks(bs, entries)) =~= states[0].1.union(
            crate::host_staged::entries_blocks(bs, prev_entries),
        ).union(crate::table::span_blocks(bs, entries[n].0 as int, entries[n].1.len() as int)));
        if count_wanting(wants, entries) > 0 {
            if !wants(entries[n].0, entries[n].1.len() as usize) {
                let k = choose|k: int|
                    0 <= k < prev_entries.len() && #[trigger] wants(
                        prev_entries[k].0,
                        prev_entries[k].1.len() as usize,
                    );
                assert(prev_entries[k] == entries[k]);
            }
        }
        if exists|k: int|
            0 <= k < entries.len() && #[trigger] wants(entries[k].0, entries[k].1.len() as usize) {
            let k = choose|k: int|
                0 <= k < entries.len() && #[trigger] wants(entries[k].0, entries[k].1.len() as usize);
            if k < n {
                assert(prev_entries[k] == entries[k]);
            }
        }
    }
}

/// Keeps the `push_key` events of a sequence of trigger calls.
pub open spec fn is_key<PK>() -> spec_fn(PersistEvent<PK>) -> bool {
    |e: PersistEvent<PK>| e is Key
}

/// The trigger calls of writing the entries one by one with
/// `HostView::write_range`: for each entry its keys, then a request when
/// the policy asks for a save.
pub open spec fn direct_events<PK, PP: PersistPolicy<PK>>(
    pp: &PP,
    entries: Seq<(u16, Seq<u8>)>,
) -> Seq<PersistEvent<PK>>
    decreases entries.len(),
{
    if entries.len() == 0 {
        Seq::empty()
    } else {
        let e = entries.last();
        direct_events(pp, entries.drop_last()) + crate::persist::key_events(
            crate::policy::persist_keys(pp, e.0, e.1.len() as usize),
        ) + if pp.wants_persist(e.0, e.1.len() as usize) {
            seq![PersistEvent::Request]
        } else {
            Seq::empty()
        }
    }
}

proof fn lemma_key_events_are_keys<PK>(keys: Seq<PK>)
    ensures
        crate::persist::key_events(keys).filter(is_key()) == crate::persist::key_events(keys),
    decreases keys.len(),
{
    reveal(Seq::filter);
    if keys.len() > 0 {
        lemma_key_events_are_keys(keys.drop_last());
        assert(crate::persist::key_events(keys).drop_last() =~= crate::persist::key_events(
            keys.drop_last(),
        ));
        assert(crate::persist::key_events(keys) =~= crate::persist::key_events(keys.drop_last()).push(
            PersistEvent::Key(keys.last()),
        ));
    }
}

/// Commit keys: leaving out the save requests, the trigger calls of writing
/// the entries one by one are exactly the keys `commit_staged` pushes, in
/// the same order; the commit then adds its single request after them.
pub proof fn commit_keys_match_direct<PK, PP: PersistPolicy<PK>>(
    pp: &PP,
    entries: Seq<(u16, Seq<u8>)>,
)
    ensures
        direct_events(pp, entries).filter(is_key()) == crate::host_staged::entries_key_events(
            pp,
            entries,
        ),
    decreases entries.len(),
{
    reveal(Seq::filter);
    if entries.len() > 0 {
        let e = entries.last();
        let prev = direct_events(pp, entries.drop_last());
        let keys = crate::persist::key_events(
            crate::policy::persist_keys(pp, e.0, e.1.len() as usize),
        );
        let req: Seq<PersistEvent<PK>> = if pp.wants_persist(e.0, e.1.len() as usize) {
            seq![PersistEvent::Request]
        } else {
            Seq::empty()
        };
        commit_keys_match_direct(pp, entries.drop_last());
        lemma_key_events_are_keys(crate::policy::persist_keys(pp, e.0, e.1.len() as usize));
        Seq::filter_distributes_over_add(prev + keys, req, is_key());
        Seq::filter_distributes_over_add(prev, keys, is_key());
        assert(req.filter(is_key()) =~= Seq::<PersistEvent<PK>>::empty()) by {
            reveal(Seq::filter);
            if req.len() > 0 {
                assert(req.drop_last() =~= Seq::<PersistEvent<PK>>::empty());
            }
        }
        assert(direct_events(pp, entries) == prev + keys + req);
        assert(prev + keys + Seq::<PersistEvent<PK>>::empty() =~= prev + keys);
    }
}

/// Whether every entry lies inside a `len`-byte table.
pub open spec fn entries_within(len: int, entries: Seq<(u16, Seq<u8>)>) -> bool {
    forall|k: int|
        0 <= k < entries.len() ==> #[trigger] entries[k].0 as int + entries[k].1.len() <= len
}

/// Overlay, last writer wins: overlaying the staged entries in order on the
/// bytes of a range gives the bytes that range holds once the entries are
/// written into the table in order, as `commit_staged` does.
pub proof fn overlay_matches_commit(
    bytes: Seq<u8>,
    entries: Seq<(u16, Seq<u8>)>,
    addr: int,
    len: int,
)
    requires
        0 <= addr,
        0 <= len,
        addr + len <= bytes.len(),
        entries_within(bytes.len() as int, entries),
    ensures
        crate::types::overlay(bytes.subrange(addr, addr + len), addr, entries)
            == crate::types::apply_entries(bytes, entries).subrange(addr, addr + len),
        crate::types::apply_entries(bytes, entries).len() == bytes.len(),
    decreases entries.len(),
{
    if entries.len() == 0 {
    } else {
        let prev = entries.drop_last();
        let e = entries.last();
        assert(entries_within(bytes.len() as int, prev)) by {
            assert forall|k: int| 0 <= k < prev.len() implies #[trigger] prev[k].0 as int
                + prev[k].1.len() <= bytes.len() by {
                assert(prev[k] == entries[k]);
            }
        }
        overlay_matches_commit(bytes, prev, addr, len);
        assert(entries[entries.len() - 1] == e);
        let before = crate::types::apply_entries(bytes, prev);
        let o = crate::types::overlay(bytes.subrange(addr, addr + len), addr, prev);
        assert(crate::types::overlay_one(o, addr, e) =~= crate::slice::splice(
            before,
            e.0 as int,
            e.1,
        ).subrange(addr, addr + len));
    }
}

} // verus!
