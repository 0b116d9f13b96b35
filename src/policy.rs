//! Access control and persistence policies.
use crate::persist::{KeySink, PersistTrigger};
use vstd::prelude::*;

verus! {

/// Controls read/write access to shadow table regions.
///
/// A policy is a pure predicate: the same range always gets the same answer.
/// Implementations give that answer as `read_allowed` / `write_allowed`, and
/// `can_read` / `can_write` must return it.
pub trait AccessPolicy {
    /// Whether reading `len` bytes at `addr` is allowed.
    spec fn read_allowed(&self, addr: u16, len: usize) -> bool;

    /// Whether writing `len` bytes at `addr` is allowed.
    spec fn write_allowed(&self, addr: u16, len: usize) -> bool;

    /// Returns true if reading from `addr` for `len` bytes is allowed.
    fn can_read(&self, addr: u16, len: usize) -> (r: bool)
        ensures
            r == self.read_allowed(addr, len),
    ;

    /// Returns true if writing to `addr` for `len` bytes is allowed.
    fn can_write(&self, addr: u16, len: usize) -> (r: bool)
        ensures
            r == self.write_allowed(addr, len),
    ;
}

/// Default policy that allows all reads and writes.
#[derive(Debug, Default, Clone, Copy)]
pub struct AllowAllPolicy {}

impl AccessPolicy for AllowAllPolicy {
    open spec fn read_allowed(&self, addr: u16, len: usize) -> bool {
        true
    }

    open spec fn write_allowed(&self, addr: u16, len: usize) -> bool {
        true
    }

    fn can_read(&self, _addr: u16, _len: usize) -> (r: bool) {
        true
    }

    fn can_write(&self, _addr: u16, _len: usize) -> (r: bool) {
        true
    }
}

/// Determines which regions require persistence and emits keys for them.
///
/// Implementations give their answer for a range as `wants_persist`, and
/// the keys a write to the range is filed under as `key_count` and
/// `key_at`; `push_persist_keys_for_range` must push exactly those keys, in
/// that order, and return `wants_persist`.
pub trait PersistPolicy<PK>: Sized {
    /// Whether a write to `len` bytes at `addr` asks for a save.
    spec fn wants_persist(&self, addr: u16, len: usize) -> bool;

    /// How many keys a write to `len` bytes at `addr` is filed under.
    spec fn key_count(&self, addr: u16, len: usize) -> usize;

    /// Key number `i` of a write to `len` bytes at `addr`.
    spec fn key_at(&self, addr: u16, len: usize, i: usize) -> PK;

    /// Pushes the persistence keys for the given range into `sink` and
    /// returns true if persistence is needed.
    fn push_persist_keys_for_range<T: PersistTrigger<PK>>(
        &self,
        addr: u16,
        len: usize,
        sink: &mut KeySink<'_, PK, T>,
    ) -> (r: bool)
        ensures
            r == self.wants_persist(addr, len),
            final(sink).pushed() == old(sink).pushed() + Seq::new(
                self.key_count(addr, len) as nat,
                |i: int| self.key_at(addr, len, i as usize),
            ),
    ;
}

/// The keys of a write to `len` bytes at `addr` under policy `pp`, in order.
pub open spec fn persist_keys<PK, PP: PersistPolicy<PK>>(pp: &PP, addr: u16, len: usize) -> Seq<PK> {
    Seq::new(pp.key_count(addr, len) as nat, |i: int| pp.key_at(addr, len, i as usize))
}

/// Default policy that never triggers persistence.
#[derive(Debug, Default, Clone, Copy)]
pub struct NoPersistPolicy {}

impl PersistPolicy<()> for NoPersistPolicy {
    open spec fn wants_persist(&self, addr: u16, len: usize) -> bool {
        false
    }

    open spec fn key_count(&self, addr: u16, len: usize) -> usize {
        0
    }

    open spec fn key_at(&self, addr: u16, len: usize, i: usize) -> () {
        ()
    }

    fn push_persist_keys_for_range<T: PersistTrigger<()>>(
        &self,
        _addr: u16,
        _len: usize,
        _sink: &mut KeySink<'_, (), T>,
    ) -> (r: bool) {
        assert(_sink.pushed() + Seq::new(0, |i: int| ()) =~= _sink.pushed());
        false
    }
}

} // verus!
