//! Receivers of persistence keys.
use vstd::prelude::*;

verus! {

/// Receives persistence keys and triggers storage operations.
pub trait PersistTrigger<PK> {
    /// Queues a key identifying data that needs to be persisted.
    fn push_key(&mut self, key: PK);

    /// Signals that queued keys should be persisted to storage.
    fn request_persist(&mut self);
}

/// No-op trigger that discards all persistence requests.
#[derive(Debug, Default, Clone, Copy)]
pub struct NoPersist;

impl<PK> PersistTrigger<PK> for NoPersist {
    fn push_key(&mut self, _key: PK) {
    }

    fn request_persist(&mut self) {
    }
}

/// A call made on a persistence trigger: `push_key` with a key, or
/// `request_persist`.
pub enum PersistEvent<PK> {
    Key(PK),
    Request,
}

/// The `push_key` events of `keys`, in order.
pub open spec fn key_events<PK>(keys: Seq<PK>) -> Seq<PersistEvent<PK>> {
    keys.map_values(|k: PK| PersistEvent::Key(k))
}

/// The channel through which a persistence policy hands keys to the trigger.
///
/// Every key pushed here goes straight to the trigger's `push_key`; the sink
/// remembers, for the proofs, which keys went through it and in what order.
pub struct KeySink<'t, PK, PT: PersistTrigger<PK>> {
    trigger: &'t mut PT,
    pushed: Ghost<Seq<PK>>,
}

impl<'t, PK, PT: PersistTrigger<PK>> KeySink<'t, PK, PT> {
    /// The keys passed to the trigger through this sink, oldest first.
    pub closed spec fn pushed(&self) -> Seq<PK> {
        self.pushed@
    }

    /// A sink over `trigger` that has passed on no key yet.
    pub fn new(trigger: &'t mut PT) -> (r: Self)
        ensures
            r.pushed() == Seq::<PK>::empty(),
    {
        KeySink { trigger, pushed: Ghost(Seq::empty()) }
    }

    /// Passes `key` to the trigger's `push_key`.
    pub fn push_key(&mut self, key: PK)
        ensures
            final(self).pushed() == old(self).pushed().push(key),
    {
        let ghost k = key;
        self.trigger.push_key(key);
        self.pushed = Ghost(self.pushed@.push(k));
    }
}

} // verus!
