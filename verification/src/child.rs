//! Model of the child block devices a nexus aggregates.
//!
//! The child devices themselves live outside this subsystem; what the channel
//! logic reads of a child is its usability state and whether acquiring a read
//! or a write handle on it currently succeeds. A child is held here as those
//! plain values, keyed by an opaque numeric identifier, in the device's stable
//! enumeration order.

use vstd::prelude::*;

verus! {

/// Why a child was marked faulted. This subsystem only ever faults a child
/// because a handle could not be acquired for it.
#[derive(Clone, Copy, Debug, PartialEq, Eq, Structural)]
pub enum Reason {
    /// A read or write handle could not be acquired during a channel
    /// (re)build, so the child cannot take part in I/O.
    CantOpen,
}

/// Usability state of a child, as the channel logic consumes it.
#[derive(Clone, Copy, Debug, PartialEq, Eq, Structural)]
pub enum ChildState {
    /// Fully usable: eligible for reads and writes.
    Open,
    /// Not part of the I/O path at all.
    Closed,
    /// Unusable, with the reason it was faulted.
    Faulted(Reason),
    /// Being resynchronized: must receive writes, never serves reads.
    Rebuilding,
}

/// One child of the device, as the per-core channel logic sees it: its
/// identifier, its usability state, and whether acquiring each kind of handle
/// on it currently succeeds (acquisition may fail independently per kind).
#[derive(Clone, Copy, Debug, PartialEq, Eq, Structural)]
pub struct Child {
    /// Opaque identifier of the child within its device.
    pub id: u64,
    /// Current usability state.
    pub state: ChildState,
    /// Whether acquiring a read handle on this child succeeds.
    pub read_ok: bool,
    /// Whether acquiring a write handle on this child succeeds.
    pub write_ok: bool,
}

impl Child {
    /// A child on which both handle acquisitions succeed.
    pub fn new(id: u64, state: ChildState) -> (c: Child)
        ensures
            c == (Child { id, state, read_ok: true, write_ok: true }),
    {
        Child { id, state, read_ok: true, write_ok: true }
    }
}

} // verus!
