//! Per-core I/O channel fan-out and dynamic-reconfiguration protocol for a
//! virtual block device ("nexus") that aggregates child block devices into one
//! logical device with read-replica mirroring and write-broadcast semantics.
//!
//! Each processing core owns an independent channel context holding per-child
//! read/write handles (`channel`); a topology change is broadcast to every
//! core, each core rebuilds its context from the current child set (`child`),
//! and a single completion signal is resolved once all cores have acknowledged
//! (`reconfigure`). Work is delivered to a core's cooperative execution
//! context through an explicit message queue (`thread`).

pub mod child;
pub mod channel;
pub mod thread;
pub mod reconfigure;
