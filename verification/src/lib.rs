//! A verified core for a BLS12-381 pairing-check circuit gadget.
//!
//! Given a base-curve point, a twist point and a claimed pairing value — all
//! supplied as native-field witness cells holding 108-bit limbs and identity
//! flags — the gadget reconstructs the foreign-field operands inside a fresh
//! arithmetic-chip context, requests the pairing from that context, replays
//! the context's deferred gate records into concrete circuit cells, and binds
//! the externally supplied cells to the internally produced ones with copy
//! constraints.
//!
//! The arithmetic chip that realises foreign-field arithmetic and the pairing
//! itself as gates, and the constraint system that later checks the circuit,
//! are external collaborators: this crate models their interfaces (contexts,
//! records, regions, cells) as plain data and proves that the gadget drives
//! them correctly — lossless limb decoding, deterministic cell allocation,
//! and a complete, exactly-once binding of every external witness cell.
use vstd::prelude::*;

pub mod bigint;
pub mod binder;
pub mod chip;
pub mod cell;
pub mod context;
pub mod codec;
pub mod digits;
pub mod layouter;
pub mod loader;
pub mod replay;
pub mod value;

verus! {

/// Fatal outcomes of a circuit-building pass. Circuit construction is
/// one-shot: none of these is retried or recovered from.
#[derive(Clone, Copy, Debug, PartialEq, Eq, Structural)]
pub enum Error {
    /// Record replay needs more rows or columns than the chips provide.
    Capacity,
    /// A deferred cell was referenced but never produced by replay.
    Consistency,
    /// The dispatch-layer entry point is a contract stub.
    Unimplemented,
}

} // verus!
