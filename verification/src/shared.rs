//! The activity mailbox in one atomic byte, for a writer and a reader on
//! different threads.
//!
//! The byte holds the pending level in a code of three values. Sending is
//! one atomic store of the code of the level, which replaces whatever was
//! pending; receiving is one atomic exchange that leaves the code of the
//! empty mailbox and decodes what it took. Neither operation waits or
//! locks. A single thread that sends and receives sees what
//! [`crate::channel::ActivityChannel`] describes; which level a receive
//! meets when another thread sends is decided by the order of the two
//! atomic operations.

use std::sync::atomic::{AtomicU8, Ordering};
use vstd::prelude::*;

verus! {

/// Code of the empty mailbox.
pub const SLOT_EMPTY: u8 = 0;

/// Code of a pending inactive level.
pub const SLOT_INACTIVE: u8 = 1;

/// Code of a pending active level.
pub const SLOT_ACTIVE: u8 = 2;

/// The code that stands for a pending level, or for none.
pub open spec fn code_of(pending: Option<bool>) -> u8 {
    match pending {
        None => SLOT_EMPTY,
        Some(false) => SLOT_INACTIVE,
        Some(true) => SLOT_ACTIVE,
    }
}

/// The pending level that a code stands for; a byte that is no code of a
/// level stands for none.
pub open spec fn level_of(code: u8) -> Option<bool> {
    if code == SLOT_ACTIVE {
        Some(true)
    } else if code == SLOT_INACTIVE {
        Some(false)
    } else {
        None
    }
}

/// Encodes a pending level. Decoding the result gives the level back.
pub fn slot_code(pending: Option<bool>) -> (code: u8)
    ensures
        code == code_of(pending),
        level_of(code) == pending,
{
    match pending {
        None => SLOT_EMPTY,
        Some(false) => SLOT_INACTIVE,
        Some(true) => SLOT_ACTIVE,
    }
}

/// Decodes a byte taken from the mailbox.
pub fn slot_level(code: u8) -> (pending: Option<bool>)
    ensures
        pending == level_of(code),
{
    if code == SLOT_ACTIVE {
        Some(true)
    } else if code == SLOT_INACTIVE {
        Some(false)
    } else {
        None
    }
}

/// Latest-value mailbox for activity levels that two threads may share.
pub struct SharedActivityChannel {
    slot: AtomicU8,
}

impl SharedActivityChannel {
    /// An empty mailbox.
    pub fn new() -> (channel: SharedActivityChannel) {
        SharedActivityChannel { slot: AtomicU8::new(slot_code(None)) }
    }

    /// Makes `level` the pending level, replacing one not yet collected.
    pub fn send(&self, level: bool) {
        self.slot.store(slot_code(Some(level)), Ordering::Release);
    }

    /// Collects the pending level, if there is one, and empties the mailbox.
    pub fn try_recv(&self) -> (level: Option<bool>) {
        slot_level(self.slot.swap(slot_code(None), Ordering::AcqRel))
    }
}

} // verus!
