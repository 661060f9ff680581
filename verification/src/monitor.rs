//! Monitoring of block application: how many blocks were applied since the node
//! started and since the last snapshot, and which block was applied last. The speeds
//! (blocks per minute) are floating-point quotients of these counts by the time elapsed
//! since `first_update` and `last_update`; the caller computes them.

use crate::hash_encoding::{block_hash_prefix, block_hash_to_b58, spec_b58check_encode};
use std::time::Instant;
use vstd::prelude::*;

verus! {

#[verifier::external_type_specification]
#[verifier::external_body]
pub struct ExInstant(Instant);

/// Calls `std::time::Instant::now`. Nothing is claimed of the instant it returns.
#[verifier::external_body]
fn instant_now() -> Instant {
    Instant::now()
}

/// A block that the node has applied: what monitoring reads of it.
pub struct BlockApplied {
    pub hash: Vec<u8>,
    pub level: i32,
    /// Seconds since the Unix epoch, from the block header.
    pub timestamp: i64,
}

/// A block as reported by a snapshot: its hash as text and its level.
pub struct BlockInfo {
    pub hash: String,
    pub level: i32,
}

/// Counts the applied blocks.
pub struct ApplicationMonitor {
    total_applied: usize,
    current_applied: usize,
    last_applied_block: Option<BlockApplied>,
    first_update: Instant,
    last_update: Instant,
}

impl ApplicationMonitor {
    /// Blocks applied since the monitor was created.
    pub closed spec fn spec_total_applied(&self) -> nat {
        self.total_applied as nat
    }

    /// Blocks applied since the last snapshot (or since the monitor was created).
    pub closed spec fn spec_current_applied(&self) -> nat {
        self.current_applied as nat
    }

    /// The block applied last.
    pub closed spec fn spec_last_applied_block(&self) -> Option<BlockApplied> {
        self.last_applied_block
    }

    /// When the monitor was created.
    pub closed spec fn spec_first_update(&self) -> Instant {
        self.first_update
    }

    /// When the last snapshot was taken (or the monitor was created).
    pub closed spec fn spec_last_update(&self) -> Instant {
        self.last_update
    }

    /// Blocks applied since the last snapshot are among those applied since creation.
    pub open spec fn wf(&self) -> bool {
        self.spec_current_applied() <= self.spec_total_applied()
    }

    /// A monitor that has seen no block, created now.
    pub fn new() -> (m: ApplicationMonitor)
        ensures
            m.wf(),
            m.spec_total_applied() == 0,
            m.spec_current_applied() == 0,
            m.spec_last_applied_block() is None,
            m.spec_first_update() == m.spec_last_update(),
    {
        let now = instant_now();
        ApplicationMonitor {
            total_applied: 0,
            current_applied: 0,
            last_applied_block: None,
            first_update: now,
            last_update: now,
        }
    }

    /// Records that `block_info` was applied.
    pub fn block_was_applied(&mut self, block_info: BlockApplied)
        requires
            old(self).wf(),
            old(self).spec_total_applied() < usize::MAX,
        ensures
            final(self).wf(),
            final(self).spec_total_applied() == old(self).spec_total_applied() + 1,
            final(self).spec_current_applied() == old(self).spec_current_applied() + 1,
            final(self).spec_last_applied_block() == Some(block_info),
            final(self).spec_first_update() == old(self).spec_first_update(),
            final(self).spec_last_update() == old(self).spec_last_update(),
    {
        self.total_applied = self.total_applied + 1;
        self.current_applied = self.current_applied + 1;
        self.last_applied_block = Some(block_info);
    }

    /// Blocks applied since the monitor was created.
    pub fn total_applied(&self) -> (n: usize)
        ensures
            n == self.spec_total_applied(),
    {
        self.total_applied
    }

    /// Blocks applied since the last snapshot.
    pub fn current_applied(&self) -> (n: usize)
        ensures
            n == self.spec_current_applied(),
    {
        self.current_applied
    }

    /// When the monitor was created.
    pub fn first_update(&self) -> (t: Instant)
        ensures
            t == self.spec_first_update(),
    {
        self.first_update
    }

    /// When the last snapshot was taken.
    pub fn last_update(&self) -> (t: Instant)
        ensures
            t == self.spec_last_update(),
    {
        self.last_update
    }

    /// Takes a snapshot at instant `now`: reports the block applied last (its hash as
    /// base58check text) and starts counting the blocks of the next snapshot from zero,
    /// from `now` on.
    pub fn snapshot_at(&mut self, now: Instant) -> (last: Option<BlockInfo>)
        requires
            old(self).wf(),
        ensures
            final(self).wf(),
            final(self).spec_total_applied() == old(self).spec_total_applied(),
            final(self).spec_current_applied() == 0,
            final(self).spec_last_applied_block() == old(self).spec_last_applied_block(),
            final(self).spec_first_update() == old(self).spec_first_update(),
            final(self).spec_last_update() == now,
            last is None <==> old(self).spec_last_applied_block() is None,
            last matches Some(info) ==> ({
                let b = old(self).spec_last_applied_block()->Some_0;
                &&& info.hash@ == spec_b58check_encode(block_hash_prefix() + b.hash@)
                &&& info.level == b.level
            }),
    {
        let last_block = match &self.last_applied_block {
            Some(block) => Some(BlockInfo { hash: block_hash_to_b58(block.hash.as_slice()), level: block.level }),
            None => None,
        };
        self.current_applied = 0;
        self.last_update = now;
        last_block
    }

    /// Takes a snapshot now: as [`ApplicationMonitor::snapshot_at`] with the current
    /// instant.
    pub fn snapshot(&mut self) -> (last: Option<BlockInfo>)
        requires
            old(self).wf(),
        ensures
            final(self).wf(),
            final(self).spec_total_applied() == old(self).spec_total_applied(),
            final(self).spec_current_applied() == 0,
            final(self).spec_last_applied_block() == old(self).spec_last_applied_block(),
            final(self).spec_first_update() == old(self).spec_first_update(),
            last is None <==> old(self).spec_last_applied_block() is None,
            last matches Some(info) ==> ({
                let b = old(self).spec_last_applied_block()->Some_0;
                &&& info.hash@ == spec_b58check_encode(block_hash_prefix() + b.hash@)
                &&& info.level == b.level
            }),
    {
        let now = instant_now();
        self.snapshot_at(now)
    }
}

} // verus!
