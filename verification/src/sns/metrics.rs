//! Counters of the SNS pipeline, reported and reset once per window.

use vstd::prelude::*;
use vstd::wrapping::u64_specs::wrapping_add;

use crate::sns::publisher::counter_after;

verus! {

/// Counters of the SNS pipeline; each wraps around at `u64::MAX`.
///
/// - `resolved`: targets selected by the dispatcher (one per device per event)
/// - `enqueued`: messages placed into the broadcast channel
/// - `lagged`: messages the worker missed because the channel ran ahead
/// - `published`: successful publishes
/// - `failed`: failed publishes
#[derive(Clone, Copy, Debug, PartialEq, Eq, Structural)]
pub struct SnsMetrics {
    pub resolved: u64,
    pub enqueued: u64,
    pub lagged: u64,
    pub published: u64,
    pub failed: u64,
}

impl SnsMetrics {
    /// All counters at zero.
    pub fn new() -> (m: SnsMetrics)
        ensures
            m == (SnsMetrics { resolved: 0, enqueued: 0, lagged: 0, published: 0, failed: 0 }),
    {
        SnsMetrics { resolved: 0, enqueued: 0, lagged: 0, published: 0, failed: 0 }
    }

    pub fn inc_resolved(&mut self)
        ensures
            *final(self) == (SnsMetrics { resolved: wrapping_add(old(self).resolved, 1), ..*old(self) }),
    {
        self.resolved = self.resolved.wrapping_add(1);
    }

    pub fn inc_enqueued(&mut self)
        ensures
            *final(self) == (SnsMetrics { enqueued: wrapping_add(old(self).enqueued, 1), ..*old(self) }),
    {
        self.enqueued = self.enqueued.wrapping_add(1);
    }

    pub fn add_lagged(&mut self, n: u64)
        ensures
            *final(self) == (SnsMetrics { lagged: wrapping_add(old(self).lagged, n), ..*old(self) }),
    {
        self.lagged = self.lagged.wrapping_add(n);
    }

    pub fn inc_published(&mut self)
        ensures
            *final(self) == (SnsMetrics { published: wrapping_add(old(self).published, 1), ..*old(self) }),
    {
        self.published = self.published.wrapping_add(1);
    }

    pub fn inc_failed(&mut self)
        ensures
            *final(self) == (SnsMetrics { failed: wrapping_add(old(self).failed, 1), ..*old(self) }),
    {
        self.failed = self.failed.wrapping_add(1);
    }

    /// Gives the counters of the window that ends and starts a new window
    /// with every counter at zero.
    pub fn take_window(&mut self) -> (window: SnsMetrics)
        ensures
            window == *old(self),
            *final(self) == (SnsMetrics { resolved: 0, enqueued: 0, lagged: 0, published: 0, failed: 0 }),
    {
        let window = *self;
        *self = SnsMetrics::new();
        window
    }
}

/// A counter after `n` increments from `start` holds `start + n` modulo
/// 2^64.
pub proof fn lemma_counter_after(start: u64, n: nat)
    ensures
        counter_after(start, n) as int == (start + n) % 0x1_0000_0000_0000_0000,
    decreases n,
{
    if n > 0 {
        lemma_counter_after(start, (n - 1) as nat);
        vstd::arithmetic::div_mod::lemma_add_mod_noop(start + n - 1, 1, 0x1_0000_0000_0000_0000);
        vstd::arithmetic::div_mod::lemma_small_mod(1, 0x1_0000_0000_0000_0000);
        vstd::arithmetic::div_mod::lemma_mod_bound(start + n - 1, 0x1_0000_0000_0000_0000);
        let p = counter_after(start, (n - 1) as nat);
        if p + 1 < 0x1_0000_0000_0000_0000 {
            vstd::arithmetic::div_mod::lemma_small_mod((p + 1) as nat, 0x1_0000_0000_0000_0000);
        } else {
            vstd::arithmetic::div_mod::lemma_mod_self_0(0x1_0000_0000_0000_0000);
        }
    }
}

/// Splitting a run of increments between two windows neither loses nor
/// repeats any: what the two windows report adds up, modulo 2^64, to what
/// one window over the whole run reports.
pub proof fn law_windows_add_up(first: nat, second: nat)
    ensures
        (counter_after(0, first) + counter_after(0, second)) % 0x1_0000_0000_0000_0000
            == counter_after(0, first + second) as int,
{
    lemma_counter_after(0, first);
    lemma_counter_after(0, second);
    lemma_counter_after(0, first + second);
    vstd::arithmetic::div_mod::lemma_add_mod_noop(first as int, second as int, 0x1_0000_0000_0000_0000);
}

} // verus!
