//! A node of the progress tree: one task's slice of the absolute range.
use crate::channel::{
    added, mark_unseen, open_channel, push, receiver_channel, sender_channel, share, subscribe_to,
};
use crate::conversion::{carry_of, convert, converts, delta_of};
use tokio::sync::watch::{Receiver, Sender};
use vstd::prelude::*;

verus! {

/// What a node is, apart from the channel it reports into.
pub ghost struct NodeView {
    /// The channel the node adds to.
    pub channel: int,
    /// The node's share of the absolute range, fixed at creation.
    pub allocation: u64,
    /// The internal progress at which the node counts as complete.
    pub internal_max: u64,
    /// Internal progress reported but not yet reflected in the total.
    pub unaccounted: u64,
}

/// A fresh node of the given channel: the given allocation and internal
/// maximum, with nothing carried.
pub open spec fn fresh(channel: int, allocation: u64, internal_max: u64) -> NodeView {
    NodeView { channel, allocation, internal_max, unaccounted: 0 }
}

/// Maps the internal progress of one task onto the absolute progress total
/// that all nodes of a tree share.
///
/// Nothing checks that the allocations of children stay within their
/// parent's, nor that reported progress stays within the internal maximum:
/// the total may pass the root's allocation.
pub struct Progress {
    sender: Sender<u64>,
    allocation: u64,
    internal: u64,
    unaccounted: u64,
}

impl View for Progress {
    type V = NodeView;

    closed spec fn view(&self) -> NodeView {
        NodeView {
            channel: sender_channel(self.sender),
            allocation: self.allocation,
            internal_max: self.internal,
            unaccounted: self.unaccounted,
        }
    }
}

impl Progress {
    /// Creates a root node with the given absolute allocation, reporting into
    /// a new total that starts at zero.
    pub fn new(allocation: u64) -> (r: Progress)
        ensures
            r@ == fresh(r@.channel, allocation, 0),
    {
        let tx = open_channel(0);
        Progress::with_internal(tx, allocation, 0)
    }

    /// Creates a node that reports into the channel of `sender`, with the
    /// given allocation and internal maximum.
    pub fn with_internal(sender: Sender<u64>, allocation: u64, internal: u64) -> (r: Progress)
        ensures
            r@ == fresh(sender_channel(sender), allocation, internal),
    {
        Progress { sender, allocation, internal, unaccounted: 0 }
    }

    /// A new reader of this node's total. Its first read reports a change,
    /// whether or not an update came after it subscribed.
    pub fn subscribe(&self) -> (r: Receiver<u64>)
        ensures
            receiver_channel(r) == self@.channel,
    {
        let mut rx = subscribe_to(&self.sender);
        mark_unseen(&mut rx);
        rx
    }

    /// The absolute allocation of this node.
    pub fn allocation(&self) -> (r: &u64)
        ensures
            *r == self@.allocation,
    {
        &self.allocation
    }

    /// Sets the internal progress at which this node counts as complete.
    pub fn set_internal(&mut self, internal: u64)
        ensures
            final(self)@ == (NodeView { internal_max: internal, ..old(self)@ }),
    {
        self.internal = internal;
    }

    /// A child node of the same total with the given allocation, which
    /// should not exceed this node's own.
    pub fn allocate(&self, allocation: u64) -> (r: Progress)
        ensures
            r@ == fresh(self@.channel, allocation, 0),
    {
        Progress::with_internal(share(&self.sender), allocation, 0)
    }

    /// A child node of the same total whose allocation is this node's
    /// divided by `fraction`, rounded down.
    pub fn allocate_fraction(&self, fraction: u64) -> (r: Progress)
        requires
            fraction > 0,
        ensures
            r@ == fresh(self@.channel, self@.allocation / fraction, 0),
    {
        let allocation: u64 = self.allocation / fraction;
        Progress::with_internal(share(&self.sender), allocation, 0)
    }

    /// Adds `progress` to the total as it stands, with no conversion. Use it
    /// only with a delta already in absolute units. Returns the total just
    /// before and just after the addition; the total wraps past `u64::MAX`.
    pub fn advance_raw(&self, progress: u64) -> (r: (u64, u64))
        ensures
            r.1 == added(r.0, progress),
    {
        push(&self.sender, progress)
    }

    /// Converts `progress` internal units into absolute units, adds the
    /// delta to the total, and carries the remainder forward. Returns the
    /// total just before and just after the addition.
    fn step(&mut self, progress: u64) -> (r: (u64, u64))
        requires
            converts(progress, old(self)@.unaccounted, old(self)@.allocation, old(self)@.internal_max),
        ensures
            r.1 == added(r.0, delta_of(progress as int, old(self)@.unaccounted as int,
                old(self)@.allocation as int, old(self)@.internal_max as int) as u64),
            final(self)@ == (NodeView {
                unaccounted: carry_of(progress as int, old(self)@.unaccounted as int,
                    old(self)@.allocation as int, old(self)@.internal_max as int) as u64,
                ..old(self)@
            }),
    {
        let (delta, carried) = convert(progress, self.unaccounted, self.allocation, self.internal);
        self.unaccounted = carried;
        self.advance_raw(delta)
    }

    /// Same as [`Progress::advance`]: with absolute and internal units both
    /// `u64`, the allocation needs no conversion before it scales.
    pub fn advance_mul(&mut self, progress: u64) -> (r: (u64, u64))
        requires
            converts(progress, old(self)@.unaccounted, old(self)@.allocation, old(self)@.internal_max),
        ensures
            r.1 == added(r.0, delta_of(progress as int, old(self)@.unaccounted as int,
                old(self)@.allocation as int, old(self)@.internal_max as int) as u64),
            final(self)@ == (NodeView {
                unaccounted: carry_of(progress as int, old(self)@.unaccounted as int,
                    old(self)@.allocation as int, old(self)@.internal_max as int) as u64,
                ..old(self)@
            }),
    {
        self.step(progress)
    }

    /// Reports `progress` units of internal progress. Adds
    /// `(progress * allocation + unaccounted) / internal_max` to the total and
    /// keeps the remainder of that division as the new `unaccounted`. Returns
    /// the total just before and just after the addition.
    pub fn advance(&mut self, progress: u64) -> (r: (u64, u64))
        requires
            converts(progress, old(self)@.unaccounted, old(self)@.allocation, old(self)@.internal_max),
        ensures
            r.1 == added(r.0, delta_of(progress as int, old(self)@.unaccounted as int,
                old(self)@.allocation as int, old(self)@.internal_max as int) as u64),
            final(self)@ == (NodeView {
                unaccounted: carry_of(progress as int, old(self)@.unaccounted as int,
                    old(self)@.allocation as int, old(self)@.internal_max as int) as u64,
                ..old(self)@
            }),
    {
        self.step(progress)
    }
}

} // verus!
