//! Bookkeeping of image fetches: how many are in flight, and per view a
//! navigation epoch that lets results of fetches spawned for a previous
//! page be recognised and discarded.

use std::collections::HashMap;
use vstd::prelude::*;

use crate::page::ViewId;

verus! {

broadcast use {
    vstd::std_specs::hash::group_hash_axioms,
    vstd::std_specs::hash::axiom_random_state_builds_valid_hashers,
    vstd::std_specs::hash::axiom_usize_obeys_hash_table_key_model,
};

/// The abstract state of a [`FetchTracker`].
pub struct TrackerView {
    /// Image fetches in flight.
    pub inflight: usize,
    /// Navigation epoch per view (absent means 0).
    pub epochs: Map<ViewId, u64>,
}

/// The navigation epoch of `id`.
pub open spec fn epoch_of(epochs: Map<ViewId, u64>, id: ViewId) -> u64 {
    if epochs.contains_key(id) {
        epochs[id]
    } else {
        0
    }
}

/// The epoch after one more navigation (wrapping at 2^64).
pub open spec fn next_epoch(e: u64) -> u64 {
    if e == u64::MAX {
        0
    } else {
        (e + 1) as u64
    }
}

/// The tracker after a navigation of `id`: nothing counted in flight, and
/// the view's epoch advanced.
pub open spec fn navigated(t: TrackerView, id: ViewId) -> TrackerView {
    TrackerView { inflight: 0, epochs: t.epochs.insert(id, next_epoch(epoch_of(t.epochs, id))) }
}

/// The tracker after a fetch result arrived: one fewer in flight (never
/// below zero).
pub open spec fn arrived(t: TrackerView) -> TrackerView {
    TrackerView { inflight: if t.inflight == 0 { 0 } else { (t.inflight - 1) as usize }, ..t }
}

/// Counts image fetches in flight and tags them with navigation epochs.
pub struct FetchTracker {
    inflight_images: usize,
    nav_epochs: HashMap<ViewId, u64>,
}

impl FetchTracker {
    /// The abstract state.
    pub closed spec fn view(&self) -> TrackerView {
        TrackerView { inflight: self.inflight_images, epochs: self.nav_epochs@ }
    }

    /// Nothing in flight, every epoch 0.
    pub fn new() -> (r: Self)
        ensures
            r.view().inflight == 0,
            r.view().epochs == Map::<ViewId, u64>::empty(),
    {
        FetchTracker { inflight_images: 0, nav_epochs: HashMap::new() }
    }

    /// The current navigation epoch of `id`.
    pub fn epoch(&self, id: ViewId) -> (r: u64)
        ensures
            r == epoch_of(self.view().epochs, id),
    {
        match self.nav_epochs.get(&id) {
            Some(e) => *e,
            None => 0,
        }
    }

    /// A navigation of `id` starts: fetches in flight stop counting, and the
    /// view's epoch advances; the new epoch is returned.
    pub fn begin_navigation(&mut self, id: ViewId) -> (r: u64)
        ensures
            final(self).view() == navigated(old(self).view(), id),
            r == next_epoch(epoch_of(old(self).view().epochs, id)),
    {
        self.inflight_images = 0;
        let e = self.epoch(id);
        let next = e.wrapping_add(1);
        proof {
            assert(next == next_epoch(e)) by (bit_vector)
                requires
                    next == (e + 1) as u64 || (e == 0xffff_ffff_ffff_ffffu64 && next == 0),
            ;
        }
        self.nav_epochs.insert(id, next);
        proof {
            assert(self.view().epochs =~= navigated(old(self).view(), id).epochs);
        }
        next
    }

    /// An image fetch for `id` is spawned: one more in flight; the epoch to
    /// tag it with is returned.
    pub fn image_requested(&mut self, id: ViewId) -> (r: u64)
        requires
            old(self).view().inflight < usize::MAX,
        ensures
            final(self).view() == (TrackerView {
                inflight: (old(self).view().inflight + 1) as usize,
                ..old(self).view()
            }),
            r == epoch_of(old(self).view().epochs, id),
    {
        self.inflight_images = self.inflight_images + 1;
        self.epoch(id)
    }

    /// The result of an image fetch for `id` tagged `epoch` arrived: one
    /// fewer in flight; whether it belongs to the page the view shows now.
    pub fn image_arrived(&mut self, id: ViewId, epoch: u64) -> (r: bool)
        ensures
            final(self).view() == arrived(old(self).view()),
            r == (epoch == epoch_of(old(self).view().epochs, id)),
    {
        self.inflight_images = self.inflight_images.saturating_sub(1);
        epoch == self.epoch(id)
    }

    /// Whether no image fetch is in flight (staged images may be flushed).
    pub fn settled(&self) -> (r: bool)
        ensures
            r == (self.view().inflight == 0),
    {
        self.inflight_images == 0
    }

    /// The number of image fetches in flight.
    pub fn inflight(&self) -> (r: usize)
        ensures
            r == self.view().inflight,
    {
        self.inflight_images
    }
}

} // verus!
