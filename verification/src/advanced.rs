//! The view bookkeeping of the advanced web view widget: views are
//! addressed by engine id, and the widget mirrors each view's URL and
//! title.

use std::collections::HashMap;
use vstd::prelude::*;

use crate::page::ViewId;
use crate::tracker::{arrived, epoch_of, navigated, next_epoch, FetchTracker, TrackerView};
use vstd::std_specs::iter::IteratorSpec;

verus! {

broadcast use {
    vstd::string::group_string_axioms,
    vstd::std_specs::hash::group_hash_axioms,
    vstd::std_specs::hash::axiom_random_state_builds_valid_hashers,
    vstd::std_specs::hash::axiom_usize_obeys_hash_table_key_model,
};

/// The abstract state of the advanced widget.
pub struct AdvancedView {
    /// Viewport width and height.
    pub size: (u32, u32),
    /// Last URL reported per tracked view.
    pub urls: Map<ViewId, String>,
    /// Last title reported per tracked view.
    pub titles: Map<ViewId, String>,
    /// Image fetch bookkeeping.
    pub fetches: TrackerView,
}

/// The recorded text for `id` in `m`, if `id` is tracked.
pub open spec fn text_for(m: Map<ViewId, String>, id: ViewId) -> Option<Seq<char>> {
    if m.contains_key(id) {
        Some(m[id]@)
    } else {
        None
    }
}

/// The view of an optional string slice.
pub open spec fn opt_str_view(o: Option<&str>) -> Option<Seq<char>> {
    match o {
        Some(s) => Some(s@),
        None => None,
    }
}

/// The view bookkeeping of the advanced widget.
pub struct AdvancedState {
    view_size: (u32, u32),
    urls: HashMap<ViewId, String>,
    titles: HashMap<ViewId, String>,
    fetches: FetchTracker,
}

impl AdvancedState {
    /// The abstract state.
    pub closed spec fn view(&self) -> AdvancedView {
        AdvancedView {
            size: self.view_size,
            urls: self.urls@,
            titles: self.titles@,
            fetches: self.fetches.view(),
        }
    }

    /// No views, a 1920 x 1080 viewport.
    pub fn new() -> (r: Self)
        ensures
            r.view().size == (1920u32, 1080u32),
            r.view().urls == Map::<ViewId, String>::empty(),
            r.view().titles == Map::<ViewId, String>::empty(),
            r.view().fetches.inflight == 0,
            r.view().fetches.epochs == Map::<ViewId, u64>::empty(),
    {
        AdvancedState {
            view_size: (1920, 1080),
            urls: HashMap::new(),
            titles: HashMap::new(),
            fetches: FetchTracker::new(),
        }
    }

    /// Set the initial viewport size used before the first resize event.
    pub fn with_initial_size(self, width: u32, height: u32) -> (r: Self)
        ensures
            r.view() == (AdvancedView { size: (width, height), ..self.view() }),
    {
        AdvancedState { view_size: (width, height), ..self }
    }

    /// The viewport size.
    pub fn view_size(&self) -> (r: (u32, u32))
        ensures
            r == self.view().size,
    {
        self.view_size
    }

    /// The ids of the views whose URL is tracked, each once, in no
    /// particular order.
    pub fn tracked_urls(&self) -> (r: Vec<ViewId>)
        ensures
            r@.to_set() == self.view().urls.dom(),
            r@.no_duplicates(),
    {
        let mut r: Vec<ViewId> = Vec::new();
        for k in it: self.urls.keys()
            invariant
                r@ == it.seq().unref().take(it.index() as int),
                it.index() == it.seq().len() ==> r@ == it.seq().unref(),
                it.seq().unref().to_set() == self.urls@.dom(),
                it.seq().unref().no_duplicates(),
        {
            r.push(*k);
            proof {
                assert(it.seq().unref().take(it.seq().len() as int) =~= it.seq().unref());
            }
        }
        r
    }

    /// The ids of the views whose title is tracked, each once, in no
    /// particular order.
    pub fn tracked_titles(&self) -> (r: Vec<ViewId>)
        ensures
            r@.to_set() == self.view().titles.dom(),
            r@.no_duplicates(),
    {
        let mut r: Vec<ViewId> = Vec::new();
        for k in it: self.titles.keys()
            invariant
                r@ == it.seq().unref().take(it.index() as int),
                it.index() == it.seq().len() ==> r@ == it.seq().unref(),
                it.seq().unref().to_set() == self.titles@.dom(),
                it.seq().unref().no_duplicates(),
        {
            r.push(*k);
            proof {
                assert(it.seq().unref().take(it.seq().len() as int) =~= it.seq().unref());
            }
        }
        r
    }

    /// Records the URL the engine reports for view `id`; returns it when the
    /// view is tracked and it differs from the one recorded before.
    pub fn note_url(&mut self, id: ViewId, engine_url: String) -> (r: Option<String>)
        ensures
            (old(self).view().urls.contains_key(id) && old(self).view().urls[id]@ != engine_url@)
                ==> (r matches Some(u) && u@ == engine_url@ && final(self).view() == (AdvancedView {
                urls: old(self).view().urls.insert(id, engine_url),
                ..old(self).view()
            })),
            !(old(self).view().urls.contains_key(id) && old(self).view().urls[id]@
                != engine_url@) ==> (r is None && final(self).view() == old(self).view()),
    {
        let changed = match self.urls.get(&id) {
            Some(u) => *u != engine_url,
            None => false,
        };
        if changed {
            self.urls.insert(id, engine_url.clone());
            Some(engine_url)
        } else {
            None
        }
    }

    /// Records the title the engine reports for view `id`; returns it when
    /// the view is tracked and it differs from the one recorded before.
    pub fn note_title(&mut self, id: ViewId, engine_title: String) -> (r: Option<String>)
        ensures
            (old(self).view().titles.contains_key(id) && old(self).view().titles[id]@
                != engine_title@) ==> (r matches Some(t) && t@ == engine_title@ && final(self).view()
                == (AdvancedView {
                titles: old(self).view().titles.insert(id, engine_title),
                ..old(self).view()
            })),
            !(old(self).view().titles.contains_key(id) && old(self).view().titles[id]@
                != engine_title@) ==> (r is None && final(self).view() == old(self).view()),
    {
        let changed = match self.titles.get(&id) {
            Some(t) => *t != engine_title,
            None => false,
        };
        if changed {
            self.titles.insert(id, engine_title.clone());
            Some(engine_title)
        } else {
            None
        }
    }

    /// `CloseView(id)`: the view's URL and title are no longer tracked.
    pub fn close_view(&mut self, id: ViewId)
        ensures
            final(self).view() == (AdvancedView {
                urls: old(self).view().urls.remove(id),
                titles: old(self).view().titles.remove(id),
                ..old(self).view()
            }),
    {
        self.urls.remove(&id);
        self.titles.remove(&id);
    }

    /// A view was created: its URL and title are tracked, both empty.
    pub fn track_view(&mut self, id: ViewId)
        ensures
            final(self).view().urls.remove(id) == old(self).view().urls.remove(id),
            final(self).view().titles.remove(id) == old(self).view().titles.remove(id),
            final(self).view().size == old(self).view().size,
            final(self).view().fetches == old(self).view().fetches,
            text_for(final(self).view().urls, id) == Some(Seq::<char>::empty()),
            text_for(final(self).view().titles, id) == Some(Seq::<char>::empty()),
    {
        self.urls.insert(id, String::new());
        self.titles.insert(id, String::new());
        proof {
            assert(self.urls@.remove(id) =~= old(self).urls@.remove(id));
            assert(self.titles@.remove(id) =~= old(self).titles@.remove(id));
        }
    }

    /// `GoToUrl(id, ..)`: a navigation of view `id` starts; its new epoch.
    pub fn begin_navigation(&mut self, id: ViewId) -> (r: u64)
        ensures
            final(self).view() == (AdvancedView {
                fetches: navigated(old(self).view().fetches, id),
                ..old(self).view()
            }),
            r == next_epoch(epoch_of(old(self).view().fetches.epochs, id)),
    {
        self.fetches.begin_navigation(id)
    }

    /// `Resize(width, height)`: records a new viewport size; whether it
    /// changed.
    pub fn resize(&mut self, width: u32, height: u32) -> (r: bool)
        ensures
            r == (old(self).view().size != (width, height)),
            final(self).view() == (AdvancedView { size: (width, height), ..old(self).view() }),
    {
        if self.view_size.0 != width || self.view_size.1 != height {
            self.view_size = (width, height);
            true
        } else {
            false
        }
    }

    /// An image fetch for view `id` is spawned; the epoch to tag it with.
    pub fn image_requested(&mut self, id: ViewId) -> (r: u64)
        requires
            old(self).view().fetches.inflight < usize::MAX,
        ensures
            final(self).view() == (AdvancedView {
                fetches: TrackerView {
                    inflight: (old(self).view().fetches.inflight + 1) as usize,
                    ..old(self).view().fetches
                },
                ..old(self).view()
            }),
            r == epoch_of(old(self).view().fetches.epochs, id),
    {
        self.fetches.image_requested(id)
    }

    /// An image fetch result for view `id` tagged `epoch` arrived; whether
    /// it is for the page the view shows now.
    pub fn image_arrived(&mut self, id: ViewId, epoch: u64) -> (r: bool)
        ensures
            final(self).view() == (AdvancedView {
                fetches: arrived(old(self).view().fetches),
                ..old(self).view()
            }),
            r == (epoch == epoch_of(old(self).view().fetches.epochs, id)),
    {
        self.fetches.image_arrived(id, epoch)
    }

    /// Whether every image fetch has completed.
    pub fn images_settled(&self) -> (r: bool)
        ensures
            r == (self.view().fetches.inflight == 0),
    {
        self.fetches.settled()
    }

    /// Get the URL for a specific view
    pub fn url_for(&self, id: ViewId) -> (r: Option<&str>)
        ensures
            opt_str_view(r) == text_for(self.view().urls, id),
    {
        match self.urls.get(&id) {
            Some(u) => Some(u.as_str()),
            None => None,
        }
    }

    /// Get the title for a specific view
    pub fn title_for(&self, id: ViewId) -> (r: Option<&str>)
        ensures
            opt_str_view(r) == text_for(self.view().titles, id),
    {
        match self.titles.get(&id) {
            Some(t) => Some(t.as_str()),
            None => None,
        }
    }
}

} // verus!
