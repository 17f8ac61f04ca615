//! The view bookkeeping of the basic web view widget: views are addressed
//! by their position in creation order, one of them is current, and the
//! widget mirrors the current view's URL and title.

use vstd::prelude::*;

use crate::page::ViewId;
use crate::tracker::{arrived, epoch_of, navigated, FetchTracker, TrackerView};

verus! {

broadcast use vstd::string::group_string_axioms;

/// The abstract state of the basic widget.
pub struct BasicView {
    /// Viewport width and height.
    pub size: (u32, u32),
    /// Position (in `ids`) of the current view.
    pub current: Option<usize>,
    /// The engine's ids of the open views, in creation order.
    pub ids: Seq<ViewId>,
    /// Positions of the views that have been current, least recently
    /// current first; the last one is the view used last.
    pub used: Seq<usize>,
    /// Last URL reported for the current view.
    pub url: Seq<char>,
    /// Last title reported for the current view.
    pub title: Seq<char>,
    /// Image fetch bookkeeping.
    pub fetches: TrackerView,
}

/// The current position, if any, and every remembered position name open
/// views.
pub open spec fn selection_valid(v: BasicView) -> bool {
    &&& v.current matches Some(c) ==> c < v.ids.len()
    &&& forall|k: int| 0 <= k < v.used.len() ==> v.used[k] < v.ids.len()
}

/// The engine id of the view at position `index`.
pub open spec fn id_at(v: BasicView, index: int) -> Option<ViewId> {
    if 0 <= index < v.ids.len() {
        Some(v.ids[index])
    } else {
        None
    }
}

/// The engine id of the current view.
pub open spec fn current_id(v: BasicView) -> Option<ViewId> {
    match v.current {
        Some(c) => id_at(v, c as int),
        None => None,
    }
}

/// The usage history `used` without the position `i`.
pub open spec fn without_position(used: Seq<usize>, i: usize) -> Seq<usize>
    decreases used.len(),
{
    if used.len() == 0 {
        Seq::empty()
    } else if used.last() == i {
        without_position(used.drop_last(), i)
    } else {
        without_position(used.drop_last(), i).push(used.last())
    }
}

/// Where the view at position `p` ends up once the view at `i` is closed.
pub open spec fn shifted(p: usize, i: int) -> usize {
    if p > i {
        (p - 1) as usize
    } else {
        p
    }
}

/// The usage history `used` once the view at position `i` is closed: that
/// position is forgotten and the later ones move down by one.
pub open spec fn drop_position(used: Seq<usize>, i: int) -> Seq<usize>
    decreases used.len(),
{
    if used.len() == 0 {
        Seq::empty()
    } else if used.last() == i {
        drop_position(used.drop_last(), i)
    } else {
        drop_position(used.drop_last(), i).push(shifted(used.last(), i))
    }
}

/// The view used last, if any.
pub open spec fn last_used(used: Seq<usize>) -> Option<usize> {
    if used.len() == 0 {
        None
    } else {
        Some(used.last())
    }
}

/// `ChangeView(index)`: the view at `index` becomes current (and the view
/// used last), if it exists.
pub open spec fn change_view_spec(v: BasicView, index: u32) -> BasicView {
    if index < v.ids.len() {
        BasicView {
            current: Some(index as usize),
            used: without_position(v.used, index as usize).push(index as usize),
            ..v
        }
    } else {
        v
    }
}

/// The position of the current view once the view at `index` is closed:
/// none if it was that one, one less if it came after it.
pub open spec fn current_after_close(current: Option<usize>, index: int) -> Option<usize> {
    match current {
        Some(c) => if c == index {
            None
        } else {
            Some(shifted(c, index))
        },
        None => None,
    }
}

/// `CloseView(index)`: the view at `index` is dropped and the current one
/// keeps pointing at the same view.
pub open spec fn close_view_spec(v: BasicView, index: u32) -> BasicView {
    if index < v.ids.len() {
        BasicView {
            ids: v.ids.remove(index as int),
            current: current_after_close(v.current, index as int),
            used: drop_position(v.used, index as int),
            ..v
        }
    } else {
        v
    }
}

/// How `CloseCurrentView` went.
#[derive(Clone, Copy, Debug, PartialEq, Eq, Structural)]
pub enum CloseCurrent {
    /// No view is current: nothing happens.
    NoneSelected,
    /// The current view (this engine id) was closed.
    Closed(ViewId),
    /// The current position no longer names a view (this position); it is
    /// forgotten.
    Stale(usize),
}

/// `CloseCurrentView`: the current view is dropped and the view used last
/// among the remaining ones becomes current (none when no other open view
/// has been current).
pub open spec fn close_current_spec(v: BasicView) -> (BasicView, CloseCurrent) {
    match v.current {
        None => (v, CloseCurrent::NoneSelected),
        Some(c) => if c < v.ids.len() {
            (
                BasicView {
                    ids: v.ids.remove(c as int),
                    current: last_used(drop_position(v.used, c as int)),
                    used: drop_position(v.used, c as int),
                    ..v
                },
                CloseCurrent::Closed(v.ids[c as int]),
            )
        } else {
            (BasicView { current: None, ..v }, CloseCurrent::Stale(c))
        },
    }
}

/// Forgetting a position keeps the others and their order, and the
/// remembered positions stay below `n`.
proof fn lemma_without_position(used: Seq<usize>, i: usize, n: int)
    requires
        forall|k: int| 0 <= k < used.len() ==> used[k] < n,
    ensures
        forall|k: int|
            0 <= k < without_position(used, i).len() ==> without_position(used, i)[k] < n
                && without_position(used, i)[k] != i,
    decreases used.len(),
{
    if used.len() > 0 {
        assert(forall|k: int| 0 <= k < used.drop_last().len() ==> used.drop_last()[k] == used[k]);
        lemma_without_position(used.drop_last(), i, n);
        let rest = without_position(used.drop_last(), i);
        if used.last() != i {
            assert(forall|k: int| 0 <= k < rest.len() ==> rest.push(used.last())[k] == rest[k]);
        }
    }
}

/// Once the view at `i` of `n` views is closed, the remembered positions
/// name the remaining `n - 1` views.
pub proof fn lemma_drop_position(used: Seq<usize>, i: int, n: int)
    requires
        0 <= i < n,
        forall|k: int| 0 <= k < used.len() ==> used[k] < n,
    ensures
        forall|k: int| 0 <= k < drop_position(used, i).len() ==> drop_position(used, i)[k] < n - 1,
    decreases used.len(),
{
    if used.len() > 0 {
        assert(forall|k: int| 0 <= k < used.drop_last().len() ==> used.drop_last()[k] == used[k]);
        lemma_drop_position(used.drop_last(), i, n);
        let rest = drop_position(used.drop_last(), i);
        if used.last() != i {
            assert(shifted(used.last(), i) < n - 1);
            assert(forall|k: int| 0 <= k < rest.len() ==> rest.push(shifted(used.last(), i))[k] == rest[k]);
        }
    }
}

/// [`without_position`], computed.
fn history_without(used: &Vec<usize>, i: usize) -> (r: Vec<usize>)
    ensures
        r@ == without_position(used@, i),
{
    let mut r: Vec<usize> = Vec::new();
    let mut k: usize = 0;
    while k < used.len()
        invariant
            k <= used.len(),
            r@ == without_position(used@.take(k as int), i),
        decreases used.len() - k,
    {
        proof {
            assert(used@.take(k + 1).drop_last() =~= used@.take(k as int));
        }
        if used[k] != i {
            r.push(used[k]);
        }
        k = k + 1;
    }
    proof {
        assert(used@.take(used.len() as int) =~= used@);
    }
    r
}

/// [`drop_position`], computed.
fn history_after_close(used: &Vec<usize>, i: usize) -> (r: Vec<usize>)
    ensures
        r@ == drop_position(used@, i as int),
{
    let mut r: Vec<usize> = Vec::new();
    let mut k: usize = 0;
    while k < used.len()
        invariant
            k <= used.len(),
            r@ == drop_position(used@.take(k as int), i as int),
        decreases used.len() - k,
    {
        proof {
            assert(used@.take(k + 1).drop_last() =~= used@.take(k as int));
        }
        let p = used[k];
        if p > i {
            r.push(p - 1);
        } else if p < i {
            r.push(p);
        }
        k = k + 1;
    }
    proof {
        assert(used@.take(used.len() as int) =~= used@);
    }
    r
}

/// The view bookkeeping of the basic widget.
pub struct BasicState {
    view_size: (u32, u32),
    current_view_index: Option<usize>,
    view_ids: Vec<ViewId>,
    used: Vec<usize>,
    url: String,
    title: String,
    fetches: FetchTracker,
}

impl BasicState {
    /// The abstract state.
    pub closed spec fn view(&self) -> BasicView {
        BasicView {
            size: self.view_size,
            current: self.current_view_index,
            ids: self.view_ids@,
            used: self.used@,
            url: self.url@,
            title: self.title@,
            fetches: self.fetches.view(),
        }
    }

    /// No views, a 1920 x 1080 viewport, no URL or title yet.
    pub fn new() -> (r: Self)
        ensures
            r.view().size == (1920u32, 1080u32),
            r.view().current is None,
            r.view().ids == Seq::<ViewId>::empty(),
            r.view().used == Seq::<usize>::empty(),
            r.view().url.len() == 0,
            r.view().title.len() == 0,
            r.view().fetches.inflight == 0,
            r.view().fetches.epochs == Map::<ViewId, u64>::empty(),
            selection_valid(r.view()),
    {
        BasicState {
            view_size: (1920, 1080),
            current_view_index: None,
            view_ids: Vec::new(),
            used: Vec::new(),
            url: String::new(),
            title: String::new(),
            fetches: FetchTracker::new(),
        }
    }

    /// Set the initial viewport size used before the first resize event.
    pub fn with_initial_size(self, width: u32, height: u32) -> (r: Self)
        ensures
            r.view() == (BasicView { size: (width, height), ..self.view() }),
    {
        BasicState { view_size: (width, height), ..self }
    }

    /// The viewport size.
    pub fn view_size(&self) -> (r: (u32, u32))
        ensures
            r == self.view().size,
    {
        self.view_size
    }

    /// The engine id of the current view.
    pub fn current_view_id(&self) -> (r: Option<ViewId>)
        ensures
            r == current_id(self.view()),
    {
        match self.current_view_index {
            Some(idx) => if idx < self.view_ids.len() {
                Some(self.view_ids[idx])
            } else {
                None
            },
            None => None,
        }
    }

    /// The engine id of the view at position `index`.
    pub fn index_as_view_id(&self, index: u32) -> (r: Option<ViewId>)
        ensures
            r == id_at(self.view(), index as int),
    {
        let i = index as usize;
        if i < self.view_ids.len() {
            Some(self.view_ids[i])
        } else {
            None
        }
    }

    /// The number of open views.
    pub fn view_count(&self) -> (r: usize)
        ensures
            r == self.view().ids.len(),
    {
        self.view_ids.len()
    }

    /// Records the URL the engine reports for the current view; returns it
    /// when it differs from the one recorded before (a change to announce).
    pub fn note_url(&mut self, engine_url: String) -> (r: Option<String>)
        ensures
            engine_url@ != old(self).view().url ==> (r matches Some(u) && u@ == engine_url@
                && final(self).view() == (BasicView { url: engine_url@, ..old(self).view() })),
            engine_url@ == old(self).view().url ==> (r is None && final(self).view() == old(
                self,
            ).view()),
    {
        if self.url != engine_url {
            self.url = engine_url.clone();
            Some(engine_url)
        } else {
            None
        }
    }

    /// Records the title the engine reports for the current view; returns
    /// it when it differs from the one recorded before.
    pub fn note_title(&mut self, engine_title: String) -> (r: Option<String>)
        ensures
            engine_title@ != old(self).view().title ==> (r matches Some(t) && t@ == engine_title@
                && final(self).view() == (BasicView {
                title: engine_title@,
                ..old(self).view()
            })),
            engine_title@ == old(self).view().title ==> (r is None && final(self).view() == old(
                self,
            ).view()),
    {
        if self.title != engine_title {
            self.title = engine_title.clone();
            Some(engine_title)
        } else {
            None
        }
    }

    /// `ChangeView(index)`: makes the view at `index` current and returns
    /// its engine id, or returns `None` (and changes nothing) when there is
    /// no such view.
    pub fn change_view(&mut self, index: u32) -> (r: Option<ViewId>)
        ensures
            final(self).view() == change_view_spec(old(self).view(), index),
            r == id_at(old(self).view(), index as int),
            selection_valid(old(self).view()) ==> selection_valid(final(self).view()),
    {
        let i = index as usize;
        if i < self.view_ids.len() {
            proof {
                if selection_valid(self.view()) {
                    lemma_without_position(self.used@, i, self.view_ids@.len() as int);
                }
            }
            self.current_view_index = Some(i);
            let mut used = history_without(&self.used, i);
            used.push(i);
            self.used = used;
            Some(self.view_ids[i])
        } else {
            None
        }
    }

    /// `CloseCurrentView`: drops the current view from the list and makes
    /// the view used last among the remaining ones current.
    pub fn close_current_view(&mut self) -> (r: CloseCurrent)
        ensures
            (final(self).view(), r) == close_current_spec(old(self).view()),
            selection_valid(old(self).view()) ==> selection_valid(final(self).view()),
    {
        match self.current_view_index {
            None => CloseCurrent::NoneSelected,
            Some(idx) => if idx < self.view_ids.len() {
                proof {
                    if selection_valid(self.view()) {
                        assert(self.view().used == self.used@);
                        lemma_drop_position(self.used@, idx as int, self.view_ids@.len() as int);
                    }
                }
                let id = self.view_ids.remove(idx);
                let used = history_after_close(&self.used, idx);
                self.current_view_index = if used.len() > 0 {
                    Some(used[used.len() - 1])
                } else {
                    None
                };
                self.used = used;
                CloseCurrent::Closed(id)
            } else {
                self.current_view_index = None;
                CloseCurrent::Stale(idx)
            },
        }
    }

    /// `CloseView(index)`: drops the view at `index` and returns its engine
    /// id, keeping the current position on the same view; `None` when there
    /// is no such view.
    pub fn close_view(&mut self, index: u32) -> (r: Option<ViewId>)
        ensures
            final(self).view() == close_view_spec(old(self).view(), index),
            r == id_at(old(self).view(), index as int),
            selection_valid(old(self).view()) ==> selection_valid(final(self).view()),
    {
        let i = index as usize;
        if i < self.view_ids.len() {
            proof {
                if selection_valid(self.view()) {
                    lemma_drop_position(self.used@, i as int, self.view_ids@.len() as int);
                }
            }
            let id = self.view_ids.remove(i);
            self.used = history_after_close(&self.used, i);
            self.current_view_index = match self.current_view_index {
                Some(current) => if current == i {
                    None
                } else if current > i {
                    Some(current - 1)
                } else {
                    Some(current)
                },
                None => None,
            };
            Some(id)
        } else {
            None
        }
    }

    /// Records a newly created view as the last one.
    pub fn add_view(&mut self, id: ViewId)
        ensures
            final(self).view() == (BasicView { ids: old(self).view().ids.push(id), ..old(self).view() }),
            selection_valid(old(self).view()) ==> selection_valid(final(self).view()),
    {
        self.view_ids.push(id);
    }

    /// `GoToUrl`: when a view is current, a navigation of it starts (image
    /// fetches in flight stop counting, its epoch advances); returns its id.
    pub fn begin_navigation(&mut self) -> (r: Option<ViewId>)
        ensures
            r == current_id(old(self).view()),
            match r {
                Some(id) => final(self).view() == (BasicView {
                    fetches: navigated(old(self).view().fetches, id),
                    ..old(self).view()
                }),
                None => final(self).view() == old(self).view(),
            },
    {
        match self.current_view_id() {
            Some(id) => {
                self.fetches.begin_navigation(id);
                Some(id)
            },
            None => None,
        }
    }

    /// `Resize(width, height)`: records a new viewport size; whether it
    /// changed.
    pub fn resize(&mut self, width: u32, height: u32) -> (r: bool)
        ensures
            r == (old(self).view().size != (width, height)),
            final(self).view() == (BasicView { size: (width, height), ..old(self).view() }),
    {
        if self.view_size.0 != width || self.view_size.1 != height {
            self.view_size = (width, height);
            true
        } else {
            false
        }
    }

    /// An image fetch for view `id` is spawned; the epoch to tag it with.
    pub fn image_requested(&mut self, id: ViewId) -> (r: u64)
        requires
            old(self).view().fetches.inflight < usize::MAX,
        ensures
            final(self).view() == (BasicView {
                fetches: TrackerView {
                    inflight: (old(self).view().fetches.inflight + 1) as usize,
                    ..old(self).view().fetches
                },
                ..old(self).view()
            }),
            r == epoch_of(old(self).view().fetches.epochs, id),
    {
        self.fetches.image_requested(id)
    }

    /// An image fetch result for view `id` tagged `epoch` arrived; whether
    /// it is for the page the view shows now.
    pub fn image_arrived(&mut self, id: ViewId, epoch: u64) -> (r: bool)
        ensures
            final(self).view() == (BasicView {
                fetches: arrived(old(self).view().fetches),
                ..old(self).view()
            }),
            r == (epoch == epoch_of(old(self).view().fetches.epochs, id)),
    {
        self.fetches.image_arrived(id, epoch)
    }

    /// Whether every image fetch has completed.
    pub fn images_settled(&self) -> (r: bool)
        ensures
            r == (self.view().fetches.inflight == 0),
    {
        self.fetches.settled()
    }

    /// The number of image fetches in flight.
    pub fn images_in_flight(&self) -> (r: usize)
        ensures
            r == self.view().fetches.inflight,
    {
        self.fetches.inflight()
    }

    /// Get the current view's URL.
    pub fn current_url(&self) -> (r: &str)
        ensures
            r@ == self.view().url,
    {
        self.url.as_str()
    }

    /// Get the current view's title.
    pub fn current_title(&self) -> (r: &str)
        ensures
            r@ == self.view().title,
    {
        self.title.as_str()
    }
}

} // verus!
