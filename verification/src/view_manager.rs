//! The views of an engine, each under an id that is never handed out twice.

use vstd::prelude::*;

use crate::page::ViewId;

verus! {

/// The ids of `e` are pairwise distinct.
pub open spec fn distinct_ids<V>(e: Seq<(ViewId, V)>) -> bool {
    forall|i: int, j: int| 0 <= i < e.len() && 0 <= j < e.len() && i != j ==> e[i].0 != e[j].0
}

/// Some entry of `e` has id `id`.
pub open spec fn has_id<V>(e: Seq<(ViewId, V)>, id: ViewId) -> bool {
    exists|i: int| 0 <= i < e.len() && e[i].0 == id
}

/// Views by id, in creation order; ids are allocated in increasing order.
pub struct ViewManager<V> {
    ids: Vec<ViewId>,
    views: Vec<V>,
    next_id: ViewId,
}

/// The entries that parallel lists of ids and views describe.
spec fn paired<V>(ids: Seq<ViewId>, views: Seq<V>) -> Seq<(ViewId, V)> {
    Seq::new(ids.len(), |i: int| (ids[i], views[i]))
}

/// Ids are distinct and all below `next`.
spec fn ids_fresh(ids: Seq<ViewId>, next: ViewId) -> bool {
    &&& forall|i: int, j: int| 0 <= i < ids.len() && 0 <= j < ids.len() && i != j ==> ids[i] != ids[j]
    &&& forall|i: int| 0 <= i < ids.len() ==> ids[i] < next
}

impl<V> ViewManager<V> {
    /// The views with their ids, in creation order.
    pub closed spec fn entries(&self) -> Seq<(ViewId, V)> {
        paired(self.ids@, self.views@)
    }

    /// The id the next inserted view gets.
    pub closed spec fn next(&self) -> ViewId {
        self.next_id
    }

    /// One view per id; ids are distinct and all below the next id.
    #[verifier::type_invariant]
    spec fn wf(&self) -> bool {
        &&& self.ids@.len() == self.views@.len()
        &&& ids_fresh(self.ids@, self.next_id)
    }

    /// No views; the first id is 0.
    pub fn new() -> (r: Self)
        ensures
            r.entries() == Seq::<(ViewId, V)>::empty(),
            r.next() == 0,
    {
        let r = ViewManager { ids: Vec::new(), views: Vec::new(), next_id: 0 };
        assert(r.entries() =~= Seq::<(ViewId, V)>::empty());
        r
    }

    /// Adds a view under a fresh id, which is returned.
    pub fn insert(&mut self, view: V) -> (id: ViewId)
        requires
            old(self).next() < usize::MAX,
        ensures
            id == old(self).next(),
            !has_id(old(self).entries(), id),
            final(self).entries() == old(self).entries().push((id, view)),
            final(self).next() == id + 1,
    {
        proof {
            use_type_invariant(&*self);
        }
        let id = self.next_id;
        let mut taken = ViewManager { ids: Vec::new(), views: Vec::new(), next_id: id };
        std::mem::swap(&mut taken, self);
        proof {
            use_type_invariant(&taken);
        }
        let ViewManager { mut ids, mut views, next_id: _ } = taken;
        let ghost old_ids = ids@;
        let ghost old_entries = paired(ids@, views@);
        ids.push(id);
        views.push(view);
        proof {
            assert forall|i: int| 0 <= i < ids@.len() implies ids@[i] < id + 1 by {
                if i < old_ids.len() {
                    assert(ids@[i] == old_ids[i]);
                }
            }
            assert forall|a: int, b: int|
                0 <= a < ids@.len() && 0 <= b < ids@.len() && a != b implies ids@[a] != ids@[b] by {
                if a < old_ids.len() && b < old_ids.len() {
                    assert(ids@[a] == old_ids[a] && ids@[b] == old_ids[b]);
                } else if a < old_ids.len() {
                    assert(old_ids[a] < id);
                } else {
                    assert(old_ids[b] < id);
                }
            }
            if has_id(old_entries, id) {
                let k = choose|k: int| 0 <= k < old_entries.len() && old_entries[k].0 == id;
                assert(old_ids[k] < id);
            }
            assert(paired(ids@, views@) =~= old_entries.push((id, view)));
        }
        *self = ViewManager { ids, views, next_id: id + 1 };
        id
    }

    /// The position of the view with id `id`.
    fn position(&self, id: ViewId) -> (r: Option<usize>)
        ensures
            match r {
                Some(i) => i < self.entries().len() && self.entries()[i as int].0 == id,
                None => !has_id(self.entries(), id),
            },
    {
        proof {
            use_type_invariant(self);
        }
        let mut i: usize = 0;
        while i < self.ids.len()
            invariant
                i <= self.ids@.len(),
                self.ids@.len() == self.views@.len(),
                forall|j: int| 0 <= j < i ==> self.ids@[j] != id,
            decreases self.ids.len() - i,
        {
            if self.ids[i] == id {
                return Some(i);
            }
            i = i + 1;
        }
        None
    }

    /// Whether a view with this id exists.
    pub fn contains(&self, id: ViewId) -> (r: bool)
        ensures
            r == has_id(self.entries(), id),
    {
        self.position(id).is_some()
    }

    /// The view with id `id`.
    pub fn get(&self, id: ViewId) -> (r: Option<&V>)
        ensures
            match r {
                Some(v) => exists|i: int|
                    0 <= i < self.entries().len() && self.entries()[i].0 == id && self.entries()[i].1
                        == *v,
                None => !has_id(self.entries(), id),
            },
    {
        proof {
            use_type_invariant(self);
        }
        match self.position(id) {
            Some(i) => {
                let r = &self.views[i];
                assert(self.entries()[i as int].1 == *r);
                Some(r)
            },
            None => None,
        }
    }

    /// The view with id `id`, for changes; nothing else changes.
    pub fn get_mut(&mut self, id: ViewId) -> (r: Option<&mut V>)
        ensures
            final(self).next() == old(self).next(),
            match r {
                Some(v) => exists|i: int|
                    0 <= i < old(self).entries().len() && old(self).entries()[i].0 == id && *v == old(
                        self,
                    ).entries()[i].1 && final(self).entries() == old(self).entries().update(
                        i,
                        (id, *final(v)),
                    ),
                None => !has_id(old(self).entries(), id) && final(self).entries() == old(
                    self,
                ).entries(),
            },
    {
        proof {
            use_type_invariant(&*self);
        }
        match self.position(id) {
            Some(i) => {
                let ghost old_ids = self.ids@;
                let ghost old_views = self.views@;
                let r = &mut self.views[i];
                proof {
                    assert(paired(old_ids, old_views.update(i as int, *final(r))) =~= paired(
                        old_ids,
                        old_views,
                    ).update(i as int, (id, *final(r))));
                }
                Some(r)
            },
            None => None,
        }
    }

    /// Removes the view with id `id`, returning it; the others keep their
    /// order.
    pub fn remove(&mut self, id: ViewId) -> (r: Option<V>)
        ensures
            final(self).next() == old(self).next(),
            !has_id(final(self).entries(), id),
            match r {
                Some(v) => exists|i: int|
                    0 <= i < old(self).entries().len() && old(self).entries()[i] == (id, v)
                        && final(self).entries() == old(self).entries().remove(i),
                None => !has_id(old(self).entries(), id) && final(self).entries() == old(
                    self,
                ).entries(),
            },
    {
        proof {
            use_type_invariant(&*self);
        }
        match self.position(id) {
            Some(i) => {
                let next = self.next_id;
                let mut taken = ViewManager { ids: Vec::new(), views: Vec::new(), next_id: next };
                std::mem::swap(&mut taken, self);
                proof {
                    use_type_invariant(&taken);
                }
                let ViewManager { mut ids, mut views, next_id: _ } = taken;
                let ghost old_ids = ids@;
                let ghost old_entries = paired(ids@, views@);
                ids.remove(i);
                let v = views.remove(i);
                proof {
                    assert(ids@ =~= old_ids.remove(i as int));
                    assert forall|a: int, b: int|
                        0 <= a < ids@.len() && 0 <= b < ids@.len() && a != b implies ids@[a]
                        != ids@[b] by {
                        let oa = if a < i { a } else { a + 1 };
                        let ob = if b < i { b } else { b + 1 };
                        assert(ids@[a] == old_ids[oa]);
                        assert(ids@[b] == old_ids[ob]);
                    }
                    assert forall|k: int| 0 <= k < ids@.len() implies ids@[k] < next by {
                        let ok = if k < i { k } else { k + 1 };
                        assert(ids@[k] == old_ids[ok]);
                    }
                    let e = paired(ids@, views@);
                    assert(e =~= old_entries.remove(i as int));
                    if has_id(e, id) {
                        let k = choose|k: int| 0 <= k < e.len() && e[k].0 == id;
                        let ok = if k < i { k } else { k + 1 };
                        assert(e[k] == old_entries[ok]);
                        assert(old_ids[ok] != old_ids[i as int]);
                    }
                    assert(old_entries[i as int] == (id, v));
                }
                *self = ViewManager { ids, views, next_id: next };
                Some(v)
            },
            None => None,
        }
    }

    /// The ids of all views, in creation order; no id occurs twice.
    pub fn keys(&self) -> (r: Vec<ViewId>)
        ensures
            r@ == self.entries().map_values(|e: (ViewId, V)| e.0),
            distinct_ids(self.entries()),
    {
        proof {
            use_type_invariant(self);
        }
        let r = self.ids.clone();
        assert(r@ =~= self.entries().map_values(|e: (ViewId, V)| e.0));
        r
    }

    /// The id the next inserted view gets.
    pub fn next_id(&self) -> (r: ViewId)
        ensures
            r == self.next(),
    {
        self.next_id
    }

    /// The number of views.
    pub fn len(&self) -> (r: usize)
        ensures
            r == self.entries().len(),
    {
        self.ids.len()
    }
}

} // verus!
