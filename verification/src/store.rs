//! The store of visual elements, indexed by handle, and the resolution of the
//! position of an element to a rectangle of the canvas.

use std::collections::HashMap;
use vstd::prelude::*;
use crate::clock::spec_lerp;
use crate::geometry::{Frame, Rect, ScreenDimensions};
use crate::id_generator::Id;
use crate::model::{VisElem, VisElemPos};
use crate::pin_point::{along, spec_along, PinPoint};

verus! {

/// The rectangle of something of extent `dims` that is placed by `pos` in a
/// parent that covers `parent`: the point of the parent that
/// `in_parent_pin_point` denotes, moved by `coords`, is where the point of
/// the thing that `pin_point` denotes lands.
pub open spec fn place(parent: Frame, pos: VisElemPos, dims: ScreenDimensions) -> Frame {
    Frame {
        x: parent.x + spec_along(pos.in_parent_pin_point.x as int, parent.w) + pos.coords.x
            - spec_along(pos.pin_point.x as int, dims.x as int),
        y: parent.y + spec_along(pos.in_parent_pin_point.y as int, parent.h) + pos.coords.y
            - spec_along(pos.pin_point.y as int, dims.y as int),
        w: dims.x as int,
        h: dims.y as int,
    }
}

/// The rectangle of the whole canvas.
pub open spec fn canvas_frame(canvas: ScreenDimensions) -> Frame {
    Frame { x: 0, y: 0, w: canvas.x as int, h: canvas.y as int }
}

/// Visual elements by the value of their handle. An element may be placed in
/// another, its parent; the parents that are in the store never form a cycle.
pub struct Store {
    elems: HashMap<u64, VisElem>,
    /// The greatest handle value that was ever inserted.
    newest: Option<u64>,
    /// For each element a number greater than that of its parent.
    rank: Ghost<Map<u64, nat>>,
}

impl View for Store {
    type V = Map<u64, VisElem>;

    closed spec fn view(&self) -> Map<u64, VisElem> {
        self.elems@
    }
}

impl Store {
    /// The greatest handle value that was ever inserted.
    pub closed spec fn newest(&self) -> Option<u64> {
        self.newest
    }

    /// A witness that the parents form no cycle: a number for each element
    /// that is greater than that of its parent.
    pub closed spec fn rank(&self) -> Map<u64, nat> {
        self.rank@
    }

    /// Whether a handle of this value was ever inserted, or one issued after it.
    pub open spec fn known(&self, id: u64) -> bool {
        self.newest() matches Some(n) && id <= n
    }

    /// The parent of the element `id`, where the element and its parent are
    /// both in the store.
    pub open spec fn parent_of(&self, id: u64) -> Option<u64> {
        if self@.contains_key(id) {
            match self@[id].pos.parent {
                Some(p) => if self@.contains_key(p.value()) {
                    Some(p.value())
                } else {
                    None
                },
                None => None,
            }
        } else {
            None
        }
    }

    /// The store holds finitely many elements; every handle in it, as an
    /// element or as a parent, is known; and the parents form a forest.
    pub open spec fn wf(&self) -> bool {
        &&& self@.dom().finite()
        &&& forall|k: u64| #[trigger] self@.contains_key(k) ==> self.known(k)
        &&& forall|k: u64| #[trigger]
            self@.contains_key(k) ==> (self@[k].pos.parent matches Some(p) ==> self.known(
                p.value(),
            ))
        &&& forall|k: u64| #[trigger] self.ranked(k)
    }

    /// Whether the rank of the element `id` is greater than that of its parent.
    pub open spec fn ranked(&self, id: u64) -> bool {
        self.parent_of(id) matches Some(p) ==> self.rank()[p] < self.rank()[id]
    }

    /// A bound on the number of parents above something placed by `pos`.
    pub open spec fn height(&self, pos: VisElemPos) -> nat {
        match pos.parent {
            Some(p) => if self@.contains_key(p.value()) {
                self.rank()[p.value()] + 1
            } else {
                0
            },
            None => 0,
        }
    }

    /// Whether every parent above something placed by `pos` is in the store.
    pub open spec fn anchored(&self, pos: VisElemPos) -> bool
        decreases self.height(pos),
        when self.wf()
    {
        match pos.parent {
            None => true,
            Some(p) => {
                proof {
                    assert(self.ranked(p.value()));
                }
                self@.contains_key(p.value()) && self.anchored(self@[p.value()].pos)
            },
        }
    }

    /// The rectangle of something of extent `dims` placed by `pos`: it is
    /// placed in the rectangle of its parent, resolved in the same way, or
    /// in the whole canvas where it has no parent.
    pub open spec fn spec_actual_rect(
        &self,
        pos: VisElemPos,
        dims: ScreenDimensions,
        canvas: ScreenDimensions,
    ) -> Frame
        decreases self.height(pos),
        when self.wf()
    {
        let parent_frame = match pos.parent {
            Some(p) => if self@.contains_key(p.value()) {
                proof {
                    assert(self.ranked(p.value()));
                }
                self.spec_actual_rect(
                    self@[p.value()].pos,
                    self@[p.value()].what.spec_dimensions(),
                    canvas,
                )
            } else {
                canvas_frame(canvas)
            },
            None => canvas_frame(canvas),
        };
        place(parent_frame, pos, dims)
    }

    /// Whether something placed by `pos` can be resolved: every parent above
    /// it is in the store, and its rectangle and those of its parents can
    /// be held in a `Rect`.
    pub open spec fn resolvable(
        &self,
        pos: VisElemPos,
        dims: ScreenDimensions,
        canvas: ScreenDimensions,
    ) -> bool
        decreases self.height(pos),
        when self.wf()
    {
        &&& match pos.parent {
            None => true,
            Some(p) => {
                proof {
                    assert(self.ranked(p.value()));
                }
                self@.contains_key(p.value()) && self.resolvable(
                    self@[p.value()].pos,
                    self@[p.value()].what.spec_dimensions(),
                    canvas,
                )
            },
        }
        &&& self.spec_actual_rect(pos, dims, canvas).fits()
    }

    /// Whether `a` is the element `y` or stands above it.
    pub open spec fn is_ancestor(&self, a: u64, y: u64) -> bool
        decreases self.rank()[y],
        when self.wf()
    {
        y == a || match self.parent_of(y) {
            Some(q) => {
                proof {
                    assert(self.ranked(y));
                }
                self.is_ancestor(a, q)
            },
            None => false,
        }
    }

    /// Whether the element `id` can be given the position `pos`: it is in
    /// the store, and the parent that `pos` names, if any, is in the store
    /// and is neither the element itself nor placed below it.
    pub open spec fn can_hold(&self, id: u64, pos: VisElemPos) -> bool {
        &&& self@.contains_key(id)
        &&& match pos.parent {
            None => true,
            Some(p) => self@.contains_key(p.value()) && !self.is_ancestor(id, p.value()),
        }
    }

    /// Whether a new element with handle `id` and position `pos` can be
    /// inserted: the handle is newer than every known one, and the parent
    /// that `pos` names, if any, is in the store.
    pub open spec fn can_insert(&self, id: u64, pos: VisElemPos) -> bool {
        &&& !self.known(id)
        &&& match pos.parent {
            None => true,
            Some(p) => self@.contains_key(p.value()),
        }
    }

    /// The rectangle at which an element is shown now: where its position
    /// puts it, or, while it is animated, the point between there and where
    /// the destination puts it that the clock's progress gives.
    pub open spec fn spec_current_rect(&self, elem: VisElem, canvas: ScreenDimensions) -> Frame {
        let dims = elem.what.spec_dimensions();
        let from = self.spec_actual_rect(elem.pos, dims, canvas);
        match elem.animation {
            None => from,
            Some(a) => {
                let to = self.spec_actual_rect(a.dst_pos, dims, canvas);
                Frame {
                    x: spec_lerp(from.x, to.x, a.clock.elapsed() as int, a.clock.duration() as int),
                    y: spec_lerp(from.y, to.y, a.clock.elapsed() as int, a.clock.duration() as int),
                    w: from.w,
                    h: from.h,
                }
            },
        }
    }

    /// Whether the rectangle at which an element is shown now can be computed.
    pub open spec fn showable(&self, elem: VisElem, canvas: ScreenDimensions) -> bool {
        &&& self.resolvable(elem.pos, elem.what.spec_dimensions(), canvas)
        &&& elem.animation matches Some(a) ==> a.clock.wf() && self.resolvable(
            a.dst_pos,
            elem.what.spec_dimensions(),
            canvas,
        )
    }

    /// What stands above an element, or is the element, has no greater rank.
    pub proof fn lemma_ancestor_rank(&self, a: u64, y: u64)
        requires
            self.wf(),
            self.is_ancestor(a, y),
        ensures
            self.rank()[a] <= self.rank()[y],
        decreases self.rank()[y],
    {
        if y != a {
            let q = self.parent_of(y)->0;
            assert(self.ranked(y));
            self.lemma_ancestor_rank(a, q);
        }
    }

    /// The parents form no cycle: no element stands above its own parent.
    pub proof fn lemma_acyclic(&self, id: u64)
        requires
            self.wf(),
            self.parent_of(id) is Some,
        ensures
            !self.is_ancestor(id, self.parent_of(id)->0),
    {
        let p = self.parent_of(id)->0;
        assert(self.ranked(id));
        if self.is_ancestor(id, p) {
            self.lemma_ancestor_rank(id, p);
        }
    }

    /// Something without a parent is placed in the whole canvas, and can be
    /// resolved where its rectangle can be held.
    pub proof fn lemma_root(&self, pos: VisElemPos, dims: ScreenDimensions, canvas: ScreenDimensions)
        requires
            self.wf(),
            pos.parent is None,
        ensures
            self.anchored(pos),
            self.spec_actual_rect(pos, dims, canvas) == place(canvas_frame(canvas), pos, dims),
            self.resolvable(pos, dims, canvas) == place(canvas_frame(canvas), pos, dims).fits(),
    {
    }

    /// Resolution is affine in the pin point: the rectangle moves against
    /// the pin point by the offset of the pin point in the thing placed. For
    /// every pin point, adding that offset to the rectangle resolved with it
    /// gives the rectangle resolved with the top-left corner as pin point.
    pub proof fn lemma_pin_point_affine(
        &self,
        pos: VisElemPos,
        dims: ScreenDimensions,
        canvas: ScreenDimensions,
        a: PinPoint,
    )
        requires
            self.wf(),
        ensures
            ({
                let corner = self.spec_actual_rect(
                    VisElemPos { pin_point: PinPoint { x: 0, y: 0 }, ..pos },
                    dims,
                    canvas,
                );
                let pinned = self.spec_actual_rect(VisElemPos { pin_point: a, ..pos }, dims, canvas);
                &&& pinned.x + a.offset_x(dims) == corner.x
                &&& pinned.y + a.offset_y(dims) == corner.y
                &&& pinned.w == corner.w
                &&& pinned.h == corner.h
            }),
    {
    }

    /// Where the pin point has no offset in the thing placed, resolving with
    /// the top-left corner and adding the offset gives the rectangle
    /// resolved with the pin point.
    pub proof fn lemma_pin_point_without_offset(
        &self,
        pos: VisElemPos,
        dims: ScreenDimensions,
        canvas: ScreenDimensions,
        a: PinPoint,
    )
        requires
            self.wf(),
            a.offset_x(dims) == 0,
            a.offset_y(dims) == 0,
        ensures
            ({
                let corner = self.spec_actual_rect(
                    VisElemPos { pin_point: PinPoint { x: 0, y: 0 }, ..pos },
                    dims,
                    canvas,
                );
                let pinned = self.spec_actual_rect(VisElemPos { pin_point: a, ..pos }, dims, canvas);
                &&& corner.x + a.offset_x(dims) == pinned.x
                &&& corner.y + a.offset_y(dims) == pinned.y
                &&& pinned.w == corner.w
                &&& pinned.h == corner.h
            }),
    {
        self.lemma_pin_point_affine(pos, dims, canvas, a);
    }

    /// An empty store.
    pub fn new() -> (s: Store)
        ensures
            s.wf(),
            s@ == Map::<u64, VisElem>::empty(),
            s.newest() is None,
    {
        Store { elems: HashMap::new(), newest: None, rank: Ghost(Map::new(|k: u64| true, |k: u64| 0nat)) }
    }

    /// Whether an element with this handle is in the store.
    pub fn contains(&self, id: Id) -> (b: bool)
        ensures
            b == self@.contains_key(id.value()),
    {
        let k = id.raw();
        self.elems.contains_key(&k)
    }

    /// The element with this handle.
    pub fn get(&self, id: Id) -> (e: Option<VisElem>)
        ensures
            e == if self@.contains_key(id.value()) {
                Some(self@[id.value()])
            } else {
                None
            },
    {
        let k = id.raw();
        match self.elems.get(&k) {
            Some(e) => Some(*e),
            None => None,
        }
    }

    /// Whether a handle of this value was ever inserted, or one issued after it.
    pub fn is_known(&self, id: Id) -> (b: bool)
        ensures
            b == self.known(id.value()),
    {
        match self.newest {
            Some(n) => id.raw() <= n,
            None => false,
        }
    }

    /// Adds a new element under a handle that is newer than every known one.
    /// An element whose handle is known already, or whose parent is not in
    /// the store, is refused, and the store stays as it is.
    pub fn insert(&mut self, id: Id, elem: VisElem) -> (inserted: bool)
        requires
            old(self).wf(),
        ensures
            final(self).wf(),
            inserted == old(self).can_insert(id.value(), elem.pos),
            inserted ==> final(self)@ == old(self)@.insert(id.value(), elem) && final(self).newest()
                == Some(id.value()),
            !inserted ==> final(self)@ == old(self)@ && final(self).newest() == old(self).newest(),
    {
        if self.is_known(id) {
            return false;
        }
        let k = id.raw();
        let ghost mut parent_rank: nat = 0;
        match elem.pos.parent {
            Some(p) => {
                if !self.contains(p) {
                    return false;
                }
                proof {
                    parent_rank = self.rank@[p.value()] + 1;
                }
            },
            None => {},
        }
        let ghost before = *self;
        self.elems.insert(k, elem);
        self.newest = Some(k);
        self.rank = Ghost(before.rank@.insert(k, parent_rank));
        proof {
            assert(!before@.contains_key(k));
            assert forall|j: u64| #[trigger] self@.contains_key(j) implies self.known(j) by {
                if j != k {
                    assert(before@.contains_key(j));
                }
            }
            assert forall|j: u64| #[trigger] self@.contains_key(j) implies (
            self@[j].pos.parent matches Some(p) ==> self.known(p.value())) by {
                if j != k {
                    assert(before@.contains_key(j));
                }
            }
            assert forall|j: u64| #[trigger] self.ranked(j) by {
                if j != k {
                    assert(before.ranked(j));
                    assert(before.parent_of(j) == self.parent_of(j));
                }
            }
        }
        true
    }

    /// Takes an element out of the store. Elements that were placed in it
    /// stay, and cannot be resolved any more.
    pub fn remove(&mut self, id: Id) -> (removed: Option<VisElem>)
        requires
            old(self).wf(),
        ensures
            final(self).wf(),
            final(self).newest() == old(self).newest(),
            final(self)@ == old(self)@.remove(id.value()),
            removed == if old(self)@.contains_key(id.value()) {
                Some(old(self)@[id.value()])
            } else {
                None
            },
    {
        let k = id.raw();
        let ghost before = *self;
        let removed = self.elems.remove(&k);
        proof {
            assert forall|j: u64| #[trigger] self.ranked(j) by {
                assert(before.ranked(j));
                if self.parent_of(j) is Some {
                    assert(before.parent_of(j) == self.parent_of(j));
                }
            }
        }
        removed
    }

    /// Whether `a` is the element `start` or stands above it.
    pub fn stands_above(&self, a: Id, start: Id) -> (b: bool)
        requires
            self.wf(),
        ensures
            b == self.is_ancestor(a.value(), start.value()),
    {
        let mut cur = start;
        loop
            invariant
                self.wf(),
                self.is_ancestor(a.value(), start.value()) == self.is_ancestor(
                    a.value(),
                    cur.value(),
                ),
            decreases self.rank()[cur.value()],
        {
            if cur.raw() == a.raw() {
                return true;
            }
            match self.get(cur) {
                None => {
                    return false;
                },
                Some(e) => match e.pos.parent {
                    None => {
                        return false;
                    },
                    Some(q) => {
                        if !self.contains(q) {
                            return false;
                        }
                        assert(self.parent_of(cur.value()) == Some(q.value()));
                        assert(self.ranked(cur.value()));
                        cur = q;
                    },
                },
            }
        }
    }

    /// Gives the element `id` a new value. Where `id` is not in the store,
    /// or the new position names a parent that is not in the store, or that
    /// is the element itself or placed below it, the value is refused and
    /// the store stays as it is.
    pub fn replace(&mut self, id: Id, elem: VisElem) -> (replaced: bool)
        requires
            old(self).wf(),
        ensures
            final(self).wf(),
            final(self).newest() == old(self).newest(),
            replaced == old(self).can_hold(id.value(), elem.pos),
            replaced ==> final(self)@ == old(self)@.insert(id.value(), elem),
            !replaced ==> final(self)@ == old(self)@,
    {
        if !self.contains(id) {
            return false;
        }
        let k = id.raw();
        let ghost before = *self;
        let ghost mut next_rank = self.rank@;
        match elem.pos.parent {
            Some(p) => {
                if !self.contains(p) {
                    return false;
                }
                if self.stands_above(id, p) {
                    return false;
                }
                proof {
                    let lift = before.rank@[p.value()] + 1;
                    next_rank = Map::new(
                        |j: u64| true,
                        |j: u64|
                            if before.is_ancestor(k, j) {
                                before.rank@[j] + lift
                            } else {
                                before.rank@[j]
                            },
                    );
                }
            },
            None => {},
        }
        self.elems.insert(k, elem);
        self.rank = Ghost(next_rank);
        proof {
            assert(self@ == before@.insert(k, elem));
            assert forall|j: u64| #[trigger] self@.contains_key(j) implies self.known(j) by {
                assert(before@.contains_key(j));
            }
            assert forall|j: u64| #[trigger] self@.contains_key(j) implies (
            self@[j].pos.parent matches Some(p) ==> self.known(p.value())) by {
                assert(before@.contains_key(j));
                if j == k {
                    if let Some(p) = elem.pos.parent {
                        assert(before@.contains_key(p.value()));
                    }
                }
            }
            assert forall|j: u64| #[trigger] self.ranked(j) by {
                if self.parent_of(j) is Some {
                    let p = self.parent_of(j)->0;
                    assert(before@.contains_key(j));
                    assert(before.ranked(j));
                    if j == k {
                        assert(before.is_ancestor(k, k));
                        assert(!before.is_ancestor(k, p));
                    } else {
                        assert(before.parent_of(j) == Some(p));
                        assert(before.is_ancestor(k, j) == before.is_ancestor(k, p));
                    }
                }
            }
        }
        true
    }

    /// The rectangle of something of extent `dims` placed by `pos` on a
    /// canvas of extent `canvas`.
    pub fn actual_rect(&self, pos: &VisElemPos, dims: ScreenDimensions, canvas: ScreenDimensions) -> (r:
        Rect)
        requires
            self.wf(),
            self.resolvable(*pos, dims, canvas),
        ensures
            r@ == self.spec_actual_rect(*pos, dims, canvas),
        decreases self.height(*pos),
    {
        let parent_rect = match pos.parent {
            Some(parent_id) => {
                match self.get(parent_id) {
                    Some(parent) => {
                        assert(self.ranked(parent_id.value()));
                        self.actual_rect(&parent.pos, parent.what.dimensions(), canvas)
                    },
                    None => Rect::new(0, 0, canvas.x, canvas.y),
                }
            },
            None => Rect::new(0, 0, canvas.x, canvas.y),
        };
        let x = parent_rect.x as i128 + along(pos.in_parent_pin_point.x, parent_rect.w)
            + pos.coords.x as i128 - along(pos.pin_point.x, dims.x);
        let y = parent_rect.y as i128 + along(pos.in_parent_pin_point.y, parent_rect.h)
            + pos.coords.y as i128 - along(pos.pin_point.y, dims.y);
        Rect { x: x as i64, y: y as i64, w: dims.x, h: dims.y }
    }

    /// The rectangle at which an element is shown now.
    pub fn current_rect(&self, elem: &VisElem, canvas: ScreenDimensions) -> (r: Rect)
        requires
            self.wf(),
            self.showable(*elem, canvas),
        ensures
            r@ == self.spec_current_rect(*elem, canvas),
    {
        let dims = elem.what.dimensions();
        let from = self.actual_rect(&elem.pos, dims, canvas);
        match elem.animation {
            None => from,
            Some(a) => {
                let to = self.actual_rect(&a.dst_pos, dims, canvas);
                let p = a.clock.progress();
                Rect { x: p.lerp(from.x, to.x), y: p.lerp(from.y, to.y), w: from.w, h: from.h }
            },
        }
    }
}

} // verus!
