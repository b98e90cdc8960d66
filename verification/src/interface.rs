//! What is shown in one frame: the resolved rectangle of each visual element
//! with its flags, which of them the cursor points at, and in what order
//! they are drawn.

use vstd::prelude::*;
use vstd::seq_lib::{
    to_multiset_build, to_multiset_contains, to_multiset_insert, to_multiset_len,
    to_multiset_remove,
};
use crate::geometry::{Rect, ScreenCoords};
use crate::id_generator::Id;

verus! {

/// A visual element as it is shown in one frame. It is rebuilt from the
/// state of the game for every frame.
#[derive(Clone, Copy, PartialEq, Eq, Debug)]
pub struct InterfaceElement {
    pub rect: Rect,
    /// More depth means closer to the background.
    pub depth: u32,
    pub hovered: bool,
    pub selected: bool,
    pub targetable: bool,
    /// The visual element that is shown.
    pub what: Id,
}

/// Whether `a` is shown in front of `b`: it has less depth, or the same
/// depth and the older handle.
pub open spec fn nearer(a: InterfaceElement, b: InterfaceElement) -> bool {
    a.depth < b.depth || (a.depth == b.depth && a.what.value() < b.what.value())
}

/// Whether the cursor lies in the rectangle of the element.
pub open spec fn hit(e: InterfaceElement, cursor: ScreenCoords) -> bool {
    e.rect@.contains(cursor.x as int, cursor.y as int)
}

/// The index, among the first `n` elements, of the one the cursor points
/// at: of those that the cursor lies in, the one in front of the others,
/// and of two that are equally far in front, the first.
pub open spec fn spec_pick(elems: Seq<InterfaceElement>, cursor: ScreenCoords, n: nat) -> Option<
    usize,
>
    decreases n,
{
    if n == 0 {
        None
    } else {
        let before = spec_pick(elems, cursor, (n - 1) as nat);
        let last = elems[n - 1];
        if hit(last, cursor) && (before matches Some(b) ==> nearer(last, elems[b as int])) {
            Some((n - 1) as usize)
        } else {
            before
        }
    }
}

/// What is picked lies under the cursor, and nothing under the cursor is in
/// front of it; nothing is picked only where nothing lies under the cursor.
pub proof fn lemma_pick_topmost(elems: Seq<InterfaceElement>, cursor: ScreenCoords, n: nat)
    requires
        n <= elems.len() <= usize::MAX,
    ensures
        match spec_pick(elems, cursor, n) {
            None => forall|k: int| 0 <= k < n ==> !hit(#[trigger] elems[k], cursor),
            Some(p) => {
                &&& p < n
                &&& hit(elems[p as int], cursor)
                &&& forall|k: int|
                    0 <= k < n && hit(#[trigger] elems[k], cursor) ==> !nearer(
                        elems[k],
                        elems[p as int],
                    )
            },
        },
    decreases n,
{
    if n > 0 {
        lemma_pick_topmost(elems, cursor, (n - 1) as nat);
    }
}

/// Of two elements under the cursor, the one with less depth is picked
/// before the other, wherever the two stand in the sequence.
pub proof fn lemma_pick_prefers_less_depth(
    elems: Seq<InterfaceElement>,
    cursor: ScreenCoords,
    k: int,
)
    requires
        elems.len() <= usize::MAX,
        0 <= k < elems.len(),
        hit(elems[k], cursor),
    ensures
        spec_pick(elems, cursor, elems.len()) matches Some(p) && elems[p as int].depth
            <= elems[k].depth,
{
    lemma_pick_topmost(elems, cursor, elems.len());
}

/// Which visual element is picked does not depend on the order of the
/// elements: of two sequences that hold the same elements, in whatever
/// order, both pick nothing or both pick the same visual element, at the
/// same depth.
pub proof fn lemma_pick_order_independent(
    a: Seq<InterfaceElement>,
    b: Seq<InterfaceElement>,
    cursor: ScreenCoords,
)
    requires
        a.to_multiset() == b.to_multiset(),
        a.len() <= usize::MAX,
        b.len() <= usize::MAX,
    ensures
        match (spec_pick(a, cursor, a.len()), spec_pick(b, cursor, b.len())) {
            (None, None) => true,
            (Some(p), Some(q)) => a[p as int].what == b[q as int].what && a[p as int].depth
                == b[q as int].depth,
            _ => false,
        },
{
    lemma_pick_topmost(a, cursor, a.len());
    lemma_pick_topmost(b, cursor, b.len());
    if let Some(p) = spec_pick(a, cursor, a.len()) {
        let e = a[p as int];
        to_multiset_contains(a, e);
        to_multiset_contains(b, e);
        assert(a.contains(e));
        let k = choose|k: int| 0 <= k < b.len() && b[k] == e;
        assert(hit(b[k], cursor));
    }
    if let Some(q) = spec_pick(b, cursor, b.len()) {
        let e = b[q as int];
        to_multiset_contains(a, e);
        to_multiset_contains(b, e);
        assert(b.contains(e));
        let k = choose|k: int| 0 <= k < a.len() && a[k] == e;
        assert(hit(a[k], cursor));
    }
    if let (Some(p), Some(q)) = (spec_pick(a, cursor, a.len()), spec_pick(b, cursor, b.len())) {
        crate::id_generator::Id::lemma_value_of(a[p as int].what);
        crate::id_generator::Id::lemma_value_of(b[q as int].what);
    }
}

/// Which element is picked depends on the rectangles, the depths and the
/// handles alone.
pub proof fn lemma_pick_ignores_flags(
    a: Seq<InterfaceElement>,
    b: Seq<InterfaceElement>,
    cursor: ScreenCoords,
    n: nat,
)
    requires
        n <= a.len() == b.len(),
        a.len() <= usize::MAX,
        forall|k: int|
            0 <= k < a.len() ==> (#[trigger] a[k]).rect == b[k].rect && a[k].depth == b[k].depth
                && a[k].what == b[k].what,
    ensures
        spec_pick(a, cursor, n) == spec_pick(b, cursor, n),
    decreases n,
{
    if n > 0 {
        lemma_pick_ignores_flags(a, b, cursor, (n - 1) as nat);
        assert(a[n - 1].rect == b[n - 1].rect);
        if let Some(p) = spec_pick(a, cursor, (n - 1) as nat) {
            lemma_pick_in_range(a, cursor, (n - 1) as nat);
            assert(a[p as int].depth == b[p as int].depth);
        }
    }
}

/// What is picked among the first `n` elements is one of them.
pub proof fn lemma_pick_in_range(elems: Seq<InterfaceElement>, cursor: ScreenCoords, n: nat)
    requires
        n <= usize::MAX,
    ensures
        spec_pick(elems, cursor, n) matches Some(p) ==> p < n,
    decreases n,
{
    if n > 0 {
        lemma_pick_in_range(elems, cursor, (n - 1) as nat);
    }
}

/// Whether `a` is shown in front of `b`.
pub fn is_nearer(a: &InterfaceElement, b: &InterfaceElement) -> (r: bool)
    ensures
        r == nearer(*a, *b),
{
    a.depth < b.depth || (a.depth == b.depth && a.what.raw() < b.what.raw())
}

/// The index of the element the cursor points at: of those that the cursor
/// lies in, the one in front of the others.
pub fn pick(elems: &Vec<InterfaceElement>, cursor: ScreenCoords) -> (picked: Option<usize>)
    ensures
        picked == spec_pick(elems@, cursor, elems@.len()),
{
    let mut best: Option<usize> = None;
    let mut i: usize = 0;
    while i < elems.len()
        invariant
            i <= elems.len(),
            best == spec_pick(elems@, cursor, i as nat),
            best matches Some(b) ==> b < i,
        decreases elems.len() - i,
    {
        if elems[i].rect.contains(cursor) {
            let better = match best {
                None => true,
                Some(b) => is_nearer(&elems[i], &elems[b]),
            };
            if better {
                best = Some(i);
            }
        }
        i += 1;
    }
    best
}

/// Whether the sequence runs from the background to the foreground: no
/// element is in front of one that comes later.
pub open spec fn back_to_front_order(elems: Seq<InterfaceElement>) -> bool {
    forall|i: int, j: int| 0 <= i < j < elems.len() ==> !nearer(elems[i], elems[j])
}

/// Whether no two elements of the sequence show the same visual element.
pub open spec fn distinct_handles(elems: Seq<InterfaceElement>) -> bool {
    forall|i: int, j: int| 0 <= i < j < elems.len() ==> elems[i].what != elems[j].what
}

/// A sequence that holds the same elements as one whose elements show
/// distinct visual elements holds elements that show distinct visual
/// elements.
pub proof fn lemma_distinct_handles_by_elements(
    a: Seq<InterfaceElement>,
    b: Seq<InterfaceElement>,
)
    requires
        a.to_multiset() == b.to_multiset(),
        distinct_handles(a),
    ensures
        distinct_handles(b),
{
    assert(a.no_duplicates()) by {
        assert forall|i: int, j: int| 0 <= i < a.len() && 0 <= j < a.len() && i != j implies a[i]
            != a[j] by {
            if i < j {
                assert(a[i].what != a[j].what);
            } else {
                assert(a[j].what != a[i].what);
            }
        }
    }
    a.lemma_multiset_has_no_duplicates();
    b.lemma_multiset_has_no_duplicates_conv();
    assert forall|i: int, j: int| 0 <= i < j < b.len() implies b[i].what != b[j].what by {
        to_multiset_contains(a, b[i]);
        to_multiset_contains(b, b[i]);
        to_multiset_contains(a, b[j]);
        to_multiset_contains(b, b[j]);
        assert(b.contains(b[i]));
        assert(b.contains(b[j]));
        let p = choose|p: int| 0 <= p < a.len() && a[p] == b[i];
        let q = choose|q: int| 0 <= q < a.len() && a[q] == b[j];
        if p < q {
            assert(a[p].what != a[q].what);
        } else if q < p {
            assert(a[q].what != a[p].what);
        } else {
            assert(b[i] == b[j]);
        }
    }
}

/// Elements that show distinct visual elements have one order from the
/// background to the foreground: two sequences that hold the same such
/// elements, both in that order, are the same sequence.
pub proof fn lemma_back_to_front_unique(a: Seq<InterfaceElement>, b: Seq<InterfaceElement>)
    requires
        a.to_multiset() == b.to_multiset(),
        back_to_front_order(a),
        back_to_front_order(b),
        distinct_handles(a),
    ensures
        a == b,
    decreases a.len(),
{
    to_multiset_len(a);
    to_multiset_len(b);
    if a.len() == 0 {
        assert(a =~= b);
    } else {
        let x = a[0];
        let y = b[0];
        to_multiset_contains(a, x);
        to_multiset_contains(b, x);
        to_multiset_contains(a, y);
        to_multiset_contains(b, y);
        assert(a.contains(x));
        assert(b.contains(y));
        let k = choose|k: int| 0 <= k < b.len() && b[k] == x;
        let m = choose|m: int| 0 <= m < a.len() && a[m] == y;
        if m > 0 && k > 0 {
            assert(!nearer(a[0], a[m]));
            assert(!nearer(b[0], b[k]));
            crate::id_generator::Id::lemma_value_of(x.what);
            crate::id_generator::Id::lemma_value_of(y.what);
            assert(a[0].what == a[m].what);
        }
        assert(x == y);
        let a1 = a.remove(0);
        let b1 = b.remove(0);
        to_multiset_remove(a, 0);
        to_multiset_remove(b, 0);
        assert forall|i: int, j: int| 0 <= i < j < a1.len() implies !nearer(a1[i], a1[j]) by {
            assert(a1[i] == a[i + 1] && a1[j] == a[j + 1]);
        }
        assert forall|i: int, j: int| 0 <= i < j < b1.len() implies !nearer(b1[i], b1[j]) by {
            assert(b1[i] == b[i + 1] && b1[j] == b[j + 1]);
        }
        assert forall|i: int, j: int| 0 <= i < j < a1.len() implies a1[i].what != a1[j].what by {
            assert(a1[i] == a[i + 1] && a1[j] == a[j + 1]);
        }
        lemma_back_to_front_unique(a1, b1);
        assert(a =~= seq![x] + a1);
        assert(b =~= seq![y] + b1);
    }
}

/// The same elements in the order in which they are drawn: from the
/// background to the foreground. Where the elements show distinct visual
/// elements, that fixes the order; elements that show the same visual
/// element at the same depth may come either way round.
pub fn back_to_front(elems: &Vec<InterfaceElement>) -> (sorted: Vec<InterfaceElement>)
    ensures
        sorted@.to_multiset() == elems@.to_multiset(),
        sorted@.len() == elems@.len(),
        back_to_front_order(sorted@),
{
    let mut out: Vec<InterfaceElement> = Vec::new();
    let mut i: usize = 0;
    assert(elems@.take(0) =~= Seq::<InterfaceElement>::empty());
    while i < elems.len()
        invariant
            i <= elems.len(),
            out@.len() == i,
            out@.to_multiset() == elems@.take(i as int).to_multiset(),
            back_to_front_order(out@),
        decreases elems.len() - i,
    {
        let e = elems[i];
        let mut at: usize = 0;
        while at < out.len() && !is_nearer(&out[at], &e)
            invariant
                at <= out.len(),
                forall|k: int| 0 <= k < at ==> !nearer(out@[k], e),
            decreases out.len() - at,
        {
            at += 1;
        }
        let ghost before = out@;
        out.insert(at, e);
        proof {
            to_multiset_insert(before, at as int, e);
            to_multiset_build(elems@.take(i as int), e);
            assert(elems@.take(i as int + 1) =~= elems@.take(i as int).push(e));
            assert forall|a: int, b: int| 0 <= a < b < out@.len() implies !nearer(
                out@[a],
                out@[b],
            ) by {
                if a < at && b > at {
                    assert(out@[a] == before[a] && out@[b] == before[b - 1]);
                } else if a == at {
                    assert(out@[b] == before[b - 1]);
                    assert(nearer(before[at as int], e));
                    assert(!nearer(before[at as int], before[b - 1]) || b - 1 == at);
                } else if b == at {
                    assert(out@[a] == before[a]);
                } else if b < at {
                    assert(out@[a] == before[a] && out@[b] == before[b]);
                } else {
                    assert(out@[a] == before[a - 1] && out@[b] == before[b - 1]);
                }
            }
        }
        i += 1;
    }
    assert(elems@.take(elems@.len() as int) =~= elems@);
    out
}

} // verus!
