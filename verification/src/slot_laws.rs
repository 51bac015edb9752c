use vstd::prelude::*;
use crate::traversal::{
    blocks_of, forest_drawn, indexed_below, lemma_forest_drawn_push, slots_from, slots_of, unregistered, written, Drawn,
};
use crate::scalar::{Mat4, Placement};
use crate::widget::Widget;

verus! {

/// Two rows of trees, one after the other, are drawn as the first row, then
/// the second.
pub proof fn lemma_forest_drawn_concat(a: Seq<Widget>, b: Seq<Widget>)
    ensures
        forest_drawn(a + b) == forest_drawn(a) + forest_drawn(b),
    decreases b.len(),
{
    if b.len() == 0 {
        assert(a + b =~= a);
        assert(forest_drawn(a) + forest_drawn(b) =~= forest_drawn(a));
    } else {
        lemma_forest_drawn_concat(a, b.drop_last());
        assert((a + b).drop_last() =~= a + b.drop_last());
        assert((a + b).last() == b.last());
        assert(forest_drawn(a + b) =~= forest_drawn(a) + forest_drawn(b));
    }
}

/// A row of one tree is drawn as that tree.
pub proof fn lemma_forest_drawn_one(w: Widget)
    ensures
        forest_drawn(seq![w]) == w.drawn(),
{
    let none = Seq::<Widget>::empty();
    lemma_forest_drawn_push(none, w);
    assert(seq![w] =~= none.push(w));
    assert(forest_drawn(none) + w.drawn() =~= w.drawn());
}

/// Where the `j`-th tree of a row lies in what the row draws: after the trees
/// before it and before the trees after it.
pub proof fn lemma_forest_drawn_split(s: Seq<Widget>, j: int)
    requires
        0 <= j < s.len(),
    ensures
        forest_drawn(s) == forest_drawn(s.take(j)) + s[j].drawn() + forest_drawn(s.skip(j + 1)),
{
    let one = seq![s[j]];
    assert(s =~= s.take(j) + one + s.skip(j + 1));
    lemma_forest_drawn_concat(s.take(j) + one, s.skip(j + 1));
    lemma_forest_drawn_concat(s.take(j), one);
    lemma_forest_drawn_one(s[j]);
}

/// Index density. A row of drawn widgets that holds the slots from `start`
/// on, as a structural rebuild leaves it, holds every slot of the range from
/// `start` to `start + d.len()`, each once, and no other.
pub proof fn lemma_slots_dense(d: Seq<Drawn>, start: nat)
    requires
        slots_from(d, start),
    ensures
        forall|i: int, j: int| 0 <= i < j < d.len() ==> (#[trigger] d[i]).index != (#[trigger] d[j]).index,
        forall|i: int| 0 <= i < d.len() ==> start <= (#[trigger] d[i]).index->0 < start + d.len(),
        forall|k: int| start <= k < start + d.len() ==> (#[trigger] d[k - start]).index->0 == k,
{
    assert forall|k: int| start <= k < start + d.len() implies (#[trigger] d[k - start]).index->0
        == k by {
        let i = k - start;
        assert(d[i].index->0 == start + i);
    }
}

/// Transform composition. In a tree that a traversal has framed, a child's
/// frame is its parent's transform, and the child's transform is what
/// `compose` gave for that frame and the child's placement; for a drawn child
/// it is also what the child contributes to the transform array.
pub proof fn lemma_child_framed_by_parent<F: Fn(Mat4, Placement) -> Mat4>(
    w: Widget,
    vec_space: Mat4,
    compose: F,
    j: int,
)
    requires
        w.composed(vec_space, compose),
        0 <= j < w.children@.len(),
    ensures
        w.children@[j].vec_space == w.transform,
        call_ensures(
            compose,
            (w.transform, w.children@[j].spec_placement()),
            w.children@[j].transform,
        ),
        w.children@[j].kind.is_primitive() ==> w.children@[j].drawn()[0].transform
            == w.children@[j].transform,
{
    assert(w.children@[j].composed(w.transform, compose));
}

/// Trees of one shape draw the same number of widgets, with the same
/// metadata blocks.
pub proof fn lemma_same_widgets_drawn(a: Widget, b: Widget)
    requires
        a.same_widgets(&b),
    ensures
        a.drawn().len() == b.drawn().len(),
        blocks_of(a.drawn()) == blocks_of(b.drawn()),
    decreases a,
{
    lemma_same_forest_drawn(a.children@, b.children@);
    let fa = forest_drawn(a.children@);
    let fb = forest_drawn(b.children@);
    assert(blocks_of(a.own_drawn()) =~= blocks_of(b.own_drawn()));
    assert(blocks_of(a.own_drawn() + fa) =~= blocks_of(a.own_drawn()) + blocks_of(fa));
    assert(blocks_of(b.own_drawn() + fb) =~= blocks_of(b.own_drawn()) + blocks_of(fb));
}

/// Rows of trees that are of one shape tree by tree draw the same number of
/// widgets, with the same metadata blocks.
pub proof fn lemma_same_forest_drawn(s: Seq<Widget>, t: Seq<Widget>)
    requires
        s.len() == t.len(),
        forall|j: int| 0 <= j < s.len() ==> (#[trigger] s[j]).same_widgets(&t[j]),
    ensures
        forest_drawn(s).len() == forest_drawn(t).len(),
        blocks_of(forest_drawn(s)) == blocks_of(forest_drawn(t)),
    decreases s,
{
    if s.len() > 0 {
        assert forall|j: int| 0 <= j < s.drop_last().len() implies (#[trigger] s.drop_last()[j]).same_widgets(
            &t.drop_last()[j],
        ) by {
            assert(s.drop_last()[j] == s[j]);
            assert(s[j].same_widgets(&t[j]));
        }
        lemma_same_forest_drawn(s.drop_last(), t.drop_last());
        assert(s[s.len() - 1].same_widgets(&t[s.len() - 1]));
        lemma_same_widgets_drawn(s.last(), t.last());
        let fs = forest_drawn(s.drop_last());
        let ft = forest_drawn(t.drop_last());
        assert(blocks_of(fs + s.last().drawn()) =~= blocks_of(fs) + blocks_of(s.last().drawn()));
        assert(blocks_of(ft + t.last().drawn()) =~= blocks_of(ft) + blocks_of(t.last().drawn()));
    } else {
        assert(blocks_of(forest_drawn(s)) =~= blocks_of(forest_drawn(t)));
    }
}

/// Order preservation. Two structural rebuilds of trees of one shape, begun
/// at the same slot, give every drawn widget the same slot.
pub proof fn lemma_rebuild_repeatable(a: Widget, b: Widget, start: nat)
    requires
        a.same_widgets(&b),
        slots_from(a.drawn(), start),
        slots_from(b.drawn(), start),
    ensures
        slots_of(a.drawn()) == slots_of(b.drawn()),
{
    lemma_same_widgets_drawn(a, b);
    let da = a.drawn();
    let db = b.drawn();
    assert forall|i: int| 0 <= i < da.len() implies slots_of(da)[i] == slots_of(db)[i] by {
        assert(da[i].index->0 == start + i);
        assert(db[i].index->0 == start + i);
    }
    assert(slots_of(da) =~= slots_of(db));
}

/// Stale-index failure. In a tree in which no drawn widget holds a slot, as
/// the constructors leave it, the same is true of the subtree of every child;
/// and if the tree draws anything, its slots are not all below any `len`, so
/// both refreshes fail on it.
pub proof fn lemma_unregistered_fails(w: Widget, len: nat)
    requires
        unregistered(w.drawn()),
    ensures
        w.drawn().len() > 0 ==> !indexed_below(w.drawn(), len),
        forall|j: int| 0 <= j < w.children@.len() ==> unregistered(#[trigger] w.children@[j].drawn()),
{
    let d = w.drawn();
    if d.len() > 0 {
        assert(d[0].index is None);
    }
    assert forall|j: int| 0 <= j < w.children@.len() implies unregistered(
        #[trigger] w.children@[j].drawn(),
    ) by {
        let s = w.children@;
        lemma_forest_drawn_split(s, j);
        let off = w.own_drawn().len() + forest_drawn(s.take(j)).len();
        assert forall|i: int| 0 <= i < s[j].drawn().len() implies (#[trigger] s[j].drawn()[i]).index is None by {
            assert(s[j].drawn()[i] == d[off + i]);
        }
    }
}

/// Invalidation on structural change, of rows. `before` and `after` are what
/// a tree draws, rebuilt from `start`, before and after `m` drawn widgets
/// came into it at place `p` of the pre-order. Then every widget ahead of `p`
/// keeps its slot, and every widget from `p` on holds a slot that is greater
/// by `m`: another one, unless `m` is 0.
pub proof fn lemma_slots_shift(before: Seq<Drawn>, after: Seq<Drawn>, p: int, m: nat, start: nat)
    requires
        slots_from(before, start),
        slots_from(after, start),
        0 <= p <= before.len(),
        after.len() == before.len() + m,
    ensures
        forall|k: int| 0 <= k < p ==> (#[trigger] after[k]).index == before[k].index,
        forall|k: int|
            p <= k < before.len() ==> (#[trigger] after[k + m]).index->0 == before[k].index->0 + m,
        forall|k: int|
            p <= k < before.len() && m > 0 ==> (#[trigger] after[k + m]).index != before[k].index,
{
    assert forall|k: int| 0 <= k < p implies (#[trigger] after[k]).index == before[k].index by {
        assert(after[k].index->0 == start + k);
        assert(before[k].index->0 == start + k);
    }
    assert forall|k: int| p <= k < before.len() implies (#[trigger] after[k + m]).index->0
        == before[k].index->0 + m by {
        assert(after[k + m].index->0 == start + k + m);
        assert(before[k].index->0 == start + k);
    }
}

/// `after` is `before` with `child` put among the children of one of its
/// widgets, at position `at`. `path` leads from the root to that widget: it
/// names, level by level, the child to step into, and is empty for the root
/// itself. Nothing else differs.
pub open spec fn grafted(before: Widget, after: Widget, path: Seq<int>, at: int, child: Widget) -> bool
    decreases path.len(),
{
    &&& after.position == before.position
    &&& after.rotation == before.rotation
    &&& after.width == before.width
    &&& after.height == before.height
    &&& after.index == before.index
    &&& after.vec_space == before.vec_space
    &&& after.transform == before.transform
    &&& after.kind == before.kind
    &&& if path.len() == 0 {
        &&& 0 <= at <= before.children@.len()
        &&& after.children@ == before.children@.insert(at, child)
    } else {
        let j = path[0];
        &&& 0 <= j < before.children@.len()
        &&& after.children@.len() == before.children@.len()
        &&& forall|k: int|
            0 <= k < before.children@.len() && k != j ==> after.children@[k]
                == before.children@[k]
        &&& grafted(before.children@[j], after.children@[j], path.skip(1), at, child)
    }
}

/// The place in the pre-order of `before` at which a widget put in at `path`
/// and `at` begins: how many drawn widgets come ahead of it.
pub open spec fn graft_point(before: Widget, path: Seq<int>, at: int) -> int
    decreases path.len(),
{
    if path.len() == 0 {
        (before.own_drawn().len() + forest_drawn(before.children@.take(at)).len()) as int
    } else {
        before.own_drawn().len() + forest_drawn(before.children@.take(path[0])).len()
            + graft_point(before.children@[path[0]], path.skip(1), at)
    }
}

/// A row let into the middle of three joined rows, seen from the whole.
pub proof fn lemma_splice<T>(head: Seq<T>, mid: Seq<T>, tail: Seq<T>, row: Seq<T>, q: int)
    requires
        0 <= q <= mid.len(),
    ensures
        head + (mid.take(q) + row + mid.skip(q)) + tail == (head + mid + tail).take(
            head.len() + q,
        ) + row + (head + mid + tail).skip(head.len() + q),
{
    let whole = head + mid + tail;
    let p = head.len() + q;
    assert(whole.take(p) =~= head + mid.take(q));
    assert(whole.skip(p) =~= mid.skip(q) + tail);
    assert(head + (mid.take(q) + row + mid.skip(q)) + tail =~= (head + mid.take(q)) + row + (
    mid.skip(q) + tail));
}

/// What a widget draws after another was put among its children.
proof fn lemma_grafted_here(before: Widget, after: Widget, at: int, child: Widget)
    requires
        grafted(before, after, Seq::<int>::empty(), at, child),
    ensures
        0 <= graft_point(before, Seq::<int>::empty(), at) <= before.drawn().len(),
        after.drawn() == before.drawn().take(graft_point(before, Seq::<int>::empty(), at))
            + child.drawn() + before.drawn().skip(graft_point(before, Seq::<int>::empty(), at)),
{
    let own = before.own_drawn();
    assert(after.own_drawn() =~= own);
    let sb = before.children@;
    let front = sb.take(at);
    let back = sb.skip(at);
    let one = seq![child];
    assert(sb =~= front + back);
    assert(after.children@ =~= front + one + back);
    lemma_forest_drawn_concat(front, back);
    lemma_forest_drawn_concat(front + one, back);
    lemma_forest_drawn_concat(front, one);
    lemma_forest_drawn_one(child);
    let head = own + forest_drawn(front);
    let none = Seq::<Drawn>::empty();
    let tail = forest_drawn(back);
    lemma_splice(head, none, tail, child.drawn(), 0);
    assert(head + none + tail =~= before.drawn());
    assert(none.take(0) + child.drawn() + none.skip(0) =~= child.drawn());
    assert(after.drawn() =~= head + child.drawn() + tail);
}

/// What a tree draws after a widget was put into it: what it drew before,
/// with what the new widget draws let in at the graft point.
pub proof fn lemma_grafted_drawn(
    before: Widget,
    after: Widget,
    path: Seq<int>,
    at: int,
    child: Widget,
)
    requires
        grafted(before, after, path, at, child),
    ensures
        0 <= graft_point(before, path, at) <= before.drawn().len(),
        after.drawn() == before.drawn().take(graft_point(before, path, at)) + child.drawn()
            + before.drawn().skip(graft_point(before, path, at)),
    decreases path.len(),
{
    if path.len() == 0 {
        assert(path =~= Seq::<int>::empty());
        lemma_grafted_here(before, after, at, child);
    } else {
        let own = before.own_drawn();
        assert(after.own_drawn() =~= own);
        let sb = before.children@;
        let sa = after.children@;
        let j = path[0];
        let q = graft_point(sb[j], path.skip(1), at);
        lemma_grafted_drawn(sb[j], sa[j], path.skip(1), at, child);
        lemma_forest_drawn_split(sb, j);
        lemma_forest_drawn_split(sa, j);
        assert(sa.take(j) =~= sb.take(j));
        assert(sa.skip(j + 1) =~= sb.skip(j + 1));
        let head = own + forest_drawn(sb.take(j));
        let tail = forest_drawn(sb.skip(j + 1));
        let mid = sb[j].drawn();
        lemma_splice(head, mid, tail, child.drawn(), q);
        assert(before.drawn() == head + mid + tail) by {
            assert(own + (forest_drawn(sb.take(j)) + mid + tail) =~= head + mid + tail);
        }
        assert(after.drawn() == head + (mid.take(q) + child.drawn() + mid.skip(q)) + tail) by {
            assert(own + (forest_drawn(sb.take(j)) + sa[j].drawn() + tail) =~= head + sa[j].drawn()
                + tail);
        }
    }
}

/// Invalidation on structural change. `before` was rebuilt from `start`;
/// `edited` is `before` with `child` put in anywhere in the tree; `after` is
/// `edited` rebuilt from `start`. Then `after` draws as many widgets more as
/// `child` draws; the widgets that `before` draws ahead of the graft point
/// keep their slots; and each widget that it draws from that point on holds a
/// slot that is greater by that number.
pub proof fn lemma_insert_shifts_slots(
    before: Widget,
    edited: Widget,
    after: Widget,
    path: Seq<int>,
    at: int,
    child: Widget,
    start: nat,
)
    requires
        grafted(before, edited, path, at, child),
        after.same_widgets(&edited),
        slots_from(before.drawn(), start),
        slots_from(after.drawn(), start),
    ensures
        after.drawn().len() == before.drawn().len() + child.drawn().len(),
        0 <= graft_point(before, path, at) <= before.drawn().len(),
        forall|k: int|
            0 <= k < graft_point(before, path, at) ==> {
                &&& (#[trigger] after.drawn()[k]).index == before.drawn()[k].index
                &&& after.drawn()[k].block == before.drawn()[k].block
            },
        forall|k: int|
            graft_point(before, path, at) <= k < before.drawn().len() ==> {
                &&& (#[trigger] after.drawn()[k + child.drawn().len()]).index->0
                    == before.drawn()[k].index->0 + child.drawn().len()
                &&& after.drawn()[k + child.drawn().len()].block == before.drawn()[k].block
            },
{
    let p = graft_point(before, path, at);
    let m = child.drawn().len();
    lemma_grafted_drawn(before, edited, path, at, child);
    lemma_same_widgets_drawn(after, edited);
    let db = before.drawn();
    let de = edited.drawn();
    let da = after.drawn();
    lemma_slots_shift(db, da, p, m, start);
    assert forall|k: int| 0 <= k < p implies (#[trigger] da[k]).block == db[k].block by {
        assert(blocks_of(da)[k] == blocks_of(de)[k]);
        assert(de[k] == db.take(p)[k]);
    }
    assert forall|k: int| p <= k < db.len() implies (#[trigger] da[k + m]).block
        == db[k].block by {
        assert(blocks_of(da)[k + m] == blocks_of(de)[k + m]);
        assert(de[k + m] == db.skip(p)[k - p]);
    }
}

/// What the rows are after the slots from `start` on were written in order:
/// the written values stand in those slots, and every other row is as it was.
pub proof fn lemma_written_dense<T>(
    rows: Seq<T>,
    slots: Seq<Option<usize>>,
    values: Seq<T>,
    start: nat,
)
    requires
        slots.len() == values.len(),
        start + slots.len() <= rows.len(),
        forall|i: int| 0 <= i < slots.len() ==> (#[trigger] slots[i]) is Some && slots[i]->0 == start + i,
    ensures
        written(rows, slots, values) == rows.take(start as int) + values + rows.skip(
            (start + slots.len()) as int,
        ),
    decreases slots.len(),
{
    if slots.len() == 0 {
        assert(rows =~= rows.take(start as int) + values + rows.skip((start + slots.len()) as int));
    } else {
        let n = slots.len() - 1;
        lemma_written_dense(rows, slots.drop_last(), values.drop_last(), start);
        assert(slots.last() == slots[n]);
        assert(written(rows, slots, values) =~= rows.take(start as int) + values + rows.skip(
            (start + slots.len()) as int,
        ));
    }
}

} // verus!
