use vstd::prelude::*;
use crate::error::EngineError;
use crate::geometry_buffer::GeometryBuffer;
use crate::scalar::{Mat4, Placement};
use crate::widget::Widget;

verus! {

/// What one drawn widget contributes to the geometry buffer.
pub struct Drawn {
    pub index: Option<usize>,
    pub transform: Mat4,
    pub block: Seq<u8>,
}

/// The drawn widgets of a row of trees, tree after tree.
pub open spec fn forest_drawn(s: Seq<Widget>) -> Seq<Drawn>
    decreases s,
{
    if s.len() == 0 {
        Seq::empty()
    } else {
        forest_drawn(s.drop_last()) + s.last().drawn()
    }
}

/// The transforms of a row of drawn widgets.
pub open spec fn transforms_of(d: Seq<Drawn>) -> Seq<Mat4> {
    d.map_values(|x: Drawn| x.transform)
}

/// The metadata blocks of a row of drawn widgets.
pub open spec fn blocks_of(d: Seq<Drawn>) -> Seq<Seq<u8>> {
    d.map_values(|x: Drawn| x.block)
}

/// The widgets of the row hold the slots `start`, `start + 1`, ... in order.
pub open spec fn slots_from(d: Seq<Drawn>, start: nat) -> bool {
    forall|i: int| 0 <= i < d.len() ==> (#[trigger] d[i]).index is Some && d[i].index->0 == start + i
}

/// The slot indices of a row of drawn widgets.
pub open spec fn slots_of(d: Seq<Drawn>) -> Seq<Option<usize>> {
    d.map_values(|x: Drawn| x.index)
}

/// Every widget of the row holds a slot below `len`.
pub open spec fn indexed_below(d: Seq<Drawn>, len: nat) -> bool {
    forall|i: int| 0 <= i < d.len() ==> (#[trigger] d[i]).index is Some && d[i].index->0 < len
}

/// No widget of the row holds a slot.
pub open spec fn unregistered(d: Seq<Drawn>) -> bool {
    forall|i: int| 0 <= i < d.len() ==> (#[trigger] d[i]).index is None
}

/// The rows after `values[0]` was written at `slots[0]`, then `values[1]` at
/// `slots[1]`, and so on: of two writes to one slot the later one stays, and
/// a write without a slot, or to a slot that is not there, changes nothing.
pub open spec fn written<T>(rows: Seq<T>, slots: Seq<Option<usize>>, values: Seq<T>) -> Seq<T>
    decreases slots.len(),
{
    if slots.len() == 0 || values.len() != slots.len() {
        rows
    } else {
        let earlier = written(rows, slots.drop_last(), values.drop_last());
        match slots.last() {
            Some(slot) => if slot < earlier.len() {
                earlier.update(slot as int, values.last())
            } else {
                earlier
            },
            None => earlier,
        }
    }
}

impl Widget {
    /// The widget itself as a row: one entry if it is drawn, none if it is a
    /// composite.
    pub open spec fn own_drawn(&self) -> Seq<Drawn> {
        if self.kind.is_primitive() {
            seq![Drawn { index: self.index, transform: self.transform, block: self.kind.block() }]
        } else {
            Seq::empty()
        }
    }

    /// The drawn widgets of the tree in depth-first pre-order: a widget before
    /// its children, a child before its later siblings.
    pub open spec fn drawn(&self) -> Seq<Drawn>
        decreases self,
    {
        self.own_drawn() + forest_drawn(self.children@)
    }

    /// Both trees have the same shape and, node by node, the same placement
    /// and kind, and their composites the same index: they differ at most in
    /// what a traversal writes.
    pub open spec fn same_widgets(&self, other: &Widget) -> bool
        decreases self,
    {
        &&& !self.kind.is_primitive() ==> self.index == other.index
        &&& self.position == other.position
        &&& self.rotation == other.rotation
        &&& self.width == other.width
        &&& self.height == other.height
        &&& self.kind == other.kind
        &&& self.children@.len() == other.children@.len()
        &&& forall|j: int|
            0 <= j < self.children@.len() ==> (#[trigger] self.children@[j]).same_widgets(
                &other.children@[j],
            )
    }

    /// Node by node, both trees hold the same frames from the last traversal.
    pub open spec fn same_frames(&self, other: &Widget) -> bool
        decreases self,
    {
        &&& self.vec_space == other.vec_space
        &&& self.transform == other.transform
        &&& self.children@.len() == other.children@.len()
        &&& forall|j: int|
            0 <= j < self.children@.len() ==> (#[trigger] self.children@[j]).same_frames(
                &other.children@[j],
            )
    }

    /// Every widget of the tree holds the frame handed down to it, and its own
    /// transform is what `compose` gave for that frame and the widget's
    /// placement; its children are framed by that transform.
    pub open spec fn composed<F: Fn(Mat4, Placement) -> Mat4>(
        &self,
        vec_space: Mat4,
        compose: F,
    ) -> bool
        decreases self,
    {
        &&& self.vec_space == vec_space
        &&& call_ensures(compose, (vec_space, self.spec_placement()), self.transform)
        &&& forall|j: int|
            0 <= j < self.children@.len() ==> (#[trigger] self.children@[j]).composed(
                self.transform,
                compose,
            )
    }
}

/// A row of trees followed by one more tree.
pub proof fn lemma_forest_drawn_push(s: Seq<Widget>, w: Widget)
    ensures
        forest_drawn(s.push(w)) == forest_drawn(s) + w.drawn(),
{
    assert(s.push(w).drop_last() == s);
}

/// Two rows that hold consecutive slots hold them joined.
pub proof fn lemma_slots_from_concat(a: Seq<Drawn>, b: Seq<Drawn>, start: nat)
    requires
        slots_from(a, start),
        slots_from(b, start + a.len()),
    ensures
        slots_from(a + b, start),
{
}

/// A row of trees holds slots below `len` exactly if each tree does.
pub proof fn lemma_forest_indexed(s: Seq<Widget>, len: nat)
    ensures
        indexed_below(forest_drawn(s), len) <==> forall|j: int|
            0 <= j < s.len() ==> indexed_below(#[trigger] s[j].drawn(), len),
    decreases s.len(),
{
    if s.len() > 0 {
        let front = s.drop_last();
        let last = s.last();
        lemma_forest_indexed(front, len);
        let a = forest_drawn(front);
        let b = last.drawn();
        assert(forest_drawn(s) == a + b);
        if indexed_below(a + b, len) {
            assert forall|i: int| 0 <= i < a.len() implies (#[trigger] a[i]).index is Some
                && a[i].index->0 < len by {
                assert(a[i] == (a + b)[i]);
            }
            assert forall|i: int| 0 <= i < b.len() implies (#[trigger] b[i]).index is Some
                && b[i].index->0 < len by {
                assert(b[i] == (a + b)[a.len() + i]);
            }
            assert forall|j: int| 0 <= j < s.len() implies indexed_below(
                #[trigger] s[j].drawn(),
                len,
            ) by {
                if j < front.len() {
                    assert(front[j] == s[j]);
                }
            }
        }
        if forall|j: int| 0 <= j < s.len() ==> indexed_below(#[trigger] s[j].drawn(), len) {
            assert forall|j: int| 0 <= j < front.len() implies indexed_below(
                #[trigger] front[j].drawn(),
                len,
            ) by {
                assert(front[j] == s[j]);
            }
            assert(indexed_below(s[s.len() - 1].drawn(), len));
            assert(indexed_below(a + b, len));
        }
    }
}

/// A row of trees of which none holds a slot holds none.
pub proof fn lemma_forest_unregistered(s: Seq<Widget>)
    requires
        forall|j: int| 0 <= j < s.len() ==> unregistered(#[trigger] s[j].drawn()),
    ensures
        unregistered(forest_drawn(s)),
    decreases s.len(),
{
    if s.len() > 0 {
        let front = s.drop_last();
        assert forall|j: int| 0 <= j < front.len() implies unregistered(
            #[trigger] front[j].drawn(),
        ) by {
            assert(front[j] == s[j]);
        }
        lemma_forest_unregistered(front);
        assert(unregistered(s[s.len() - 1].drawn()));
    }
}

/// Writing two rows one after the other is writing them joined.
pub proof fn lemma_written_concat<T>(
    rows: Seq<T>,
    s1: Seq<Option<usize>>,
    v1: Seq<T>,
    s2: Seq<Option<usize>>,
    v2: Seq<T>,
)
    requires
        s1.len() == v1.len(),
        s2.len() == v2.len(),
    ensures
        written(rows, s1 + s2, v1 + v2) == written(written(rows, s1, v1), s2, v2),
    decreases s2.len(),
{
    if s2.len() == 0 {
        assert(s1 + s2 =~= s1);
        assert(v1 + v2 =~= v1);
    } else {
        lemma_written_concat(rows, s1, v1, s2.drop_last(), v2.drop_last());
        assert((s1 + s2).drop_last() =~= s1 + s2.drop_last());
        assert((v1 + v2).drop_last() =~= v1 + v2.drop_last());
        assert((s1 + s2).last() == s2.last());
        assert((v1 + v2).last() == v2.last());
    }
}

/// Writing one value at a slot that is there updates that row.
pub proof fn lemma_written_one<T>(rows: Seq<T>, slot: usize, value: T)
    requires
        slot < rows.len(),
    ensures
        written(rows, seq![Some(slot)], seq![value]) == rows.update(slot as int, value),
{
    let slots = seq![Some(slot)];
    let values = seq![value];
    assert(slots.drop_last() =~= Seq::<Option<usize>>::empty());
    assert(values.drop_last() =~= Seq::<T>::empty());
    assert(written(rows, slots.drop_last(), values.drop_last()) == rows);
}

/// Writing keeps the number of rows.
pub proof fn lemma_written_len<T>(rows: Seq<T>, slots: Seq<Option<usize>>, values: Seq<T>)
    ensures
        written(rows, slots, values).len() == rows.len(),
    decreases slots.len(),
{
    if slots.len() != 0 && values.len() == slots.len() {
        lemma_written_len(rows, slots.drop_last(), values.drop_last());
    }
}

impl Widget {
    /// Writes a transform straight into this widget's slot and touches no
    /// other. A composite has no slot of its own: its children are reached
    /// through the traversals. A drawn widget without a slot of the buffer has
    /// not been registered by a structural rebuild.
    pub fn set_transform(&self, buffer: &mut GeometryBuffer, transform: Mat4) -> (r: Result<
        (),
        EngineError,
    >)
        requires
            old(buffer).wf(),
        ensures
            final(buffer).wf(),
            final(buffer).infos == old(buffer).infos,
            !self.kind.is_primitive() ==> r == Err::<(), EngineError>(
                EngineError::WidgetNotPrimitive,
            ) && *final(buffer) == *old(buffer),
            self.kind.is_primitive() && !(self.index is Some && self.index->0 < old(
                buffer,
            ).transforms@.len()) ==> r == Err::<(), EngineError>(EngineError::WidgetIndexMissing)
                && *final(buffer) == *old(buffer),
            self.kind.is_primitive() && self.index is Some && self.index->0 < old(
                buffer,
            ).transforms@.len() ==> r == Ok::<(), EngineError>(()) && final(buffer).transforms@
                == old(buffer).transforms@.update(self.index->0 as int, transform),
    {
        if !self.kind.is_primitive() {
            return Err(EngineError::WidgetNotPrimitive);
        }
        match self.index {
            Some(slot) => {
                if slot < buffer.len() {
                    buffer.set_transform(slot, transform);
                    Ok(())
                } else {
                    Err(EngineError::WidgetIndexMissing)
                }
            },
            None => Err(EngineError::WidgetIndexMissing),
        }
    }

    /// Writes this widget's metadata block into its slot and touches no other.
    /// It fails as `set_transform` does.
    pub fn send_widget_info(&self, buffer: &mut GeometryBuffer) -> (r: Result<(), EngineError>)
        requires
            old(buffer).wf(),
        ensures
            final(buffer).wf(),
            final(buffer).transforms == old(buffer).transforms,
            !self.kind.is_primitive() ==> r == Err::<(), EngineError>(
                EngineError::WidgetNotPrimitive,
            ) && *final(buffer) == *old(buffer),
            self.kind.is_primitive() && !(self.index is Some && self.index->0 < old(
                buffer,
            ).transforms@.len()) ==> r == Err::<(), EngineError>(EngineError::WidgetIndexMissing)
                && *final(buffer) == *old(buffer),
            self.kind.is_primitive() && self.index is Some && self.index->0 < old(
                buffer,
            ).transforms@.len() ==> r == Ok::<(), EngineError>(()) && final(buffer).blocks()
                == old(buffer).blocks().update(self.index->0 as int, self.kind.block()),
    {
        if !self.kind.is_primitive() {
            return Err(EngineError::WidgetNotPrimitive);
        }
        match self.index {
            Some(slot) => {
                if slot < buffer.len() {
                    buffer.set_info(slot, self.kind.encode());
                    Ok(())
                } else {
                    Err(EngineError::WidgetIndexMissing)
                }
            },
            None => Err(EngineError::WidgetIndexMissing),
        }
    }

    /// Whether every drawn widget of the tree holds a slot below `len`.
    pub fn has_indices(&self, len: usize) -> (b: bool)
        ensures
            b == indexed_below(self.drawn(), len as nat),
        decreases self,
    {
        let own = match self.index {
            Some(slot) => slot < len,
            None => false,
        };
        let ghost whole = indexed_below(self.drawn(), len as nat);
        proof {
            lemma_forest_indexed(self.children@, len as nat);
            let a = self.own_drawn();
            let f = forest_drawn(self.children@);
            if whole {
                assert forall|i: int| 0 <= i < f.len() implies (#[trigger] f[i]).index is Some
                    && f[i].index->0 < len by {
                    assert(f[i] == (a + f)[a.len() + i]);
                }
                if self.kind.is_primitive() {
                    assert(a[0] == (a + f)[0]);
                }
            }
        }
        if self.kind.is_primitive() && !own {
            return false;
        }
        let count = self.children.len();
        let mut i: usize = 0;
        while i < count
            invariant
                i <= count,
                count == self.children@.len(),
                whole <==> forall|j: int|
                    0 <= j < count ==> indexed_below(#[trigger] self.children@[j].drawn(), len as nat),
                whole == indexed_below(self.drawn(), len as nat),
                forall|j: int| 0 <= j < i ==> indexed_below(#[trigger] self.children@[j].drawn(), len as nat),
            decreases count - i,
        {
            if !self.children[i].has_indices(len) {
                return false;
            }
            i = i + 1;
        }
        true
    }

    /// Structural rebuild of this subtree. Walks it in depth-first pre-order
    /// and appends one slot for each drawn widget: the widget takes the index
    /// of that slot, its frame is the matrix handed down, and its transform is
    /// what `compose` returns for that frame and the widget's placement. The
    /// children of a widget are framed by the widget's transform.
    pub fn traverse_and_push_all<F: Fn(Mat4, Placement) -> Mat4>(
        &mut self,
        vec_space: Mat4,
        buffer: &mut GeometryBuffer,
        compose: &F,
    )
        requires
            old(buffer).wf(),
            forall|m: Mat4, p: Placement| call_requires(*compose, (m, p)),
        ensures
            final(buffer).wf(),
            final(self).same_widgets(old(self)),
            final(self).composed(vec_space, *compose),
            slots_from(final(self).drawn(), old(buffer).transforms@.len()),
            final(buffer).transforms@ == old(buffer).transforms@ + transforms_of(
                final(self).drawn(),
            ),
            final(buffer).blocks() == old(buffer).blocks() + blocks_of(final(self).drawn()),
        decreases *old(self),
    {
        let ghost start = buffer.transforms@.len();
        self.vec_space = vec_space;
        let transform = compose(vec_space, self.placement());
        self.transform = transform;
        if self.kind.is_primitive() {
            let block = self.kind.encode();
            let slot = buffer.push(transform, block);
            self.index = Some(slot);
        }
        assert(buffer.transforms@ =~= old(buffer).transforms@ + transforms_of(self.own_drawn()));
        assert(buffer.blocks() =~= old(buffer).blocks() + blocks_of(self.own_drawn()));
        let count = self.children.len();
        let mut i: usize = 0;
        while i < count
            invariant
                i <= count,
                count == self.children@.len(),
                count == old(self).children@.len(),
                start == old(buffer).transforms@.len(),
                forall|m: Mat4, p: Placement| call_requires(*compose, (m, p)),
                buffer.wf(),
                self.position == old(self).position,
                self.rotation == old(self).rotation,
                self.width == old(self).width,
                self.height == old(self).height,
                self.kind == old(self).kind,
                !self.kind.is_primitive() ==> self.index == old(self).index,
                self.vec_space == vec_space,
                self.transform == transform,
                call_ensures(*compose, (vec_space, self.spec_placement()), transform),
                slots_from(self.own_drawn(), start),
                forall|j: int|
                    0 <= j < i ==> (#[trigger] self.children@[j]).same_widgets(
                        &old(self).children@[j],
                    ),
                forall|j: int|
                    0 <= j < i ==> (#[trigger] self.children@[j]).composed(transform, *compose),
                forall|j: int| i <= j < count ==> self.children@[j] == old(self).children@[j],
                slots_from(self.own_drawn() + forest_drawn(self.children@.take(i as int)), start),
                buffer.transforms@ == old(buffer).transforms@ + transforms_of(
                    self.own_drawn() + forest_drawn(self.children@.take(i as int)),
                ),
                buffer.blocks() == old(buffer).blocks() + blocks_of(
                    self.own_drawn() + forest_drawn(self.children@.take(i as int)),
                ),
            decreases count - i,
        {
            let ghost done = self.own_drawn() + forest_drawn(self.children@.take(i as int));
            let ghost before = self.children@;
            assert(buffer.transforms@.len() == start + transforms_of(done).len());
            self.children[i].traverse_and_push_all(transform, buffer, compose);
            proof {
                let child = self.children@[i as int];
                assert(self.children@.take(i as int) =~= before.take(i as int));
                assert(self.children@.take(i + 1) =~= self.children@.take(i as int).push(child));
                lemma_forest_drawn_push(self.children@.take(i as int), child);
                lemma_slots_from_concat(done, child.drawn(), start);
                assert(done + child.drawn() =~= self.own_drawn() + forest_drawn(
                    self.children@.take(i + 1),
                ));
                assert(transforms_of(done + child.drawn()) =~= transforms_of(done) + transforms_of(
                    child.drawn(),
                ));
                assert(blocks_of(done + child.drawn()) =~= blocks_of(done) + blocks_of(
                    child.drawn(),
                ));
                assert(buffer.transforms@ =~= old(buffer).transforms@ + transforms_of(
                    done + child.drawn(),
                ));
                assert(buffer.blocks() =~= old(buffer).blocks() + blocks_of(done + child.drawn()));
            }
            i = i + 1;
        }
        assert(self.children@.take(count as int) =~= self.children@);
    }

    /// The writing half of the transform-only refresh: for trees whose drawn
    /// widgets all hold a slot of the buffer.
    fn write_transforms<F: Fn(Mat4, Placement) -> Mat4>(
        &mut self,
        vec_space: Mat4,
        buffer: &mut GeometryBuffer,
        compose: &F,
    )
        requires
            old(buffer).wf(),
            indexed_below(old(self).drawn(), old(buffer).transforms@.len()),
            forall|m: Mat4, p: Placement| call_requires(*compose, (m, p)),
        ensures
            final(buffer).wf(),
            final(buffer).infos == old(buffer).infos,
            final(self).same_widgets(old(self)),
            final(self).composed(vec_space, *compose),
            slots_of(final(self).drawn()) == slots_of(old(self).drawn()),
            final(buffer).transforms@ == written(
                old(buffer).transforms@,
                slots_of(final(self).drawn()),
                transforms_of(final(self).drawn()),
            ),
        decreases *old(self),
    {
        let ghost rows = buffer.transforms@;
        proof {
            lemma_forest_indexed(self.children@, rows.len());
            let a = self.own_drawn();
            let f = forest_drawn(self.children@);
            assert forall|i: int| 0 <= i < f.len() implies (#[trigger] f[i]).index is Some
                && f[i].index->0 < rows.len() by {
                assert(f[i] == (a + f)[a.len() + i]);
            }
            if self.kind.is_primitive() {
                assert(a[0] == (a + f)[0]);
            }
        }
        self.vec_space = vec_space;
        let transform = compose(vec_space, self.placement());
        self.transform = transform;
        if self.kind.is_primitive() {
            match self.index {
                Some(slot) => {
                    buffer.set_transform(slot, transform);
                },
                None => {},
            }
        }
        proof {
            let own = self.own_drawn();
            assert(slots_of(own) =~= slots_of(old(self).own_drawn()));
            if self.kind.is_primitive() {
                lemma_written_one(rows, self.index->0, transform);
                assert(slots_of(own) =~= seq![self.index]);
                assert(transforms_of(own) =~= seq![transform]);
            } else {
                assert(slots_of(own) =~= Seq::<Option<usize>>::empty());
            }
            assert(buffer.transforms@ =~= written(rows, slots_of(own), transforms_of(own)));
        }
        let count = self.children.len();
        let mut i: usize = 0;
        while i < count
            invariant
                i <= count,
                count == self.children@.len(),
                count == old(self).children@.len(),
                rows == old(buffer).transforms@,
                forall|m: Mat4, p: Placement| call_requires(*compose, (m, p)),
                buffer.wf(),
                buffer.infos == old(buffer).infos,
                buffer.transforms@.len() == rows.len(),
                self.position == old(self).position,
                self.rotation == old(self).rotation,
                self.width == old(self).width,
                self.height == old(self).height,
                self.kind == old(self).kind,
                self.index == old(self).index,
                self.vec_space == vec_space,
                self.transform == transform,
                call_ensures(*compose, (vec_space, self.spec_placement()), transform),
                forall|j: int|
                    0 <= j < i ==> (#[trigger] self.children@[j]).same_widgets(
                        &old(self).children@[j],
                    ),
                forall|j: int|
                    0 <= j < i ==> (#[trigger] self.children@[j]).composed(transform, *compose),
                forall|j: int| i <= j < count ==> self.children@[j] == old(self).children@[j],
                forall|j: int|
                    0 <= j < count ==> indexed_below(
                        #[trigger] old(self).children@[j].drawn(),
                        rows.len(),
                    ),
                slots_of(self.own_drawn() + forest_drawn(self.children@.take(i as int)))
                    == slots_of(
                    old(self).own_drawn() + forest_drawn(old(self).children@.take(i as int)),
                ),
                buffer.transforms@ == written(
                    rows,
                    slots_of(self.own_drawn() + forest_drawn(self.children@.take(i as int))),
                    transforms_of(self.own_drawn() + forest_drawn(self.children@.take(i as int))),
                ),
            decreases count - i,
        {
            let ghost done = self.own_drawn() + forest_drawn(self.children@.take(i as int));
            let ghost before = self.children@;
            self.children[i].write_transforms(transform, buffer, compose);
            proof {
                let child = self.children@[i as int];
                let was = old(self).children@[i as int];
                let old_done = old(self).own_drawn() + forest_drawn(
                    old(self).children@.take(i as int),
                );
                assert(self.children@.take(i as int) =~= before.take(i as int));
                assert(self.children@.take(i + 1) =~= self.children@.take(i as int).push(child));
                assert(old(self).children@.take(i + 1) =~= old(self).children@.take(
                    i as int,
                ).push(was));
                lemma_forest_drawn_push(self.children@.take(i as int), child);
                lemma_forest_drawn_push(old(self).children@.take(i as int), was);
                assert(done + child.drawn() =~= self.own_drawn() + forest_drawn(
                    self.children@.take(i + 1),
                ));
                assert(old_done + was.drawn() =~= old(self).own_drawn() + forest_drawn(
                    old(self).children@.take(i + 1),
                ));
                assert(slots_of(done + child.drawn()) =~= slots_of(done) + slots_of(child.drawn()));
                assert(slots_of(old_done + was.drawn()) =~= slots_of(old_done) + slots_of(
                    was.drawn(),
                ));
                assert(transforms_of(done + child.drawn()) =~= transforms_of(done) + transforms_of(
                    child.drawn(),
                ));
                lemma_written_concat(
                    rows,
                    slots_of(done),
                    transforms_of(done),
                    slots_of(child.drawn()),
                    transforms_of(child.drawn()),
                );
                lemma_written_len(
                    rows,
                    slots_of(done + child.drawn()),
                    transforms_of(done + child.drawn()),
                );
            }
            i = i + 1;
        }
        assert(self.children@.take(count as int) =~= self.children@);
        assert(old(self).children@.take(count as int) =~= old(self).children@);
    }

    /// Transform-only refresh of this subtree, for when placements changed and
    /// the shape of the tree did not. It needs every drawn widget to hold a
    /// slot of the buffer, and changes nothing where one does not. Otherwise
    /// it walks the tree as the structural rebuild does and writes each
    /// transform at the widget's slot.
    pub fn traverse_and_set_transforms<F: Fn(Mat4, Placement) -> Mat4>(
        &mut self,
        vec_space: Mat4,
        buffer: &mut GeometryBuffer,
        compose: &F,
    ) -> (r: Result<(), EngineError>)
        requires
            old(buffer).wf(),
            forall|m: Mat4, p: Placement| call_requires(*compose, (m, p)),
        ensures
            final(buffer).wf(),
            final(buffer).infos == old(buffer).infos,
            indexed_below(old(self).drawn(), old(buffer).transforms@.len()) ==> {
                &&& r == Ok::<(), EngineError>(())
                &&& final(self).same_widgets(old(self))
                &&& final(self).composed(vec_space, *compose)
                &&& slots_of(final(self).drawn()) == slots_of(old(self).drawn())
                &&& final(buffer).transforms@ == written(
                    old(buffer).transforms@,
                    slots_of(final(self).drawn()),
                    transforms_of(final(self).drawn()),
                )
            },
            !indexed_below(old(self).drawn(), old(buffer).transforms@.len()) ==> {
                &&& r == Err::<(), EngineError>(EngineError::WidgetIndexMissing)
                &&& *final(self) == *old(self)
                &&& *final(buffer) == *old(buffer)
            },
    {
        if !self.has_indices(buffer.len()) {
            return Err(EngineError::WidgetIndexMissing);
        }
        self.write_transforms(vec_space, buffer, compose);
        Ok(())
    }

    /// The writing half of the info-only refresh: for trees whose drawn widgets
    /// all hold a slot of the buffer.
    fn write_infos(&self, buffer: &mut GeometryBuffer)
        requires
            old(buffer).wf(),
            indexed_below(self.drawn(), old(buffer).transforms@.len()),
        ensures
            final(buffer).wf(),
            final(buffer).transforms == old(buffer).transforms,
            final(buffer).blocks() == written(
                old(buffer).blocks(),
                slots_of(self.drawn()),
                blocks_of(self.drawn()),
            ),
        decreases self,
    {
        let ghost rows = buffer.blocks();
        proof {
            lemma_forest_indexed(self.children@, rows.len());
            let a = self.own_drawn();
            let f = forest_drawn(self.children@);
            assert forall|i: int| 0 <= i < f.len() implies (#[trigger] f[i]).index is Some
                && f[i].index->0 < rows.len() by {
                assert(f[i] == (a + f)[a.len() + i]);
            }
            if self.kind.is_primitive() {
                assert(a[0] == (a + f)[0]);
            }
        }
        if self.kind.is_primitive() {
            match self.index {
                Some(slot) => {
                    let block = self.kind.encode();
                    buffer.set_info(slot, block);
                },
                None => {},
            }
        }
        proof {
            let own = self.own_drawn();
            if self.kind.is_primitive() {
                lemma_written_one(rows, self.index->0, self.kind.block());
                assert(slots_of(own) =~= seq![self.index]);
                assert(blocks_of(own) =~= seq![self.kind.block()]);
            } else {
                assert(slots_of(own) =~= Seq::<Option<usize>>::empty());
            }
            assert(buffer.blocks() =~= written(rows, slots_of(own), blocks_of(own)));
        }
        let count = self.children.len();
        let mut i: usize = 0;
        while i < count
            invariant
                i <= count,
                count == self.children@.len(),
                rows == old(buffer).blocks(),
                buffer.wf(),
                buffer.transforms == old(buffer).transforms,
                buffer.blocks().len() == rows.len(),
                forall|j: int|
                    0 <= j < count ==> indexed_below(
                        #[trigger] self.children@[j].drawn(),
                        rows.len(),
                    ),
                buffer.blocks() == written(
                    rows,
                    slots_of(self.own_drawn() + forest_drawn(self.children@.take(i as int))),
                    blocks_of(self.own_drawn() + forest_drawn(self.children@.take(i as int))),
                ),
            decreases count - i,
        {
            let ghost done = self.own_drawn() + forest_drawn(self.children@.take(i as int));
            self.children[i].write_infos(buffer);
            proof {
                let child = self.children@[i as int];
                assert(self.children@.take(i + 1) =~= self.children@.take(i as int).push(child));
                lemma_forest_drawn_push(self.children@.take(i as int), child);
                assert(done + child.drawn() =~= self.own_drawn() + forest_drawn(
                    self.children@.take(i + 1),
                ));
                assert(slots_of(done + child.drawn()) =~= slots_of(done) + slots_of(child.drawn()));
                assert(blocks_of(done + child.drawn()) =~= blocks_of(done) + blocks_of(
                    child.drawn(),
                ));
                lemma_written_concat(
                    rows,
                    slots_of(done),
                    blocks_of(done),
                    slots_of(child.drawn()),
                    blocks_of(child.drawn()),
                );
                lemma_written_len(
                    rows,
                    slots_of(done + child.drawn()),
                    blocks_of(done + child.drawn()),
                );
            }
            i = i + 1;
        }
        assert(self.children@.take(count as int) =~= self.children@);
    }

    /// Info-only refresh of this subtree: writes the metadata block of every
    /// drawn widget at the widget's slot and leaves the transforms alone. It
    /// needs every drawn widget to hold a slot of the buffer, and changes
    /// nothing where one does not.
    pub fn traverse_and_send_info(&self, buffer: &mut GeometryBuffer) -> (r: Result<
        (),
        EngineError,
    >)
        requires
            old(buffer).wf(),
        ensures
            final(buffer).wf(),
            final(buffer).transforms == old(buffer).transforms,
            indexed_below(self.drawn(), old(buffer).transforms@.len()) ==> {
                &&& r == Ok::<(), EngineError>(())
                &&& final(buffer).blocks() == written(
                    old(buffer).blocks(),
                    slots_of(self.drawn()),
                    blocks_of(self.drawn()),
                )
            },
            !indexed_below(self.drawn(), old(buffer).transforms@.len()) ==> {
                &&& r == Err::<(), EngineError>(EngineError::WidgetIndexMissing)
                &&& *final(buffer) == *old(buffer)
            },
    {
        if !self.has_indices(buffer.len()) {
            return Err(EngineError::WidgetIndexMissing);
        }
        self.write_infos(buffer);
        Ok(())
    }

    /// Takes the slot from every drawn widget of the tree, as is due when the
    /// tree was edited: until the next structural rebuild both refreshes then
    /// fail, where they would else write to slots that are no longer the
    /// widgets' own.
    pub fn clear_indices(&mut self)
        ensures
            final(self).same_widgets(old(self)),
            final(self).same_frames(old(self)),
            unregistered(final(self).drawn()),
        decreases *old(self),
    {
        if self.kind.is_primitive() {
            self.index = None;
        }
        let count = self.children.len();
        let mut i: usize = 0;
        while i < count
            invariant
                i <= count,
                count == self.children@.len(),
                count == old(self).children@.len(),
                self.position == old(self).position,
                self.rotation == old(self).rotation,
                self.width == old(self).width,
                self.height == old(self).height,
                self.kind == old(self).kind,
                self.vec_space == old(self).vec_space,
                self.transform == old(self).transform,
                self.kind.is_primitive() ==> self.index is None,
                !self.kind.is_primitive() ==> self.index == old(self).index,
                forall|j: int|
                    0 <= j < i ==> (#[trigger] self.children@[j]).same_widgets(
                        &old(self).children@[j],
                    ),
                forall|j: int|
                    0 <= j < i ==> (#[trigger] self.children@[j]).same_frames(
                        &old(self).children@[j],
                    ),
                forall|j: int| 0 <= j < i ==> unregistered(#[trigger] self.children@[j].drawn()),
                forall|j: int| i <= j < count ==> self.children@[j] == old(self).children@[j],
            decreases count - i,
        {
            self.children[i].clear_indices();
            i = i + 1;
        }
        proof {
            lemma_forest_unregistered(self.children@);
        }
    }
}

} // verus!
