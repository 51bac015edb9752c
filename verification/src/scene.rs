use vstd::prelude::*;
use crate::error::EngineError;
use crate::geometry_buffer::GeometryBuffer;
use crate::scalar::{Mat4, Placement};
use crate::slot_laws::lemma_written_dense;
use crate::traversal::{
    blocks_of, indexed_below, slots_from, slots_of, transforms_of, unregistered, written,
};
use crate::widget::Widget;

verus! {

/// A 2D scene: one root widget, the geometry buffer that its tree is
/// flattened into, and the size of the viewport in pixels.
#[derive(Debug)]
pub struct Widget2dScene {
    pub root: Widget,
    pub buffer: GeometryBuffer,
    pub width: i32,
    pub height: i32,
}

impl Widget2dScene {
    /// The buffer holds one slot for each drawn widget of the tree, and the
    /// widgets hold the slots 0, 1, ... in depth-first pre-order.
    pub open spec fn in_sync(&self) -> bool {
        &&& self.buffer.wf()
        &&& slots_from(self.root.drawn(), 0)
        &&& self.buffer.transforms@.len() == self.root.drawn().len()
    }

    /// A scene around `root` with an empty buffer: nothing is registered
    /// before the first structural rebuild.
    pub fn new(width: i32, height: i32, root: Widget) -> (s: Widget2dScene)
        ensures
            s.root == root,
            s.width == width,
            s.height == height,
            s.buffer.wf(),
            s.buffer.transforms@.len() == 0,
    {
        Widget2dScene { root, buffer: GeometryBuffer::new(), width, height }
    }

    /// To be called when the tree was edited: takes the slot from every drawn
    /// widget and empties the buffer. Until the next structural rebuild the
    /// refreshes and `draw` fail, unless the tree draws nothing.
    pub fn invalidate(&mut self)
        requires
            old(self).buffer.wf(),
        ensures
            final(self).width == old(self).width,
            final(self).height == old(self).height,
            final(self).root.same_widgets(&old(self).root),
            final(self).root.same_frames(&old(self).root),
            unregistered(final(self).root.drawn()),
            final(self).buffer.wf(),
            final(self).buffer.transforms@.len() == 0,
    {
        self.root.clear_indices();
        self.buffer.clear();
    }

    pub fn get_size(&self) -> (size: (i32, i32))
        ensures
            size == (self.width, self.height),
    {
        (self.width, self.height)
    }

    /// Structural rebuild of the whole scene: empties the buffer, then walks
    /// the tree from the root with the identity as the root's frame.
    /// Afterwards the two arrays hold, slot by slot, the transforms and the
    /// metadata blocks of the drawn widgets in depth-first pre-order.
    pub fn traverse_and_push_all<F: Fn(Mat4, Placement) -> Mat4>(&mut self, compose: &F)
        requires
            old(self).buffer.wf(),
            forall|m: Mat4, p: Placement| call_requires(*compose, (m, p)),
        ensures
            final(self).in_sync(),
            final(self).width == old(self).width,
            final(self).height == old(self).height,
            final(self).root.same_widgets(&old(self).root),
            final(self).root.composed(Mat4::identity(), *compose),
            final(self).buffer.transforms@ == transforms_of(final(self).root.drawn()),
            final(self).buffer.blocks() == blocks_of(final(self).root.drawn()),
    {
        self.buffer.clear();
        self.root.traverse_and_push_all(Mat4::identity(), &mut self.buffer, compose);
        assert(self.buffer.transforms@ =~= transforms_of(self.root.drawn()));
        assert(self.buffer.blocks() =~= blocks_of(self.root.drawn()));
    }

    /// Takes the new size of the viewport and rebuilds the scene, as a change
    /// of size may move every widget.
    pub fn set_size<F: Fn(Mat4, Placement) -> Mat4>(&mut self, width: i32, height: i32, compose: &F)
        requires
            old(self).buffer.wf(),
            forall|m: Mat4, p: Placement| call_requires(*compose, (m, p)),
        ensures
            final(self).in_sync(),
            final(self).width == width,
            final(self).height == height,
            final(self).root.same_widgets(&old(self).root),
            final(self).root.composed(Mat4::identity(), *compose),
            final(self).buffer.transforms@ == transforms_of(final(self).root.drawn()),
            final(self).buffer.blocks() == blocks_of(final(self).root.drawn()),
    {
        self.width = width;
        self.height = height;
        self.traverse_and_push_all(compose);
    }

    /// Transform-only refresh of the whole scene. On a scene that is in sync
    /// it succeeds, and the transform array then holds the new transforms of
    /// the drawn widgets in depth-first pre-order. Where a drawn widget holds
    /// no slot of the buffer, nothing changes.
    pub fn traverse_and_set_transforms<F: Fn(Mat4, Placement) -> Mat4>(
        &mut self,
        compose: &F,
    ) -> (r: Result<(), EngineError>)
        requires
            old(self).buffer.wf(),
            forall|m: Mat4, p: Placement| call_requires(*compose, (m, p)),
        ensures
            old(self).in_sync() ==> r is Ok && final(self).in_sync(),
            old(self).in_sync() ==> final(self).buffer.transforms@ == transforms_of(
                final(self).root.drawn(),
            ),
            r is Ok <==> indexed_below(old(self).root.drawn(), old(self).buffer.transforms@.len()),
            r is Ok ==> {
                &&& final(self).buffer.wf()
                &&& final(self).buffer.infos == old(self).buffer.infos
                &&& final(self).width == old(self).width
                &&& final(self).height == old(self).height
                &&& final(self).root.same_widgets(&old(self).root)
                &&& final(self).root.composed(Mat4::identity(), *compose)
                &&& slots_of(final(self).root.drawn()) == slots_of(old(self).root.drawn())
                &&& final(self).buffer.transforms@ == written(
                    old(self).buffer.transforms@,
                    slots_of(final(self).root.drawn()),
                    transforms_of(final(self).root.drawn()),
                )
            },
            r is Err ==> r == Err::<(), EngineError>(EngineError::WidgetIndexMissing)
                && *final(self) == *old(self),
    {
        let r = self.root.traverse_and_set_transforms(Mat4::identity(), &mut self.buffer, compose);
        proof {
            if old(self).in_sync() {
                let was = old(self).root.drawn();
                let now = self.root.drawn();
                assert(slots_of(now).len() == now.len());
                assert(slots_of(was).len() == was.len());
                assert forall|i: int| 0 <= i < now.len() implies (#[trigger] now[i]).index is Some
                    && now[i].index->0 == 0 + i by {
                    assert(slots_of(now)[i] == slots_of(was)[i]);
                    assert(was[i].index->0 == 0 + i);
                }
                lemma_written_dense(
                    old(self).buffer.transforms@,
                    slots_of(now),
                    transforms_of(now),
                    0,
                );
                assert(self.buffer.transforms@ =~= transforms_of(now));
            }
        }
        r
    }

    /// Prepares one frame: an info-only refresh, so that the metadata array
    /// holds what the widgets hold now, and then the instance count of the one
    /// draw that the frame takes. Where a drawn widget holds no slot of the
    /// buffer, nothing changes and no draw is due.
    pub fn draw(&mut self) -> (r: Result<usize, EngineError>)
        requires
            old(self).buffer.wf(),
        ensures
            final(self).root == old(self).root,
            final(self).width == old(self).width,
            final(self).height == old(self).height,
            final(self).buffer.wf(),
            final(self).buffer.transforms == old(self).buffer.transforms,
            old(self).in_sync() ==> r is Ok && final(self).buffer.blocks() == blocks_of(
                old(self).root.drawn(),
            ),
            r is Ok <==> indexed_below(old(self).root.drawn(), old(self).buffer.transforms@.len()),
            r is Ok ==> {
                &&& r->Ok_0 == old(self).buffer.transforms@.len()
                &&& final(self).buffer.blocks() == written(
                    old(self).buffer.blocks(),
                    slots_of(old(self).root.drawn()),
                    blocks_of(old(self).root.drawn()),
                )
            },
            r is Err ==> r == Err::<usize, EngineError>(EngineError::WidgetIndexMissing)
                && *final(self) == *old(self),
    {
        proof {
            if self.in_sync() {
                let d = self.root.drawn();
                assert(slots_of(d).len() == d.len());
                lemma_written_dense(self.buffer.blocks(), slots_of(d), blocks_of(d), 0);
                assert(self.buffer.blocks().take(0) + blocks_of(d) + self.buffer.blocks().skip(
                    d.len() as int,
                ) =~= blocks_of(d));
            }
        }
        match self.root.traverse_and_send_info(&mut self.buffer) {
            Ok(()) => Ok(self.buffer.len()),
            Err(e) => Err(e),
        }
    }
}

} // verus!
