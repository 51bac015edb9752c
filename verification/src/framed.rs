use vstd::prelude::*;
use crate::scalar::{Scalar, Vec2, Vec4};
use crate::traversal::{lemma_forest_unregistered, unregistered};
use crate::widget::{
    BackgroundWidget, BorderWidget, Inset, PictureWidget, TextureHandle, TextureWidget, Widget,
    WidgetKind,
};

verus! {

impl Widget {
    /// A framed widget is a composite with exactly three children: a
    /// background first, the inner widget second, a border third.
    pub open spec fn spec_is_framed(&self) -> bool {
        &&& self.kind is Picture
        &&& self.children@.len() == 3
        &&& self.children@[0].kind is Background
        &&& self.children@[2].kind is Border
    }

    #[verifier::when_used_as_spec(spec_is_framed)]
    pub fn is_framed(&self) -> (r: bool)
        ensures
            r == self.spec_is_framed(),
    {
        let composite = match self.kind {
            WidgetKind::Picture(_) => true,
            _ => false,
        };
        if !composite || self.children.len() != 3 {
            return false;
        }
        let first = match self.children[0].kind {
            WidgetKind::Background(_) => true,
            _ => false,
        };
        let third = match self.children[2].kind {
            WidgetKind::Border(_) => true,
            _ => false,
        };
        first && third
    }

    /// Position and size of this widget, as an inset of its parent's frame.
    pub open spec fn inset_held(&self) -> Inset {
        Inset { position: self.position, width: self.width, height: self.height }
    }

    /// This widget at the position and of the size that `inset` gives.
    pub open spec fn placed_at(&self, inset: Inset) -> Widget {
        Widget { position: inset.position, width: inset.width, height: inset.height, ..*self }
    }

    pub fn get_background(&self) -> (w: &Widget)
        requires
            self.is_framed(),
        ensures
            *w == self.children@[0],
    {
        &self.children[0]
    }

    pub fn get_inner_widget(&self) -> (w: &Widget)
        requires
            self.is_framed(),
        ensures
            *w == self.children@[1],
    {
        &self.children[1]
    }

    pub fn get_border(&self) -> (w: &Widget)
        requires
            self.is_framed(),
        ensures
            *w == self.children@[2],
    {
        &self.children[2]
    }

    /// The background, to change in place. Whoever changes its kind leaves a
    /// widget that is framed no longer.
    pub fn get_background_mut(&mut self) -> (w: &mut Widget)
        requires
            old(self).is_framed(),
        ensures
            *w == old(self).children@[0],
            *final(self) == (Widget { children: final(self).children, ..*old(self) }),
            final(self).children@ == old(self).children@.update(0, *final(w)),
    {
        &mut self.children[0]
    }

    /// The border, to change in place. Whoever changes its kind leaves a
    /// widget that is framed no longer.
    pub fn get_border_mut(&mut self) -> (w: &mut Widget)
        requires
            old(self).is_framed(),
        ensures
            *w == old(self).children@[2],
            *final(self) == (Widget { children: final(self).children, ..*old(self) }),
            final(self).children@ == old(self).children@.update(2, *final(w)),
    {
        &mut self.children[2]
    }

    /// The inner widget, to change in place. The frame itself stays as it is.
    pub fn get_inner_widget_mut(&mut self) -> (w: &mut Widget)
        requires
            old(self).is_framed(),
        ensures
            *w == old(self).children@[1],
            final(self).is_framed(),
            *final(self) == (Widget { children: final(self).children, ..*old(self) }),
            final(self).children@ == old(self).children@.update(1, *final(w)),
    {
        &mut self.children[1]
    }

    /// Replaces the background. Structural edit: slots are stale afterwards.
    pub fn set_background(&mut self, widget: Widget)
        requires
            old(self).is_framed(),
            widget.kind is Background,
        ensures
            final(self).is_framed(),
            *final(self) == (Widget { children: final(self).children, ..*old(self) }),
            final(self).children@ == old(self).children@.update(0, widget),
    {
        self.children[0] = widget;
    }

    /// Replaces the inner widget, which is taken as it is placed. Structural
    /// edit: slots are stale afterwards.
    pub fn set_inner_widget(&mut self, widget: Widget)
        requires
            old(self).is_framed(),
        ensures
            final(self).is_framed(),
            *final(self) == (Widget { children: final(self).children, ..*old(self) }),
            final(self).children@ == old(self).children@.update(1, widget),
    {
        self.children[1] = widget;
    }

    /// Replaces the border. Structural edit: slots are stale afterwards. The
    /// inner widget keeps its place until border widths or padding are next
    /// set.
    pub fn set_border(&mut self, widget: Widget)
        requires
            old(self).is_framed(),
            widget.kind is Border,
        ensures
            final(self).is_framed(),
            *final(self) == (Widget { children: final(self).children, ..*old(self) }),
            final(self).children@ == old(self).children@.update(2, widget),
    {
        self.children[2] = widget;
    }

    pub open spec fn spec_get_border_widths(&self) -> Vec4 {
        self.children@[2].kind->Border_0.border_widths
    }

    /// The widths of the border: left, right, top, bottom.
    #[verifier::when_used_as_spec(spec_get_border_widths)]
    pub fn get_border_widths(&self) -> (widths: Vec4)
        requires
            self.is_framed(),
        ensures
            widths == self.spec_get_border_widths(),
    {
        match self.children[2].kind {
            WidgetKind::Border(b) => b.border_widths,
            _ => Vec4::zero(),
        }
    }

    pub open spec fn spec_get_padding(&self) -> Vec4 {
        self.kind->Picture_0.padding
    }

    /// The padding between border and inner widget: left, right, top, bottom.
    #[verifier::when_used_as_spec(spec_get_padding)]
    pub fn get_padding(&self) -> (padding: Vec4)
        requires
            self.is_framed(),
        ensures
            padding == self.spec_get_padding(),
    {
        match self.kind {
            WidgetKind::Picture(p) => p.padding,
            _ => Vec4::zero(),
        }
    }

    /// Gives the inner widget the position and size of `inset` and changes
    /// nothing else.
    pub fn apply_inset(&mut self, inset: Inset)
        requires
            old(self).is_framed(),
        ensures
            final(self).is_framed(),
            final(self).children@ == old(self).children@.update(
                1,
                old(self).children@[1].placed_at(inset),
            ),
            *final(self) == (Widget { children: final(self).children, ..*old(self) }),
    {
        let inner = &mut self.children[1];
        inner.position = inset.position;
        inner.width = inset.width;
        inner.height = inset.height;
        assert(self.children@ =~= old(self).children@.update(
            1,
            old(self).children@[1].placed_at(inset),
        ));
    }

    /// Places the inner widget anew: at once, not at the next traversal.
    /// `inset_of` is asked for the inset that the border's widths and the
    /// padding leave, and the inner widget takes that position and size.
    pub fn update_inset<F: Fn(Vec4, Vec4) -> Inset>(&mut self, inset_of: &F)
        requires
            old(self).is_framed(),
            call_requires(
                *inset_of,
                (old(self).spec_get_border_widths(), old(self).spec_get_padding()),
            ),
        ensures
            final(self).is_framed(),
            call_ensures(
                *inset_of,
                (old(self).spec_get_border_widths(), old(self).spec_get_padding()),
                final(self).children@[1].inset_held(),
            ),
            final(self).children@ == old(self).children@.update(
                1,
                old(self).children@[1].placed_at(final(self).children@[1].inset_held()),
            ),
            *final(self) == (Widget { children: final(self).children, ..*old(self) }),
    {
        let inset = inset_of(self.get_border_widths(), self.get_padding());
        self.apply_inset(inset);
    }

    /// Sets the border's widths and places the inner widget anew.
    pub fn set_border_widths<F: Fn(Vec4, Vec4) -> Inset>(&mut self, widths: Vec4, inset_of: &F)
        requires
            old(self).is_framed(),
            call_requires(*inset_of, (widths, old(self).spec_get_padding())),
        ensures
            final(self).is_framed(),
            final(self).spec_get_border_widths() == widths,
            final(self).children@[2] == (Widget {
                kind: WidgetKind::Border(
                    BorderWidget {
                        colour: old(self).children@[2].kind->Border_0.colour,
                        border_widths: widths,
                    },
                ),
                ..old(self).children@[2]
            }),
            final(self).children@[0] == old(self).children@[0],
            call_ensures(
                *inset_of,
                (widths, old(self).spec_get_padding()),
                final(self).children@[1].inset_held(),
            ),
            final(self).children@[1] == old(self).children@[1].placed_at(
                final(self).children@[1].inset_held(),
            ),
            *final(self) == (Widget { children: final(self).children, ..*old(self) }),
    {
        let colour = match self.children[2].kind {
            WidgetKind::Border(b) => b.colour,
            _ => Vec4::zero(),
        };
        let border = &mut self.children[2];
        border.kind = WidgetKind::Border(BorderWidget { colour, border_widths: widths });
        self.update_inset(inset_of);
    }

    /// Sets the padding and places the inner widget anew.
    pub fn set_padding<F: Fn(Vec4, Vec4) -> Inset>(&mut self, padding: Vec4, inset_of: &F)
        requires
            old(self).is_framed(),
            call_requires(*inset_of, (old(self).spec_get_border_widths(), padding)),
        ensures
            final(self).is_framed(),
            call_ensures(
                *inset_of,
                (old(self).spec_get_border_widths(), padding),
                final(self).children@[1].inset_held(),
            ),
            final(self).children@ == old(self).children@.update(
                1,
                old(self).children@[1].placed_at(final(self).children@[1].inset_held()),
            ),
            *final(self) == (Widget {
                kind: WidgetKind::Picture(PictureWidget { padding }),
                children: final(self).children,
                ..*old(self)
            }),
    {
        self.kind = WidgetKind::Picture(PictureWidget { padding });
        self.update_inset(inset_of);
    }
}

impl PictureWidget {
    /// A framed picture over its parent's frame: a background of the given
    /// colour, the texture, and a border of the given colour and widths on
    /// top. The texture is set in by what `inset_of` gives for the border's
    /// widths and the padding.
    pub fn new<F: Fn(Vec4, Vec4) -> Inset>(
        padding: Vec4,
        background_colour: Vec4,
        texture: TextureHandle,
        border_colour: Vec4,
        border_widths: Vec4,
        inset_of: &F,
    ) -> (w: Widget)
        requires
            call_requires(*inset_of, (border_widths, padding)),
        ensures
            w.is_framed(),
            w.kind == WidgetKind::Picture(PictureWidget { padding }),
            w.position == Vec2::origin(),
            w.width == Scalar::one(),
            w.height == Scalar::one(),
            w.is_untouched(),
            w.children@[0].is_default_placed(),
            w.children@[0].kind == WidgetKind::Background(
                BackgroundWidget { colour: background_colour },
            ),
            w.children@[2].is_default_placed(),
            w.children@[2].kind == WidgetKind::Border(
                BorderWidget { colour: border_colour, border_widths },
            ),
            w.children@[1].kind == WidgetKind::Texture(TextureWidget { texture: Some(texture) }),
            w.children@[1].is_untouched(),
            w.children@[1].children@ == Seq::<Widget>::empty(),
            unregistered(w.drawn()),
            call_ensures(*inset_of, (border_widths, padding), w.children@[1].inset_held()),
    {
        let mut w = Widget::new(WidgetKind::Picture(PictureWidget { padding }));
        w.children.push(BackgroundWidget::new(background_colour));
        w.children.push(TextureWidget::new(texture));
        w.children.push(BorderWidget::new(border_colour, border_widths));
        w.update_inset(inset_of);
        proof {
            let c = w.children@;
            assert forall|j: int| 0 <= j < c.len() implies unregistered(#[trigger] c[j].drawn()) by {
                assert(c[j].children@.len() == 0);
                assert(c[j].drawn() =~= c[j].own_drawn());
            }
            lemma_forest_unregistered(c);
        }
        w
    }
}

} // verus!
