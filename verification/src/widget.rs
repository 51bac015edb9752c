use vstd::prelude::*;
use crate::error::EngineError;
use crate::scalar::{Mat4, Placement, Quat, Scalar, Vec2, Vec4};

verus! {

/// A texture as the widget tree knows it: the identifier that names it in
/// diagnostics, and the 64-bit value under which a shader reads it.
#[derive(Clone, Copy, Debug, PartialEq, Eq, Structural)]
pub struct TextureHandle {
    pub id: u32,
    pub handle: u64,
}

/// Payload of a widget that fills its box with one colour.
#[derive(Clone, Copy, Debug, PartialEq, Eq, Structural)]
pub struct BackgroundWidget {
    pub colour: Vec4,
}

/// Payload of a widget that draws a ring along the edge of its box.
#[derive(Clone, Copy, Debug, PartialEq, Eq, Structural)]
pub struct BorderWidget {
    pub colour: Vec4,
    /// Left, right, top, bottom.
    pub border_widths: Vec4,
}

/// Payload of a widget that shows a texture.
#[derive(Clone, Copy, Debug, PartialEq, Eq, Structural)]
pub struct TextureWidget {
    pub texture: Option<TextureHandle>,
}

/// Payload of a widget that shows text.
#[derive(Clone, Copy, Debug, PartialEq, Eq, Structural)]
pub struct TextWidget {
    pub colour: Vec4,
    pub font_face: Option<u32>,
    /// In pixels.
    pub font_size: u32,
}

/// Payload of a widget that only groups its children; it is drawn as an
/// empty box.
#[derive(Clone, Copy, Debug, PartialEq, Eq, Structural)]
pub struct ContainerWidget {}

/// Payload of a framed picture: a background, an inner widget and a border,
/// the inner widget set in by border widths and padding.
#[derive(Clone, Copy, Debug, PartialEq, Eq, Structural)]
pub struct PictureWidget {
    /// Left, right, top, bottom.
    pub padding: Vec4,
}

/// What a widget is, with the data that only that variant has.
#[derive(Clone, Copy, Debug, PartialEq, Eq, Structural)]
pub enum WidgetKind {
    Background(BackgroundWidget),
    Border(BorderWidget),
    Texture(TextureWidget),
    Text(TextWidget),
    Container(ContainerWidget),
    Picture(PictureWidget),
}

/// Position and size of a framed widget's inner child, as border widths and
/// padding leave it.
#[derive(Clone, Copy, Debug, PartialEq, Eq, Structural)]
pub struct Inset {
    pub position: Vec2,
    pub width: Scalar,
    pub height: Scalar,
}

/// A node of the widget tree. A widget owns its children; their order is the
/// order in which they are drawn.
#[derive(Debug)]
pub struct Widget {
    pub position: Vec2,
    pub rotation: Quat,
    pub width: Scalar,
    pub height: Scalar,
    pub children: Vec<Widget>,
    /// The widget's slot in the geometry buffer, if it has been given one.
    pub index: Option<usize>,
    /// The parent's frame as seen from the root, as of the last traversal.
    pub vec_space: Mat4,
    /// The widget's own frame as seen from the root, as of the last traversal.
    pub transform: Mat4,
    pub kind: WidgetKind,
}

impl WidgetKind {
    /// A primitive is drawn and takes one slot; a composite is not and takes none.
    pub open spec fn spec_is_primitive(&self) -> bool {
        !(self is Picture)
    }

    #[verifier::when_used_as_spec(spec_is_primitive)]
    pub fn is_primitive(&self) -> (r: bool)
        ensures
            r == self.spec_is_primitive(),
    {
        match self {
            WidgetKind::Picture(_) => false,
            _ => true,
        }
    }
}

impl Widget {
    /// The state in which the constructors leave a widget but for its kind: at
    /// the origin, of size 1 by 1, not rotated, without children, without a
    /// slot, its frames the identity.
    pub open spec fn is_default_placed(&self) -> bool {
        &&& self.position == Vec2::origin()
        &&& self.width == Scalar::one()
        &&& self.height == Scalar::one()
        &&& self.children@ == Seq::<Widget>::empty()
        &&& self.is_untouched()
    }

    /// No traversal has touched the widget and nothing has turned it: it is
    /// not rotated, holds no slot, and its frames are the identity.
    pub open spec fn is_untouched(&self) -> bool {
        &&& self.rotation == Quat::identity()
        &&& self.index == None::<usize>
        &&& self.vec_space == Mat4::identity()
        &&& self.transform == Mat4::identity()
    }

    /// A widget of the given kind that fills its parent's frame: at the origin,
    /// of size 1 by 1, not rotated, without children and without a slot.
    pub fn new(kind: WidgetKind) -> (w: Widget)
        ensures
            w.is_default_placed(),
            w.kind == kind,
    {
        Widget {
            position: Vec2::origin(),
            rotation: Quat::identity(),
            width: Scalar::one(),
            height: Scalar::one(),
            children: Vec::new(),
            index: None,
            vec_space: Mat4::identity(),
            transform: Mat4::identity(),
            kind,
        }
    }

    pub open spec fn spec_is_primitive(&self) -> bool {
        self.kind.is_primitive()
    }

    #[verifier::when_used_as_spec(spec_is_primitive)]
    pub fn is_primitive(&self) -> (r: bool)
        ensures
            r == self.spec_is_primitive(),
    {
        self.kind.is_primitive()
    }

    pub open spec fn spec_placement(&self) -> Placement {
        Placement {
            position: self.position,
            rotation: self.rotation,
            width: self.width,
            height: self.height,
        }
    }

    /// Position, rotation and size together.
    #[verifier::when_used_as_spec(spec_placement)]
    pub fn placement(&self) -> (p: Placement)
        ensures
            p == self.spec_placement(),
    {
        Placement {
            position: self.position,
            rotation: self.rotation,
            width: self.width,
            height: self.height,
        }
    }

    pub fn get_position(&self) -> (p: Vec2)
        ensures
            p == self.position,
    {
        self.position
    }

    pub fn set_position(&mut self, pos: Vec2)
        ensures
            *final(self) == (Widget { position: pos, ..*old(self) }),
    {
        self.position = pos;
    }

    pub fn get_rotation(&self) -> (r: Quat)
        ensures
            r == self.rotation,
    {
        self.rotation
    }

    pub fn set_rotation(&mut self, rot: Quat)
        ensures
            *final(self) == (Widget { rotation: rot, ..*old(self) }),
    {
        self.rotation = rot;
    }

    pub fn get_size(&self) -> (size: (Scalar, Scalar))
        ensures
            size == (self.width, self.height),
    {
        (self.width, self.height)
    }

    pub fn set_size(&mut self, width: Scalar, height: Scalar)
        ensures
            *final(self) == (Widget { width, height, ..*old(self) }),
    {
        self.width = width;
        self.height = height;
    }

    pub fn get_children(&self) -> (c: &Vec<Widget>)
        ensures
            *c == self.children,
    {
        &self.children
    }

    pub fn get_children_mut(&mut self) -> (c: &mut Vec<Widget>)
        ensures
            *c == old(self).children,
            *final(self) == (Widget { children: *final(c), ..*old(self) }),
    {
        &mut self.children
    }

    pub fn get_index(&self) -> (i: Option<usize>)
        ensures
            i == self.index,
    {
        self.index
    }

    pub fn set_index(&mut self, i: Option<usize>)
        ensures
            *final(self) == (Widget { index: i, ..*old(self) }),
    {
        self.index = i;
    }

    pub fn get_vec_space(&self) -> (m: Mat4)
        ensures
            m == self.vec_space,
    {
        self.vec_space
    }

    pub fn set_vec_space(&mut self, vec_space: Mat4)
        ensures
            *final(self) == (Widget { vec_space, ..*old(self) }),
    {
        self.vec_space = vec_space;
    }

    pub open spec fn spec_get_texture(&self) -> Option<TextureHandle> {
        match self.kind {
            WidgetKind::Texture(t) => t.texture,
            _ => None,
        }
    }

    /// The texture of a texture widget; none for every other kind.
    #[verifier::when_used_as_spec(spec_get_texture)]
    pub fn get_texture(&self) -> (t: Option<TextureHandle>)
        ensures
            t == self.spec_get_texture(),
    {
        match self.kind {
            WidgetKind::Texture(t) => t.texture,
            _ => None,
        }
    }

    /// Gives a texture widget its texture. A widget of another kind is left as
    /// it is, and the error names the texture.
    pub fn set_texture(&mut self, texture: TextureHandle) -> (r: Result<(), EngineError>)
        ensures
            old(self).kind is Texture ==> r == Ok::<(), EngineError>(()) && *final(self) == (Widget {
                kind: WidgetKind::Texture(TextureWidget { texture: Some(texture) }),
                ..*old(self)
            }),
            !(old(self).kind is Texture) ==> r == Err::<(), EngineError>(
                EngineError::TexturelessWidget(texture.id),
            ) && *final(self) == *old(self),
    {
        match self.kind {
            WidgetKind::Texture(_) => {
                self.kind = WidgetKind::Texture(TextureWidget { texture: Some(texture) });
                Ok(())
            },
            _ => Err(EngineError::TexturelessWidget(texture.id)),
        }
    }

    /// Structural edit: puts `child` among the children at position `at`. The
    /// slots of the tree are stale from then on, until the next structural
    /// rebuild.
    pub fn insert_child(&mut self, at: usize, child: Widget)
        requires
            at <= old(self).children@.len(),
        ensures
            *final(self) == (Widget { children: final(self).children, ..*old(self) }),
            final(self).children@ == old(self).children@.insert(at as int, child),
    {
        self.children.insert(at, child);
    }

    /// Structural edit: takes the child at position `at` out of the tree. The
    /// slots of the tree are stale from then on, until the next structural
    /// rebuild.
    pub fn remove_child(&mut self, at: usize) -> (child: Widget)
        requires
            at < old(self).children@.len(),
        ensures
            *final(self) == (Widget { children: final(self).children, ..*old(self) }),
            final(self).children@ == old(self).children@.remove(at as int),
            child == old(self).children@[at as int],
    {
        self.children.remove(at)
    }
}

impl BackgroundWidget {
    /// A background of the given colour that fills its parent's frame.
    pub fn new(colour: Vec4) -> (w: Widget)
        ensures
            w.kind == WidgetKind::Background(BackgroundWidget { colour }),
            w.is_default_placed(),
    {
        Widget::new(WidgetKind::Background(BackgroundWidget { colour }))
    }
}

impl BorderWidget {
    /// A border of the given colour and widths along its parent's frame.
    pub fn new(colour: Vec4, border_widths: Vec4) -> (w: Widget)
        ensures
            w.kind == WidgetKind::Border(BorderWidget { colour, border_widths }),
            w.is_default_placed(),
    {
        Widget::new(WidgetKind::Border(BorderWidget { colour, border_widths }))
    }
}

impl TextureWidget {
    /// A widget that shows the given texture over its parent's frame.
    pub fn new(texture: TextureHandle) -> (w: Widget)
        ensures
            w.kind == WidgetKind::Texture(TextureWidget { texture: Some(texture) }),
            w.is_default_placed(),
    {
        Widget::new(WidgetKind::Texture(TextureWidget { texture: Some(texture) }))
    }
}

impl ContainerWidget {
    /// An empty box over its parent's frame, to hang children on.
    pub fn new() -> (w: Widget)
        ensures
            w.kind == WidgetKind::Container(ContainerWidget {  }),
            w.is_default_placed(),
    {
        Widget::new(WidgetKind::Container(ContainerWidget {  }))
    }
}

impl Default for TextWidget {
    /// Colour (0, 0, 0, 0), no font face, font size 0.
    fn default() -> (t: TextWidget)
        ensures
            t == (TextWidget { colour: Vec4::zero(), font_face: None, font_size: 0 }),
    {
        TextWidget { colour: Vec4::zero(), font_face: None, font_size: 0 }
    }
}

impl TextWidget {
    /// A text widget over its parent's frame, with the payload that `default`
    /// gives.
    pub fn new() -> (w: Widget)
        ensures
            w.kind == WidgetKind::Text(
                TextWidget { colour: Vec4::zero(), font_face: None, font_size: 0 },
            ),
            w.is_default_placed(),
    {
        Widget::new(WidgetKind::Text(TextWidget::default()))
    }
}

} // verus!
