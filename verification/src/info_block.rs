use vstd::prelude::*;
use vstd::bytes::{spec_u32_to_le_bytes, spec_u64_to_le_bytes, u32_to_le_bytes, u64_to_le_bytes};
use crate::error::EngineError;
use crate::scalar::{Scalar, Vec4};
use crate::widget::{Widget, WidgetKind};

verus! {

/// Bytes that each drawn widget has in the metadata array.
pub const BLOCK_SIZE: usize = 1024;

/// The tag at the head of a metadata block: it tells the fragment stage how
/// to draw the instance.
#[derive(Clone, Copy, Debug, PartialEq, Eq, Structural)]
pub enum PrimitiveType {
    Background,
    Border,
    Texture,
    Text,
    Container,
}

impl PrimitiveType {
    pub open spec fn spec_tag(&self) -> u32 {
        match self {
            PrimitiveType::Background => 0,
            PrimitiveType::Border => 1,
            PrimitiveType::Texture => 2,
            PrimitiveType::Text => 3,
            PrimitiveType::Container => 4,
        }
    }

    /// The number written for this type.
    #[verifier::when_used_as_spec(spec_tag)]
    pub fn tag(&self) -> (t: u32)
        ensures
            t == self.spec_tag(),
    {
        match self {
            PrimitiveType::Background => 0,
            PrimitiveType::Border => 1,
            PrimitiveType::Texture => 2,
            PrimitiveType::Text => 3,
            PrimitiveType::Container => 4,
        }
    }
}

/// The four bytes of a number, least significant first.
pub open spec fn scalar_bytes(s: Scalar) -> Seq<u8> {
    spec_u32_to_le_bytes(s.bits)
}

/// The sixteen bytes of four numbers, in the order x, y, z, w.
pub open spec fn vec4_bytes(v: Vec4) -> Seq<u8> {
    scalar_bytes(v.x) + scalar_bytes(v.y) + scalar_bytes(v.z) + scalar_bytes(v.w)
}

impl WidgetKind {
    pub open spec fn spec_primitive_type(&self) -> Option<PrimitiveType> {
        match self {
            WidgetKind::Background(_) => Some(PrimitiveType::Background),
            WidgetKind::Border(_) => Some(PrimitiveType::Border),
            WidgetKind::Texture(_) => Some(PrimitiveType::Texture),
            WidgetKind::Text(_) => Some(PrimitiveType::Text),
            WidgetKind::Container(_) => Some(PrimitiveType::Container),
            WidgetKind::Picture(_) => None,
        }
    }

    /// The tag under which a widget of this kind is drawn; none for a composite.
    #[verifier::when_used_as_spec(spec_primitive_type)]
    pub fn primitive_type(&self) -> (r: Option<PrimitiveType>)
        ensures
            r == self.spec_primitive_type(),
    {
        match self {
            WidgetKind::Background(_) => Some(PrimitiveType::Background),
            WidgetKind::Border(_) => Some(PrimitiveType::Border),
            WidgetKind::Texture(_) => Some(PrimitiveType::Texture),
            WidgetKind::Text(_) => Some(PrimitiveType::Text),
            WidgetKind::Container(_) => Some(PrimitiveType::Container),
            WidgetKind::Picture(_) => None,
        }
    }

    /// What follows the tag in a block: a background's colour; a border's
    /// colour, then its widths; a texture's 64-bit handle, 0 where it has no
    /// texture; a text's colour; nothing for the others.
    pub open spec fn payload(&self) -> Seq<u8> {
        match self {
            WidgetKind::Background(b) => vec4_bytes(b.colour),
            WidgetKind::Border(b) => vec4_bytes(b.colour) + vec4_bytes(b.border_widths),
            WidgetKind::Texture(t) => match t.texture {
                Some(h) => spec_u64_to_le_bytes(h.handle),
                None => spec_u64_to_le_bytes(0),
            },
            WidgetKind::Text(t) => vec4_bytes(t.colour),
            WidgetKind::Container(_) => Seq::empty(),
            WidgetKind::Picture(_) => Seq::empty(),
        }
    }

    /// Tag, then payload: the part of a block that is not padding.
    pub open spec fn block_head(&self) -> Seq<u8> {
        match self.spec_primitive_type() {
            Some(t) => spec_u32_to_le_bytes(t.spec_tag()) + self.payload(),
            None => Seq::empty(),
        }
    }

    /// The whole block: the head, then zeros up to `BLOCK_SIZE` bytes.
    pub open spec fn block(&self) -> Seq<u8> {
        self.block_head() + Seq::new((BLOCK_SIZE - self.block_head().len()) as nat, |i: int| 0u8)
    }
}

/// No head is longer than 36 bytes, so every block has `BLOCK_SIZE` bytes.
pub proof fn lemma_block_len(kind: WidgetKind)
    ensures
        kind.block_head().len() <= 36,
        kind.block().len() == BLOCK_SIZE,
{
    vstd::bytes::lemma_auto_spec_u32_to_from_le_bytes();
    vstd::bytes::lemma_auto_spec_u64_to_from_le_bytes();
}

fn append_bytes(data: &mut Vec<u8>, bytes: Vec<u8>)
    ensures
        final(data)@ == old(data)@ + bytes@,
{
    let mut i: usize = 0;
    while i < bytes.len()
        invariant
            i <= bytes.len(),
            data@ == old(data)@ + bytes@.take(i as int),
        decreases bytes.len() - i,
    {
        data.push(bytes[i]);
        assert(bytes@.take(i + 1) == bytes@.take(i as int).push(bytes@[i as int]));
        i = i + 1;
    }
    assert(bytes@.take(bytes.len() as int) == bytes@);
}

fn append_vec4(data: &mut Vec<u8>, v: Vec4)
    ensures
        final(data)@ == old(data)@ + vec4_bytes(v),
{
    append_bytes(data, u32_to_le_bytes(v.x.bits));
    append_bytes(data, u32_to_le_bytes(v.y.bits));
    append_bytes(data, u32_to_le_bytes(v.z.bits));
    append_bytes(data, u32_to_le_bytes(v.w.bits));
    assert(data@ =~= old(data)@ + vec4_bytes(v));
}

impl WidgetKind {
    /// The block of a primitive kind, byte for byte.
    pub fn encode(&self) -> (data: Vec<u8>)
        requires
            self.is_primitive(),
        ensures
            data@ == self.block(),
            data@.len() == BLOCK_SIZE,
    {
        let tag: u32 = match self.primitive_type() {
            Some(t) => t.tag(),
            None => 0,
        };
        let mut data: Vec<u8> = Vec::new();
        append_bytes(&mut data, u32_to_le_bytes(tag));
        match self {
            WidgetKind::Background(b) => {
                append_vec4(&mut data, b.colour);
            },
            WidgetKind::Border(b) => {
                append_vec4(&mut data, b.colour);
                append_vec4(&mut data, b.border_widths);
            },
            WidgetKind::Texture(t) => {
                let handle: u64 = match t.texture {
                    Some(h) => h.handle,
                    None => 0,
                };
                append_bytes(&mut data, u64_to_le_bytes(handle));
            },
            WidgetKind::Text(t) => {
                append_vec4(&mut data, t.colour);
            },
            WidgetKind::Container(_) => {},
            WidgetKind::Picture(_) => {},
        }
        assert(data@ =~= self.block_head());
        proof {
            lemma_block_len(*self);
        }
        let ghost head = data@;
        while data.len() < BLOCK_SIZE
            invariant
                head.len() <= data.len() <= BLOCK_SIZE,
                data@ =~= head + Seq::new((data.len() - head.len()) as nat, |i: int| 0u8),
            decreases BLOCK_SIZE - data.len(),
        {
            data.push(0u8);
        }
        assert(data@ =~= self.block());
        data
    }
}

impl Widget {
    /// The metadata block of a drawn widget: `BLOCK_SIZE` bytes that start with
    /// the tag of its kind and go on with its payload. A composite has no
    /// block.
    pub fn widget_info(&self) -> (r: Result<Vec<u8>, EngineError>)
        ensures
            self.kind.is_primitive() ==> r is Ok && r->Ok_0@ == self.kind.block(),
            !self.kind.is_primitive() ==> r == Err::<Vec<u8>, EngineError>(
                EngineError::WidgetNotPrimitive,
            ),
    {
        if self.kind.is_primitive() {
            Ok(self.kind.encode())
        } else {
            Err(EngineError::WidgetNotPrimitive)
        }
    }
}

} // verus!
