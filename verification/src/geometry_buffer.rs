use vstd::prelude::*;
use crate::info_block::BLOCK_SIZE;
use crate::scalar::Mat4;
use crate::widget_quad::{create_wquad, WQuad};

verus! {

/// What one instanced draw takes: the shared quad, and the two parallel
/// arrays that its instances are drawn from, one transform and one metadata
/// block for each slot.
#[derive(Debug)]
pub struct GeometryBuffer {
    pub quad: WQuad,
    pub transforms: Vec<Mat4>,
    pub infos: Vec<Vec<u8>>,
}

/// Blocks laid end to end, as the shader reads the metadata array.
pub open spec fn flat(blocks: Seq<Seq<u8>>) -> Seq<u8>
    decreases blocks.len(),
{
    if blocks.len() == 0 {
        Seq::empty()
    } else {
        flat(blocks.drop_last()) + blocks.last()
    }
}

/// Buffer alignment. Where every block has `BLOCK_SIZE` bytes, the flat array
/// has that many bytes for each block, and the block of slot `i` begins at
/// byte `i * BLOCK_SIZE`.
pub proof fn lemma_flat_aligned(blocks: Seq<Seq<u8>>, i: int)
    requires
        forall|k: int| 0 <= k < blocks.len() ==> (#[trigger] blocks[k]).len() == BLOCK_SIZE,
        0 <= i < blocks.len(),
    ensures
        flat(blocks).len() == blocks.len() * BLOCK_SIZE,
        flat(blocks).subrange(i * BLOCK_SIZE, (i + 1) * BLOCK_SIZE) == blocks[i],
    decreases blocks.len(),
{
    let front = blocks.drop_last();
    lemma_flat_len(front);
    if i == blocks.len() - 1 {
        assert(flat(blocks).subrange(i * BLOCK_SIZE, (i + 1) * BLOCK_SIZE) =~= blocks[i]);
    } else {
        lemma_flat_aligned(front, i);
        assert(front[i] == blocks[i]);
        assert(flat(blocks).subrange(i * BLOCK_SIZE, (i + 1) * BLOCK_SIZE) =~= flat(
            front,
        ).subrange(i * BLOCK_SIZE, (i + 1) * BLOCK_SIZE));
    }
}

/// The flat array of whole blocks has `BLOCK_SIZE` bytes for each.
pub proof fn lemma_flat_len(blocks: Seq<Seq<u8>>)
    requires
        forall|k: int| 0 <= k < blocks.len() ==> (#[trigger] blocks[k]).len() == BLOCK_SIZE,
    ensures
        flat(blocks).len() == blocks.len() * BLOCK_SIZE,
    decreases blocks.len(),
{
    if blocks.len() > 0 {
        let front = blocks.drop_last();
        assert forall|k: int| 0 <= k < front.len() implies (#[trigger] front[k]).len()
            == BLOCK_SIZE by {
            assert(front[k] == blocks[k]);
        }
        lemma_flat_len(front);
    }
}

impl GeometryBuffer {
    /// The metadata array as one run of bytes, block after block in the order
    /// of the slots.
    pub fn info_bytes(&self) -> (bytes: Vec<u8>)
        requires
            self.wf(),
        ensures
            bytes@ == flat(self.blocks()),
            bytes@.len() == self.transforms@.len() * BLOCK_SIZE,
    {
        let mut bytes: Vec<u8> = Vec::new();
        let mut i: usize = 0;
        while i < self.infos.len()
            invariant
                i <= self.infos@.len(),
                bytes@ == flat(self.blocks().take(i as int)),
            decreases self.infos@.len() - i,
        {
            let block = &self.infos[i];
            let ghost head = bytes@;
            let mut k: usize = 0;
            while k < block.len()
                invariant
                    k <= block@.len(),
                    bytes@ == head + block@.take(k as int),
                decreases block@.len() - k,
            {
                bytes.push(block[k]);
                assert(block@.take(k + 1) =~= block@.take(k as int).push(block@[k as int]));
                k = k + 1;
            }
            proof {
                assert(block@.take(block@.len() as int) =~= block@);
                let upto = self.blocks().take(i + 1);
                assert(upto.drop_last() =~= self.blocks().take(i as int));
                assert(upto.last() == block@);
            }
            i = i + 1;
        }
        proof {
            assert(self.blocks().take(self.infos@.len() as int) =~= self.blocks());
            assert forall|k: int| 0 <= k < self.blocks().len() implies (#[trigger] self.blocks()[k]).len()
                == BLOCK_SIZE by {
                assert(self.infos@[k]@.len() == BLOCK_SIZE);
            }
            lemma_flat_len(self.blocks());
        }
        bytes
    }

    /// The metadata blocks as byte sequences, by slot.
    pub open spec fn blocks(&self) -> Seq<Seq<u8>> {
        self.infos@.map_values(|b: Vec<u8>| b@)
    }

    /// The mesh is the unit quad, the arrays are parallel, and every block has
    /// `BLOCK_SIZE` bytes.
    pub open spec fn wf(&self) -> bool {
        &&& self.quad.is_unit()
        &&& self.transforms@.len() == self.infos@.len()
        &&& forall|i: int| 0 <= i < self.infos@.len() ==> (#[trigger] self.infos@[i])@.len() == BLOCK_SIZE
    }

    /// A buffer without slots.
    pub fn new() -> (b: GeometryBuffer)
        ensures
            b.wf(),
            b.transforms@ == Seq::<Mat4>::empty(),
            b.blocks() == Seq::<Seq<u8>>::empty(),
    {
        let b = GeometryBuffer { quad: create_wquad(), transforms: Vec::new(), infos: Vec::new() };
        assert(b.blocks() =~= Seq::<Seq<u8>>::empty());
        b
    }

    /// The number of slots: the instance count of a draw.
    pub fn len(&self) -> (n: usize)
        ensures
            n == self.transforms@.len(),
    {
        self.transforms.len()
    }

    /// Drops every slot.
    pub fn clear(&mut self)
        requires
            old(self).wf(),
        ensures
            final(self).wf(),
            final(self).transforms@ == Seq::<Mat4>::empty(),
            final(self).blocks() == Seq::<Seq<u8>>::empty(),
    {
        self.transforms.clear();
        self.infos.clear();
        assert(self.blocks() =~= Seq::<Seq<u8>>::empty());
    }

    /// Appends one slot and returns its index.
    pub fn push(&mut self, transform: Mat4, block: Vec<u8>) -> (slot: usize)
        requires
            old(self).wf(),
            block@.len() == BLOCK_SIZE,
        ensures
            final(self).wf(),
            slot == old(self).transforms@.len(),
            final(self).transforms@ == old(self).transforms@.push(transform),
            final(self).blocks() == old(self).blocks().push(block@),
    {
        let slot = self.transforms.len();
        self.transforms.push(transform);
        self.infos.push(block);
        assert(self.blocks() =~= old(self).blocks().push(block@));
        slot
    }

    /// Overwrites the transform of one slot.
    pub fn set_transform(&mut self, slot: usize, transform: Mat4)
        requires
            old(self).wf(),
            slot < old(self).transforms@.len(),
        ensures
            final(self).wf(),
            final(self).transforms@ == old(self).transforms@.update(slot as int, transform),
            final(self).infos == old(self).infos,
    {
        self.transforms[slot] = transform;
    }

    /// Overwrites the metadata block of one slot.
    pub fn set_info(&mut self, slot: usize, block: Vec<u8>)
        requires
            old(self).wf(),
            slot < old(self).transforms@.len(),
            block@.len() == BLOCK_SIZE,
        ensures
            final(self).wf(),
            final(self).blocks() == old(self).blocks().update(slot as int, block@),
            final(self).transforms == old(self).transforms,
    {
        self.infos[slot] = block;
        assert(self.blocks() =~= old(self).blocks().update(slot as int, block@));
    }
}

} // verus!
