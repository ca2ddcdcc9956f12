//! Blocks of bytes in host memory.

use crate::address_map::{AddressMap, AddressSpace, Layout};
use vstd::prelude::*;
use vstd::slice::slice_subrange;

verus! {

/// The blocks of host memory that are in use.
pub struct HostMemory {
    space: AddressSpace,
    blocks: AddressMap<Vec<u8>>,
}

impl View for HostMemory {
    type V = Map<usize, Seq<u8>>;

    /// The bytes of each block.
    closed spec fn view(&self) -> Map<usize, Seq<u8>> {
        self.blocks@.map_values(|bytes: Vec<u8>| bytes@)
    }
}

impl HostMemory {
    /// The layout of each block.
    pub closed spec fn layouts(&self) -> Map<usize, Layout> {
        self.space@
    }

    pub closed spec fn room(&self) -> int {
        self.space.room()
    }

    pub open spec fn has_room(&self, layout: Layout) -> bool {
        layout.size + layout.align <= self.room()
    }

    pub closed spec fn well_formed(&self) -> bool {
        &&& self.space.well_formed()
        &&& self.blocks.well_formed()
        &&& self.blocks@.dom() == self.space@.dom()
        &&& forall|a: usize| #[trigger]
            self.blocks@.dom().contains(a) ==> self.blocks@[a]@.len() == self.space@[a].size
    }

    /// The `len` bytes from `start` on lie in the block at `block`.
    pub open spec fn covers(&self, block: usize, start: usize, len: int) -> bool {
        &&& self@.dom().contains(block)
        &&& block <= start
        &&& start + len <= block + self@[block].len()
    }

    /// The block that the bytes from `start` on lie in.
    pub open spec fn block_of(&self, start: usize, len: int) -> usize {
        choose|block: usize| self.covers(block, start, len)
    }

    /// The `len` bytes from `start` on lie in one block.
    pub open spec fn accessible(&self, start: usize, len: int) -> bool {
        len > 0 ==> exists|block: usize| self.covers(block, start, len)
    }

    /// The `len` bytes from `start` on.
    pub open spec fn bytes_at(&self, start: usize, len: int) -> Seq<u8> {
        if len <= 0 {
            Seq::empty()
        } else {
            let block = self.block_of(start, len);
            self@[block].subrange(start - block, start - block + len)
        }
    }

    /// The blocks once `bytes` are written from `start` on: nothing else differs.
    pub open spec fn written(&self, start: usize, bytes: Seq<u8>) -> Map<usize, Seq<u8>> {
        if bytes.len() == 0 {
            self@
        } else {
            let block = self.block_of(start, bytes.len() as int);
            self@.insert(block, overwritten(self@[block], start - block, bytes))
        }
    }

    /// Every block has a layout, which says how many bytes it has.
    pub proof fn lemma_domains(&self)
        requires
            self.well_formed(),
        ensures
            self@.dom() == self.layouts().dom(),
            forall|a: usize| #[trigger]
                self@.dom().contains(a) ==> self@[a].len() == self.layouts()[a].size,
    {
        assert(self@.dom() =~= self.layouts().dom());
    }

    /// Bytes lie in one block at most.
    pub proof fn lemma_one_block(&self, a: usize, b: usize, start: usize, len: int)
        requires
            self.well_formed(),
            len > 0,
            self.covers(a, start, len),
            self.covers(b, start, len),
        ensures
            a == b,
    {
        self.space.lemma_blocks();
        assert(self.blocks@.dom().contains(a) && self.blocks@.dom().contains(b));
        assert(self.space@.dom().contains(a) && self.space@.dom().contains(b));
    }

    pub fn new() -> (memory: HostMemory)
        ensures
            memory.well_formed(),
            memory@ == Map::<usize, Seq<u8>>::empty(),
            memory.room() == usize::MAX - 1,
    {
        let memory = HostMemory { space: AddressSpace::new(), blocks: AddressMap::new() };
        assert(memory@ =~= Map::<usize, Seq<u8>>::empty());
        memory
    }

    /// Whether there are addresses left for a block of this layout.
    pub fn can_allocate(&self, layout: Layout) -> (room: bool)
        ensures
            room == self.has_room(layout),
    {
        self.space.can_allocate(layout)
    }

    /// Allocates a block of zero bytes.
    pub fn alloc_zeroed(&mut self, layout: Layout) -> (address: usize)
        requires
            old(self).well_formed(),
            layout.fits(),
            old(self).has_room(layout),
        ensures
            final(self).well_formed(),
            address != 0,
            address % layout.align == 0,
            address + layout.size <= usize::MAX,
            !old(self)@.dom().contains(address),
            final(self)@ == old(self)@.insert(address, Seq::new(layout.size as nat, |i: int| 0u8)),
            final(self).layouts() == old(self).layouts().insert(address, layout),
    {
        let address: usize = self.space.allocate(layout);
        let bytes: Vec<u8> = vec![0u8; layout.size];
        assert(bytes@ =~= Seq::new(layout.size as nat, |i: int| 0u8));
        self.blocks.insert(address, bytes);
        assert(self.blocks@.dom() =~= self.space@.dom());
        assert(self@ =~= old(self)@.insert(address, bytes@));
        address
    }

    /// Releases a block, under the layout that it was allocated with.
    pub fn dealloc(&mut self, address: usize, layout: Layout)
        requires
            old(self).well_formed(),
            old(self).layouts().dom().contains(address),
            old(self).layouts()[address] == layout,
        ensures
            final(self).well_formed(),
            final(self)@ == old(self)@.remove(address),
            final(self).layouts() == old(self).layouts().remove(address),
    {
        self.space.deallocate(address, layout);
        let _ = self.blocks.remove(address);
        assert(self.blocks@.dom() =~= self.space@.dom());
        assert(self@ =~= old(self)@.remove(address));
    }

    fn find_block(&self, start: usize, len: usize) -> (block: usize)
        requires
            self.well_formed(),
            len > 0,
            self.accessible(start, len as int),
        ensures
            self.covers(block, start, len as int),
            block == self.block_of(start, len as int),
    {
        let ghost expected = self.block_of(start, len as int);
        proof {
            self.space.lemma_blocks();
            assert(self.blocks@.dom().contains(expected));
        }
        match self.blocks.greatest_at_most(start) {
            Some(block) => {
                assert(self.space@.dom().contains(expected));
                assert(self.space@.dom().contains(block));
                block
            },
            None => vstd::pervasive::unreached(),
        }
    }

    /// Reads bytes.
    pub fn read(&self, start: usize, len: usize) -> (bytes: &[u8])
        requires
            self.well_formed(),
            self.accessible(start, len as int),
            len > 0,
        ensures
            bytes@ == self.bytes_at(start, len as int),
    {
        let block: usize = self.find_block(start, len);
        match self.blocks.get(block) {
            Some(bytes) => slice_subrange(bytes.as_slice(), start - block, start - block + len),
            None => vstd::pervasive::unreached(),
        }
    }

    /// Overwrites bytes.
    pub fn write(&mut self, start: usize, bytes: &[u8])
        requires
            old(self).well_formed(),
            bytes@.len() > 0,
            old(self).accessible(start, bytes@.len() as int),
        ensures
            final(self).well_formed(),
            final(self).layouts() == old(self).layouts(),
            final(self).room() == old(self).room(),
            final(self)@ == old(self).written(start, bytes@),
            final(self).accessible(start, bytes@.len() as int),
            final(self).bytes_at(start, bytes@.len() as int) == bytes@,
    {
        let block: usize = self.find_block(start, bytes.len());
        let offset: usize = start - block;
        match self.blocks.get(block) {
            Some(contents) => {
                let mut updated: Vec<u8> = Vec::new();
                updated.extend_from_slice(slice_subrange(contents.as_slice(), 0, offset));
                updated.extend_from_slice(bytes);
                updated.extend_from_slice(
                    slice_subrange(contents.as_slice(), offset + bytes.len(), contents.len()),
                );
                assert(updated@ =~= overwritten(contents@, offset as int, bytes@));
                let _ = self.blocks.replace(block, updated);
                assert(self.blocks@.dom() =~= self.space@.dom());
                assert(self@ =~= old(self)@.insert(block, updated@));
                assert(self.covers(block, start, bytes@.len() as int));
                proof {
                    let found = self.block_of(start, bytes@.len() as int);
                    self.lemma_one_block(block, found, start, bytes@.len() as int);
                }
                assert(self.bytes_at(start, bytes@.len() as int) =~= bytes@);
            },
            None => vstd::pervasive::unreached(),
        }
    }
}

/// `contents` with `bytes` in place of what was at `offset`.
pub open spec fn overwritten(contents: Seq<u8>, offset: int, bytes: Seq<u8>) -> Seq<u8> {
    contents.subrange(0, offset) + bytes + contents.subrange(
        offset + bytes.len(),
        contents.len() as int,
    )
}

/// Overwriting puts every byte where it belongs, keeps every other byte, and neither
/// lengthens nor shortens what it writes to.
pub proof fn law_only_the_bytes_written_change(contents: Seq<u8>, offset: int, bytes: Seq<u8>)
    requires
        0 <= offset,
        offset + bytes.len() <= contents.len(),
    ensures
        overwritten(contents, offset, bytes).len() == contents.len(),
        forall|i: int|
            0 <= i < contents.len() ==> #[trigger] overwritten(contents, offset, bytes)[i] == (
            if offset <= i < offset + bytes.len() {
                bytes[i - offset]
            } else {
                contents[i]
            }),
{
}

} // verus!
