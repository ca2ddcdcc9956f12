//! Address keyed storage, and the hand-out of addresses.

use vstd::prelude::*;

verus! {

/// A map from addresses to values.
pub struct AddressMap<V> {
    entries: Vec<(usize, V)>,
}

impl<V> AddressMap<V> {
    spec fn index_of(&self, address: usize) -> int {
        choose|i: int| 0 <= i < self.entries@.len() && (#[trigger] self.entries@[i]).0 == address
    }

    spec fn holds(&self, address: usize) -> bool {
        exists|i: int| 0 <= i < self.entries@.len() && (#[trigger] self.entries@[i]).0 == address
    }

    /// No address occurs twice.
    pub closed spec fn well_formed(&self) -> bool {
        forall|i: int, j: int|
            0 <= i < j < self.entries@.len() ==> (#[trigger] self.entries@[i]).0 != (
            #[trigger] self.entries@[j]).0
    }
}

impl<V> View for AddressMap<V> {
    type V = Map<usize, V>;

    closed spec fn view(&self) -> Map<usize, V> {
        Map::new(
            |address: usize| self.holds(address),
            |address: usize| self.entries@[self.index_of(address)].1,
        )
    }
}

impl<V> AddressMap<V> {
    proof fn lemma_entry(&self, i: int)
        requires
            self.well_formed(),
            0 <= i < self.entries@.len(),
        ensures
            self@.dom().contains(self.entries@[i].0),
            self@[self.entries@[i].0] == self.entries@[i].1,
    {
        let address = self.entries@[i].0;
        assert(self.holds(address));
        let j = self.index_of(address);
        assert(i == j);
    }

    pub fn new() -> (map: AddressMap<V>)
        ensures
            map.well_formed(),
            map@ == Map::<usize, V>::empty(),
    {
        let map = AddressMap { entries: Vec::new() };
        assert(map@ =~= Map::<usize, V>::empty());
        map
    }

    fn find(&self, address: usize) -> (found: Option<usize>)
        requires
            self.well_formed(),
        ensures
            match found {
                Some(i) => {
                    &&& i < self.entries@.len()
                    &&& self.entries@[i as int].0 == address
                    &&& self@.dom().contains(address)
                    &&& self@[address] == self.entries@[i as int].1
                },
                None => !self@.dom().contains(address),
            },
    {
        let mut i: usize = 0;
        while i < self.entries.len()
            invariant
                self.well_formed(),
                i <= self.entries@.len(),
                forall|j: int| 0 <= j < i ==> (#[trigger] self.entries@[j]).0 != address,
            decreases self.entries@.len() - i,
        {
            if self.entries[i].0 == address {
                proof {
                    self.lemma_entry(i as int);
                }
                return Some(i);
            }
            i = i + 1;
        }
        None
    }

    pub fn get(&self, address: usize) -> (value: Option<&V>)
        requires
            self.well_formed(),
        ensures
            match value {
                Some(value) => self@.dom().contains(address) && *value == self@[address],
                None => !self@.dom().contains(address),
            },
    {
        match self.find(address) {
            Some(i) => Some(&self.entries[i].1),
            None => None,
        }
    }

    /// The greatest address of an entry that is at most `address`.
    pub fn greatest_at_most(&self, address: usize) -> (found: Option<usize>)
        requires
            self.well_formed(),
        ensures
            match found {
                Some(found) => {
                    &&& self@.dom().contains(found)
                    &&& found <= address
                    &&& forall|a: usize| #[trigger]
                        self@.dom().contains(a) && a <= address ==> a <= found
                },
                None => forall|a: usize| #[trigger] self@.dom().contains(a) ==> a > address,
            },
    {
        let mut found: Option<usize> = None;
        let mut i: usize = 0;
        while i < self.entries.len()
            invariant
                self.well_formed(),
                i <= self.entries@.len(),
                match found {
                    Some(found) => {
                        &&& self@.dom().contains(found)
                        &&& found <= address
                        &&& forall|j: int|
                            0 <= j < i && (#[trigger] self.entries@[j]).0 <= address
                                ==> self.entries@[j].0 <= found
                    },
                    None => forall|j: int|
                        0 <= j < i ==> (#[trigger] self.entries@[j]).0 > address,
                },
            decreases self.entries@.len() - i,
        {
            let candidate: usize = self.entries[i].0;
            proof {
                self.lemma_entry(i as int);
            }
            if candidate <= address {
                found = match found {
                    Some(found) if found >= candidate => Some(found),
                    _ => Some(candidate),
                };
            }
            i = i + 1;
        }
        found
    }

    /// Adds an entry under a new address.
    pub fn insert(&mut self, address: usize, value: V)
        requires
            old(self).well_formed(),
            !old(self)@.dom().contains(address),
        ensures
            final(self).well_formed(),
            final(self)@ == old(self)@.insert(address, value),
    {
        let ghost before = *self;
        proof {
            assert(!before.holds(address));
        }
        self.entries.push((address, value));
        proof {
            assert forall|a: usize|
                #![trigger self@.dom().contains(a)]
                self@.dom().contains(a) == before@.insert(address, value).dom().contains(a) && (
                self@.dom().contains(a) ==> self@[a] == before@.insert(address, value)[a]) by {
                if before.holds(a) {
                    let i = before.index_of(a);
                    before.lemma_entry(i);
                    assert(self.entries@[i] == before.entries@[i]);
                    self.lemma_entry(i);
                } else if self.holds(a) {
                    let i = self.index_of(a);
                    assert(i == before.entries@.len()) by {
                        if i < before.entries@.len() {
                            assert(before.entries@[i].0 == a);
                        }
                    }
                }
                if a == address {
                    self.lemma_entry(before.entries@.len() as int);
                }
            }
            assert(self@ =~= before@.insert(address, value));
        }
    }

    /// Exchanges the value of an entry for another one.
    pub fn replace(&mut self, address: usize, value: V) -> (previous: V)
        requires
            old(self).well_formed(),
            old(self)@.dom().contains(address),
        ensures
            final(self).well_formed(),
            final(self)@ == old(self)@.insert(address, value),
            previous == old(self)@[address],
    {
        match self.remove(address) {
            Some(previous) => {
                let ghost without = self@;
                self.insert(address, value);
                assert(without.insert(address, value) =~= old(self)@.insert(address, value));
                previous
            },
            None => value,
        }
    }

    /// Takes an entry out.
    pub fn remove(&mut self, address: usize) -> (value: Option<V>)
        requires
            old(self).well_formed(),
        ensures
            final(self).well_formed(),
            final(self)@ == old(self)@.remove(address),
            match value {
                Some(value) => old(self)@.dom().contains(address) && value == old(self)@[address],
                None => !old(self)@.dom().contains(address),
            },
    {
        let ghost before = *self;
        match self.find(address) {
            None => {
                assert(self@ =~= before@.remove(address));
                None
            },
            Some(i) => {
                let entry = self.entries.remove(i);
                proof {
                    assert forall|a: usize|
                        #![trigger self@.dom().contains(a)]
                        self@.dom().contains(a) == before@.remove(address).dom().contains(a) && (
                        self@.dom().contains(a) ==> self@[a] == before@[a]) by {
                        if before.holds(a) && a != address {
                            let j = before.index_of(a);
                            before.lemma_entry(j);
                            let k = if j < i {
                                j
                            } else {
                                j - 1
                            };
                            assert(self.entries@[k] == before.entries@[j]);
                            self.lemma_entry(k);
                        } else if self.holds(a) {
                            let k = self.index_of(a);
                            let j = if k < i {
                                k
                            } else {
                                k + 1
                            };
                            assert(self.entries@[k] == before.entries@[j]);
                            assert(before.entries@[i as int].0 == address);
                        }
                    }
                    assert(self@ =~= before@.remove(address));
                }
                Some(entry.1)
            },
        }
    }
}

/// The size and alignment of a block of memory.
#[derive(Clone, Copy, PartialEq, Eq, Structural, Debug)]
pub struct Layout {
    pub size: usize,
    pub align: usize,
}

/// A block of this size can exist at a multiple of this power of two.
pub open spec fn layout_fits(size: int, align: int) -> bool {
    0 <= size && 1 <= align && size <= isize::MAX - isize::MAX as int % align
}

impl Layout {
    pub open spec fn fits(self) -> bool {
        layout_fits(self.size as int, self.align as int)
    }

    /// The layout of `size` bytes at a multiple of `align`.
    pub fn from_size_align(size: usize, align: usize) -> (layout: Option<Layout>)
        ensures
            match layout {
                Some(layout) => layout == (Layout { size, align }) && layout.fits(),
                None => !layout_fits(size as int, align as int),
            },
    {
        let limit: usize = isize::MAX as usize;
        if align == 0 {
            return None;
        }
        proof {
            vstd::arithmetic::div_mod::lemma_mod_decreases(limit as nat, align as nat);
        }
        if size > limit - limit % align {
            None
        } else {
            Some(Layout { size, align })
        }
    }
}

/// Hands out blocks of addresses that are not null and do not overlap.
pub struct AddressSpace {
    next: usize,
    live: AddressMap<Layout>,
}

impl AddressSpace {
    /// Blocks start after the null address and lie below every address that is
    /// still to be handed out.
    pub closed spec fn well_formed(&self) -> bool {
        &&& self.live.well_formed()
        &&& self.next > 0
        &&& forall|a: usize| #[trigger]
            self.live@.dom().contains(a) ==> 0 < a < self.next && a + self.live@[a].size
                <= self.next
        &&& forall|a: usize, b: usize| #[trigger]
            self.live@.dom().contains(a) && #[trigger] self.live@.dom().contains(b) && a < b ==> a
                + self.live@[a].size <= b
    }

    pub proof fn lemma_blocks(&self)
        requires
            self.well_formed(),
        ensures
            forall|a: usize| #[trigger]
                self@.dom().contains(a) ==> 0 < a && a + self@[a].size <= usize::MAX,
            forall|a: usize, b: usize| #[trigger]
                self@.dom().contains(a) && #[trigger] self@.dom().contains(b) && a < b ==> a
                    + self@[a].size <= b,
    {
    }

    /// The number of addresses that have not been handed out.
    pub closed spec fn room(&self) -> int {
        usize::MAX - self.next
    }

    /// There are addresses left for a block of this layout.
    pub open spec fn has_room(&self, layout: Layout) -> bool {
        layout.size + layout.align <= self.room()
    }
}

impl View for AddressSpace {
    type V = Map<usize, Layout>;

    closed spec fn view(&self) -> Map<usize, Layout> {
        self.live@
    }
}

/// Two blocks have no address in common.
pub open spec fn disjoint(a: usize, a_layout: Layout, b: usize, b_layout: Layout) -> bool {
    a + a_layout.size <= b || b + b_layout.size <= a
}

impl AddressSpace {
    pub fn new() -> (space: AddressSpace)
        ensures
            space.well_formed(),
            space@ == Map::<usize, Layout>::empty(),
            space.room() == usize::MAX - 1,
    {
        AddressSpace { next: 1, live: AddressMap::new() }
    }

    /// Whether there are addresses left for a block of this layout.
    pub fn can_allocate(&self, layout: Layout) -> (room: bool)
        ensures
            room == self.has_room(layout),
    {
        let left: usize = usize::MAX - self.next;
        layout.size <= left && layout.align <= left - layout.size
    }

    /// Hands out a block.
    pub fn allocate(&mut self, layout: Layout) -> (address: usize)
        requires
            old(self).well_formed(),
            layout.fits(),
            old(self).has_room(layout),
        ensures
            final(self).well_formed(),
            address != 0,
            address % layout.align == 0,
            address + layout.size <= usize::MAX,
            !old(self)@.dom().contains(address),
            forall|a: usize| #[trigger]
                old(self)@.dom().contains(a) ==> disjoint(a, old(self)@[a], address, layout),
            final(self)@ == old(self)@.insert(address, layout),
            final(self).room() >= old(self).room() - layout.size - layout.align - 1,
    {
        let excess: usize = self.next % layout.align;
        let address: usize = if excess == 0 {
            self.next
        } else {
            self.next + (layout.align - excess)
        };
        assert(address % layout.align == 0) by (nonlinear_arith)
            requires
                layout.align > 0,
                excess == self.next % layout.align,
                address == (if excess == 0 {
                    self.next as int
                } else {
                    self.next + (layout.align - excess)
                }),
        ;
        // A block of no bytes still takes an address of its own.
        let taken: usize = if layout.size == 0 {
            1
        } else {
            layout.size
        };
        self.next = address + taken;
        self.live.insert(address, layout);
        address
    }

    /// Takes a block back, under the layout that it was handed out with.
    pub fn deallocate(&mut self, address: usize, layout: Layout)
        requires
            old(self).well_formed(),
            old(self)@.dom().contains(address),
            old(self)@[address] == layout,
        ensures
            final(self).well_formed(),
            final(self)@ == old(self)@.remove(address),
            final(self).room() == old(self).room(),
    {
        let _ = self.live.remove(address);
    }
}

} // verus!
