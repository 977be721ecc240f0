//! The acting agent's item storage: a hotbar backed by a backpack.
//!
//! Picked items land in the first free hotbar cell, then in the first free
//! backpack cell; a full inventory rejects the item.

use vstd::prelude::*;

verus! {

/// Number of hotbar cells.
pub const HOTBAR_SIZE: usize = 10;

/// Number of backpack cells.
pub const BACKPACK_SIZE: usize = 32;

/// What an item is used as.
#[derive(Clone, Copy, PartialEq, Eq, Structural, Debug)]
pub enum ItemType {
    BLOCK,
    DECORATION,
}

/// How many uses an item has left.
#[derive(Clone, Copy, PartialEq, Eq, Structural, Debug)]
pub enum Count {
    Infinite,
    Finite(usize),
}

/// A carried item: the packed voxel value it places, its kind and count.
#[derive(Clone, Copy, PartialEq, Eq, Structural, Debug)]
pub struct Item {
    pub id: u64,
    pub type_: ItemType,
    pub count: Count,
}

impl Item {
    /// An item made from a packed voxel value, placeable as a block.
    pub fn from_block(block: u64, total: Count) -> (r: Item)
        ensures
            r == (Item { id: block, type_: ItemType::BLOCK, count: total }),
    {
        Item { id: block, type_: ItemType::BLOCK, count: total }
    }

    /// The packed voxel value this item places.
    pub fn id(&self) -> (r: u64)
        ensures
            r == self.id,
    {
        self.id
    }
}

/// Whether every cell of a container is occupied.
pub open spec fn spec_cells_full(s: Seq<Option<Item>>) -> bool {
    forall|i: int| 0 <= i < s.len() ==> s[i] is Some
}

/// Index of the first free cell of a container, scanning from the front.
fn first_free(cells: &Vec<Option<Item>>) -> (r: Option<usize>)
    ensures
        match r {
            Some(i) => {
                &&& i < cells@.len()
                &&& cells@[i as int] is None
                &&& forall|j: int| 0 <= j < i ==> cells@[j] is Some
            },
            None => spec_cells_full(cells@),
        },
{
    let n = cells.len();
    let mut i: usize = 0;
    while i < n
        invariant
            n == cells@.len(),
            i <= n,
            forall|j: int| 0 <= j < i ==> cells@[j] is Some,
        decreases n - i,
    {
        if cells[i].is_none() {
            return Some(i);
        }
        i = i + 1;
    }
    None
}

/// Hotbar and backpack cells; `None` marks a free cell.
pub struct Inventory {
    pub hotbar: Vec<Option<Item>>,
    pub backpack: Vec<Option<Item>>,
}

impl Inventory {
    /// Whether the inventory has its fixed shape.
    pub open spec fn wf(&self) -> bool {
        &&& self.hotbar@.len() == HOTBAR_SIZE
        &&& self.backpack@.len() == BACKPACK_SIZE
    }

    /// Whether every cell of both containers is occupied.
    pub open spec fn spec_full(&self) -> bool {
        &&& spec_cells_full(self.hotbar@)
        &&& spec_cells_full(self.backpack@)
    }

    /// An empty inventory.
    pub fn new() -> (r: Inventory)
        ensures
            r.wf(),
            forall|i: int| 0 <= i < r.hotbar@.len() ==> r.hotbar@[i] is None,
            forall|i: int| 0 <= i < r.backpack@.len() ==> r.backpack@[i] is None,
    {
        let mut hotbar: Vec<Option<Item>> = Vec::new();
        let mut backpack: Vec<Option<Item>> = Vec::new();
        let mut i: usize = 0;
        while i < HOTBAR_SIZE
            invariant
                i <= HOTBAR_SIZE,
                hotbar@.len() == i,
                forall|j: int| 0 <= j < i ==> hotbar@[j] is None,
            decreases HOTBAR_SIZE - i,
        {
            hotbar.push(None);
            i = i + 1;
        }
        let mut k: usize = 0;
        while k < BACKPACK_SIZE
            invariant
                k <= BACKPACK_SIZE,
                backpack@.len() == k,
                forall|j: int| 0 <= j < k ==> backpack@[j] is None,
            decreases BACKPACK_SIZE - k,
        {
            backpack.push(None);
            k = k + 1;
        }
        Inventory { hotbar, backpack }
    }

    /// Stores an item in the first free hotbar cell, else the first free
    /// backpack cell; returns whether a cell took it. Exactly one free
    /// cell changes — every cell before it is occupied — and nothing
    /// changes on failure.
    pub fn pick_item(&mut self, item: Item) -> (r: bool)
        requires
            old(self).wf(),
        ensures
            final(self).wf(),
            r == !old(self).spec_full(),
            !r ==> *final(self) == *old(self),
            r ==> if old(self).spec_full_hotbar() {
                &&& final(self).hotbar@ == old(self).hotbar@
                &&& exists|i: int|
                    {
                        &&& 0 <= i < BACKPACK_SIZE
                        &&& old(self).backpack@[i] is None
                        &&& forall|j: int| 0 <= j < i ==> old(self).backpack@[j] is Some
                        &&& final(self).backpack@ == old(self).backpack@.update(i, Some(item))
                    }
            } else {
                &&& final(self).backpack@ == old(self).backpack@
                &&& exists|i: int|
                    {
                        &&& 0 <= i < HOTBAR_SIZE
                        &&& old(self).hotbar@[i] is None
                        &&& forall|j: int| 0 <= j < i ==> old(self).hotbar@[j] is Some
                        &&& final(self).hotbar@ == old(self).hotbar@.update(i, Some(item))
                    }
            },
    {
        let slot = first_free(&self.hotbar);
        match slot {
            Some(i) => {
                self.hotbar.set(i, Some(item));
                true
            },
            None => {
                let slot2 = first_free(&self.backpack);
                match slot2 {
                    Some(k) => {
                        self.backpack.set(k, Some(item));
                        true
                    },
                    None => false,
                }
            },
        }
    }

    /// Whether every hotbar cell is occupied.
    pub open spec fn spec_full_hotbar(&self) -> bool {
        spec_cells_full(self.hotbar@)
    }

    /// The item in the given hotbar cell, if any; the inventory is left
    /// unchanged.
    pub fn get_item_from_hotbar(&mut self, position: usize) -> (r: Option<Item>)
        requires
            old(self).wf(),
            position < HOTBAR_SIZE,
        ensures
            *final(self) == *old(self),
            r == old(self).hotbar@[position as int],
    {
        self.hotbar[position]
    }
}

} // verus!
