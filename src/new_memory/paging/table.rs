//! One level of the page-table tree: 1024 entries, tagged with its level so
//! that a root table and a leaf table are different types.
use vstd::prelude::*;
use core::marker::PhantomData;
use crate::new_memory::paging::entry::{valid_bit, Entry};

verus! {

pub const ENTRY_COUNT: usize = 1024;

pub trait TableLevel {

}

/// The root level.
pub struct Level2;

/// The leaf level.
pub struct Level1;

impl TableLevel for Level2 {

}

impl TableLevel for Level1 {

}

/// A level whose entries may point to tables of the next level.
pub trait HierarchicalLevel: TableLevel {
    type NextLevel: TableLevel;
}

impl HierarchicalLevel for Level2 {
    type NextLevel = Level1;
}

pub struct Table<L: TableLevel> {
    pub entries: Vec<Entry>,
    pub level: PhantomData<L>,
}

impl<L: TableLevel> Table<L> {
    pub open spec fn wf(&self) -> bool {
        self.entries@.len() == ENTRY_COUNT
    }

    /// The entry values.
    pub open spec fn view(&self) -> Seq<u32> {
        self.entries@.map_values(|e: Entry| e.entry)
    }

    /// A table whose entries are all zero.
    pub fn new() -> (r: Table<L>)
        ensures
            r.wf(),
            forall|i: int| 0 <= i < ENTRY_COUNT ==> #[trigger] r.view()[i] == 0,
    {
        let mut entries: Vec<Entry> = Vec::new();
        let mut i: usize = 0;
        while i < ENTRY_COUNT
            invariant
                i <= ENTRY_COUNT,
                entries@.len() == i,
                forall|j: int| 0 <= j < i ==> #[trigger] entries@[j].entry == 0,
            decreases ENTRY_COUNT - i,
        {
            entries.push(Entry::zero());
            i = i + 1;
        }
        Table { entries, level: PhantomData }
    }

    /// Clears every entry.
    pub fn init(&mut self)
        requires
            old(self).wf(),
        ensures
            final(self).wf(),
            forall|i: int| 0 <= i < ENTRY_COUNT ==> #[trigger] final(self).view()[i] == 0,
    {
        let mut i: usize = 0;
        while i < ENTRY_COUNT
            invariant
                i <= ENTRY_COUNT,
                self.wf(),
                forall|j: int| 0 <= j < i ==> #[trigger] self.view()[j] == 0,
            decreases ENTRY_COUNT - i,
        {
            self.set(i, Entry::zero());
            i = i + 1;
        }
    }

    pub fn get(&self, index: usize) -> (r: Entry)
        requires
            self.wf(),
            index < ENTRY_COUNT,
        ensures
            r.entry == self.view()[index as int],
    {
        self.entries[index]
    }

    pub fn set(&mut self, index: usize, entry: Entry)
        requires
            old(self).wf(),
            index < ENTRY_COUNT,
        ensures
            final(self).wf(),
            final(self).view() == old(self).view().update(index as int, entry.entry),
    {
        self.entries.set(index, entry);
        proof {
            assert(self.view() =~= old(self).view().update(index as int, entry.entry));
        }
    }
}

/// Leaf table `i` of the active table is reached at this address plus `i`
/// pages, through the window the root table's last entry opens.
pub const TABLE_WINDOW: usize = 0xffc0_0000;

impl<L: HierarchicalLevel> Table<L> {
    /// Where the next-level table that entry `index` points to is reached,
    /// when this is the active root table; `None` when the entry is not valid.
    pub fn next_table_address(&self, index: usize) -> (r: Option<usize>)
        requires
            self.wf(),
            index < ENTRY_COUNT,
        ensures
            r == (if valid_bit(self.view()[index as int]) {
                Some((TABLE_WINDOW + index * 4096) as usize)
            } else {
                None
            }),
    {
        if self.get(index).is_valid() {
            Some(TABLE_WINDOW + index * 4096)
        } else {
            None
        }
    }
}

} // verus!
