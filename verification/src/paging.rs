//! Translation of a linear address through a four-level page-table hierarchy.
//!
//! The walk itself is a small state machine ([`Walk`]): it names the entry it
//! wants to read and, given that entry, either descends one level or ends with
//! a [`Translation`]. Whoever owns the table memory performs the reads.
//! [`TableMemory`] is such an owner made of plain values, and [`translate`]
//! runs a whole walk against it. No entry is ever written by a walk.
//!
//! Huge pages are not supported: a walk must not be given an entry above the
//! leaf level that maps one. [`Walk::supports`] and [`supported`] tell, so
//! that a caller can stop before it asks.

use std::collections::HashMap;
use vstd::prelude::*;

verus! {

/// Size of a page and of a physical frame, in bytes.
pub const PAGE_SIZE: u64 = 4096;

/// Number of entries in a table of any level.
pub const ENTRIES_PER_TABLE: usize = 512;

/// Bit of an entry that says the entry is in use.
pub const PRESENT: u64 = 1;

/// Bit of an entry above the leaf level that says the entry maps a huge page
/// instead of pointing to a table.
pub const HUGE_PAGE: u64 = 0x80;

/// Bits of an entry that hold the frame address.
pub const FRAME_MASK: u64 = 0x000f_ffff_ffff_f000;

/// The level of the root table; the leaf tables are at level 1.
pub const ROOT_LEVEL: u8 = 4;

/// Whether an entry is in use.
pub open spec fn spec_is_present(entry: u64) -> bool {
    entry & PRESENT != 0
}

/// Whether an entry carries the huge-page bit.
pub open spec fn spec_is_huge(entry: u64) -> bool {
    entry & HUGE_PAGE != 0
}

/// The frame address that an entry holds.
pub open spec fn spec_entry_frame(entry: u64) -> u64 {
    entry & FRAME_MASK
}

/// The offset of an address within its page.
pub open spec fn spec_page_offset(addr: u64) -> u64 {
    addr % PAGE_SIZE
}

/// Bytes of address space that one entry of a table at `level` covers.
pub open spec fn entry_span(level: u8) -> int {
    if level <= 1 {
        0x1000
    } else if level == 2 {
        0x20_0000
    } else if level == 3 {
        0x4000_0000
    } else {
        0x80_0000_0000
    }
}

/// The index of the entry that `addr` selects in a table at `level`.
pub open spec fn spec_table_index(addr: u64, level: u8) -> int {
    (addr as int / entry_span(level)) % 512
}

/// Whether an entry is in use.
#[verifier::when_used_as_spec(spec_is_present)]
pub fn is_present(entry: u64) -> (present: bool)
    ensures
        present == spec_is_present(entry),
{
    entry & PRESENT != 0
}

/// Whether an entry carries the huge-page bit.
#[verifier::when_used_as_spec(spec_is_huge)]
pub fn is_huge(entry: u64) -> (huge: bool)
    ensures
        huge == spec_is_huge(entry),
{
    entry & HUGE_PAGE != 0
}

/// The frame address that an entry holds: page-aligned and below 2^52.
#[verifier::when_used_as_spec(spec_entry_frame)]
pub fn entry_frame(entry: u64) -> (frame: u64)
    ensures
        frame == spec_entry_frame(entry),
        frame % PAGE_SIZE == 0,
        frame <= FRAME_MASK,
{
    assert((entry & 0x000f_ffff_ffff_f000u64) % 4096 == 0 && (entry & 0x000f_ffff_ffff_f000u64)
        <= 0x000f_ffff_ffff_f000u64) by (bit_vector);
    entry & FRAME_MASK
}

/// The offset of an address within its page, always below the page size.
#[verifier::when_used_as_spec(spec_page_offset)]
pub fn page_offset(addr: u64) -> (offset: u64)
    ensures
        offset == spec_page_offset(addr),
        offset < PAGE_SIZE,
{
    assert(addr & 0xfffu64 == addr % 4096) by (bit_vector);
    addr & 0xfff
}

/// The index of the entry that `addr` selects in a table at `level`.
#[verifier::when_used_as_spec(spec_table_index_usize)]
pub fn table_index(addr: u64, level: u8) -> (index: usize)
    ensures
        index == spec_table_index(addr, level),
        index < ENTRIES_PER_TABLE,
{
    let index: u64 = if level <= 1 {
        assert((addr >> 12u64) & 0x1ffu64 == (addr / 0x1000u64) % 512) by (bit_vector);
        (addr >> 12u64) & 0x1ff
    } else if level == 2 {
        assert((addr >> 21u64) & 0x1ffu64 == (addr / 0x20_0000u64) % 512) by (bit_vector);
        (addr >> 21u64) & 0x1ff
    } else if level == 3 {
        assert((addr >> 30u64) & 0x1ffu64 == (addr / 0x4000_0000u64) % 512) by (bit_vector);
        (addr >> 30u64) & 0x1ff
    } else {
        assert((addr >> 39u64) & 0x1ffu64 == (addr / 0x80_0000_0000u64) % 512) by (bit_vector);
        (addr >> 39u64) & 0x1ff
    };
    index as usize
}

/// [`spec_table_index`] as the machine integer that [`table_index`] returns.
pub open spec fn spec_table_index_usize(addr: u64, level: u8) -> usize {
    spec_table_index(addr, level) as usize
}

/// How a walk ended.
#[derive(Debug, Clone, Copy, PartialEq, Eq, Structural)]
pub enum Translation {
    /// Every entry on the path was present; this is the physical address.
    Mapped(u64),
    /// An entry on the path was absent.
    NotMapped,
}

/// A walk in progress: about to read one entry of the table at `table`.
#[derive(Debug, Clone, Copy, PartialEq, Eq, Structural)]
pub struct Walk {
    /// The linear address being translated.
    pub addr: u64,
    /// The level of the table to read next, from 4 down to 1.
    pub level: u8,
    /// The physical address of that table.
    pub table: u64,
}

/// What reading one entry does to a walk.
#[derive(Debug, Clone, Copy, PartialEq, Eq, Structural)]
pub enum WalkStep {
    /// The entry points to the table of the next lower level.
    Descend(Walk),
    /// The walk is over.
    Done(Translation),
}

impl Walk {
    /// A walk is between the root level and the leaf level.
    pub open spec fn wf(self) -> bool {
        1 <= self.level <= ROOT_LEVEL
    }

    /// The walk for `addr` that begins at the root table at `root`.
    pub open spec fn spec_start(root: u64, addr: u64) -> Walk {
        Walk { addr, level: ROOT_LEVEL, table: root }
    }

    /// The index of the entry to read in the current table.
    pub open spec fn spec_index(self) -> int {
        spec_table_index(self.addr, self.level)
    }

    /// Whether the walk can take `entry` at the current position: anything
    /// but a present entry above the leaf level that maps a huge page.
    pub open spec fn spec_supports(self, entry: u64) -> bool {
        !(self.level > 1 && spec_is_present(entry) && spec_is_huge(entry))
    }

    /// The walk after `entry`, which it supports, was read at the current
    /// position.
    pub open spec fn spec_advance(self, entry: u64) -> WalkStep {
        if !spec_is_present(entry) {
            WalkStep::Done(Translation::NotMapped)
        } else if self.level > 1 {
            WalkStep::Descend(
                Walk {
                    addr: self.addr,
                    level: (self.level - 1) as u8,
                    table: spec_entry_frame(entry),
                },
            )
        } else {
            WalkStep::Done(
                Translation::Mapped((spec_entry_frame(entry) + spec_page_offset(self.addr)) as u64),
            )
        }
    }

    /// Begins the walk for `addr` at the root table at `root`.
    pub fn start(root: u64, addr: u64) -> (walk: Walk)
        ensures
            walk == Walk::spec_start(root, addr),
            walk.wf(),
    {
        Walk { addr, level: ROOT_LEVEL, table: root }
    }

    /// The index of the entry to read in the current table.
    pub fn index(&self) -> (index: usize)
        ensures
            index == self.spec_index(),
            index < ENTRIES_PER_TABLE,
    {
        table_index(self.addr, self.level)
    }

    /// Whether the walk can take `entry` at the current position.
    #[verifier::when_used_as_spec(spec_supports)]
    pub fn supports(self, entry: u64) -> (supported: bool)
        ensures
            supported == self.spec_supports(entry),
    {
        !(self.level > 1 && is_present(entry) && is_huge(entry))
    }

    /// Takes the entry that was read at the current position and says how the
    /// walk goes on: an absent entry ends it unmapped, the leaf entry ends it
    /// with the frame's base plus the page offset, and an entry above the
    /// leaf descends one level. A huge page above the leaf is no input.
    pub fn advance(self, entry: u64) -> (step: WalkStep)
        requires
            self.spec_supports(entry),
        ensures
            step == self.spec_advance(entry),
            step matches WalkStep::Descend(next) ==> next.level + 1 == self.level && (self.wf()
                ==> next.wf()),
    {
        if !is_present(entry) {
            WalkStep::Done(Translation::NotMapped)
        } else if self.level > 1 {
            WalkStep::Descend(
                Walk { addr: self.addr, level: self.level - 1, table: entry_frame(entry) },
            )
        } else {
            WalkStep::Done(Translation::Mapped(entry_frame(entry) + page_offset(self.addr)))
        }
    }
}

/// The entry at `index` of the table at `frame`; memory that holds no table
/// reads as zero.
pub open spec fn entry_in(tables: Map<u64, Seq<u64>>, frame: u64, index: int) -> u64 {
    if tables.contains_key(frame) && 0 <= index < tables[frame].len() {
        tables[frame][index]
    } else {
        0
    }
}

/// The verdict of the walk `walk` over `tables`.
pub open spec fn resolve(tables: Map<u64, Seq<u64>>, walk: Walk) -> Translation
    decreases walk.level,
{
    match walk.spec_advance(entry_in(tables, walk.table, walk.spec_index())) {
        WalkStep::Done(translation) => translation,
        WalkStep::Descend(next) => if walk.level > 1 {
            resolve(tables, next)
        } else {
            Translation::NotMapped
        },
    }
}

/// What `addr` translates to through the hierarchy rooted at `root`, where
/// the walk is supported.
pub open spec fn translation(tables: Map<u64, Seq<u64>>, root: u64, addr: u64) -> Translation {
    resolve(tables, Walk::spec_start(root, addr))
}

/// Whether the walk `walk` over `tables` meets no huge page: it supports the
/// entry that it reads, and so does the walk that goes on from there.
pub open spec fn walk_supported(tables: Map<u64, Seq<u64>>, walk: Walk) -> bool
    decreases walk.level,
{
    let entry = entry_in(tables, walk.table, walk.spec_index());
    walk.spec_supports(entry) && match walk.spec_advance(entry) {
        WalkStep::Done(_) => true,
        WalkStep::Descend(next) => walk.level > 1 ==> walk_supported(tables, next),
    }
}

/// Whether `addr` can be translated through the hierarchy rooted at `root`:
/// no entry that its walk reads above the leaf level maps a huge page.
pub open spec fn spec_supported(tables: Map<u64, Seq<u64>>, root: u64, addr: u64) -> bool {
    walk_supported(tables, Walk::spec_start(root, addr))
}

/// The entry that the walk for `addr` reads at `level`, if it gets that far:
/// at the root level in the table at `root`, below it in the table that the
/// entry one level up points to.
pub open spec fn path_entry(tables: Map<u64, Seq<u64>>, root: u64, addr: u64, level: u8) -> u64
    decreases ROOT_LEVEL - level,
{
    let table = if level >= ROOT_LEVEL {
        root
    } else {
        spec_entry_frame(path_entry(tables, root, addr, (level + 1) as u8))
    };
    entry_in(tables, table, spec_table_index(addr, level))
}

/// Whether the walk for `addr` gets to read an entry at `level`: every entry
/// above that level is present and points to a table.
pub open spec fn reaches(tables: Map<u64, Seq<u64>>, root: u64, addr: u64, level: u8) -> bool {
    forall|above: u8|
        level < above <= ROOT_LEVEL ==> spec_is_present(
            #[trigger] path_entry(tables, root, addr, above),
        ) && !spec_is_huge(path_entry(tables, root, addr, above))
}

/// Where every entry on the path of `addr` is present, down to the leaf, the
/// address translates to the base of the leaf's frame plus the offset of
/// `addr` in its page, and that offset is below the page size.
pub proof fn lemma_translation_of_present_path(
    tables: Map<u64, Seq<u64>>,
    root: u64,
    addr: u64,
)
    requires
        reaches(tables, root, addr, 1),
        spec_is_present(path_entry(tables, root, addr, 1)),
    ensures
        spec_supported(tables, root, addr),
        translation(tables, root, addr) == Translation::Mapped(
            (spec_entry_frame(path_entry(tables, root, addr, 1)) + spec_page_offset(addr)) as u64,
        ),
        spec_entry_frame(path_entry(tables, root, addr, 1)) + spec_page_offset(addr) <= u64::MAX,
        0 <= spec_page_offset(addr) < PAGE_SIZE,
{
    reveal_with_fuel(resolve, 5);
    reveal_with_fuel(path_entry, 5);
    let e4 = path_entry(tables, root, addr, 4);
    let e3 = path_entry(tables, root, addr, 3);
    let e2 = path_entry(tables, root, addr, 2);
    let e1 = path_entry(tables, root, addr, 1);
    reveal_with_fuel(walk_supported, 5);
    assert(spec_is_present(e4) && !spec_is_huge(e4));
    assert(spec_is_present(e3) && !spec_is_huge(e3));
    assert(spec_is_present(e2) && !spec_is_huge(e2));
    assert((e1 & 0x000f_ffff_ffff_f000u64) <= 0x000f_ffff_ffff_f000u64) by (bit_vector);
}

/// Where the walk for `addr` gets to `level` and the entry there is absent,
/// the address is unmapped, whatever the tables below hold.
pub proof fn lemma_translation_of_missing_entry(
    tables: Map<u64, Seq<u64>>,
    root: u64,
    addr: u64,
    level: u8,
)
    requires
        1 <= level <= ROOT_LEVEL,
        reaches(tables, root, addr, level),
        !spec_is_present(path_entry(tables, root, addr, level)),
    ensures
        spec_supported(tables, root, addr),
        translation(tables, root, addr) == Translation::NotMapped,
{
    reveal_with_fuel(resolve, 5);
    reveal_with_fuel(walk_supported, 5);
    reveal_with_fuel(path_entry, 5);
    let e4 = path_entry(tables, root, addr, 4);
    let e3 = path_entry(tables, root, addr, 3);
    let e2 = path_entry(tables, root, addr, 2);
    if level < 4 {
        assert(spec_is_present(e4) && !spec_is_huge(e4));
    }
    if level < 3 {
        assert(spec_is_present(e3) && !spec_is_huge(e3));
    }
    if level < 2 {
        assert(spec_is_present(e2) && !spec_is_huge(e2));
    }
}

/// Where the walk for `addr` gets to a level above the leaf and the entry
/// there maps a huge page, the address cannot be translated.
pub proof fn lemma_translation_of_huge_page(
    tables: Map<u64, Seq<u64>>,
    root: u64,
    addr: u64,
    level: u8,
)
    requires
        1 < level <= ROOT_LEVEL,
        reaches(tables, root, addr, level),
        spec_is_present(path_entry(tables, root, addr, level)),
        spec_is_huge(path_entry(tables, root, addr, level)),
    ensures
        !spec_supported(tables, root, addr),
{
    reveal_with_fuel(walk_supported, 5);
    reveal_with_fuel(path_entry, 5);
    let e4 = path_entry(tables, root, addr, 4);
    let e3 = path_entry(tables, root, addr, 3);
    if level < 4 {
        assert(spec_is_present(e4) && !spec_is_huge(e4));
    }
    if level < 3 {
        assert(spec_is_present(e3) && !spec_is_huge(e3));
    }
}

/// An address comes out of a translation only where the whole path is
/// present: never from a path with a missing entry.
pub proof fn lemma_mapped_needs_whole_path(tables: Map<u64, Seq<u64>>, root: u64, addr: u64)
    requires
        spec_supported(tables, root, addr),
        translation(tables, root, addr) is Mapped,
    ensures
        reaches(tables, root, addr, 1),
        spec_is_present(path_entry(tables, root, addr, 1)),
{
    reveal_with_fuel(resolve, 5);
    reveal_with_fuel(walk_supported, 5);
    reveal_with_fuel(path_entry, 5);
    let e4 = path_entry(tables, root, addr, 4);
    let e3 = path_entry(tables, root, addr, 3);
    let e2 = path_entry(tables, root, addr, 2);
    assert(spec_is_present(e4) && !spec_is_huge(e4));
    assert(spec_is_present(e3) && !spec_is_huge(e3));
    assert(spec_is_present(e2) && !spec_is_huge(e2));
    assert forall|above: u8| 1 < above <= ROOT_LEVEL implies spec_is_present(
        #[trigger] path_entry(tables, root, addr, above),
    ) && !spec_is_huge(path_entry(tables, root, addr, above)) by {
        assert(above == 2 || above == 3 || above == 4);
    }
}

/// Page tables held as plain values: for each frame that holds a table, its
/// 512 entries.
pub struct TableMemory {
    tables: HashMap<u64, Vec<u64>>,
}

impl View for TableMemory {
    type V = Map<u64, Seq<u64>>;

    closed spec fn view(&self) -> Map<u64, Seq<u64>> {
        Map::new(|frame: u64| self.tables@.contains_key(frame), |frame: u64| self.tables@[frame]@)
    }
}

impl TableMemory {
    #[verifier::type_invariant]
    spec fn well_formed(&self) -> bool {
        forall|frame: u64| #[trigger]
            self.tables@.contains_key(frame) ==> self.tables@[frame]@.len() == ENTRIES_PER_TABLE
    }

    /// Memory without any table: every entry reads as zero.
    pub fn new() -> (memory: TableMemory)
        ensures
            memory@ == Map::<u64, Seq<u64>>::empty(),
    {
        let memory = TableMemory { tables: HashMap::new() };
        assert(memory@ =~= Map::<u64, Seq<u64>>::empty());
        memory
    }

    /// Reads the entry at `index` of the table at `frame`.
    pub fn entry(&self, frame: u64, index: usize) -> (entry: u64)
        ensures
            entry == entry_in(self@, frame, index as int),
    {
        match self.tables.get(&frame) {
            Some(table) => if index < table.len() {
                table[index]
            } else {
                0
            },
            None => 0,
        }
    }

    /// Writes `value` at `index` of the table at `frame`. A frame that held no
    /// table holds one of zeros from then on. Every other entry stays as it was.
    pub fn set_entry(&mut self, frame: u64, index: usize, value: u64)
        requires
            index < ENTRIES_PER_TABLE,
        ensures
            forall|f: u64, i: int|
                0 <= i < ENTRIES_PER_TABLE ==> #[trigger] entry_in(final(self)@, f, i) == if f
                    == frame && i == index {
                    value
                } else {
                    entry_in(old(self)@, f, i)
                },
            forall|f: u64|
                final(self)@.contains_key(f) <==> f == frame || old(self)@.contains_key(f),
    {
        let mut taken = TableMemory::new();
        core::mem::swap(self, &mut taken);
        proof {
            use_type_invariant(&taken);
        }
        let mut tables = taken.tables;
        let mut table = match tables.remove(&frame) {
            Some(table) => table,
            None => vec![0u64; ENTRIES_PER_TABLE],
        };
        table.set(index, value);
        tables.insert(frame, table);
        *self = TableMemory { tables };
    }
}

/// Whether `addr` can be translated through the hierarchy in `memory` whose
/// root table is at `root`: whether its walk meets no huge page.
pub fn supported(memory: &TableMemory, root: u64, addr: u64) -> (supported: bool)
    ensures
        supported == spec_supported(memory@, root, addr),
{
    let mut walk = Walk::start(root, addr);
    loop
        invariant
            walk.wf(),
            walk_supported(memory@, walk) == spec_supported(memory@, root, addr),
        decreases walk.level,
    {
        let entry = memory.entry(walk.table, walk.index());
        if !walk.supports(entry) {
            return false;
        }
        match walk.advance(entry) {
            WalkStep::Done(_) => {
                return true;
            },
            WalkStep::Descend(next) => {
                walk = next;
            },
        }
    }
}

/// Translates `addr` through the hierarchy in `memory` whose root table is at
/// `root`: four reads at most, from the root level down to the leaf level.
/// The walk must be supported.
pub fn translate(memory: &TableMemory, root: u64, addr: u64) -> (result: Translation)
    requires
        spec_supported(memory@, root, addr),
    ensures
        result == translation(memory@, root, addr),
{
    let mut walk = Walk::start(root, addr);
    loop
        invariant
            walk.wf(),
            walk_supported(memory@, walk),
            resolve(memory@, walk) == translation(memory@, root, addr),
        decreases walk.level,
    {
        let entry = memory.entry(walk.table, walk.index());
        match walk.advance(entry) {
            WalkStep::Done(result) => {
                return result;
            },
            WalkStep::Descend(next) => {
                walk = next;
            },
        }
    }
}

} // verus!
