//! The mapper that is derived once from the physical-memory offset, and the
//! allocator that hands out the usable frames of the boot memory map.

use crate::paging::{Walk, PAGE_SIZE};
use bootloader::bootinfo::MemoryMap;
use vstd::prelude::*;
use x86_64::structures::paging::{PhysFrame, Size4KiB};
use x86_64::{PhysAddr, VirtAddr};

verus! {

/// First physical address that the architecture cannot express: 2^52.
pub const PHYSICAL_LIMIT: u64 = 0x10_0000_0000_0000;

/// The canonical virtual address that a 64-bit value stands for. Bits 47 to
/// 63 must be all zero or all one; a value with bit 47 set and nothing above
/// it is sign-extended; any other value is no address.
pub open spec fn spec_canonical(addr: u64) -> Option<u64> {
    let top = addr >> 47u64;
    if top == 0 || top == 0x1ffff {
        Some(addr)
    } else if top == 1 {
        Some(addr | 0xffff_0000_0000_0000u64)
    } else {
        None
    }
}

/// The start of the 4 KiB frame that holds `addr`.
pub open spec fn frame_base(addr: u64) -> u64 {
    (addr - addr % PAGE_SIZE) as u64
}

/// `x86_64::VirtAddr::try_new`, then `VirtAddr::as_u64` on its result. The
/// contract restates the three arms of `try_new`: bits 47..64 equal to 0 or
/// 0x1ffff keep the value, equal to 1 sign-extend it, anything else fails.
#[verifier::external_body]
fn virt_addr_try_new(addr: u64) -> (canonical: Option<u64>)
    ensures
        canonical == spec_canonical(addr),
{
    match VirtAddr::try_new(addr) {
        Ok(virt) => Some(virt.as_u64()),
        Err(_) => None,
    }
}

/// `x86_64::structures::paging::PhysFrame::containing_address` for 4 KiB
/// frames, between `PhysAddr::new` and `start_address().as_u64()`.
/// `PhysAddr::new` panics on a value of 2^52 or more, which the precondition
/// leaves out; `containing_address` aligns the address down to 4096.
#[verifier::external_body]
fn containing_frame(addr: u64) -> (start: u64)
    requires
        addr < PHYSICAL_LIMIT,
    ensures
        start == frame_base(addr),
{
    PhysFrame::<Size4KiB>::containing_address(PhysAddr::new(addr)).start_address().as_u64()
}

/// Where the frame at `frame` is found in virtual memory when all physical
/// memory is mapped from `offset` on: `offset + frame` if that sum exists and
/// is a canonical address.
pub open spec fn spec_frame_to_virt(offset: u64, frame: u64) -> Option<u64> {
    if offset + frame > u64::MAX {
        None
    } else {
        spec_canonical((offset + frame) as u64)
    }
}

/// Where the frame at `frame` is found in virtual memory when all physical
/// memory is mapped from `offset` on.
pub fn frame_to_virt(offset: u64, frame: u64) -> (virt: Option<u64>)
    ensures
        virt == spec_frame_to_virt(offset, frame),
{
    match offset.checked_add(frame) {
        Some(sum) => virt_addr_try_new(sum),
        None => None,
    }
}

/// The virtual address of the active root table, whose frame the paging-root
/// register names.
pub fn active_level4_table(physical_memory_offset: u64, level_4_frame: u64) -> (virt: Option<u64>)
    ensures
        virt == spec_frame_to_virt(physical_memory_offset, level_4_frame),
{
    frame_to_virt(physical_memory_offset, level_4_frame)
}

/// Record of whether the mapper of this system has been derived. A mapper is
/// a view of the table memory, and there may be one only.
#[derive(Debug)]
pub struct MapperGuard {
    spent: bool,
}

impl MapperGuard {
    /// Whether [`init`] has handed out the mapper.
    pub closed spec fn spec_spent(&self) -> bool {
        self.spent
    }

    /// The guard of a system whose mapper has not been derived.
    pub fn new() -> (guard: MapperGuard)
        ensures
            !guard.spent(),
    {
        MapperGuard { spent: false }
    }

    /// Whether [`init`] has handed out the mapper.
    #[verifier::when_used_as_spec(spec_spent)]
    pub fn spent(&self) -> (spent: bool)
        ensures
            spent == self.spec_spent(),
    {
        self.spent
    }
}

/// Why no mapper was derived.
#[derive(Debug, Clone, Copy, PartialEq, Eq, Structural)]
pub enum MapperError {
    /// The mapper of this system was derived before.
    AlreadyDerived,
    /// The root table's frame has no address in the offset mapping.
    RootOutsideMapping,
}

/// Translates through the tables that are reached by adding a fixed offset to
/// their physical addresses. There is no way to a mapper but [`init`].
#[derive(Debug, PartialEq, Eq)]
pub struct Mapper {
    physical_memory_offset: u64,
    level_4_frame: u64,
}

/// Derives the mapper from the physical-memory offset and the frame of the
/// active root table. Succeeds once per guard, and only where the root table
/// has an address in the offset mapping; a failed call leaves the guard as it
/// was.
pub fn init(guard: &mut MapperGuard, physical_memory_offset: u64, level_4_frame: u64) -> (result:
    Result<Mapper, MapperError>)
    ensures
        match result {
            Ok(mapper) => {
                &&& !old(guard).spent()
                &&& final(guard).spent()
                &&& spec_frame_to_virt(physical_memory_offset, level_4_frame) is Some
                &&& mapper.physical_memory_offset() == physical_memory_offset
                &&& mapper.level_4_frame() == level_4_frame
            },
            Err(MapperError::AlreadyDerived) => old(guard).spent() && *final(guard) == *old(guard),
            Err(MapperError::RootOutsideMapping) => {
                &&& !old(guard).spent()
                &&& spec_frame_to_virt(physical_memory_offset, level_4_frame) is None
                &&& *final(guard) == *old(guard)
            },
        },
{
    if guard.spent {
        return Err(MapperError::AlreadyDerived);
    }
    match active_level4_table(physical_memory_offset, level_4_frame) {
        None => Err(MapperError::RootOutsideMapping),
        Some(_) => {
            guard.spent = true;
            Ok(Mapper { physical_memory_offset, level_4_frame })
        },
    }
}

impl Mapper {
    /// Virtual address at which physical address 0 is mapped.
    pub closed spec fn spec_physical_memory_offset(&self) -> u64 {
        self.physical_memory_offset
    }

    /// Physical address of the root table.
    pub closed spec fn spec_level_4_frame(&self) -> u64 {
        self.level_4_frame
    }

    /// Virtual address at which physical address 0 is mapped.
    #[verifier::when_used_as_spec(spec_physical_memory_offset)]
    pub fn physical_memory_offset(&self) -> (offset: u64)
        ensures
            offset == self.spec_physical_memory_offset(),
    {
        self.physical_memory_offset
    }

    /// Physical address of the root table.
    #[verifier::when_used_as_spec(spec_level_4_frame)]
    pub fn level_4_frame(&self) -> (frame: u64)
        ensures
            frame == self.spec_level_4_frame(),
    {
        self.level_4_frame
    }

    /// The virtual address of the entry that `walk` wants to read: the
    /// address of its table in the offset mapping plus eight bytes for each
    /// entry before it. `None` where the table has no address there.
    pub open spec fn spec_entry_pointer(&self, walk: Walk) -> Option<u64> {
        match spec_frame_to_virt(self.physical_memory_offset(), walk.table) {
            Some(table) => if table + 8 * walk.spec_index() > u64::MAX {
                None
            } else {
                Some((table + 8 * walk.spec_index()) as u64)
            },
            None => None,
        }
    }

    /// Begins the walk for `addr` at this mapper's root table.
    pub fn walk(&self, addr: u64) -> (walk: Walk)
        ensures
            walk == Walk::spec_start(self.level_4_frame(), addr),
            walk.wf(),
    {
        Walk::start(self.level_4_frame, addr)
    }

    /// The virtual address of the entry that `walk` wants to read.
    pub fn entry_pointer(&self, walk: &Walk) -> (pointer: Option<u64>)
        ensures
            pointer == self.spec_entry_pointer(*walk),
    {
        match frame_to_virt(self.physical_memory_offset, walk.table) {
            Some(table) => {
                let index = walk.index();
                table.checked_add(8 * (index as u64))
            },
            None => None,
        }
    }
}

/// What a region of physical memory may be used for.
#[derive(Debug, Clone, Copy, PartialEq, Eq, Structural)]
pub enum RegionType {
    /// Free for the kernel to use.
    Usable,
    /// In use or reserved by the hardware or the boot loader.
    Reserved,
}

/// A region of the boot memory map: the physical addresses from `start` up to
/// `end`, which is the first one after it.
#[derive(Debug, Clone, Copy, PartialEq, Eq, Structural)]
pub struct PhysicalRegion {
    pub start: u64,
    pub end: u64,
    pub region_type: RegionType,
}

impl PhysicalRegion {
    /// Whether frames are taken from this region.
    pub open spec fn is_usable(self) -> bool {
        self.region_type == RegionType::Usable
    }

    /// How many frames this region yields: one for `start` and one for each
    /// further step of 4096 bytes that stays below `end`; none if the region
    /// is empty or not usable.
    pub open spec fn frame_count(self) -> nat {
        if self.is_usable() && self.start < self.end {
            ((self.end - self.start + PAGE_SIZE - 1) / PAGE_SIZE as int) as nat
        } else {
            0
        }
    }

    /// The `k`-th frame of this region: the one that holds `start + 4096 * k`.
    pub open spec fn frame(self, k: int) -> u64 {
        frame_base((self.start + PAGE_SIZE * k) as u64)
    }

    /// The frames that this region yields, in order.
    pub open spec fn frames(self) -> Seq<u64> {
        Seq::new(self.frame_count(), |k: int| self.frame(k))
    }

    /// Whether every address that frames are taken from can be expressed as a
    /// physical address.
    pub open spec fn spec_addressable(self) -> bool {
        self.is_usable() && self.start < self.end ==> self.end <= PHYSICAL_LIMIT
    }

    /// Whether every address that frames are taken from can be expressed as a
    /// physical address.
    #[verifier::when_used_as_spec(spec_addressable)]
    pub fn addressable(self) -> (ok: bool)
        ensures
            ok == self.spec_addressable(),
    {
        match self.region_type {
            RegionType::Usable => self.start >= self.end || self.end <= PHYSICAL_LIMIT,
            RegionType::Reserved => true,
        }
    }
}

/// The frames that a memory map yields: those of its regions, region by
/// region in the order of the map.
pub open spec fn usable_frames(memory_map: Seq<PhysicalRegion>) -> Seq<u64>
    decreases memory_map.len(),
{
    if memory_map.len() == 0 {
        Seq::empty()
    } else {
        usable_frames(memory_map.drop_last()) + memory_map.last().frames()
    }
}

/// Whether every region of the map is addressable.
pub open spec fn spec_map_addressable(memory_map: Seq<PhysicalRegion>) -> bool {
    forall|i: int| 0 <= i < memory_map.len() ==> (#[trigger] memory_map[i]).spec_addressable()
}

/// Whether every region of the map is addressable.
pub fn map_addressable(memory_map: &Vec<PhysicalRegion>) -> (ok: bool)
    ensures
        ok == spec_map_addressable(memory_map@),
{
    let mut i: usize = 0;
    while i < memory_map.len()
        invariant
            i <= memory_map.len(),
            forall|j: int| 0 <= j < i ==> (#[trigger] memory_map@[j]).spec_addressable(),
        decreases memory_map.len() - i,
    {
        if !memory_map[i].addressable() {
            return false;
        }
        i += 1;
    }
    true
}

/// The boot loader's map of the physical memory.
#[verifier::external_type_specification]
#[verifier::external_body]
pub struct ExMemoryMap(MemoryMap);

/// One region of the boot loader's map, as the map holds it. The map
/// dereferences to a slice of these, which is why the verifier has to know
/// the type; no verified code holds one.
#[verifier::external_type_specification]
#[verifier::external_body]
pub struct ExBootMemoryRegion(bootloader::bootinfo::MemoryRegion);

/// The regions that a boot loader's map holds, in its order: for each, the
/// number of its first frame, the number of the first frame after it, and
/// whether the map marks it as usable.
pub uninterp spec fn memory_map_regions(memory_map: MemoryMap) -> Seq<(u64, u64, bool)>;

/// `len` of the slice that a `bootloader::bootinfo::MemoryMap` dereferences
/// to: the number of regions that the map holds.
#[verifier::external_body]
fn memory_map_len(memory_map: &MemoryMap) -> (len: usize)
    ensures
        len == memory_map_regions(*memory_map).len(),
{
    memory_map.len()
}

/// The region at `index` of the slice that a
/// `bootloader::bootinfo::MemoryMap` dereferences to, as the two frame
/// numbers of its range and whether its type is `Usable`.
#[verifier::external_body]
fn memory_map_region(memory_map: &MemoryMap, index: usize) -> (region: (u64, u64, bool))
    requires
        index < memory_map_regions(*memory_map).len(),
    ensures
        region == memory_map_regions(*memory_map)[index as int],
{
    let region = &memory_map[index];
    (
        region.range.start_frame_number,
        region.range.end_frame_number,
        matches!(region.region_type, bootloader::bootinfo::MemoryRegionType::Usable),
    )
}

/// Number of frames that physical addresses can express: 2^40.
pub const FRAME_NUMBER_LIMIT: u64 = 0x100_0000_0000;

/// Whether frames are taken from a region of a boot loader's map: it is
/// marked usable and holds at least one frame.
pub open spec fn boot_region_yields(region: (u64, u64, bool)) -> bool {
    region.2 && region.0 < region.1
}

/// Whether a region of a boot loader's map, if frames are taken from it, lies
/// within the physical addresses that exist.
pub open spec fn boot_region_addressable(region: (u64, u64, bool)) -> bool {
    boot_region_yields(region) ==> region.1 <= FRAME_NUMBER_LIMIT
}

/// Whether every region of a boot loader's map that frames are taken from lies
/// within the physical addresses that exist.
pub open spec fn boot_regions_addressable(regions: Seq<(u64, u64, bool)>) -> bool {
    forall|i: int| 0 <= i < regions.len() ==> boot_region_addressable(#[trigger] regions[i])
}

/// The regions of a boot loader's map that frames are taken from, in its
/// order, each from the address of its first frame up to the address of the
/// first frame after it.
pub open spec fn usable_regions(regions: Seq<(u64, u64, bool)>) -> Seq<PhysicalRegion>
    decreases regions.len(),
{
    if regions.len() == 0 {
        Seq::empty()
    } else if boot_region_yields(regions.last()) {
        usable_regions(regions.drop_last()).push(
            PhysicalRegion {
                start: (regions.last().0 * PAGE_SIZE) as u64,
                end: (regions.last().1 * PAGE_SIZE) as u64,
                region_type: RegionType::Usable,
            },
        )
    } else {
        usable_regions(regions.drop_last())
    }
}

/// The regions that are taken from a boot loader's map are usable, hold a
/// frame, begin and end on frame boundaries, and lie within the physical
/// addresses that exist if those of the map do.
pub proof fn lemma_usable_regions_are_whole_frames(regions: Seq<(u64, u64, bool)>)
    requires
        boot_regions_addressable(regions),
    ensures
        forall|i: int|
            0 <= i < usable_regions(regions).len() ==> {
                let region = #[trigger] usable_regions(regions)[i];
                &&& region.is_usable()
                &&& region.start < region.end
                &&& region.start % PAGE_SIZE == 0
                &&& region.end % PAGE_SIZE == 0
                &&& region.end <= PHYSICAL_LIMIT
            },
    decreases regions.len(),
{
    if regions.len() > 0 {
        assert(boot_region_addressable(regions[regions.len() - 1]));
        assert forall|i: int| 0 <= i < regions.drop_last().len() implies boot_region_addressable(
            #[trigger] regions.drop_last()[i],
        ) by {
            assert(regions.drop_last()[i] == regions[i]);
        }
        lemma_usable_regions_are_whole_frames(regions.drop_last());
    }
}

/// Where an allocator stands in its memory map: at the address `next` of the
/// region with index `region`, or past the last region.
struct Cursor {
    region: usize,
    next: u64,
}

/// Hands out the frames of the usable regions of a memory map, one by one and
/// each once. Nothing is ever taken back.
pub struct BootInfoFrameAllocator {
    memory_map: Vec<PhysicalRegion>,
    cursor: Cursor,
}

impl BootInfoFrameAllocator {
    #[verifier::type_invariant]
    spec fn well_formed(&self) -> bool {
        &&& spec_map_addressable(self.memory_map@)
        &&& self.cursor.region <= self.memory_map@.len()
        &&& self.cursor.region < self.memory_map@.len() ==> {
            let region = self.memory_map@[self.cursor.region as int];
            &&& region.start <= self.cursor.next
            &&& (self.cursor.next - region.start) % PAGE_SIZE as int == 0
            &&& (self.cursor.next - region.start) / PAGE_SIZE as int <= region.frame_count()
        }
    }

    /// The memory map that the frames are taken from.
    pub closed spec fn memory_map(&self) -> Seq<PhysicalRegion> {
        self.memory_map@
    }

    /// Every frame of the map, in the order in which it is handed out.
    pub open spec fn frames(&self) -> Seq<u64> {
        usable_frames(self.memory_map())
    }

    /// How many frames have been handed out.
    pub closed spec fn handed_out(&self) -> nat {
        let before = usable_frames(self.memory_map@.take(self.cursor.region as int)).len();
        if self.cursor.region < self.memory_map@.len() {
            (before + (self.cursor.next - self.memory_map@[self.cursor.region as int].start)
                / PAGE_SIZE as int) as nat
        } else {
            before
        }
    }

    /// An allocator over the usable regions of the boot loader's map that has
    /// handed out nothing yet; `None` where a usable region of the map that
    /// holds a frame reaches beyond the physical addresses that exist.
    pub fn init(memory_map: &MemoryMap) -> (allocator: Option<BootInfoFrameAllocator>)
        ensures
            match allocator {
                Some(allocator) => {
                    &&& boot_regions_addressable(memory_map_regions(*memory_map))
                    &&& allocator.memory_map() == usable_regions(memory_map_regions(*memory_map))
                    &&& allocator.handed_out() == 0
                },
                None => !boot_regions_addressable(memory_map_regions(*memory_map)),
            },
    {
        let ghost boot_regions = memory_map_regions(*memory_map);
        let len = memory_map_len(memory_map);
        let mut regions: Vec<PhysicalRegion> = Vec::new();
        let mut i: usize = 0;
        assert(boot_regions.take(0) =~= Seq::<(u64, u64, bool)>::empty());
        while i < len
            invariant
                i <= len,
                len == boot_regions.len(),
                boot_regions == memory_map_regions(*memory_map),
                regions@ == usable_regions(boot_regions.take(i as int)),
                spec_map_addressable(regions@),
                forall|j: int| 0 <= j < i ==> boot_region_addressable(#[trigger] boot_regions[j]),
            decreases len - i,
        {
            let (first, after, usable) = memory_map_region(memory_map, i);
            proof {
                assert(boot_regions.take(i + 1).drop_last() =~= boot_regions.take(i as int));
                assert(boot_regions.take(i + 1).last() == boot_regions[i as int]);
            }
            if usable && first < after {
                if after > FRAME_NUMBER_LIMIT {
                    return None;
                }
                regions.push(
                    PhysicalRegion {
                        start: first * PAGE_SIZE,
                        end: after * PAGE_SIZE,
                        region_type: RegionType::Usable,
                    },
                );
            }
            i += 1;
        }
        assert(boot_regions.take(i as int) =~= boot_regions);
        Some(BootInfoFrameAllocator::from_regions(regions))
    }

    /// An allocator over `memory_map` that has handed out nothing yet.
    pub fn from_regions(memory_map: Vec<PhysicalRegion>) -> (allocator: BootInfoFrameAllocator)
        requires
            spec_map_addressable(memory_map@),
        ensures
            allocator.memory_map() == memory_map@,
            allocator.handed_out() == 0,
    {
        let next = if memory_map.len() > 0 {
            memory_map[0].start
        } else {
            0
        };
        BootInfoFrameAllocator { memory_map, cursor: Cursor { region: 0, next } }
    }

    /// The next frame that has not been handed out, or `None` once every
    /// frame of the map has been.
    pub fn allocate_frame(&mut self) -> (frame: Option<u64>)
        ensures
            final(self).memory_map() == old(self).memory_map(),
            match frame {
                Some(start) => {
                    &&& old(self).handed_out() < old(self).frames().len()
                    &&& start == old(self).frames()[old(self).handed_out() as int]
                    &&& final(self).handed_out() == old(self).handed_out() + 1
                    &&& start % PAGE_SIZE == 0
                },
                None => {
                    &&& old(self).handed_out() == old(self).frames().len()
                    &&& final(self).handed_out() == old(self).handed_out()
                },
            },
    {
        loop
            invariant
                self.memory_map() == old(self).memory_map(),
                self.handed_out() == old(self).handed_out(),
            decreases self.memory_map@.len() - self.cursor.region,
        {
            proof {
                use_type_invariant(&*self);
            }
            if self.cursor.region >= self.memory_map.len() {
                proof {
                    assert(self.memory_map@.take(self.cursor.region as int) =~= self.memory_map@);
                }
                return None;
            }
            let region = self.memory_map[self.cursor.region];
            let next = self.cursor.next;
            proof {
                lemma_frames_of_prefix(self.memory_map@, self.cursor.region as int);
            }
            match region.region_type {
                RegionType::Usable => {
                    if next < region.end {
                        let start = containing_frame(next);
                        proof {
                            let k = (next - region.start) / PAGE_SIZE as int;
                            let before = usable_frames(
                                self.memory_map@.take(self.cursor.region as int),
                            );
                            let through = usable_frames(
                                self.memory_map@.take(self.cursor.region + 1),
                            );
                            assert(self.frames()[before.len() + k] == through[before.len() + k]);
                        }
                        self.cursor = Cursor { region: self.cursor.region, next: next + PAGE_SIZE };
                        return Some(start);
                    }
                },
                RegionType::Reserved => {},
            }
            let following = self.cursor.region + 1;
            let start = if following < self.memory_map.len() {
                self.memory_map[following].start
            } else {
                0
            };
            self.cursor = Cursor { region: following, next: start };
        }
    }
}

/// The frames of the first `i + 1` regions are those of the first `i`
/// followed by those of region `i`, and they begin the frames of the map.
proof fn lemma_frames_of_prefix(memory_map: Seq<PhysicalRegion>, i: int)
    requires
        0 <= i < memory_map.len(),
    ensures
        usable_frames(memory_map.take(i + 1)) == usable_frames(memory_map.take(i))
            + memory_map[i].frames(),
        usable_frames(memory_map.take(i + 1)).is_prefix_of(usable_frames(memory_map)),
    decreases memory_map.len() - i,
{
    assert(memory_map.take(i + 1).drop_last() =~= memory_map.take(i));
    if i + 1 == memory_map.len() {
        assert(memory_map.take(i + 1) =~= memory_map);
    } else {
        lemma_frames_of_prefix(memory_map, i + 1);
    }
}

/// Whether a memory map is one that a boot loader hands over: each usable
/// region starts on a frame boundary, and no two usable regions share an
/// address.
pub open spec fn map_consistent(memory_map: Seq<PhysicalRegion>) -> bool {
    &&& forall|i: int|
        0 <= i < memory_map.len() && (#[trigger] memory_map[i]).is_usable() ==> memory_map[i].start
            % PAGE_SIZE == 0
    &&& forall|i: int, j: int|
        0 <= i < j < memory_map.len() && (#[trigger] memory_map[i]).frame_count() > 0 && (
        #[trigger] memory_map[j]).frame_count() > 0 ==> memory_map[i].end <= memory_map[j].start
            || memory_map[j].end <= memory_map[i].start
}

/// The index of the region that the frame at position `at` of the map's
/// frames is taken from.
pub open spec fn region_of_frame(memory_map: Seq<PhysicalRegion>, at: int) -> int
    decreases memory_map.len(),
{
    if memory_map.len() == 0 {
        0
    } else if at >= usable_frames(memory_map.drop_last()).len() {
        memory_map.len() - 1
    } else {
        region_of_frame(memory_map.drop_last(), at)
    }
}

/// Each frame of a map is a frame of one of its regions: the one at position
/// `at` is frame `k` of region `region_of_frame(memory_map, at)`, where `k`
/// counts from the first frame of that region.
pub proof fn lemma_frame_has_region(memory_map: Seq<PhysicalRegion>, at: int)
    requires
        0 <= at < usable_frames(memory_map).len(),
    ensures
        ({
            let i = region_of_frame(memory_map, at);
            let k = at - usable_frames(memory_map.take(i)).len();
            &&& 0 <= i < memory_map.len()
            &&& 0 <= k < memory_map[i].frame_count()
            &&& usable_frames(memory_map)[at] == memory_map[i].frame(k)
        }),
    decreases memory_map.len(),
{
    let shorter = memory_map.drop_last();
    if at >= usable_frames(shorter).len() {
        assert(memory_map.take(memory_map.len() - 1) =~= shorter);
    } else {
        lemma_frame_has_region(shorter, at);
        let i = region_of_frame(shorter, at);
        assert(shorter.take(i) =~= memory_map.take(i));
    }
}

/// The frames of a consistent memory map are aligned to 4 KiB, lie inside
/// usable regions of the map, and are pairwise distinct. So whatever number of
/// frames an allocator over such a map has handed out, no two of them are the
/// same.
pub proof fn lemma_frames_distinct_aligned_inside(memory_map: Seq<PhysicalRegion>)
    requires
        map_consistent(memory_map),
    ensures
        forall|a: int|
            0 <= a < usable_frames(memory_map).len() ==> #[trigger] usable_frames(memory_map)[a]
                % PAGE_SIZE == 0,
        forall|a: int|
            0 <= a < usable_frames(memory_map).len() ==> frame_inside_usable_region(
                memory_map,
                #[trigger] usable_frames(memory_map)[a],
            ),
        forall|a: int, b: int|
            0 <= a < b < usable_frames(memory_map).len() ==> #[trigger] usable_frames(
                memory_map,
            )[a] != #[trigger] usable_frames(memory_map)[b],
{
    let frames = usable_frames(memory_map);
    assert forall|a: int| 0 <= a < frames.len() implies #[trigger] frames[a] % PAGE_SIZE == 0
        && frame_inside_usable_region(memory_map, frames[a]) by {
        lemma_frame_in_its_region(memory_map, a);
    }
    assert forall|a: int, b: int| 0 <= a < b < frames.len() implies #[trigger] frames[a]
        != #[trigger] frames[b] by {
        lemma_frame_in_its_region(memory_map, a);
        lemma_frame_in_its_region(memory_map, b);
    }
}

/// Whether `frame` is an address of a usable region of the map.
pub open spec fn frame_inside_usable_region(memory_map: Seq<PhysicalRegion>, frame: u64) -> bool {
    exists|i: int|
        0 <= i < memory_map.len() && (#[trigger] memory_map[i]).is_usable() && memory_map[i].start
            <= frame < memory_map[i].end
}

/// In a consistent map, frame `k` of a region is `start + 4096 * k`, which is
/// aligned and lies in the region.
proof fn lemma_frame_in_its_region(memory_map: Seq<PhysicalRegion>, at: int)
    requires
        map_consistent(memory_map),
        0 <= at < usable_frames(memory_map).len(),
    ensures
        ({
            let i = region_of_frame(memory_map, at);
            let k = at - usable_frames(memory_map.take(i)).len();
            &&& 0 <= i < memory_map.len()
            &&& 0 <= k < memory_map[i].frame_count()
            &&& usable_frames(memory_map)[at] == memory_map[i].start + PAGE_SIZE * k
            &&& memory_map[i].start <= usable_frames(memory_map)[at] < memory_map[i].end
        }),
        usable_frames(memory_map)[at] % PAGE_SIZE == 0,
        frame_inside_usable_region(memory_map, usable_frames(memory_map)[at]),
{
    lemma_frame_has_region(memory_map, at);
}

} // verus!
