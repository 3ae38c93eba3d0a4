//! Physical frame allocation from the boot memory map.

use vstd::prelude::*;

verus! {

/// Size in bytes of a physical frame and of a virtual page.
pub const PAGE_SIZE: u64 = 4096;

/// Physical addresses are 52 bits wide; every address below this limit is valid.
pub const PHYS_ADDR_LIMIT: u64 = 0x10_0000_0000_0000;

/// What the firmware says a region of physical memory is used for.
#[derive(Debug, Clone, Copy, PartialEq, Eq, Structural)]
pub enum MemoryRegionType {
    Usable,
    InUse,
    Reserved,
    AcpiReclaimable,
    AcpiNvs,
    BadMemory,
    Kernel,
    KernelStack,
    PageTable,
    Bootloader,
    FrameZero,
    Empty,
    BootInfo,
    Package,
}

/// One entry of the boot memory map: the half-open address range
/// `start_addr..end_addr` and its classification.
#[derive(Debug, Clone, Copy, PartialEq, Eq, Structural)]
pub struct MemoryRegion {
    pub start_addr: u64,
    pub end_addr: u64,
    pub region_type: MemoryRegionType,
}

/// A 4 KiB physical frame, named by the address of its first byte.
#[derive(Debug, Clone, Copy, PartialEq, Eq, Structural)]
pub struct PhysFrame {
    pub start_address: u64,
}

/// The start of the frame that holds `addr`.
pub open spec fn align_down(addr: int) -> int {
    addr - addr % 4096
}

impl PhysFrame {
    /// The frame that holds the physical address `addr`.
    pub fn containing_address(addr: u64) -> (r: PhysFrame)
        requires
            addr < PHYS_ADDR_LIMIT,
        ensures
            r.start_address == align_down(addr as int),
            r.start_address % 4096 == 0,
            r.start_address <= addr < r.start_address + 4096,
    {
        PhysFrame { start_address: addr - addr % PAGE_SIZE }
    }
}

/// Number of frames a region contributes: one per 4096-byte step from its
/// start that stays below its end, and none unless the region is usable.
pub open spec fn region_frame_count(r: MemoryRegion) -> nat {
    if r.region_type == MemoryRegionType::Usable && r.start_addr < r.end_addr {
        ((r.end_addr - r.start_addr + 4095) / 4096) as nat
    } else {
        0
    }
}

/// The frames of one region, in ascending order.
pub open spec fn region_frames(r: MemoryRegion) -> Seq<int> {
    Seq::new(region_frame_count(r), |i: int| align_down(r.start_addr + 4096 * i))
}

/// Start addresses of all usable frames of a memory map, in map order.
pub open spec fn usable_frames(map: Seq<MemoryRegion>) -> Seq<int>
    decreases map.len(),
{
    if map.len() == 0 {
        Seq::empty()
    } else {
        usable_frames(map.drop_last()) + region_frames(map.last())
    }
}

/// A map is valid when every usable, non-empty region ends within the
/// physical address space.
pub open spec fn valid_memory_map(map: Seq<MemoryRegion>) -> bool {
    forall|i: int|
        0 <= i < map.len() && region_frame_count(#[trigger] map[i]) > 0 ==> map[i].end_addr
            <= PHYS_ADDR_LIMIT
}

/// What the call made with the cursor at `n` hands out: the `n`-th usable
/// frame, or nothing once the usable frames are used up.
pub open spec fn frame_at(map: Seq<MemoryRegion>, n: nat) -> Option<PhysFrame> {
    if n < usable_frames(map).len() {
        Some(PhysFrame { start_address: usable_frames(map)[n as int] as u64 })
    } else {
        None
    }
}

/// The results of `count` successive allocations that begin with the cursor at `from`.
pub open spec fn allocations(map: Seq<MemoryRegion>, from: nat, count: nat) -> Seq<
    Option<PhysFrame>,
> {
    Seq::new(count, |k: int| frame_at(map, (from + k) as nat))
}

/// The usable frames of a prefix of the map are a prefix of the usable frames of the map.
pub proof fn lemma_usable_frames_prefix(map: Seq<MemoryRegion>, i: int)
    requires
        0 <= i <= map.len(),
    ensures
        usable_frames(map.take(i)).len() <= usable_frames(map).len(),
        usable_frames(map.take(i)) =~= usable_frames(map).take(
            usable_frames(map.take(i)).len() as int,
        ),
    decreases map.len() - i,
{
    if i == map.len() {
        assert(map.take(i) =~= map);
    } else {
        lemma_usable_frames_prefix(map, i + 1);
        assert(map.take(i + 1).drop_last() =~= map.take(i));
    }
}

/// Every usable frame of a valid map is page-aligned and a valid physical address.
pub proof fn lemma_usable_frames_in_range(map: Seq<MemoryRegion>, k: int)
    requires
        valid_memory_map(map),
        0 <= k < usable_frames(map).len(),
    ensures
        0 <= usable_frames(map)[k] < PHYS_ADDR_LIMIT,
        usable_frames(map)[k] % 4096 == 0,
    decreases map.len(),
{
    let head = usable_frames(map.drop_last());
    if k < head.len() {
        assert forall|i: int|
            0 <= i < map.drop_last().len() && region_frame_count(
                #[trigger] map.drop_last()[i],
            ) > 0 implies map.drop_last()[i].end_addr <= PHYS_ADDR_LIMIT by {
            assert(map.drop_last()[i] == map[i]);
        }
        assert(usable_frames(map)[k] == usable_frames(map.drop_last())[k]);
        lemma_usable_frames_in_range(map.drop_last(), k);
    } else {
        let r = map.last();
        let j = k - head.len();
        assert(usable_frames(map)[k] == region_frames(r)[j]);
        assert(region_frame_count(r) > 0);
        assert(map[map.len() - 1] == r);
        lemma_region_frame_bounds(r, j);
    }
}

/// The `j`-th step through a region stays inside it.
pub proof fn lemma_region_frame_bounds(r: MemoryRegion, j: int)
    requires
        0 <= j < region_frame_count(r),
    ensures
        r.start_addr + 4096 * j < r.end_addr,
        region_frames(r)[j] == align_down(r.start_addr + 4096 * j),
        0 <= region_frames(r)[j] <= r.start_addr + 4096 * j,
        region_frames(r)[j] % 4096 == 0,
{
    let len = r.end_addr - r.start_addr;
    assert(4096 * j < len) by (nonlinear_arith)
        requires
            0 <= j < (len + 4095) / 4096,
            len > 0,
    ;
    let a = r.start_addr + 4096 * j;
    assert((a - a % 4096) % 4096 == 0) by (nonlinear_arith)
        requires
            a >= 0,
    ;
}

/// Hands out the usable frames of a boot memory map, one after the other,
/// and never takes one back.
pub struct BootInfoFrameAllocator {
    memory_map: Vec<MemoryRegion>,
    next: usize,
}

impl BootInfoFrameAllocator {
    /// The memory map the allocator reads.
    pub closed spec fn memory_map(&self) -> Seq<MemoryRegion> {
        self.memory_map@
    }

    /// How many allocations have been made so far.
    pub closed spec fn cursor(&self) -> nat {
        self.next as nat
    }

    /// The allocator only ever works on a valid memory map.
    pub open spec fn wf(&self) -> bool {
        valid_memory_map(self.memory_map())
    }

    /// Whether `memory_map` is one an allocator can be created over.
    pub fn is_valid_memory_map(memory_map: &Vec<MemoryRegion>) -> (r: bool)
        ensures
            r == valid_memory_map(memory_map@),
    {
        let mut i: usize = 0;
        while i < memory_map.len()
            invariant
                0 <= i <= memory_map.len(),
                valid_memory_map(memory_map@.take(i as int)),
            decreases memory_map.len() - i,
        {
            let region = memory_map[i];
            if region.region_type == MemoryRegionType::Usable && region.start_addr
                < region.end_addr && region.end_addr > PHYS_ADDR_LIMIT {
                assert(region_frame_count(memory_map@[i as int]) > 0);
                return false;
            }
            assert forall|j: int|
                0 <= j < i + 1 && region_frame_count(
                    #[trigger] memory_map@.take(i + 1)[j],
                ) > 0 implies memory_map@.take(i + 1)[j].end_addr <= PHYS_ADDR_LIMIT by {
                if j < i {
                    assert(memory_map@.take(i as int)[j] == memory_map@.take(i + 1)[j]);
                }
            }
            i = i + 1;
        }
        assert(memory_map@.take(i as int) =~= memory_map@);
        true
    }

    /// Creates an allocator over `memory_map` that has handed out nothing yet.
    pub fn init(memory_map: Vec<MemoryRegion>) -> (r: Self)
        requires
            valid_memory_map(memory_map@),
        ensures
            r.wf(),
            r.memory_map() == memory_map@,
            r.cursor() == 0,
    {
        BootInfoFrameAllocator { memory_map, next: 0 }
    }

    /// Number of allocations made so far, successful or not.
    pub fn allocated(&self) -> (r: usize)
        ensures
            r == self.cursor(),
    {
        self.next
    }

    /// The frame at position `n` of the usable frames, if there is one.
    pub fn usable_frame(&self, n: usize) -> (r: Option<PhysFrame>)
        requires
            self.wf(),
        ensures
            r == frame_at(self.memory_map(), n as nat),
            r matches Some(f) ==> f.start_address % 4096 == 0 && f.start_address
                < PHYS_ADDR_LIMIT,
    {
        let ghost map = self.memory_map@;
        let mut remaining: u64 = n as u64;
        let mut i: usize = 0;
        while i < self.memory_map.len()
            invariant
                0 <= i <= map.len(),
                map == self.memory_map@,
                valid_memory_map(map),
                usable_frames(map.take(i as int)).len() + remaining == n,
            decreases map.len() - i,
        {
            let region = self.memory_map[i];
            proof {
                assert(map.take(i + 1).drop_last() =~= map.take(i as int));
                assert(map.take(i + 1).last() == region);
                lemma_usable_frames_prefix(map, i + 1);
            }
            if region.region_type == MemoryRegionType::Usable && region.start_addr
                < region.end_addr {
                let count: u64 = (region.end_addr - region.start_addr - 1) / PAGE_SIZE + 1;
                assert(count == region_frame_count(region));
                if remaining < count {
                    proof {
                        lemma_region_frame_bounds(region, remaining as int);
                        let prefix = usable_frames(map.take(i + 1));
                        assert(prefix[n as int] == region_frames(region)[remaining as int]);
                        assert(usable_frames(map).take(prefix.len() as int)[n as int]
                            == usable_frames(map)[n as int]);
                    }
                    let addr: u64 = region.start_addr + PAGE_SIZE * remaining;
                    return Some(PhysFrame::containing_address(addr));
                }
                remaining = remaining - count;
            }
            i = i + 1;
        }
        proof {
            assert(map.take(i as int) =~= map);
        }
        None
    }

    /// Hands out the next usable frame and advances the cursor, whether or
    /// not a frame was left.
    pub fn allocate_frame(&mut self) -> (r: Option<PhysFrame>)
        requires
            old(self).wf(),
            old(self).cursor() < usize::MAX,
        ensures
            final(self).wf(),
            final(self).memory_map() == old(self).memory_map(),
            final(self).cursor() == old(self).cursor() + 1,
            r == frame_at(old(self).memory_map(), old(self).cursor()),
            r matches Some(f) ==> f.start_address % 4096 == 0 && f.start_address
                < PHYS_ADDR_LIMIT,
    {
        let frame = self.usable_frame(self.next);
        self.next = self.next + 1;
        frame
    }
}

/// From a fresh allocator, as long as usable frames are left, successive
/// allocations hand out the usable frames in map order, one position each.
pub proof fn lemma_allocations_follow_usable_frames(map: Seq<MemoryRegion>, n: nat)
    requires
        valid_memory_map(map),
        n <= usable_frames(map).len(),
    ensures
        allocations(map, 0, n).len() == n,
        forall|k: int|
            0 <= k < n ==> (#[trigger] allocations(map, 0, n)[k]) == Some(
                PhysFrame { start_address: usable_frames(map)[k] as u64 },
            ),
        forall|k: int| 0 <= k < n ==> 0 <= #[trigger] usable_frames(map)[k] <= u64::MAX,
{
    assert forall|k: int| 0 <= k < n implies 0 <= #[trigger] usable_frames(map)[k]
        <= u64::MAX by {
        lemma_usable_frames_in_range(map, k);
    }
}

/// Once the cursor has passed the last usable frame, every allocation fails.
pub proof fn lemma_exhausted_allocations_fail(map: Seq<MemoryRegion>, from: nat, count: nat)
    requires
        from >= usable_frames(map).len(),
    ensures
        forall|k: int| 0 <= k < count ==> (#[trigger] allocations(map, from, count)[k]) is None,
{
}

/// The regions that give frames start page-aligned and lie one after the
/// other in the map, none reaching into the next.
pub open spec fn usable_regions_ascend(map: Seq<MemoryRegion>) -> bool {
    &&& forall|i: int|
        0 <= i < map.len() && region_frame_count(#[trigger] map[i]) > 0 ==> map[i].start_addr
            % 4096 == 0
    &&& forall|i: int, j: int|
        0 <= i < j < map.len() && region_frame_count(#[trigger] map[i]) > 0
            && region_frame_count(#[trigger] map[j]) > 0 ==> map[i].end_addr
            <= map[j].start_addr
}

/// Each usable frame lies inside a region of the map that gives frames.
proof fn lemma_frame_within_region(map: Seq<MemoryRegion>, k: int) -> (i: int)
    requires
        usable_regions_ascend(map),
        0 <= k < usable_frames(map).len(),
    ensures
        0 <= i < map.len(),
        region_frame_count(map[i]) > 0,
        map[i].start_addr <= usable_frames(map)[k] < map[i].end_addr,
    decreases map.len(),
{
    let front = map.drop_last();
    let head = usable_frames(front);
    if k < head.len() {
        assert(usable_regions_ascend(front)) by {
            assert forall|i: int| 0 <= i < front.len() implies front[i] == map[i] by {}
        }
        let i = lemma_frame_within_region(front, k);
        assert(front[i] == map[i]);
        i
    } else {
        let r = map.last();
        let j = k - head.len();
        assert(usable_frames(map)[k] == region_frames(r)[j]);
        assert(map[map.len() - 1] == r);
        lemma_region_frame_bounds(r, j);
        let a = r.start_addr + 4096 * j;
        assert(a % 4096 == 0) by (nonlinear_arith)
            requires
                r.start_addr % 4096 == 0,
                a == r.start_addr + 4096 * j,
        ;
        map.len() - 1
    }
}

/// In a map whose usable regions ascend, the usable frames ascend too: no
/// frame is handed out twice.
pub proof fn lemma_usable_frames_ascend(map: Seq<MemoryRegion>, a: int, b: int)
    requires
        usable_regions_ascend(map),
        0 <= a < b < usable_frames(map).len(),
    ensures
        usable_frames(map)[a] < usable_frames(map)[b],
    decreases map.len(),
{
    let front = map.drop_last();
    let head = usable_frames(front);
    let r = map.last();
    assert(map[map.len() - 1] == r);
    if a < head.len() {
        assert(usable_regions_ascend(front)) by {
            assert forall|i: int| 0 <= i < front.len() implies front[i] == map[i] by {}
        }
        if b < head.len() {
            lemma_usable_frames_ascend(front, a, b);
        } else {
            let i = lemma_frame_within_region(front, a);
            assert(front[i] == map[i]);
            let j = b - head.len();
            assert(usable_frames(map)[b] == region_frames(r)[j]);
            lemma_region_frame_bounds(r, j);
            let addr = r.start_addr + 4096 * j;
            assert(addr % 4096 == 0) by (nonlinear_arith)
                requires
                    r.start_addr % 4096 == 0,
                    addr == r.start_addr + 4096 * j,
            ;
        }
    } else {
        let ja = a - head.len();
        let jb = b - head.len();
        assert(usable_frames(map)[a] == region_frames(r)[ja]);
        assert(usable_frames(map)[b] == region_frames(r)[jb]);
        lemma_region_frame_bounds(r, ja);
        lemma_region_frame_bounds(r, jb);
        let xa = r.start_addr + 4096 * ja;
        let xb = r.start_addr + 4096 * jb;
        assert(xa % 4096 == 0 && xb % 4096 == 0) by (nonlinear_arith)
            requires
                r.start_addr % 4096 == 0,
                xa == r.start_addr + 4096 * ja,
                xb == r.start_addr + 4096 * jb,
        ;
    }
}

/// Virtual addresses below this limit form the lower canonical half.
pub const VIRT_ADDR_LIMIT: u64 = 0x8000_0000_0000;

/// Where the region that stacks are carved from begins.
pub const STACK_REGION_START: u64 = 0x5555_5555_0000;

/// Page-table flag bit: the entry is present.
pub const PRESENT: u64 = 1;

/// Page-table flag bit: the page may be written.
pub const WRITABLE: u64 = 2;

/// A 4 KiB virtual page, named by the address of its first byte.
#[derive(Debug, Clone, Copy, PartialEq, Eq, Structural)]
pub struct Page {
    pub start_address: u64,
}

/// The flag bits of a page-table entry.
#[derive(Debug, Clone, Copy, PartialEq, Eq, Structural)]
pub struct PageTableFlags {
    pub bits: u64,
}

/// One translation to enter in the page table: `page` is to lead to
/// `frame`, with `flags`.
#[derive(Debug, Clone, Copy, PartialEq, Eq, Structural)]
pub struct Mapping {
    pub page: Page,
    pub frame: PhysFrame,
    pub flags: PageTableFlags,
}

/// The physical address of the text screen's buffer.
pub const VGA_BUFFER_ADDR: u64 = 0xb8000;

/// The mapping that lets `page` show the text screen's buffer, present and
/// writable.
pub fn example_mapping(page: Page) -> (r: Mapping)
    ensures
        r == (Mapping {
            page,
            frame: PhysFrame { start_address: VGA_BUFFER_ADDR },
            flags: stack_page_flags(),
        }),
{
    let frame = PhysFrame::containing_address(VGA_BUFFER_ADDR);
    Mapping { page, frame, flags: PageTableFlags { bits: 3 } }
}

/// The flags every stack page is mapped with: present and writable.
pub open spec fn stack_page_flags() -> PageTableFlags {
    PageTableFlags { bits: 3 }
}

/// The stack flags are exactly the present bit together with the writable bit.
pub proof fn lemma_stack_page_flags()
    ensures
        stack_page_flags().bits == PRESENT | WRITABLE,
        stack_page_flags().bits & PRESENT == PRESENT,
        stack_page_flags().bits & WRITABLE == WRITABLE,
{
    assert(3u64 == 1u64 | 2u64) by (bit_vector);
    assert(3u64 & 1u64 == 1u64) by (bit_vector);
    assert(3u64 & 2u64 == 2u64) by (bit_vector);
}

/// Why a page could not be mapped.
#[derive(Debug, Clone, Copy, PartialEq, Eq, Structural)]
pub enum MapError {
    /// No frame was left for the page or for a page table.
    FrameAllocationFailed,
    /// A huge page already covers the address.
    ParentEntryHugePage,
    /// The page is already mapped, to this frame.
    PageAlreadyMapped(PhysFrame),
}

/// The address range of a stack: `start..end`, never empty.
#[derive(Debug, Clone, Copy, PartialEq, Eq)]
pub struct StackBounds {
    start: u64,
    end: u64,
}

impl StackBounds {
    #[verifier::type_invariant]
    spec fn ordered(self) -> bool {
        self.end > self.start
    }

    /// The lowest address of the stack.
    pub closed spec fn start_addr(self) -> u64 {
        self.start
    }

    /// The address just past the stack.
    pub closed spec fn end_addr(self) -> u64 {
        self.end
    }

    /// Bounds of the stack `start..end`, which must not be empty.
    pub fn new(start: u64, end: u64) -> (r: Self)
        requires
            end > start,
        ensures
            r.start_addr() == start,
            r.end_addr() == end,
    {
        StackBounds { start, end }
    }

    pub fn start(&self) -> (r: u64)
        ensures
            r == self.start_addr(),
            r < self.end_addr(),
    {
        proof {
            use_type_invariant(self);
        }
        self.start
    }

    pub fn end(&self) -> (r: u64)
        ensures
            r == self.end_addr(),
            r > self.start_addr(),
    {
        proof {
            use_type_invariant(self);
        }
        self.end
    }
}

/// The cursor from which virtual ranges for stacks are reserved. It only
/// moves up: a range once reserved is never handed out again.
pub struct StackReserver {
    next: u64,
}

impl StackReserver {
    /// The address at which the next reservation begins.
    pub closed spec fn cursor(&self) -> u64 {
        self.next
    }

    /// The cursor is page-aligned and lies in the lower canonical half.
    pub open spec fn wf(&self) -> bool {
        self.cursor() % 4096 == 0 && self.cursor() < VIRT_ADDR_LIMIT
    }

    /// A reserver with its cursor at the start of the stack region.
    pub fn new() -> (r: Self)
        ensures
            r.wf(),
            r.cursor() == STACK_REGION_START,
    {
        StackReserver { next: STACK_REGION_START }
    }

    /// Whether `size_p` pages can still be reserved below the end of the
    /// lower canonical half.
    pub fn can_reserve(&self, size_p: u64) -> (r: bool)
        requires
            self.wf(),
        ensures
            r == (self.cursor() + size_p * 4096 < VIRT_ADDR_LIMIT),
    {
        size_p < (VIRT_ADDR_LIMIT - self.next) / PAGE_SIZE
    }
}

/// Reserves `size_p` pages at the cursor and moves the cursor past them.
/// Returns the first page of the range.
pub fn reserve_stack_mem(reserver: &mut StackReserver, size_p: u64) -> (page: Page)
    requires
        old(reserver).wf(),
        old(reserver).cursor() + size_p * 4096 < VIRT_ADDR_LIMIT,
    ensures
        final(reserver).wf(),
        page.start_address == old(reserver).cursor(),
        final(reserver).cursor() == old(reserver).cursor() + size_p * 4096,
{
    let start: u64 = reserver.next;
    reserver.next = start + size_p * PAGE_SIZE;
    Page { start_address: start }
}

/// What happened to the last step of a stack allocation.
#[derive(Debug, Clone, Copy, PartialEq, Eq, Structural)]
pub enum MapEvent {
    /// Nothing yet: the allocation has just begun.
    Started,
    /// The page asked for was mapped and its translation flushed.
    Mapped,
    /// The page asked for could not be mapped.
    Failed(MapError),
}

/// What a stack allocation asks for next, or how it ended.
#[derive(Debug, Clone, Copy, PartialEq, Eq)]
pub enum StackAction {
    /// Enter the mapping, flush the page's translation, and report back.
    MapPage(Mapping),
    /// Every page is mapped: the stack is ready.
    Done(StackBounds),
    /// The allocation is given up. Pages mapped so far stay mapped.
    Fail(MapError),
}

/// A stack allocation in progress: the reserved range, and how far the
/// mapping of its pages has come.
pub struct StackAllocation {
    guard: u64,
    start: u64,
    end: u64,
    next: u64,
    finished: bool,
}

impl StackAllocation {
    /// The page below the stack, which is never mapped.
    pub closed spec fn guard_page(&self) -> Page {
        Page { start_address: self.guard }
    }

    /// The lowest address of the stack.
    pub closed spec fn stack_start(&self) -> u64 {
        self.start
    }

    /// The address just past the stack.
    pub closed spec fn stack_end(&self) -> u64 {
        self.end
    }

    /// The address of the next page to map.
    pub closed spec fn next_page(&self) -> u64 {
        self.next
    }

    /// Whether the allocation has ended, well or badly.
    pub closed spec fn is_finished(&self) -> bool {
        self.finished
    }

    /// The guard page lies directly below the stack, the stack is not empty,
    /// and the pages up to `next_page` are the ones asked for so far.
    pub open spec fn wf(&self) -> bool {
        &&& self.guard_page().start_address + 4096 == self.stack_start()
        &&& self.stack_start() < self.stack_end() < VIRT_ADDR_LIMIT
        &&& self.stack_start() <= self.next_page() <= self.stack_end()
        &&& self.guard_page().start_address % 4096 == 0
        &&& self.stack_end() % 4096 == 0
        &&& self.next_page() % 4096 == 0
    }

    /// The pages that the allocation has asked to have mapped, in order.
    pub open spec fn requested_pages(&self) -> Seq<Page> {
        Seq::new(
            ((self.next_page() - self.stack_start()) / 4096) as nat,
            |i: int| Page { start_address: (self.stack_start() + 4096 * i) as u64 },
        )
    }

    /// The number of pages of the stack.
    pub open spec fn size_in_pages(&self) -> nat {
        ((self.stack_end() - self.stack_start()) / 4096) as nat
    }

    pub fn finished(&self) -> (r: bool)
        ensures
            r == self.is_finished(),
    {
        self.finished
    }

    /// Advances the allocation by one step. A failed mapping ends it with
    /// that error. Otherwise, when every page has been asked for, it ends
    /// with the bounds of the stack; else it takes a frame for the next page
    /// and asks for the mapping, or ends with `FrameAllocationFailed` when
    /// no frame is left.
    pub fn step(&mut self, event: MapEvent, frame_alloc: &mut BootInfoFrameAllocator) -> (action:
        StackAction)
        requires
            old(self).wf(),
            !old(self).is_finished(),
            old(frame_alloc).wf(),
            old(frame_alloc).cursor() < usize::MAX,
        ensures
            final(self).wf(),
            final(self).guard_page() == old(self).guard_page(),
            final(self).stack_start() == old(self).stack_start(),
            final(self).stack_end() == old(self).stack_end(),
            final(frame_alloc).wf(),
            final(frame_alloc).memory_map() == old(frame_alloc).memory_map(),
            match event {
                MapEvent::Failed(e) => {
                    &&& action == StackAction::Fail(e)
                    &&& final(self).is_finished()
                    &&& final(self).next_page() == old(self).next_page()
                    &&& final(frame_alloc).cursor() == old(frame_alloc).cursor()
                },
                _ => if old(self).next_page() == old(self).stack_end() {
                    &&& action matches StackAction::Done(bounds)
                    &&& bounds.start_addr() == old(self).stack_start()
                    &&& bounds.end_addr() == old(self).stack_end()
                    &&& old(self).requested_pages().len() == old(self).size_in_pages()
                    &&& final(self).is_finished()
                    &&& final(self).next_page() == old(self).next_page()
                    &&& final(frame_alloc).cursor() == old(frame_alloc).cursor()
                } else {
                    &&& final(frame_alloc).cursor() == old(frame_alloc).cursor() + 1
                    &&& match frame_at(old(frame_alloc).memory_map(), old(frame_alloc).cursor()) {
                        Some(frame) => {
                            &&& action == StackAction::MapPage(
                                (Mapping {
                                    page: Page { start_address: old(self).next_page() },
                                    frame,
                                    flags: stack_page_flags(),
                                }),
                            )
                            &&& !final(self).is_finished()
                            &&& final(self).next_page() == old(self).next_page() + 4096
                            &&& final(self).requested_pages() == old(self).requested_pages().push(
                                Page { start_address: old(self).next_page() },
                            )
                        },
                        None => {
                            &&& action == StackAction::Fail(MapError::FrameAllocationFailed)
                            &&& final(self).is_finished()
                            &&& final(self).next_page() == old(self).next_page()
                        },
                    }
                },
            },
    {
        match event {
            MapEvent::Failed(e) => {
                self.finished = true;
                StackAction::Fail(e)
            },
            _ => {
                if self.next == self.end {
                    self.finished = true;
                    StackAction::Done(StackBounds::new(self.start, self.end))
                } else {
                    match frame_alloc.allocate_frame() {
                        Some(frame) => {
                            let page = Page { start_address: self.next };
                            self.next = self.next + PAGE_SIZE;
                            proof {
                                assert(final(self).requested_pages() =~= old(
                                    self,
                                ).requested_pages().push(page));
                            }
                            StackAction::MapPage(
                                Mapping { page, frame, flags: PageTableFlags { bits: 3 } },
                            )
                        },
                        None => {
                            self.finished = true;
                            StackAction::Fail(MapError::FrameAllocationFailed)
                        },
                    }
                }
            },
        }
    }

    /// The pages asked for are the first pages of the stack, in ascending
    /// order; the guard page is never among them; and once the next page is
    /// the end of the stack, they are all the pages of the stack.
    pub proof fn lemma_requested_pages(&self)
        requires
            self.wf(),
        ensures
            self.requested_pages().len() <= self.size_in_pages(),
            self.next_page() == self.stack_end() ==> self.requested_pages().len()
                == self.size_in_pages(),
            forall|i: int|
                0 <= i < self.requested_pages().len() ==> {
                    &&& (#[trigger] self.requested_pages()[i]).start_address
                        == self.stack_start() + 4096 * i
                    &&& self.requested_pages()[i].start_address < self.stack_end()
                    &&& self.requested_pages()[i] != self.guard_page()
                },
    {
    }
}

/// Begins the allocation of a stack of `size_p` pages: reserves the pages
/// and one more below them, the guard page, which stays unmapped. The pages
/// are then mapped step by step, see [`StackAllocation::step`].
pub fn alloc_stack(size_p: u64, reserver: &mut StackReserver) -> (r: StackAllocation)
    requires
        size_p >= 1,
        old(reserver).wf(),
        old(reserver).cursor() + (size_p + 1) * 4096 < VIRT_ADDR_LIMIT,
    ensures
        r.wf(),
        !r.is_finished(),
        r.guard_page().start_address == old(reserver).cursor(),
        r.stack_start() == old(reserver).cursor() + 4096,
        r.stack_end() == r.stack_start() + size_p * 4096,
        r.next_page() == r.stack_start(),
        r.size_in_pages() == size_p,
        r.requested_pages().len() == 0,
        final(reserver).wf(),
        final(reserver).cursor() == r.stack_end(),
{
    let guard_page = reserve_stack_mem(reserver, size_p + 1);
    let start: u64 = guard_page.start_address + PAGE_SIZE;
    let end: u64 = start + size_p * PAGE_SIZE;
    StackAllocation { guard: guard_page.start_address, start, end, next: start, finished: false }
}

} // verus!
