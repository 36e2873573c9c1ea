//! Identity paging of the TD memory: the regions that the shim maps, with
//! the shared bit on the DMA region and execute-disable on everything
//! above it, plus the execute-disable capability and EFER computations.

use vstd::prelude::*;
use x86_64::structures::paging::PageTableFlags;

verus! {

/// CPUID leaf that reports the highest extended function.
pub const EXTENDED_FUNCTION_INFO: u32 = 0x80000000;

/// CPUID leaf with the extended processor feature bits.
pub const EXTENDED_PROCESSOR_INFO: u32 = 0x80000001;

/// EDX bit 20 of the extended processor leaf: execute-disable available.
pub const EXECUTE_DISABLE_CPUID_BIT: u32 = 0x00100000;

/// The extended feature enable register (IA32_EFER).
pub const EFER_MSR: u32 = 0xC0000080;

/// EFER bit 11 (NXE): enables the execute-disable bit in page tables.
pub const EFER_NXE: u64 = 0x800;

/// Page-table entry bit: present.
pub const PRESENT: u64 = 1;

/// Page-table entry bit: writable.
pub const WRITABLE: u64 = 2;

/// Page-table entry bit: no execute.
pub const NO_EXECUTE: u64 = 0x8000_0000_0000_0000;

/// `PageTableFlags::PRESENT.bits()` of the `x86_64` crate: bit 0.
#[verifier::external_body]
fn present_bits() -> (bits: u64)
    ensures
        bits == PRESENT,
{
    PageTableFlags::PRESENT.bits()
}

/// `PageTableFlags::WRITABLE.bits()` of the `x86_64` crate: bit 1.
#[verifier::external_body]
fn writable_bits() -> (bits: u64)
    ensures
        bits == WRITABLE,
{
    PageTableFlags::WRITABLE.bits()
}

/// `PageTableFlags::NO_EXECUTE.bits()` of the `x86_64` crate: bit 63.
#[verifier::external_body]
fn no_execute_bits() -> (bits: u64)
    ensures
        bits == NO_EXECUTE,
{
    PageTableFlags::NO_EXECUTE.bits()
}

/// The addresses of the TD payload's runtime memory that the page tables
/// are built around.
#[derive(Clone, Copy, Debug, PartialEq, Eq)]
pub struct RuntimeLayout {
    /// Start of the memory shared with the host for DMA.
    pub runtime_dma_base: u64,
    /// Start of the payload heap (end of the DMA region).
    pub runtime_heap_base: u64,
    /// Start of the event log.
    pub runtime_event_log_base: u64,
    /// Size of the event log, which ends the runtime memory.
    pub runtime_event_log_size: u64,
}

/// One identity mapping to install: `size` bytes from `phys`, seen at
/// `virt`, with explicit entry flags, or with the mapper's default flags
/// when `flags` is `None`.
#[derive(Clone, Copy, Debug, PartialEq, Eq)]
pub struct PageMapping {
    pub phys: u64,
    pub virt: u64,
    pub size: u64,
    pub flags: Option<u64>,
}

/// End of the runtime memory: the end of the event log.
pub open spec fn runtime_memory_top(layout: RuntimeLayout) -> int {
    layout.runtime_event_log_base + layout.runtime_event_log_size
}

/// The layout and memory size describe ordered regions: DMA below heap,
/// heap below the end of the event log, that end below the memory size.
pub open spec fn layout_ordered(layout: RuntimeLayout, memory_size: u64) -> bool {
    &&& layout.runtime_dma_base <= layout.runtime_heap_base
    &&& layout.runtime_heap_base <= runtime_memory_top(layout)
    &&& runtime_memory_top(layout) <= memory_size
}

/// Flags of the DMA region: present, writable, shared with the host,
/// not executable.
pub open spec fn shared_region_flags(shared_page_flag: u64) -> u64 {
    PRESENT | WRITABLE | NO_EXECUTE | shared_page_flag
}

/// Flags from the heap up to the end of the runtime memory: present,
/// writable, not executable.
pub open spec fn private_no_execute_flags() -> u64 {
    PRESENT | WRITABLE | NO_EXECUTE
}

/// The mappings that set up paging, in the order in which they are made:
/// everything below the DMA region with default flags, the DMA region
/// shared and not executable, the heap up to the end of the event log not
/// executable, and the rest of memory with default flags.
pub open spec fn paging_plan(layout: RuntimeLayout, memory_size: u64, shared_page_flag: u64) -> Seq<
    PageMapping,
> {
    let dma = layout.runtime_dma_base;
    let heap = layout.runtime_heap_base;
    let top = runtime_memory_top(layout) as u64;
    seq![
        PageMapping { phys: 0, virt: 0, size: dma, flags: None },
        PageMapping {
            phys: dma,
            virt: dma,
            size: (heap - dma) as u64,
            flags: Some(shared_region_flags(shared_page_flag)),
        },
        PageMapping {
            phys: heap,
            virt: heap,
            size: (top - heap) as u64,
            flags: Some(private_no_execute_flags()),
        },
        PageMapping { phys: top, virt: top, size: (memory_size - top) as u64, flags: None },
    ]
}

/// The TD's memory: its runtime layout and total size.
pub struct Memory {
    layout: RuntimeLayout,
    memory_size: u64,
}

impl Memory {
    pub closed spec fn layout(&self) -> RuntimeLayout {
        self.layout
    }

    pub closed spec fn memory_size(&self) -> u64 {
        self.memory_size
    }

    pub fn new(layout: &RuntimeLayout, memory_size: u64) -> (memory: Memory)
        ensures
            memory.layout() == *layout,
            memory.memory_size() == memory_size,
    {
        Memory { layout: *layout, memory_size }
    }

    /// The identity mappings that set up paging, given the shared-page bit
    /// of the TD. The regions must be in order (DMA, heap, end of the event
    /// log, end of memory) and the event log must end below `u64::MAX`.
    pub fn setup_paging(&self, shared_page_flag: u64) -> (mappings: Vec<PageMapping>)
        requires
            runtime_memory_top(self.layout()) <= u64::MAX,
            layout_ordered(self.layout(), self.memory_size()),
        ensures
            mappings@ == paging_plan(self.layout(), self.memory_size(), shared_page_flag),
            mappings@.len() == 4,
            // Memory below the DMA region: identity, default (private) flags.
            mappings@[0].phys == 0,
            mappings@[0].virt == 0,
            mappings@[0].size == self.layout().runtime_dma_base,
            mappings@[0].flags == None::<u64>,
            // The DMA region: present, writable, no-execute and the shared bits.
            mappings@[1].phys == self.layout().runtime_dma_base,
            mappings@[1].virt == self.layout().runtime_dma_base,
            mappings@[1].size == self.layout().runtime_heap_base - self.layout().runtime_dma_base,
            mappings@[1].flags == Some(0x8000_0000_0000_0003u64 | shared_page_flag),
            mappings@[1].flags.unwrap() & shared_page_flag == shared_page_flag,
            // Heap up to the end of the event log: present, writable, no-execute.
            mappings@[2].phys == self.layout().runtime_heap_base,
            mappings@[2].virt == self.layout().runtime_heap_base,
            mappings@[2].size == self.layout().runtime_event_log_base
                + self.layout().runtime_event_log_size - self.layout().runtime_heap_base,
            mappings@[2].flags == Some(0x8000_0000_0000_0003u64),
            // The rest of memory: identity, default (private) flags.
            mappings@[3].phys == self.layout().runtime_event_log_base
                + self.layout().runtime_event_log_size,
            mappings@[3].virt == mappings@[3].phys,
            mappings@[3].size == self.memory_size() - (self.layout().runtime_event_log_base
                + self.layout().runtime_event_log_size),
            mappings@[3].flags == None::<u64>,
    {
        let flags = present_bits() | writable_bits();
        let with_s_flags = flags | shared_page_flag;
        let with_nx_flags = flags | no_execute_bits();
        let shared_flags = with_s_flags | with_nx_flags;
        assert(shared_flags == shared_region_flags(shared_page_flag)) by (bit_vector)
            requires
                shared_flags == ((1u64 | 2u64) | shared_page_flag) | ((1u64 | 2u64)
                    | 0x8000_0000_0000_0000u64),
                shared_region_flags(shared_page_flag) == 1u64 | 2u64 | 0x8000_0000_0000_0000u64
                    | shared_page_flag,
        ;
        let layout = &self.layout;
        let mut mappings: Vec<PageMapping> = Vec::new();
        mappings.push(
            PageMapping { phys: 0, virt: 0, size: layout.runtime_dma_base - 0, flags: None },
        );
        mappings.push(
            PageMapping {
                phys: layout.runtime_dma_base,
                virt: layout.runtime_dma_base,
                size: layout.runtime_heap_base - layout.runtime_dma_base,
                flags: Some(shared_flags),
            },
        );
        let runtime_memory_top = layout.runtime_event_log_base + layout.runtime_event_log_size;
        mappings.push(
            PageMapping {
                phys: layout.runtime_heap_base,
                virt: layout.runtime_heap_base,
                size: runtime_memory_top - layout.runtime_heap_base,
                flags: Some(with_nx_flags),
            },
        );
        mappings.push(
            PageMapping {
                phys: runtime_memory_top,
                virt: runtime_memory_top,
                size: self.memory_size - runtime_memory_top,
                flags: None,
            },
        );
        assert(mappings@ =~= paging_plan(self.layout, self.memory_size, shared_page_flag));
        proof {
            lemma_region_flag_values(shared_page_flag);
        }
        mappings
    }
}

/// The flag words of the plan as numbers: the DMA region's word is
/// `0x8000_0000_0000_0003` with the shared bits added (and it contains them),
/// and the heap region's word is `0x8000_0000_0000_0003`.
pub proof fn lemma_region_flag_values(shared_page_flag: u64)
    ensures
        shared_region_flags(shared_page_flag) == 0x8000_0000_0000_0003u64 | shared_page_flag,
        shared_region_flags(shared_page_flag) & shared_page_flag == shared_page_flag,
        shared_region_flags(shared_page_flag) & 0x8000_0000_0000_0003u64
            == 0x8000_0000_0000_0003u64,
        private_no_execute_flags() == 0x8000_0000_0000_0003u64,
{
    assert(1u64 | 2u64 | 0x8000_0000_0000_0000u64 | shared_page_flag == 0x8000_0000_0000_0003u64
        | shared_page_flag) by (bit_vector);
    assert((0x8000_0000_0000_0003u64 | shared_page_flag) & shared_page_flag == shared_page_flag)
        by (bit_vector);
    assert((0x8000_0000_0000_0003u64 | shared_page_flag) & 0x8000_0000_0000_0003u64
        == 0x8000_0000_0000_0003u64) by (bit_vector);
    assert(1u64 | 2u64 | 0x8000_0000_0000_0000u64 == 0x8000_0000_0000_0003u64) by (bit_vector);
}

/// The paging plan maps every address below the memory size exactly once
/// and to itself: the regions are identity mappings, each starts where the
/// previous one ends, the first starts at 0 and the last ends at the memory
/// size. Only the DMA region carries the shared bits (its flags are
/// present, writable, no-execute and exactly the given shared bits added);
/// memory below the DMA region and above the runtime memory top keeps the
/// mapper's default flags, and the heap up to the end of the event log is
/// present, writable and not executable.
pub proof fn lemma_paging_plan_covers_memory(
    layout: RuntimeLayout,
    memory_size: u64,
    shared_page_flag: u64,
)
    requires
        runtime_memory_top(layout) <= u64::MAX,
        layout_ordered(layout, memory_size),
    ensures
        ({
            let plan = paging_plan(layout, memory_size, shared_page_flag);
            &&& plan.len() == 4
            &&& forall|k: int| 0 <= k < plan.len() ==> #[trigger] plan[k].phys == plan[k].virt
            &&& plan[0].phys == 0
            &&& forall|k: int|
                0 <= k < plan.len() - 1 ==> #[trigger] plan[k + 1].phys == plan[k].phys
                    + plan[k].size
            &&& plan[3].phys + plan[3].size == memory_size
            &&& plan[1].phys == layout.runtime_dma_base
            &&& plan[1].phys + plan[1].size == layout.runtime_heap_base
            &&& plan[1].flags == Some(shared_region_flags(shared_page_flag))
            &&& plan[2].flags == Some(private_no_execute_flags())
            &&& plan[2].phys + plan[2].size == runtime_memory_top(layout)
            &&& forall|k: int|
                1 <= k <= 2 ==> (#[trigger] plan[k].flags).unwrap() & NO_EXECUTE == NO_EXECUTE
            &&& plan[0].flags == None::<u64>
            &&& plan[3].flags == None::<u64>
            &&& plan[1].flags == Some(0x8000_0000_0000_0003u64 | shared_page_flag)
            &&& plan[1].flags.unwrap() & shared_page_flag == shared_page_flag
            &&& plan[2].flags == Some(0x8000_0000_0000_0003u64)
            &&& plan[0].size == layout.runtime_dma_base
            &&& plan[2].phys == layout.runtime_heap_base
            &&& plan[3].phys == layout.runtime_event_log_base + layout.runtime_event_log_size
        }),
{
    lemma_region_flag_values(shared_page_flag);
    assert(shared_region_flags(shared_page_flag) & NO_EXECUTE == NO_EXECUTE) by (bit_vector);
    assert(private_no_execute_flags() & NO_EXECUTE == NO_EXECUTE) by (bit_vector);
}

/// Whether the processor can use the execute-disable bit, from the highest
/// extended CPUID leaf and, when that leaf exists, the EDX of the extended
/// processor leaf.
pub fn is_execute_disable_bit_available(
    max_extended_leaf: u32,
    extended_processor_edx: u32,
) -> (available: bool)
    ensures
        available == (max_extended_leaf >= EXTENDED_PROCESSOR_INFO && extended_processor_edx
            & EXECUTE_DISABLE_CPUID_BIT != 0),
        available == (max_extended_leaf >= 0x8000_0001 && extended_processor_edx & 0x0010_0000
            != 0),
{
    if max_extended_leaf >= EXTENDED_PROCESSOR_INFO {
        if (extended_processor_edx & EXECUTE_DISABLE_CPUID_BIT) != 0 {
            return true;
        }
    }
    false
}

/// The EFER value that enables the execute-disable bit: NXE set, every
/// other bit as read.
pub fn enable_execute_disable_bit(efer: u64) -> (updated: u64)
    ensures
        updated == efer | EFER_NXE,
        updated == efer | 0x800,
        updated & EFER_NXE == EFER_NXE,
        updated & !EFER_NXE == efer & !EFER_NXE,
{
    let updated = efer | EFER_NXE;
    assert(updated & 0x800u64 == 0x800u64 && updated & !0x800u64 == efer & !0x800u64)
        by (bit_vector)
        requires
            updated == efer | 0x800u64,
    ;
    updated
}

} // verus!
