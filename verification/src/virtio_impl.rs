//! DMA memory for the virtio transport: a bitmap allocator of 4 KiB blocks
//! over one contiguous region, and the hooks that the virtio driver calls.

use vstd::prelude::*;
use vstd::arithmetic::power2::pow2;
use crate::bitmap::{
    FreeBitmap, BITMAP_CAPACITY, free_bits, within_capacity, index_range, first_fit,
    after_alloc, lemma_first_fit, bitmap_empty, bitmap_insert, bitmap_alloc,
    bitmap_alloc_contiguous, bitmap_dealloc,
};

verus! {

/// Size in bytes of one DMA block.
pub const BLOCK_SIZE: usize = 4096;

/// Address of block `index` of a region that starts at `base`.
pub open spec fn block_address(base: usize, index: usize) -> int {
    base + index * BLOCK_SIZE
}

/// What a request for `count` blocks aligned to `2^align_log2` blocks
/// returns: the address of the chosen run, or nothing.
pub open spec fn allocated_address(
    base: usize,
    free: Set<usize>,
    count: usize,
    align_log2: usize,
) -> Option<usize> {
    match first_fit(free, count, align_log2) {
        Some(index) => Some(block_address(base, index) as usize),
        None => None,
    }
}

/// The address of the run that would be chosen fits in a `usize`.
pub open spec fn address_fits(base: usize, free: Set<usize>, count: usize, align_log2: usize) -> bool {
    first_fit(free, count, align_log2) matches Some(index) ==> block_address(base, index)
        <= usize::MAX
}

/// Allocator of 4 KiB DMA blocks in a region that starts at `base`.
pub struct DmaAlloc {
    base: usize,
    inner: FreeBitmap,
}

impl DmaAlloc {
    /// Start address of the managed region.
    pub closed spec fn region_base(&self) -> usize {
        self.base
    }

    /// Indices of the blocks that are free.
    pub closed spec fn free_blocks(&self) -> Set<usize> {
        free_bits(self.inner)
    }

    /// Every free block index lies inside the bitmap.
    #[verifier::type_invariant]
    closed spec fn inv(self) -> bool {
        within_capacity(free_bits(self.inner))
    }

    /// Every free block index lies inside the bitmap (holds of every value).
    pub open spec fn wf(&self) -> bool {
        within_capacity(self.free_blocks())
    }

    /// An allocator for the region `base .. base + length`: every whole
    /// block of it is free. The region must hold at least one whole block
    /// and no more blocks than the bitmap has bits.
    pub fn new(base: usize, length: usize) -> (dma: Self)
        requires
            BLOCK_SIZE <= length,
            length / BLOCK_SIZE <= BITMAP_CAPACITY,
        ensures
            dma.wf(),
            dma.region_base() == base,
            dma.free_blocks() == index_range(0, (length / BLOCK_SIZE) as int),
    {
        let blocks = length / BLOCK_SIZE;
        let mut inner = bitmap_empty();
        bitmap_insert(&mut inner, 0, blocks);
        assert(Set::<usize>::empty().union(index_range(0, blocks - 0)) =~= index_range(
            0,
            blocks as int,
        ));
        DmaAlloc { base, inner }
    }

    /// An allocator with base 0 and no free block.
    pub fn empty() -> (dma: Self)
        ensures
            dma.wf(),
            dma.region_base() == 0,
            dma.free_blocks() == Set::<usize>::empty(),
    {
        DmaAlloc { base: 0, inner: bitmap_empty() }
    }

    /// Start address of the managed region.
    pub fn base(&self) -> (base: usize)
        ensures
            base == self.region_base(),
    {
        self.base
    }

    /// Allocates the lowest free block and returns its address, or `None`
    /// when no block is free.
    pub fn alloc_block(&mut self) -> (address: Option<usize>)
        requires
            address_fits(old(self).region_base(), old(self).free_blocks(), 1, 0),
        ensures
            final(self).wf(),
            final(self).region_base() == old(self).region_base(),
            address == allocated_address(old(self).region_base(), old(self).free_blocks(), 1, 0),
            final(self).free_blocks() == after_alloc(old(self).free_blocks(), 1, 0),
    {
        proof {
            use_type_invariant(&*self);
        }
        let index = bitmap_alloc(&mut self.inner);
        proof {
            lemma_after_alloc_within(old(self).free_blocks(), 1, 0);
        }
        match index {
            Some(i) => Some(i * BLOCK_SIZE + self.base),
            None => None,
        }
    }

    /// Allocates the lowest run of `block_count` free blocks whose first
    /// block index is a multiple of `2^align_log2`, and returns the address
    /// of its first block; returns `None` and changes nothing when no such
    /// run exists (always for zero blocks, or an alignment above 2^12 blocks).
    pub fn alloc_contiguous(&mut self, block_count: usize, align_log2: usize) -> (address:
        Option<usize>)
        requires
            address_fits(old(self).region_base(), old(self).free_blocks(), block_count, align_log2),
        ensures
            final(self).wf(),
            final(self).region_base() == old(self).region_base(),
            address == allocated_address(
                old(self).region_base(),
                old(self).free_blocks(),
                block_count,
                align_log2,
            ),
            final(self).free_blocks() == after_alloc(
                old(self).free_blocks(),
                block_count,
                align_log2,
            ),
    {
        proof {
            use_type_invariant(&*self);
        }
        let index = bitmap_alloc_contiguous(&mut self.inner, block_count, align_log2);
        proof {
            lemma_after_alloc_within(old(self).free_blocks(), block_count, align_log2);
        }
        match index {
            Some(i) => Some(i * BLOCK_SIZE + self.base),
            None => None,
        }
    }

    /// Frees the block at `target`, which must lie in the region and inside
    /// the blocks that the bitmap holds.
    pub fn dealloc(&mut self, target: usize)
        requires
            old(self).region_base() <= target,
            (target - old(self).region_base()) / (BLOCK_SIZE as int) < BITMAP_CAPACITY,
        ensures
            final(self).wf(),
            final(self).region_base() == old(self).region_base(),
            final(self).free_blocks() == old(self).free_blocks().insert(
                ((target - old(self).region_base()) / (BLOCK_SIZE as int)) as usize,
            ),
    {
        proof {
            use_type_invariant(&*self);
        }
        let index = (target - self.base) / BLOCK_SIZE;
        let _ = bitmap_dealloc(&mut self.inner, index);
    }

    /// Frees the `block_count` blocks that start at `target`, which must lie
    /// in the region, with the run inside the blocks that the bitmap holds.
    pub fn dealloc_contiguous(&mut self, target: usize, block_count: usize)
        requires
            old(self).region_base() <= target,
            block_count == 0 || (target - old(self).region_base()) / (BLOCK_SIZE as int)
                + block_count <= BITMAP_CAPACITY,
        ensures
            final(self).wf(),
            final(self).region_base() == old(self).region_base(),
            final(self).free_blocks() == old(self).free_blocks().union(
                index_range(
                    (target - old(self).region_base()) / (BLOCK_SIZE as int),
                    block_count as int,
                ),
            ),
    {
        proof {
            use_type_invariant(&*self);
        }
        let start = (target - self.base) / BLOCK_SIZE;
        let end = start + block_count;
        let mut i = start;
        while i < end
            invariant
                start <= i <= end,
                end == start + block_count,
                block_count == 0 || end <= BITMAP_CAPACITY,
                start == (target - old(self).region_base()) / (BLOCK_SIZE as int),
                self.region_base() == old(self).region_base(),
                self.free_blocks() == old(self).free_blocks().union(
                    index_range(start as int, i - start),
                ),
                within_capacity(old(self).free_blocks()),
            decreases end - i,
        {
            let _ = bitmap_dealloc(&mut self.inner, i);
            assert(old(self).free_blocks().union(index_range(start as int, i - start)).insert(i)
                =~= old(self).free_blocks().union(index_range(start as int, i + 1 - start)));
            i = i + 1;
        }
    }
}

impl Default for DmaAlloc {
    /// An allocator with base 0 and no free block.
    fn default() -> (dma: Self)
        ensures
            dma.wf(),
            dma.region_base() == 0,
            dma.free_blocks() == Set::<usize>::empty(),
    {
        DmaAlloc::empty()
    }
}

/// Sets up the DMA allocator for the region `dma_base .. dma_base + dma_size`.
pub fn init(dma_base: usize, dma_size: usize) -> (dma: DmaAlloc)
    requires
        BLOCK_SIZE <= dma_size,
        dma_size / BLOCK_SIZE <= BITMAP_CAPACITY,
    ensures
        dma.wf(),
        dma.region_base() == dma_base,
        dma.free_blocks() == index_range(0, (dma_size / BLOCK_SIZE) as int),
{
    init_dma(dma_base, dma_size)
}

fn init_dma(dma_base: usize, dma_size: usize) -> (dma: DmaAlloc)
    requires
        BLOCK_SIZE <= dma_size,
        dma_size / BLOCK_SIZE <= BITMAP_CAPACITY,
    ensures
        dma.wf(),
        dma.region_base() == dma_base,
        dma.free_blocks() == index_range(0, (dma_size / BLOCK_SIZE) as int),
{
    DmaAlloc::new(dma_base, dma_size)
}

/// The virtio driver's request for `blocks` contiguous DMA blocks: the
/// address of the lowest free run, or 0 when there is none.
pub fn virtio_dma_alloc(dma: &mut DmaAlloc, blocks: usize) -> (paddr: usize)
    requires
        address_fits(old(dma).region_base(), old(dma).free_blocks(), blocks, 0),
    ensures
        final(dma).wf(),
        final(dma).region_base() == old(dma).region_base(),
        final(dma).free_blocks() == after_alloc(old(dma).free_blocks(), blocks, 0),
        paddr == match allocated_address(old(dma).region_base(), old(dma).free_blocks(), blocks, 0) {
            Some(address) => address,
            None => 0,
        },
{
    match dma.alloc_contiguous(blocks, 0) {
        Some(address) => address,
        None => 0,
    }
}

/// The virtio driver's release of `blocks` DMA blocks at `paddr`; always
/// reports success (0).
pub fn virtio_dma_dealloc(dma: &mut DmaAlloc, paddr: usize, blocks: usize) -> (status: i32)
    requires
        old(dma).region_base() <= paddr,
        blocks == 0 || (paddr - old(dma).region_base()) / (BLOCK_SIZE as int) + blocks
            <= BITMAP_CAPACITY,
    ensures
        status == 0,
        final(dma).wf(),
        final(dma).region_base() == old(dma).region_base(),
        final(dma).free_blocks() == old(dma).free_blocks().union(
            index_range((paddr - old(dma).region_base()) / (BLOCK_SIZE as int), blocks as int),
        ),
{
    dma.dealloc_contiguous(paddr, blocks);
    0
}

/// DMA memory is identity-mapped: a physical address is its own virtual
/// address.
pub fn virtio_phys_to_virt(paddr: usize) -> (vaddr: usize)
    ensures
        vaddr == paddr,
{
    paddr
}

/// DMA memory is identity-mapped: a virtual address is its own physical
/// address.
pub fn virtio_virt_to_phys(vaddr: usize) -> (paddr: usize)
    ensures
        paddr == vaddr,
{
    vaddr
}

/// A served request takes a run that was free, whose first block is
/// aligned as asked, which ends inside the bitmap, and which is no longer
/// free afterwards; its address lies `index * BLOCK_SIZE` above the base.
pub proof fn lemma_allocation_takes_free_run(
    base: usize,
    free: Set<usize>,
    count: usize,
    align_log2: usize,
)
    ensures
        first_fit(free, count, align_log2) matches Some(i) ==> {
            &&& count >= 1
            &&& align_log2 <= 12
            &&& (i as int) % (pow2(align_log2 as nat) as int) == 0
            &&& i + count <= BITMAP_CAPACITY
            &&& index_range(i as int, count as int).subset_of(free)
            &&& after_alloc(free, count, align_log2).disjoint(index_range(i as int, count as int))
            &&& after_alloc(free, count, align_log2) == free.difference(
                index_range(i as int, count as int),
            )
            &&& allocated_address(base, free, count, align_log2) == Some(
                (base + i * BLOCK_SIZE) as usize,
            )
        },
        first_fit(free, count, align_log2) is None ==> after_alloc(free, count, align_log2)
            == free && allocated_address(base, free, count, align_log2) is None,
{
    lemma_first_fit(free, count, align_log2);
    if let Some(i) = first_fit(free, count, align_log2) {
        assert(index_range(i as int, count as int).subset_of(free)) by {
            assert forall|j: usize| #[trigger] index_range(i as int, count as int).contains(j) implies free.contains(j) by {
                assert(free.contains((j as int) as usize));
            }
        }
    }
}

/// The blocks of a run handed out: its first block index and its length.
pub open spec fn run_blocks(run: (usize, usize)) -> Set<usize> {
    index_range(run.0 as int, run.1 as int)
}

/// The bookkeeping of an allocator over blocks `0 .. blocks`: the free
/// blocks lie in the region, and every run handed out and not yet freed is
/// non-empty, lies in the region, shares no block with the free set, and
/// shares no block with any other such run.
pub open spec fn blocks_accounted(free: Set<usize>, live: Seq<(usize, usize)>, blocks: nat) -> bool {
    &&& free.subset_of(index_range(0, blocks as int))
    &&& forall|k: int|
        0 <= k < live.len() ==> 1 <= (#[trigger] live[k]).1 && live[k].0 + live[k].1 <= blocks
    &&& forall|k: int| 0 <= k < live.len() ==> free.disjoint(run_blocks(#[trigger] live[k]))
    &&& forall|k1: int, k2: int|
        0 <= k1 < live.len() && 0 <= k2 < live.len() && k1 != k2 ==> run_blocks(
            #[trigger] live[k1],
        ).disjoint(run_blocks(#[trigger] live[k2]))
}

/// A call on the allocator: a contiguous request, or the release of the
/// `run`-th run still handed out.
pub enum DmaRequest {
    Alloc { count: usize, align_log2: usize },
    Free { run: usize },
}

/// One call's effect on the free set and on the runs handed out: a served
/// request adds its run, a release gives the run's blocks back. A release
/// of a run that is not handed out is not a call that the allocator takes,
/// and leaves the state as it is here.
pub open spec fn apply_request(
    free: Set<usize>,
    live: Seq<(usize, usize)>,
    request: DmaRequest,
) -> (Set<usize>, Seq<(usize, usize)>) {
    match request {
        DmaRequest::Alloc { count, align_log2 } => match first_fit(free, count, align_log2) {
            Some(i) => (after_alloc(free, count, align_log2), live.push((i, count))),
            None => (free, live),
        },
        DmaRequest::Free { run } => if run < live.len() {
            (free.union(run_blocks(live[run as int])), live.remove(run as int))
        } else {
            (free, live)
        },
    }
}

/// The state after a sequence of calls.
pub open spec fn replay(
    free: Set<usize>,
    live: Seq<(usize, usize)>,
    requests: Seq<DmaRequest>,
) -> (Set<usize>, Seq<(usize, usize)>)
    decreases requests.len(),
{
    if requests.len() == 0 {
        (free, live)
    } else {
        let next = apply_request(free, live, requests[0]);
        replay(next.0, next.1, requests.subrange(1, requests.len() as int))
    }
}

/// A fresh allocator over `blocks` blocks, with every block free and no run
/// handed out, is accounted for.
pub proof fn lemma_accounted_at_start(blocks: nat)
    ensures
        blocks_accounted(index_range(0, blocks as int), Seq::empty(), blocks),
{
}

/// A contiguous request keeps the bookkeeping: a served run lies in the
/// region and becomes one more run handed out; a request that is not served
/// changes nothing.
pub proof fn lemma_accounted_after_alloc(
    free: Set<usize>,
    live: Seq<(usize, usize)>,
    blocks: nat,
    count: usize,
    align_log2: usize,
)
    requires
        blocks_accounted(free, live, blocks),
    ensures
        first_fit(free, count, align_log2) matches Some(i) ==> i + count <= blocks,
        blocks_accounted(
            apply_request(free, live, DmaRequest::Alloc { count, align_log2 }).0,
            apply_request(free, live, DmaRequest::Alloc { count, align_log2 }).1,
            blocks,
        ),
{
    lemma_allocation_takes_free_run(0, free, count, align_log2);
    if let Some(i) = first_fit(free, count, align_log2) {
        let run = (i, count);
        let rest = after_alloc(free, count, align_log2);
        let live2 = live.push(run);
        let last = (i + count - 1) as usize;
        assert(run_blocks(run).contains(last));
        assert(free.contains(last));
        assert(index_range(0, blocks as int).contains(last));
        assert forall|k: int| 0 <= k < live2.len() implies rest.disjoint(
            run_blocks(#[trigger] live2[k]),
        ) by {
            if k < live.len() {
                assert(live2[k] == live[k]);
            }
        }
        assert forall|k1: int, k2: int|
            0 <= k1 < live2.len() && 0 <= k2 < live2.len() && k1 != k2 implies run_blocks(
            #[trigger] live2[k1],
        ).disjoint(run_blocks(#[trigger] live2[k2])) by {
            if k1 == live.len() {
                assert(live2[k2] == live[k2]);
                assert(free.disjoint(run_blocks(live[k2])));
            } else if k2 == live.len() {
                assert(live2[k1] == live[k1]);
                assert(free.disjoint(run_blocks(live[k1])));
            } else {
                assert(live2[k1] == live[k1]);
                assert(live2[k2] == live[k2]);
            }
        }
        assert forall|k: int| 0 <= k < live2.len() implies 1 <= (#[trigger] live2[k]).1
            && live2[k].0 + live2[k].1 <= blocks by {
            if k < live.len() {
                assert(live2[k] == live[k]);
            }
        }
    }
}

/// Releasing a run that is handed out keeps the bookkeeping: its blocks
/// become free again and it is no longer handed out.
pub proof fn lemma_accounted_after_free(
    free: Set<usize>,
    live: Seq<(usize, usize)>,
    blocks: nat,
    run: usize,
)
    requires
        blocks_accounted(free, live, blocks),
    ensures
        blocks_accounted(
            apply_request(free, live, DmaRequest::Free { run }).0,
            apply_request(free, live, DmaRequest::Free { run }).1,
            blocks,
        ),
{
    if run < live.len() {
        let r = live[run as int];
        let free2 = free.union(run_blocks(r));
        let live2 = live.remove(run as int);
        assert forall|j: usize| #[trigger] free2.contains(j) implies index_range(
            0,
            blocks as int,
        ).contains(j) by {
            if run_blocks(r).contains(j) {
                assert(r.0 <= j < r.0 + r.1);
            }
        }
        assert forall|k: int| 0 <= k < live2.len() implies free2.disjoint(
            run_blocks(#[trigger] live2[k]),
        ) by {
            let src = if k < run { k } else { k + 1 };
            assert(live2[k] == live[src]);
            assert(free.disjoint(run_blocks(live[src])));
            assert(run_blocks(live[run as int]).disjoint(run_blocks(live[src])));
        }
        assert forall|k1: int, k2: int|
            0 <= k1 < live2.len() && 0 <= k2 < live2.len() && k1 != k2 implies run_blocks(
            #[trigger] live2[k1],
        ).disjoint(run_blocks(#[trigger] live2[k2])) by {
            let s1 = if k1 < run { k1 } else { k1 + 1 };
            let s2 = if k2 < run { k2 } else { k2 + 1 };
            assert(live2[k1] == live[s1]);
            assert(live2[k2] == live[s2]);
            assert(run_blocks(live[s1]).disjoint(run_blocks(live[s2])));
        }
        assert forall|k: int| 0 <= k < live2.len() implies 1 <= (#[trigger] live2[k]).1
            && live2[k].0 + live2[k].1 <= blocks by {
            let src = if k < run { k } else { k + 1 };
            assert(live2[k] == live[src]);
        }
    }
}

/// No block is handed out twice, over any sequence of calls: starting from
/// a fresh allocator (or any accounted state), the runs handed out and not
/// yet freed stay pairwise disjoint, disjoint from the free blocks, and
/// inside the region.
pub proof fn lemma_accounted_over_requests(
    free: Set<usize>,
    live: Seq<(usize, usize)>,
    blocks: nat,
    requests: Seq<DmaRequest>,
)
    requires
        blocks_accounted(free, live, blocks),
    ensures
        blocks_accounted(replay(free, live, requests).0, replay(free, live, requests).1, blocks),
    decreases requests.len(),
{
    if requests.len() > 0 {
        let next = apply_request(free, live, requests[0]);
        match requests[0] {
            DmaRequest::Alloc { count, align_log2 } => {
                lemma_accounted_after_alloc(free, live, blocks, count, align_log2);
            },
            DmaRequest::Free { run } => {
                lemma_accounted_after_free(free, live, blocks, run);
            },
        }
        lemma_accounted_over_requests(
            next.0,
            next.1,
            blocks,
            requests.subrange(1, requests.len() as int),
        );
    }
}

/// In a region of `blocks` blocks that fits in the address space, every
/// request is admitted (its address cannot overflow), and a served request
/// returns an address `p` in the region, a whole number of blocks above the
/// base, whose run ends inside the region; `p` names the run's first block.
pub proof fn lemma_allocation_addresses(
    base: usize,
    free: Set<usize>,
    blocks: nat,
    count: usize,
    align_log2: usize,
)
    requires
        free.subset_of(index_range(0, blocks as int)),
        base + blocks * BLOCK_SIZE <= usize::MAX + 1,
    ensures
        address_fits(base, free, count, align_log2),
        allocated_address(base, free, count, align_log2) matches Some(p) ==> {
            &&& base <= p
            &&& (p - base) % (BLOCK_SIZE as int) == 0
            &&& p + count * BLOCK_SIZE <= base + blocks * BLOCK_SIZE
            &&& first_fit(free, count, align_log2) == Some(((p - base) / (BLOCK_SIZE as int)) as usize)
        },
{
    lemma_allocation_takes_free_run(base, free, count, align_log2);
    if let Some(i) = first_fit(free, count, align_log2) {
        let last = (i + count - 1) as usize;
        assert(index_range(i as int, count as int).contains(last));
        assert(free.contains(last));
        assert(index_range(0, blocks as int).contains(last));
        assert(i + count <= blocks);
        assert(base + i * 4096 + count * 4096 <= base + blocks * 4096) by (nonlinear_arith)
            requires
                i + count <= blocks,
        ;
        let p = base + i * 4096;
        assert((p - base) % 4096 == 0 && (p - base) / 4096 == i) by (nonlinear_arith)
            requires
                p == base + i * 4096,
                i >= 0,
        ;
    }
}

/// Freeing a run right after it was allocated gives back exactly the free
/// blocks that there were before: `dealloc_contiguous` (or
/// `virtio_dma_dealloc`) at the address that `alloc_contiguous` (or
/// `virtio_dma_alloc`) returned undoes it. The region must fit in the
/// address space, which also admits the allocation.
pub proof fn lemma_dealloc_undoes_alloc(
    base: usize,
    free: Set<usize>,
    blocks: nat,
    count: usize,
    align_log2: usize,
)
    requires
        free.subset_of(index_range(0, blocks as int)),
        base + blocks * BLOCK_SIZE <= usize::MAX + 1,
    ensures
        address_fits(base, free, count, align_log2),
        allocated_address(base, free, count, align_log2) matches Some(address) ==> {
            &&& base <= address
            &&& (address - base) / (BLOCK_SIZE as int) + count <= BITMAP_CAPACITY
            &&& after_alloc(free, count, align_log2).union(
                index_range((address - base) / (BLOCK_SIZE as int), count as int),
            ) == free
        },
{
    lemma_allocation_addresses(base, free, blocks, count, align_log2);
    lemma_allocation_takes_free_run(base, free, count, align_log2);
    if let Some(i) = first_fit(free, count, align_log2) {
        assert(after_alloc(free, count, align_log2).union(index_range(i as int, count as int))
            =~= free);
    }
}

/// Freeing a single block right after `alloc_block` handed it out gives back
/// exactly the free blocks that there were before: `dealloc` undoes
/// `alloc_block`. The region must fit in the address space, which also
/// admits the allocation.
pub proof fn lemma_dealloc_undoes_alloc_block(base: usize, free: Set<usize>, blocks: nat)
    requires
        free.subset_of(index_range(0, blocks as int)),
        base + blocks * BLOCK_SIZE <= usize::MAX + 1,
    ensures
        address_fits(base, free, 1, 0),
        allocated_address(base, free, 1, 0) matches Some(address) ==> {
            &&& base <= address
            &&& (address - base) / (BLOCK_SIZE as int) < BITMAP_CAPACITY
            &&& after_alloc(free, 1, 0).insert(
                ((address - base) / (BLOCK_SIZE as int)) as usize,
            ) == free
        },
{
    lemma_dealloc_undoes_alloc(base, free, blocks, 1, 0);
    if let Some(address) = allocated_address(base, free, 1, 0) {
        let i = ((address - base) / (BLOCK_SIZE as int)) as usize;
        assert(after_alloc(free, 1, 0).insert(i) =~= after_alloc(free, 1, 0).union(
            index_range(i as int, 1),
        ));
    }
}

/// What a contiguous request leaves free lies inside the bitmap.
proof fn lemma_after_alloc_within(free: Set<usize>, size: usize, align_log2: usize)
    requires
        within_capacity(free),
    ensures
        within_capacity(after_alloc(free, size, align_log2)),
        first_fit(free, size, align_log2) matches Some(i) ==> i + size <= BITMAP_CAPACITY
            && size >= 1,
{
    lemma_first_fit(free, size, align_log2);
}

} // verus!
