use rust_td::virtio_impl::{
    init, virtio_dma_alloc, virtio_dma_dealloc, virtio_phys_to_virt, virtio_virt_to_phys, DmaAlloc,
    BLOCK_SIZE,
};

const BASE: usize = 0x4000_0000;

#[test]
fn new_frees_every_whole_block() {
    // Three whole blocks and a partial one: only the whole blocks are free.
    let mut dma = DmaAlloc::new(BASE, 3 * BLOCK_SIZE + 100);
    assert_eq!(dma.base(), BASE);
    assert_eq!(dma.alloc_contiguous(3, 0), Some(BASE));
    assert_eq!(dma.alloc_block(), None);
}

#[test]
fn single_blocks_come_lowest_first() {
    let mut dma = DmaAlloc::new(BASE, 4 * BLOCK_SIZE);
    assert_eq!(dma.alloc_block(), Some(BASE));
    assert_eq!(dma.alloc_block(), Some(BASE + BLOCK_SIZE));
    assert_eq!(dma.alloc_block(), Some(BASE + 2 * BLOCK_SIZE));
    assert_eq!(dma.alloc_block(), Some(BASE + 3 * BLOCK_SIZE));
    assert_eq!(dma.alloc_block(), None);
}

#[test]
fn contiguous_runs_respect_alignment() {
    let mut dma = DmaAlloc::new(0, 16 * BLOCK_SIZE);
    assert_eq!(dma.alloc_block(), Some(0));
    // Two blocks aligned to two blocks: index 2, block 1 stays free.
    assert_eq!(dma.alloc_contiguous(2, 1), Some(2 * BLOCK_SIZE));
    // Three blocks aligned to eight blocks: index 8.
    assert_eq!(dma.alloc_contiguous(3, 3), Some(8 * BLOCK_SIZE));
    // The hole left at index 1 is the lowest free block.
    assert_eq!(dma.alloc_block(), Some(BLOCK_SIZE));
    // Indices 4..8 are free: four blocks aligned to four fit there.
    assert_eq!(dma.alloc_contiguous(4, 2), Some(4 * BLOCK_SIZE));
}

#[test]
fn contiguous_request_skips_used_blocks() {
    let mut dma = DmaAlloc::new(BASE, 6 * BLOCK_SIZE);
    assert_eq!(dma.alloc_contiguous(1, 0), Some(BASE));
    assert_eq!(dma.alloc_contiguous(1, 0), Some(BASE + BLOCK_SIZE));
    dma.dealloc(BASE);
    // Only one block free below index 2: a run of two starts at index 2.
    assert_eq!(dma.alloc_contiguous(2, 0), Some(BASE + 2 * BLOCK_SIZE));
    assert_eq!(dma.alloc_contiguous(1, 0), Some(BASE));
}

#[test]
fn requests_that_cannot_be_served() {
    let mut dma = DmaAlloc::new(BASE, 4 * BLOCK_SIZE);
    assert_eq!(dma.alloc_contiguous(0, 0), None);
    assert_eq!(dma.alloc_contiguous(5, 0), None);
    assert_eq!(dma.alloc_contiguous(1, 13), None);
    // A failed request changes nothing.
    assert_eq!(dma.alloc_contiguous(4, 0), Some(BASE));
}

#[test]
fn dealloc_undoes_alloc() {
    let mut dma = DmaAlloc::new(BASE, 8 * BLOCK_SIZE);
    assert_eq!(dma.alloc_block(), Some(BASE));
    let run = dma.alloc_contiguous(3, 0).unwrap();
    assert_eq!(run, BASE + BLOCK_SIZE);
    dma.dealloc_contiguous(run, 3);
    assert_eq!(dma.alloc_contiguous(3, 0), Some(run));
}

#[test]
fn allocations_never_overlap() {
    let mut dma = DmaAlloc::new(BASE, 8 * BLOCK_SIZE);
    let a = dma.alloc_contiguous(3, 0).unwrap();
    let b = dma.alloc_contiguous(3, 0).unwrap();
    assert!(a + 3 * BLOCK_SIZE <= b || b + 3 * BLOCK_SIZE <= a);
    assert_eq!(dma.alloc_contiguous(3, 0), None);
    assert_eq!(dma.alloc_contiguous(2, 0), Some(BASE + 6 * BLOCK_SIZE));
}

#[test]
fn full_bitmap_region() {
    let mut dma = DmaAlloc::new(0, 4096 * BLOCK_SIZE);
    assert_eq!(dma.alloc_contiguous(4096, 12), Some(0));
    assert_eq!(dma.alloc_block(), None);
    dma.dealloc(4095 * BLOCK_SIZE);
    assert_eq!(dma.alloc_block(), Some(4095 * BLOCK_SIZE));
}

#[test]
fn empty_and_default_have_nothing_free() {
    let mut empty = DmaAlloc::empty();
    assert_eq!(empty.base(), 0);
    assert_eq!(empty.alloc_block(), None);
    let mut default = DmaAlloc::default();
    assert_eq!(default.base(), 0);
    assert_eq!(default.alloc_contiguous(1, 0), None);
}

#[test]
fn init_sets_up_the_region() {
    let mut dma = init(BASE, 2 * BLOCK_SIZE);
    assert_eq!(dma.base(), BASE);
    assert_eq!(dma.alloc_contiguous(2, 0), Some(BASE));
    assert_eq!(dma.alloc_block(), None);
}

#[test]
fn virtio_hooks() {
    let mut dma = init(BASE, 4 * BLOCK_SIZE);
    assert_eq!(virtio_dma_alloc(&mut dma, 2), BASE);
    assert_eq!(virtio_dma_alloc(&mut dma, 2), BASE + 2 * BLOCK_SIZE);
    // Out of blocks: 0.
    assert_eq!(virtio_dma_alloc(&mut dma, 1), 0);
    assert_eq!(virtio_dma_dealloc(&mut dma, BASE, 2), 0);
    assert_eq!(virtio_dma_alloc(&mut dma, 2), BASE);
}

#[test]
fn dma_memory_is_identity_mapped() {
    assert_eq!(virtio_phys_to_virt(0x1234_5000), 0x1234_5000);
    assert_eq!(virtio_virt_to_phys(0x1234_5000), 0x1234_5000);
    assert_eq!(virtio_virt_to_phys(virtio_phys_to_virt(77)), 77);
}

#[test]
fn freeing_zero_blocks_anywhere_is_a_no_op() {
    let mut dma = DmaAlloc::new(BASE, 2 * BLOCK_SIZE);
    dma.dealloc_contiguous(BASE + 10_000 * BLOCK_SIZE, 0);
    assert_eq!(virtio_dma_dealloc(&mut dma, BASE + 5_000 * BLOCK_SIZE, 0), 0);
    assert_eq!(dma.alloc_contiguous(2, 0), Some(BASE));
    assert_eq!(dma.alloc_block(), None);
}

#[test]
fn live_runs_stay_disjoint_over_a_sequence() {
    let mut dma = init(BASE, 16 * BLOCK_SIZE);
    let mut live: Vec<(usize, usize)> = Vec::new();
    let requests = [3usize, 2, 5, 1, 4];
    for &n in &requests {
        let p = virtio_dma_alloc(&mut dma, n);
        assert_ne!(p, 0);
        live.push((p, n));
    }
    // Free the second and fourth runs, then allocate again.
    let (p1, n1) = live.remove(1);
    assert_eq!(virtio_dma_dealloc(&mut dma, p1, n1), 0);
    let (p3, n3) = live.remove(2);
    assert_eq!(virtio_dma_dealloc(&mut dma, p3, n3), 0);
    for &n in &[2usize, 1, 1] {
        let p = virtio_dma_alloc(&mut dma, n);
        assert_ne!(p, 0);
        live.push((p, n));
    }
    for (i, &(a, n)) in live.iter().enumerate() {
        assert!(a >= BASE && (a - BASE) % BLOCK_SIZE == 0);
        assert!(a + n * BLOCK_SIZE <= BASE + 16 * BLOCK_SIZE);
        for &(b, m) in &live[i + 1..] {
            assert!(a + n * BLOCK_SIZE <= b || b + m * BLOCK_SIZE <= a);
        }
    }
}
