# rust_td

Verified core of a TDX guest payload and shim.

- `src/virtio_impl.rs` — DMA allocator of 4 KiB blocks for the virtio
  transport (first-fit, aligned runs) and the hooks the driver calls, with
  the laws that a freed allocation restores the allocator and that, over
  any sequence of requests and releases, the runs handed out stay pairwise
  disjoint, disjoint from the free blocks, and inside the region.
- `src/bitmap.rs` — the `bitmap_allocator` crate's 4096-bit map, known
  through the set of free bits, and the first-fit specification.
- `src/memory.rs` — the identity mappings that set up paging (shared bit on
  the DMA region, execute-disable above it) and the CPUID/EFER computations.
- `src/platform.rs`, `src/misc.rs` — PCI, 8259 and A20 register writes.
- `src/build_support.rs` — the `nasm` object format for a target.
- `app/` — the payload entry point, port and PCI I/O, the global allocator
  behind a spin lock, and the page-table mapper calls.
