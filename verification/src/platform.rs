//! Bring-up of the virtio vsock PCI function: the configuration-space
//! writes that enable it, and the register windows that are dumped.

use vstd::prelude::*;

verus! {

/// Bus, device and function numbers of a PCI function.
#[derive(Clone, Copy, Debug, PartialEq, Eq)]
pub struct PciLocation {
    pub bus: u8,
    pub device: u8,
    pub func: u8,
}

/// One write to a PCI function's configuration space.
#[derive(Clone, Copy, Debug, PartialEq, Eq)]
pub enum ConfigWrite {
    Byte { offset: u8, value: u8 },
    Dword { offset: u8, dword: u32 },
}

/// Where the vsock device sits: bus 0, device 1, function 0.
pub open spec fn vsock_location() -> PciLocation {
    PciLocation { bus: 0, device: 1, func: 0 }
}

/// The configuration writes that enable the vsock device, in order:
/// command (I/O, memory, bus master; interrupt disable), BAR0 at I/O
/// 0x60e0, BAR1 at 0xc0002000, BAR4 at 0xfe000008 with BAR5 cleared, and
/// interrupt line 10.
pub open spec fn vsock_init_writes() -> Seq<ConfigWrite> {
    seq![
        ConfigWrite::Byte { offset: 0x4, value: 0x7 },
        ConfigWrite::Byte { offset: 0x5, value: 0x4 },
        ConfigWrite::Byte { offset: 0x10, value: 0xe1 },
        ConfigWrite::Byte { offset: 0x11, value: 0x60 },
        ConfigWrite::Byte { offset: 0x15, value: 0x20 },
        ConfigWrite::Byte { offset: 0x17, value: 0xc0 },
        ConfigWrite::Dword { offset: 0x20, dword: 0xfe000008 },
        ConfigWrite::Dword { offset: 0x24, dword: 0 },
        ConfigWrite::Byte { offset: 0x3C, value: 0x0a },
    ]
}

/// The configuration bytes that a sequence of writes leaves set, by offset:
/// a byte write sets its byte, a dword write its four bytes (least
/// significant first), and a later write overrides an earlier one.
pub open spec fn config_image(writes: Seq<ConfigWrite>) -> Map<int, int>
    decreases writes.len(),
{
    if writes.len() == 0 {
        Map::empty()
    } else {
        let prev = config_image(writes.drop_last());
        match writes.last() {
            ConfigWrite::Byte { offset, value } => prev.insert(offset as int, value as int),
            ConfigWrite::Dword { offset, dword } => prev.insert(offset as int, dword as int % 0x100).insert(
                offset + 1,
                (dword as int / 0x100) % 0x100,
            ).insert(offset + 2, (dword as int / 0x10000) % 0x100).insert(offset + 3, dword as int / 0x1000000),
        }
    }
}

/// The byte at `offset` of a configuration image, 0 where nothing was written.
pub open spec fn image_byte(image: Map<int, int>, offset: int) -> int {
    if image.contains_key(offset) {
        image[offset]
    } else {
        0
    }
}

/// The little-endian word at `offset` of a configuration image.
pub open spec fn image_word(image: Map<int, int>, offset: int) -> int {
    image_byte(image, offset) + image_byte(image, offset + 1) * 0x100
}

/// The little-endian dword at `offset` of a configuration image.
pub open spec fn image_dword(image: Map<int, int>, offset: int) -> int {
    image_word(image, offset) + image_word(image, offset + 2) * 0x10000
}

/// What enabling the vsock device does to its configuration space: the
/// command register becomes 0x0407 (I/O and memory decoding, bus master,
/// interrupts disabled), BAR0 0x60e1 (I/O at 0x60e0), BAR1 0xc0002000,
/// BAR4 0xfe000008, BAR5 0, the interrupt line 10, and no other byte is
/// written.
pub proof fn lemma_vsock_config()
    ensures
        vsock_init_writes().len() == 9,
        image_word(config_image(vsock_init_writes()), 0x4) == 0x0407,
        image_dword(config_image(vsock_init_writes()), 0x10) == 0x60e1,
        image_dword(config_image(vsock_init_writes()), 0x14) == 0xc000_2000,
        image_dword(config_image(vsock_init_writes()), 0x20) == 0xfe00_0008,
        image_dword(config_image(vsock_init_writes()), 0x24) == 0,
        image_byte(config_image(vsock_init_writes()), 0x3C) == 0x0a,
        config_image(vsock_init_writes()).dom() == set![
            0x4int,
            0x5int,
            0x10int,
            0x11int,
            0x15int,
            0x17int,
            0x20int,
            0x21int,
            0x22int,
            0x23int,
            0x24int,
            0x25int,
            0x26int,
            0x27int,
            0x3Cint,
        ],
{
    let w = vsock_init_writes();
    let m0 = Map::<int, int>::empty();
    let m1 = m0.insert(0x4, 0x7);
    let m2 = m1.insert(0x5, 0x4);
    let m3 = m2.insert(0x10, 0xe1);
    let m4 = m3.insert(0x11, 0x60);
    let m5 = m4.insert(0x15, 0x20);
    let m6 = m5.insert(0x17, 0xc0);
    let m7 = m6.insert(0x20, 0x08).insert(0x21, 0x00).insert(0x22, 0x00).insert(0x23, 0xfe);
    let m8 = m7.insert(0x24, 0).insert(0x25, 0).insert(0x26, 0).insert(0x27, 0);
    let m9 = m8.insert(0x3C, 0x0a);
    assert(w.subrange(0, 0) =~= Seq::<ConfigWrite>::empty());
    assert(config_image(w.subrange(0, 1)) == m1) by {
        lemma_config_image_push(w.subrange(0, 0), w[0]);
        assert(w.subrange(0, 0).push(w[0]) =~= w.subrange(0, 1));
    }
    assert(config_image(w.subrange(0, 2)) == m2) by {
        lemma_config_image_push(w.subrange(0, 1), w[1]);
        assert(w.subrange(0, 1).push(w[1]) =~= w.subrange(0, 2));
    }
    assert(config_image(w.subrange(0, 3)) == m3) by {
        lemma_config_image_push(w.subrange(0, 2), w[2]);
        assert(w.subrange(0, 2).push(w[2]) =~= w.subrange(0, 3));
    }
    assert(config_image(w.subrange(0, 4)) == m4) by {
        lemma_config_image_push(w.subrange(0, 3), w[3]);
        assert(w.subrange(0, 3).push(w[3]) =~= w.subrange(0, 4));
    }
    assert(config_image(w.subrange(0, 5)) == m5) by {
        lemma_config_image_push(w.subrange(0, 4), w[4]);
        assert(w.subrange(0, 4).push(w[4]) =~= w.subrange(0, 5));
    }
    assert(config_image(w.subrange(0, 6)) == m6) by {
        lemma_config_image_push(w.subrange(0, 5), w[5]);
        assert(w.subrange(0, 5).push(w[5]) =~= w.subrange(0, 6));
    }
    assert(config_image(w.subrange(0, 7)) == m7) by {
        lemma_config_image_push(w.subrange(0, 6), w[6]);
        assert(w.subrange(0, 6).push(w[6]) =~= w.subrange(0, 7));
    }
    assert(config_image(w.subrange(0, 8)) == m8) by {
        lemma_config_image_push(w.subrange(0, 7), w[7]);
        assert(w.subrange(0, 7).push(w[7]) =~= w.subrange(0, 8));
    }
    assert(config_image(w.subrange(0, 9)) == m9) by {
        lemma_config_image_push(w.subrange(0, 8), w[8]);
        assert(w.subrange(0, 8).push(w[8]) =~= w.subrange(0, 9));
    }
    assert(w.subrange(0, 9) =~= w);
    assert(m9.dom() =~= set![
        0x4int,
        0x5int,
        0x10int,
        0x11int,
        0x15int,
        0x17int,
        0x20int,
        0x21int,
        0x22int,
        0x23int,
        0x24int,
        0x25int,
        0x26int,
        0x27int,
        0x3Cint,
    ]);
}

/// Appending one write to a sequence applies it on top of the image that
/// the sequence leaves.
pub proof fn lemma_config_image_push(writes: Seq<ConfigWrite>, write: ConfigWrite)
    ensures
        config_image(writes.push(write)) == match write {
            ConfigWrite::Byte { offset, value } => config_image(writes).insert(
                offset as int,
                value as int,
            ),
            ConfigWrite::Dword { offset, dword } => config_image(writes).insert(
                offset as int,
                dword as int % 0x100,
            ).insert(offset + 1, (dword as int / 0x100) % 0x100).insert(
                offset + 2,
                (dword as int / 0x10000) % 0x100,
            ).insert(offset + 3, dword as int / 0x1000000),
        },
{
    assert(writes.push(write).drop_last() =~= writes);
}

/// Initialises the virtio vsock PCI function: returns where it is and the
/// configuration writes to make, in order.
pub fn init() -> (plan: (PciLocation, Vec<ConfigWrite>))
    ensures
        plan.0 == vsock_location(),
        plan.1@ == vsock_init_writes(),
        plan.0.bus == 0 && plan.0.device == 1 && plan.0.func == 0,
        plan.1@.len() == 9,
        image_word(config_image(plan.1@), 0x4) == 0x0407,
        image_dword(config_image(plan.1@), 0x10) == 0x60e1,
        image_dword(config_image(plan.1@), 0x14) == 0xc000_2000,
        image_dword(config_image(plan.1@), 0x20) == 0xfe00_0008,
        image_dword(config_image(plan.1@), 0x24) == 0,
        image_byte(config_image(plan.1@), 0x3C) == 0x0a,
        config_image(plan.1@).dom() == set![
            0x4int,
            0x5int,
            0x10int,
            0x11int,
            0x15int,
            0x17int,
            0x20int,
            0x21int,
            0x22int,
            0x23int,
            0x24int,
            0x25int,
            0x26int,
            0x27int,
            0x3Cint,
        ],
{
    let location = PciLocation { bus: 0, device: 1, func: 0 };
    let mut writes: Vec<ConfigWrite> = Vec::new();
    writes.push(ConfigWrite::Byte { offset: 0x4, value: 0x7 });
    writes.push(ConfigWrite::Byte { offset: 0x5, value: 0x4 });
    writes.push(ConfigWrite::Byte { offset: 0x10, value: 0xe1 });
    writes.push(ConfigWrite::Byte { offset: 0x11, value: 0x60 });
    writes.push(ConfigWrite::Byte { offset: 0x15, value: 0x20 });
    writes.push(ConfigWrite::Byte { offset: 0x17, value: 0xc0 });
    writes.push(ConfigWrite::Dword { offset: 0x20, dword: 0xfe000008 });
    writes.push(ConfigWrite::Dword { offset: 0x24, dword: 0 });
    writes.push(ConfigWrite::Byte { offset: 0x3C, value: 0x0a });
    assert(writes@ =~= vsock_init_writes());
    proof {
        lemma_vsock_config();
    }
    (location, writes)
}

/// The sixteen consecutive configuration offsets that a dump starting at
/// `offset` reads; the window must end within the 256-byte configuration
/// header, so `offset` is at most 240.
pub fn config_window_offsets(offset: u8) -> (offsets: Vec<u8>)
    requires
        offset <= 240,
    ensures
        offsets@.len() == 16,
        forall|i: int| 0 <= i < 16 ==> #[trigger] offsets@[i] == offset + i,
{
    let mut offsets: Vec<u8> = Vec::new();
    let mut i: u8 = 0;
    while i < 16
        invariant
            i <= 16,
            offset <= 240,
            offsets@.len() == i,
            forall|j: int| 0 <= j < i ==> #[trigger] offsets@[j] == offset + j,
        decreases 16 - i,
    {
        offsets.push(offset + i);
        i = i + 1;
    }
    offsets
}

} // verus!
