use rust_td::memory::{
    enable_execute_disable_bit, is_execute_disable_bit_available, Memory, PageMapping,
    RuntimeLayout, NO_EXECUTE,
};

fn layout() -> RuntimeLayout {
    RuntimeLayout {
        runtime_dma_base: 0x7E00_0000,
        runtime_heap_base: 0x7F00_0000,
        runtime_event_log_base: 0x7FF0_0000,
        runtime_event_log_size: 0x10_0000,
    }
}

#[test]
fn paging_plan_for_a_two_gib_td() {
    let shared: u64 = 1 << 51;
    let memory = Memory::new(&layout(), 0x8000_0000);
    let plan = memory.setup_paging(shared);
    assert_eq!(
        plan,
        vec![
            PageMapping { phys: 0, virt: 0, size: 0x7E00_0000, flags: None },
            PageMapping {
                phys: 0x7E00_0000,
                virt: 0x7E00_0000,
                size: 0x100_0000,
                flags: Some(0x8008_0000_0000_0003),
            },
            PageMapping {
                phys: 0x7F00_0000,
                virt: 0x7F00_0000,
                size: 0x100_0000,
                flags: Some(0x8000_0000_0000_0003),
            },
            PageMapping { phys: 0x8000_0000, virt: 0x8000_0000, size: 0, flags: None },
        ]
    );
}

#[test]
fn paging_plan_covers_memory_contiguously() {
    let memory = Memory::new(&layout(), 0x1_0000_0000);
    let plan = memory.setup_paging(0);
    assert_eq!(plan[0].phys, 0);
    for k in 0..plan.len() {
        assert_eq!(plan[k].phys, plan[k].virt);
        if k + 1 < plan.len() {
            assert_eq!(plan[k + 1].phys, plan[k].phys + plan[k].size);
        }
    }
    assert_eq!(plan[3].phys + plan[3].size, 0x1_0000_0000);
    assert_eq!(plan[1].flags.unwrap() & NO_EXECUTE, NO_EXECUTE);
    assert_eq!(plan[2].flags.unwrap() & NO_EXECUTE, NO_EXECUTE);
    assert_eq!(plan[1].flags, Some(0x8000_0000_0000_0003));
}

#[test]
fn execute_disable_detection() {
    assert!(is_execute_disable_bit_available(0x8000_0008, 1 << 20));
    assert!(!is_execute_disable_bit_available(0x8000_0008, !(1 << 20)));
    assert!(!is_execute_disable_bit_available(0x8000_0000, 0xffff_ffff));
    assert!(is_execute_disable_bit_available(0x8000_0001, 0x0010_0000));
}

#[test]
fn efer_gets_nxe() {
    assert_eq!(enable_execute_disable_bit(0), 0x800);
    assert_eq!(enable_execute_disable_bit(0x501), 0xD01);
    assert_eq!(enable_execute_disable_bit(0xD01), 0xD01);
}
