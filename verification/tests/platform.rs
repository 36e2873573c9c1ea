use rust_td::platform::{config_window_offsets, init, ConfigWrite, PciLocation};

#[test]
fn vsock_device_writes() {
    let (location, writes) = init();
    assert_eq!(location, PciLocation { bus: 0, device: 1, func: 0 });
    assert_eq!(writes.len(), 9);
    assert_eq!(writes[0], ConfigWrite::Byte { offset: 0x4, value: 0x7 });
    assert_eq!(writes[6], ConfigWrite::Dword { offset: 0x20, dword: 0xfe000008 });
    assert_eq!(writes[7], ConfigWrite::Dword { offset: 0x24, dword: 0 });
    assert_eq!(writes[8], ConfigWrite::Byte { offset: 0x3C, value: 0x0a });
}

#[test]
fn dump_windows() {
    let offsets = config_window_offsets(0x30);
    assert_eq!(offsets, (0x30u8..0x40u8).collect::<Vec<u8>>());
    let last = config_window_offsets(240);
    assert_eq!(last[15], 255);
}
