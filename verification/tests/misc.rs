use rust_td::misc::{clear_8259_interupt, disable_a20_mask, PortWrite};

#[test]
fn pic_lines_are_masked_master_first() {
    assert_eq!(
        clear_8259_interupt(),
        vec![PortWrite { port: 0x21, value: 0xff }, PortWrite { port: 0xA1, value: 0xff }]
    );
}

#[test]
fn a20_bit_is_set_and_others_kept() {
    assert_eq!(disable_a20_mask(0x00), PortWrite { port: 0x92, value: 0x02 });
    assert_eq!(disable_a20_mask(0x01), PortWrite { port: 0x92, value: 0x03 });
    assert_eq!(disable_a20_mask(0xff), PortWrite { port: 0x92, value: 0xff });
}
