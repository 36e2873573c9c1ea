use rust_td::build_support::{nasm_object_format, PayloadFormat};

#[test]
fn nasm_formats() {
    assert_eq!(nasm_object_format("x86_64", PayloadFormat::Elf), "elf64");
    assert_eq!(nasm_object_format("x86", PayloadFormat::Elf), "elf32");
    assert_eq!(nasm_object_format("x86_64", PayloadFormat::Pe), "win64");
    assert_eq!(nasm_object_format("x86", PayloadFormat::Pe), "win32");
}
