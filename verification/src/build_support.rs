//! Choice of the object format in which the assembly sources are
//! assembled, for ELF and for PE (UEFI) payloads.

use vstd::prelude::*;
use vstd::string::StringSliceAdditionalSpecFns;

verus! {

/// The executable format of the payload being built.
#[derive(Clone, Copy, Debug, PartialEq, Eq)]
pub enum PayloadFormat {
    Elf,
    Pe,
}

/// The bytes of the architecture name `x86_64`.
pub open spec fn arch_x86_64() -> Seq<u8> {
    seq![0x78u8, 0x38u8, 0x36u8, 0x5fu8, 0x36u8, 0x34u8]
}

/// The bytes of the architecture name `x86`.
pub open spec fn arch_x86() -> Seq<u8> {
    seq![0x78u8, 0x38u8, 0x36u8]
}

/// The two architecture names are the bytes of the strings `x86_64` and
/// `x86`.
pub proof fn lemma_arch_names()
    ensures
        arch_x86_64() == "x86_64".spec_bytes(),
        arch_x86() == "x86".spec_bytes(),
{
    reveal_strlit("x86_64");
    reveal_strlit("x86");
    vstd::string::is_ascii_spec_bytes("x86_64");
    vstd::string::is_ascii_spec_bytes("x86");
    assert(arch_x86_64() =~= "x86_64".spec_bytes());
    assert(arch_x86() =~= "x86".spec_bytes());
}

/// Whether two byte strings are equal.
fn bytes_equal(a: &[u8], b: &[u8]) -> (equal: bool)
    ensures
        equal == (a@ == b@),
{
    if a.len() != b.len() {
        return false;
    }
    let mut i: usize = 0;
    while i < a.len()
        invariant
            a@.len() == b@.len(),
            i <= a@.len(),
            forall|j: int| 0 <= j < i ==> a@[j] == b@[j],
        decreases a@.len() - i,
    {
        if a[i] != b[i] {
            return false;
        }
        i = i + 1;
    }
    assert(a@ =~= b@);
    true
}

/// The `nasm -f` output format for `arch`: `elf64`/`elf32` for an ELF
/// payload, `win64`/`win32` for a PE payload, by 64- or 32-bit x86; no
/// other architecture is supported.
pub fn nasm_object_format(arch: &str, payload: PayloadFormat) -> (format: &'static str)
    requires
        arch.spec_bytes() == arch_x86_64() || arch.spec_bytes() == arch_x86(),
    ensures
        arch.spec_bytes() == arch_x86_64() && payload == PayloadFormat::Elf ==> format@ == "elf64"@,
        arch.spec_bytes() == arch_x86() && payload == PayloadFormat::Elf ==> format@ == "elf32"@,
        arch.spec_bytes() == arch_x86_64() && payload == PayloadFormat::Pe ==> format@ == "win64"@,
        arch.spec_bytes() == arch_x86() && payload == PayloadFormat::Pe ==> format@ == "win32"@,
{
    let x86_64_name: [u8; 6] = [0x78, 0x38, 0x36, 0x5f, 0x36, 0x34];
    let is_64 = bytes_equal(arch.as_bytes(), &x86_64_name);
    assert(x86_64_name@ =~= arch_x86_64());
    match payload {
        PayloadFormat::Elf => if is_64 { "elf64" } else { "elf32" },
        PayloadFormat::Pe => if is_64 { "win64" } else { "win32" },
    }
}

} // verus!
