//! A minimal, valid ARM64 Mach-O64 executable, for exercising the loader
//! and the syscall translation without a real iOS binary.
//!
//! The machine code is hand-assembled for this purpose: `write(1, "Hi\n", 3)`
//! then `exit(0)`, issued as raw Darwin BSD syscalls (`svc #0x80`).
use vstd::prelude::*;
use vstd::utf8::{
    decode_utf8, encode_utf8, encode_utf8_decode_utf8, encode_utf8_valid_utf8, is_ascii_chars,
    is_ascii_chars_encode_utf8, valid_utf8,
};
use crate::cursor::{first_nul_in, le_u32, le_u64};
use crate::format::{
    Entry, CPU_TYPE_ARM64, LC_MAIN, LC_SEGMENT_64, MH_EXECUTE, MH_MAGIC_64, VM_PROT_EXECUTE,
    VM_PROT_READ,
};
use crate::parse::{
    no_commands, spec_command, spec_commands, spec_entry_vmaddr, spec_parse, spec_segment,
    text_index_from, trim_at_nul, CommandsModel, LoadError,
};

verus! {

/// The program's instructions followed by its message.
pub const HELLO_TEXT: [u8; 35] = [
    0x20, 0x00, 0x80, 0xd2,  // mov x0, #1
    0xe1, 0x00, 0x00, 0x10,  // adr x1, msg
    0x62, 0x00, 0x80, 0xd2,  // mov x2, #3
    0x90, 0x00, 0x80, 0xd2,  // mov x16, #4
    0x01, 0x10, 0x00, 0xd4,  // svc #0x80
    0x00, 0x00, 0x80, 0xd2,  // mov x0, #0
    0x30, 0x00, 0x80, 0xd2,  // mov x16, #1
    0x01, 0x10, 0x00, 0xd4,  // svc #0x80
    0x48, 0x69, 0x0a,  // "Hi\n"
];

/// iOS's arm64 page size (16K).
pub const PAGE_SIZE: u64 = 0x4000;

/// Where the `__TEXT` segment is mapped.
pub const TEXT_VMADDR: u64 = 0x1_0000;

pub const HEADER_LEN: u64 = 32;

pub const SEGMENT_CMD_LEN: u64 = 72;

pub const MAIN_CMD_LEN: u64 = 24;

/// The four little-endian bytes of `v`.
pub open spec fn le32_bytes(v: u32) -> Seq<u8> {
    seq![
        (v % 0x100) as u8,
        (v / 0x100 % 0x100) as u8,
        (v / 0x1_0000 % 0x100) as u8,
        (v / 0x100_0000) as u8,
    ]
}

/// The eight little-endian bytes of `v`.
pub open spec fn le64_bytes(v: u64) -> Seq<u8> {
    le32_bytes((v % 0x1_0000_0000) as u32) + le32_bytes((v / 0x1_0000_0000) as u32)
}

/// The file offset of the code: right after the header and the two load
/// commands.
pub open spec fn spec_entry_offset() -> u64 {
    (HEADER_LEN + SEGMENT_CMD_LEN + MAIN_CMD_LEN) as u64
}

/// The length of the whole file.
pub open spec fn spec_file_len() -> u64 {
    (spec_entry_offset() + 35) as u64
}

/// The file: a `mach_header_64` for an ARM64 executable with two load
/// commands; an `LC_SEGMENT_64` named `__TEXT` mapping the whole file
/// read+execute at `TEXT_VMADDR`, its memory size rounded up to whole
/// pages; an `LC_MAIN` whose entry offset is that of the code; the code.
#[verifier::opaque]
pub open spec fn spec_hello() -> Seq<u8> {
    let header = le32_bytes(MH_MAGIC_64) + le32_bytes(CPU_TYPE_ARM64) + le32_bytes(0) + le32_bytes(
        MH_EXECUTE,
    ) + le32_bytes(2) + le32_bytes((SEGMENT_CMD_LEN + MAIN_CMD_LEN) as u32) + le32_bytes(0)
        + le32_bytes(0);
    let segname = seq![0x5fu8, 0x5f, 0x54, 0x45, 0x58, 0x54] + Seq::new(10, |i: int| 0u8);
    let vmsize = ((spec_file_len() + PAGE_SIZE - 1) / (PAGE_SIZE as int) * PAGE_SIZE) as u64;
    let segment = le32_bytes(LC_SEGMENT_64) + le32_bytes(SEGMENT_CMD_LEN as u32) + segname
        + le64_bytes(TEXT_VMADDR) + le64_bytes(vmsize) + le64_bytes(0) + le64_bytes(
        spec_file_len(),
    ) + le32_bytes(VM_PROT_READ | VM_PROT_EXECUTE) + le32_bytes(VM_PROT_READ | VM_PROT_EXECUTE)
        + le32_bytes(0) + le32_bytes(0);
    let main = le32_bytes(LC_MAIN) + le32_bytes(MAIN_CMD_LEN as u32) + le64_bytes(
        spec_entry_offset(),
    ) + le64_bytes(0x1000);
    header + segment + main + HELLO_TEXT@
}

fn push_u32(out: &mut Vec<u8>, v: u32)
    ensures
        final(out)@ == old(out)@ + le32_bytes(v),
{
    out.push((v % 0x100) as u8);
    out.push((v / 0x100 % 0x100) as u8);
    out.push((v / 0x1_0000 % 0x100) as u8);
    out.push((v / 0x100_0000) as u8);
    assert(out@ =~= old(out)@ + le32_bytes(v));
}

fn push_u64(out: &mut Vec<u8>, v: u64)
    ensures
        final(out)@ == old(out)@ + le64_bytes(v),
{
    push_u32(out, (v % 0x1_0000_0000) as u32);
    push_u32(out, (v / 0x1_0000_0000) as u32);
    assert(out@ =~= old(out)@ + le64_bytes(v));
}

/// Builds the fixture and returns it along with the entry offset used, the
/// value that its `LC_MAIN` records, so that callers need not recompute the
/// header layout.
pub fn build_hello() -> (out: (Vec<u8>, u64))
    ensures
        out.0@ == spec_hello(),
        out.1 == spec_entry_offset(),
        out.0@.len() == spec_file_len(),
        le_u64(out.0@, 112) == out.1,
{
    let entryoff: u64 = HEADER_LEN + SEGMENT_CMD_LEN + MAIN_CMD_LEN;
    let file_len: u64 = entryoff + 35;
    let vmsize: u64 = (file_len + PAGE_SIZE - 1) / PAGE_SIZE * PAGE_SIZE;

    let mut out: Vec<u8> = Vec::new();
    // mach_header_64
    push_u32(&mut out, MH_MAGIC_64);
    push_u32(&mut out, CPU_TYPE_ARM64);
    push_u32(&mut out, 0);  // cpusubtype
    push_u32(&mut out, MH_EXECUTE);
    push_u32(&mut out, 2);  // ncmds
    push_u32(&mut out, (SEGMENT_CMD_LEN + MAIN_CMD_LEN) as u32);  // sizeofcmds
    push_u32(&mut out, 0);  // flags
    push_u32(&mut out, 0);  // reserved
    let ghost header = out@;

    // LC_SEGMENT_64 __TEXT, covering the whole file (headers + code)
    push_u32(&mut out, LC_SEGMENT_64);
    push_u32(&mut out, SEGMENT_CMD_LEN as u32);
    let ghost before_name = out@;
    out.push(0x5f);
    out.push(0x5f);
    out.push(0x54);
    out.push(0x45);
    out.push(0x58);
    out.push(0x54);
    let mut k: usize = 0;
    while k < 10
        invariant
            k <= 10,
            out@ == before_name + seq![0x5fu8, 0x5f, 0x54, 0x45, 0x58, 0x54] + Seq::new(
                k as nat,
                |i: int| 0u8,
            ),
        decreases 10 - k,
    {
        out.push(0);
        k = k + 1;
        assert(out@ =~= before_name + seq![0x5fu8, 0x5f, 0x54, 0x45, 0x58, 0x54] + Seq::new(
            k as nat,
            |i: int| 0u8,
        ));
    }
    push_u64(&mut out, TEXT_VMADDR);
    push_u64(&mut out, vmsize);
    push_u64(&mut out, 0);  // fileoff
    push_u64(&mut out, file_len);  // filesize
    push_u32(&mut out, VM_PROT_READ | VM_PROT_EXECUTE);  // maxprot
    push_u32(&mut out, VM_PROT_READ | VM_PROT_EXECUTE);  // initprot
    push_u32(&mut out, 0);  // nsects
    push_u32(&mut out, 0);  // flags
    let ghost with_segment = out@;

    // LC_MAIN
    push_u32(&mut out, LC_MAIN);
    push_u32(&mut out, MAIN_CMD_LEN as u32);
    push_u64(&mut out, entryoff);
    push_u64(&mut out, 0x1000);  // stacksize
    let ghost with_main = out@;

    let mut j: usize = 0;
    while j < 35
        invariant
            j <= 35,
            out@ == with_main + HELLO_TEXT@.subrange(0, j as int),
        decreases 35 - j,
    {
        out.push(HELLO_TEXT[j]);
        j = j + 1;
        assert(out@ =~= with_main + HELLO_TEXT@.subrange(0, j as int));
    }
    assert(HELLO_TEXT@.subrange(0, 35) =~= HELLO_TEXT@);
    reveal(spec_hello);
    assert(out@ =~= spec_hello());
    proof {
        lemma_hello_fields();
    }
    (out, entryoff)
}

/// The runtime entry address of [`build_hello`]'s program: `TEXT_VMADDR`
/// plus the entry offset.
pub fn expected_entry_vmaddr() -> (r: u64)
    ensures
        r == TEXT_VMADDR + spec_entry_offset(),
{
    TEXT_VMADDR + HEADER_LEN + SEGMENT_CMD_LEN + MAIN_CMD_LEN
}

/// The fields of the fixture that the loader reads, at their offsets.
proof fn lemma_hello_fields()
    ensures
        spec_hello().len() == 163,
        le_u32(spec_hello(), 0) == MH_MAGIC_64,
        le_u32(spec_hello(), 4) == CPU_TYPE_ARM64,
        le_u32(spec_hello(), 12) == MH_EXECUTE,
        le_u32(spec_hello(), 16) == 2,
        le_u32(spec_hello(), 20) == 96,
        le_u32(spec_hello(), 32) == LC_SEGMENT_64,
        le_u32(spec_hello(), 36) == 72,
        spec_hello().subrange(40, 56) == seq![0x5fu8, 0x5f, 0x54, 0x45, 0x58, 0x54] + Seq::new(10, |i: int| 0u8),
        le_u64(spec_hello(), 56) == TEXT_VMADDR,
        le_u64(spec_hello(), 80) == 163,
        le_u32(spec_hello(), 104) == LC_MAIN,
        le_u32(spec_hello(), 108) == 24,
        le_u64(spec_hello(), 112) == 128,
{
    reveal(spec_hello);
    let b = spec_hello();
    assert(b.len() == 163);
}

/// The fixture's `__TEXT` name field reads back as `"__TEXT"`.
proof fn lemma_hello_segname()
    ensures
        valid_utf8(trim_at_nul(spec_hello().subrange(40, 56))),
        decode_utf8(trim_at_nul(spec_hello().subrange(40, 56))) == "__TEXT"@,
{
    lemma_hello_fields();
    let raw = spec_hello().subrange(40, 56);
    reveal_with_fuel(first_nul_in, 8);
    assert(first_nul_in(raw, 0, 16) == Some(6int));
    let chars = "__TEXT"@;
    reveal_strlit("__TEXT");
    assert(is_ascii_chars(chars));
    is_ascii_chars_encode_utf8(chars);
    assert(raw.subrange(0, 6) =~= encode_utf8(chars));
    encode_utf8_valid_utf8(chars);
    encode_utf8_decode_utf8(chars);
}

/// The fixture's `__TEXT` segment command as the loader reads it.
proof fn lemma_hello_segment()
    ensures
        spec_segment(spec_hello(), 40) is Ok,
        spec_segment(spec_hello(), 40)->Ok_0.name == "__TEXT"@,
        spec_segment(spec_hello(), 40)->Ok_0.vmaddr == TEXT_VMADDR,
        spec_segment(spec_hello(), 40)->Ok_0.filesize == spec_file_len(),
{
    lemma_hello_fields();
    lemma_hello_segname();
}

/// The fixture's two load commands as the loader reads them.
proof fn lemma_hello_commands()
    ensures
        spec_commands(spec_hello(), 128, 32, 2, no_commands()) == Ok::<CommandsModel, LoadError>(
            CommandsModel {
                segments: seq![spec_segment(spec_hello(), 40)->Ok_0],
                entry: Some(Entry::TextOffset(128)),
                ..no_commands()
            },
        ),
{
    let b = spec_hello();
    lemma_hello_fields();
    lemma_hello_segment();
    let seg = spec_segment(b, 40)->Ok_0;
    let st1 = CommandsModel { segments: seq![seg], ..no_commands() };
    assert(no_commands().segments.push(seg) =~= seq![seg]);
    assert(spec_command(b, 128, 32, no_commands()) == Ok::<(int, CommandsModel), LoadError>((104int, st1)));
    let st2 = CommandsModel { entry: Some(Entry::TextOffset(128)), ..st1 };
    assert(0x28u32 | 0x8000_0000u32 == 0x8000_0028u32) by (bit_vector);
    assert(spec_command(b, 128, 104, st1) == Ok::<(int, CommandsModel), LoadError>((128int, st2)));
    reveal_with_fuel(spec_commands, 3);
}

/// The fixture is an image that the loader accepts: one `__TEXT` segment
/// at `TEXT_VMADDR` covering the whole file, entered at the code, which
/// sits at `0x1_0080` once mapped.
pub proof fn law_fixture_loads()
    ensures
        spec_parse(spec_hello()) is Ok,
        spec_parse(spec_hello())->Ok_0.entry == Entry::TextOffset(spec_entry_offset()),
        spec_parse(spec_hello())->Ok_0.segments.len() == 1,
        spec_parse(spec_hello())->Ok_0.segments[0].vmaddr == TEXT_VMADDR,
        spec_parse(spec_hello())->Ok_0.segments[0].filesize == spec_file_len(),
        spec_entry_vmaddr(spec_parse(spec_hello())->Ok_0) == Ok::<u64, LoadError>(0x1_0080),
        TEXT_VMADDR + spec_entry_offset() == 0x1_0080,
{
    let b = spec_hello();
    lemma_hello_fields();
    lemma_hello_segment();
    lemma_hello_commands();
    let img = spec_parse(b)->Ok_0;
    assert(text_index_from(img.segments, 0) == Some(0int));
}

} // verus!
