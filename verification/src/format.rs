//! Mach-O64 constants and the parsed-output types.
//!
//! The values are those of the public Mach-O file format
//! (`<mach-o/loader.h>`, `<mach-o/nlist.h>`, `<mach/machine.h>`).
use vstd::prelude::*;

verus! {

/// `mach_header_64.magic` for a 64-bit little-endian Mach-O.
pub const MH_MAGIC_64: u32 = 0xfeed_facf;

/// `mach_header_64.cputype` for ARM64/AArch64.
pub const CPU_TYPE_ARM64: u32 = 0x0100_000c;

/// `mach_header_64.filetype` for a standalone executable.
pub const MH_EXECUTE: u32 = 0x2;

pub const LC_REQ_DYLD: u32 = 0x8000_0000;

pub const LC_SEGMENT_64: u32 = 0x19;

pub const LC_UNIXTHREAD: u32 = 0x5;

pub const LC_MAIN: u32 = 0x28 | LC_REQ_DYLD;

pub const LC_SYMTAB: u32 = 0x2;

pub const LC_LOAD_DYLIB: u32 = 0xc;

/// Thread-state flavor for `LC_UNIXTHREAD` on ARM64 (`ARM_THREAD_STATE64`).
pub const ARM_THREAD_STATE64: u32 = 6;

/// `nlist_64.n_type` mask of the debugging-entry bits.
pub const N_STAB: u8 = 0xe0;

/// `nlist_64.n_type` mask of the symbol-type bits.
pub const N_TYPE: u8 = 0x0e;

/// `nlist_64.n_type` bit of an external symbol.
pub const N_EXT: u8 = 0x01;

/// `nlist_64.n_type` symbol type of an undefined symbol.
pub const N_UNDF: u8 = 0x00;

/// `vm_prot_t` bit for read access.
pub const VM_PROT_READ: u32 = 0x1;

/// `vm_prot_t` bit for write access.
pub const VM_PROT_WRITE: u32 = 0x2;

/// `vm_prot_t` bit for execute access.
pub const VM_PROT_EXECUTE: u32 = 0x4;

/// Memory protection for a segment, decoded from `vm_prot_t`.
#[derive(Debug, Clone, Copy, PartialEq, Eq, Structural, Default)]
pub struct Prot {
    pub read: bool,
    pub write: bool,
    pub execute: bool,
}

/// The protection that the `vm_prot_t` bits `bits` stand for.
pub open spec fn prot_of(bits: u32) -> Prot {
    Prot {
        read: bits & VM_PROT_READ != 0,
        write: bits & VM_PROT_WRITE != 0,
        execute: bits & VM_PROT_EXECUTE != 0,
    }
}

impl From<u32> for Prot {
    fn from(bits: u32) -> (p: Self) {
        Prot {
            read: bits & VM_PROT_READ != 0,
            write: bits & VM_PROT_WRITE != 0,
            execute: bits & VM_PROT_EXECUTE != 0,
        }
    }
}

impl vstd::std_specs::convert::FromSpecImpl<u32> for Prot {
    open spec fn obeys_from_spec() -> bool {
        true
    }

    open spec fn from_spec(bits: u32) -> Self {
        prot_of(bits)
    }
}

/// One `LC_SEGMENT_64` load command, describing a range of the file that
/// should be mapped into the process's address space.
#[derive(Debug, Clone, PartialEq, Eq)]
pub struct Segment {
    /// Segment name, e.g. `__TEXT`, `__DATA` (NUL-trimmed).
    pub name: String,
    pub vmaddr: u64,
    pub vmsize: u64,
    pub fileoff: u64,
    pub filesize: u64,
    pub maxprot: Prot,
    pub initprot: Prot,
}

/// A segment with its name taken as characters.
pub struct SegmentModel {
    pub name: Seq<char>,
    pub vmaddr: u64,
    pub vmsize: u64,
    pub fileoff: u64,
    pub filesize: u64,
    pub maxprot: Prot,
    pub initprot: Prot,
}

impl View for Segment {
    type V = SegmentModel;

    open spec fn view(&self) -> SegmentModel {
        SegmentModel {
            name: self.name@,
            vmaddr: self.vmaddr,
            vmsize: self.vmsize,
            fileoff: self.fileoff,
            filesize: self.filesize,
            maxprot: self.maxprot,
            initprot: self.initprot,
        }
    }
}

/// Where execution should begin.
#[derive(Debug, Clone, Copy, PartialEq, Eq, Structural)]
pub enum Entry {
    /// From `LC_MAIN`: offset from the `__TEXT` segment's file offset.
    /// The loader adds this to `__TEXT`'s `vmaddr` (after any ASLR slide)
    /// to get the runtime entry address.
    TextOffset(u64),
    /// From `LC_UNIXTHREAD`: an absolute initial program-counter value
    /// taken directly from the embedded ARM64 thread state.
    AbsolutePc(u64),
}

/// An undefined external symbol that an image needs bound.
#[derive(Debug, Clone, PartialEq, Eq)]
pub struct Import {
    pub name: String,
}

impl View for Import {
    type V = Seq<char>;

    open spec fn view(&self) -> Seq<char> {
        self.name@
    }
}

/// A defined external symbol that an image makes available.
#[derive(Debug, Clone, PartialEq, Eq)]
pub struct Export {
    pub name: String,
    pub value: u64,
}

impl View for Export {
    type V = (Seq<char>, u64);

    open spec fn view(&self) -> (Seq<char>, u64) {
        (self.name@, self.value)
    }
}

} // verus!
