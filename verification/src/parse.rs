//! The Mach-O64 parser: header, `LC_SEGMENT_64`, `LC_MAIN`,
//! `LC_UNIXTHREAD` (ARM64 flavor), `LC_SYMTAB` and `LC_LOAD_DYLIB`.
//!
//! [`spec_parse`] states what an image is, byte by byte and in the order in
//! which the checks apply; [`parse`] is proved to compute exactly it, error
//! for error.
use vstd::prelude::*;
use vstd::utf8::{decode_utf8, valid_utf8};
use crate::cursor::{
    c_string_at, first_nul_in, lemma_first_nul_skip, le_u16, le_u32, le_u64, no_nul_in, Cursor,
    OutOfBounds,
};
use vstd::slice::slice_subrange;
use crate::format::{
    prot_of, Entry, Export, Import, Prot, Segment, SegmentModel, ARM_THREAD_STATE64,
    CPU_TYPE_ARM64, LC_LOAD_DYLIB, LC_MAIN, LC_SEGMENT_64, LC_SYMTAB, LC_UNIXTHREAD, MH_EXECUTE,
    MH_MAGIC_64, N_EXT, N_STAB, N_TYPE, N_UNDF,
};
use crate::text::{str_eq, string_from_utf8};

verus! {

broadcast use Cursor::lemma_position_nonnegative;

/// A successfully parsed Mach-O64 image: everything a loader needs to know
/// to map segments, pick a start address, and resolve symbols.
#[derive(Debug, Clone, PartialEq, Eq)]
pub struct MachOImage {
    pub cputype: u32,
    pub filetype: u32,
    pub segments: Vec<Segment>,
    pub entry: Entry,
    /// Names from this image's `LC_LOAD_DYLIB` commands, in file order.
    pub dylibs: Vec<String>,
    /// Undefined external symbols this image needs bound before it can
    /// run correctly.
    pub imports: Vec<Import>,
    /// Defined external symbols this image makes available to others.
    pub exports: Vec<Export>,
}

/// An image with its strings taken as characters.
pub struct ImageModel {
    pub cputype: u32,
    pub filetype: u32,
    pub segments: Seq<SegmentModel>,
    pub entry: Entry,
    pub dylibs: Seq<Seq<char>>,
    pub imports: Seq<Seq<char>>,
    pub exports: Seq<(Seq<char>, u64)>,
}

pub open spec fn segments_model(v: Seq<Segment>) -> Seq<SegmentModel> {
    v.map_values(|s: Segment| s@)
}

pub open spec fn strings_model(v: Seq<String>) -> Seq<Seq<char>> {
    v.map_values(|s: String| s@)
}

pub open spec fn imports_model(v: Seq<Import>) -> Seq<Seq<char>> {
    v.map_values(|i: Import| i@)
}

pub open spec fn exports_model(v: Seq<Export>) -> Seq<(Seq<char>, u64)> {
    v.map_values(|e: Export| e@)
}

impl View for MachOImage {
    type V = ImageModel;

    open spec fn view(&self) -> ImageModel {
        ImageModel {
            cputype: self.cputype,
            filetype: self.filetype,
            segments: segments_model(self.segments@),
            entry: self.entry,
            dylibs: strings_model(self.dylibs@),
            imports: imports_model(self.imports@),
            exports: exports_model(self.exports@),
        }
    }
}

#[derive(Debug, PartialEq, Eq, Structural)]
pub enum LoadError {
    Truncated,
    BadMagic(u32),
    UnsupportedCpuType(u32),
    UnsupportedFileType(u32),
    BadCmdSize { cmd: u32, cmdsize: u32 },
    BadSegname,
    DuplicateEntryPoint,
    DuplicateSymtab,
    MissingEntryPoint,
    MissingTextSegment,
    UnsupportedThreadFlavor(u32),
    Malformed,
}

impl From<OutOfBounds> for LoadError {
    fn from(e: OutOfBounds) -> (r: Self) {
        LoadError::Truncated
    }
}

impl vstd::std_specs::convert::FromSpecImpl<OutOfBounds> for LoadError {
    open spec fn obeys_from_spec() -> bool {
        true
    }

    open spec fn from_spec(e: OutOfBounds) -> Self {
        LoadError::Truncated
    }
}

// ---------------------------------------------------------------------
// What an image is
// ---------------------------------------------------------------------
/// The bytes of a fixed-width name field up to its first NUL (all of it
/// when there is none).
pub open spec fn trim_at_nul(raw: Seq<u8>) -> Seq<u8> {
    match first_nul_in(raw, 0, raw.len() as int) {
        Some(nul) => raw.subrange(0, nul),
        None => raw,
    }
}

/// The `segment_command_64` whose fields start at `at` (just past
/// `cmd`/`cmdsize`).
pub open spec fn spec_segment(b: Seq<u8>, at: int) -> Result<SegmentModel, LoadError> {
    if at + 16 > b.len() {
        Err(LoadError::Truncated)
    } else if !valid_utf8(trim_at_nul(b.subrange(at, at + 16))) {
        Err(LoadError::BadSegname)
    } else if at + 64 > b.len() {
        Err(LoadError::Truncated)
    } else {
        Ok(
            SegmentModel {
                name: decode_utf8(trim_at_nul(b.subrange(at, at + 16))),
                vmaddr: le_u64(b, at + 16),
                vmsize: le_u64(b, at + 24),
                fileoff: le_u64(b, at + 32),
                filesize: le_u64(b, at + 40),
                maxprot: prot_of(le_u32(b, at + 48)),
                initprot: prot_of(le_u32(b, at + 52)),
            },
        )
    }
}

/// The load commands read so far.
pub struct CommandsModel {
    pub segments: Seq<SegmentModel>,
    pub entry: Option<Entry>,
    pub dylibs: Seq<Seq<char>>,
    /// `(symoff, nsyms, stroff, strsize)` of the `LC_SYMTAB` command.
    pub symtab: Option<(u32, u32, u32, u32)>,
}

pub open spec fn no_commands() -> CommandsModel {
    CommandsModel { segments: seq![], entry: None, dylibs: seq![], symtab: None }
}

/// Records the entry point `e`; an image has at most one.
pub open spec fn spec_set_entry(st: CommandsModel, e: Entry) -> Result<CommandsModel, LoadError> {
    if st.entry is Some {
        Err(LoadError::DuplicateEntryPoint)
    } else {
        Ok(CommandsModel { entry: Some(e), ..st })
    }
}

/// The initial PC of the `LC_UNIXTHREAD` command at `cmd_start` that ends
/// at `next`: `None` for a thread-state flavor other than
/// `ARM_THREAD_STATE64`. Only the classic 33-register layout (x0..x28, fp,
/// lr, sp, pc) is understood: a state of any other length, such as one
/// with pointer-authentication flags appended, is an unsupported flavor.
pub open spec fn spec_unixthread_pc(b: Seq<u8>, cmd_start: int, next: int) -> Result<
    Option<u64>,
    LoadError,
> {
    let at = cmd_start + 8;
    if at + 8 > b.len() {
        Err(LoadError::Truncated)
    } else {
        let flavor = le_u32(b, at);
        let state_len = le_u32(b, at + 4) * 4;
        let state_start = at + 8;
        if state_len > usize::MAX || state_start + state_len > usize::MAX || state_start
            + state_len > next {
            Err(LoadError::Malformed)
        } else if flavor != ARM_THREAD_STATE64 {
            Ok(None)
        } else if state_len != 33 * 8 {
            Err(LoadError::UnsupportedThreadFlavor(flavor))
        } else {
            Ok(Some(le_u64(b, state_start + 32 * 8)))
        }
    }
}

/// The name of the `LC_LOAD_DYLIB` command at `cmd_start` that ends at
/// `next`: a NUL-terminated string at `cmd_start + name_offset`.
pub open spec fn spec_dylib_name(b: Seq<u8>, cmd_start: int, next: int) -> Result<
    Seq<char>,
    LoadError,
> {
    let at = cmd_start + 8;
    if at + 16 > b.len() {
        Err(LoadError::Truncated)
    } else if cmd_start + le_u32(b, at) > usize::MAX {
        Err(LoadError::Malformed)
    } else {
        match c_string_at(b, cmd_start + le_u32(b, at), next) {
            None => Err(LoadError::Truncated),
            Some(name) => if valid_utf8(name) {
                Ok(decode_utf8(name))
            } else {
                Err(LoadError::Malformed)
            },
        }
    }
}

/// What the load command `cmd` at `cmd_start`, ending at `next`, adds to
/// `st`. Commands other than the five understood ones add nothing.
pub open spec fn spec_command_body(
    b: Seq<u8>,
    cmd: u32,
    cmd_start: int,
    next: int,
    st: CommandsModel,
) -> Result<CommandsModel, LoadError> {
    let at = cmd_start + 8;
    if cmd == LC_SEGMENT_64 {
        match spec_segment(b, at) {
            Ok(seg) => Ok(CommandsModel { segments: st.segments.push(seg), ..st }),
            Err(e) => Err(e),
        }
    } else if cmd == LC_MAIN {
        if at + 16 > b.len() {
            Err(LoadError::Truncated)
        } else {
            spec_set_entry(st, Entry::TextOffset(le_u64(b, at)))
        }
    } else if cmd == LC_UNIXTHREAD {
        match spec_unixthread_pc(b, cmd_start, next) {
            Ok(Some(pc)) => spec_set_entry(st, Entry::AbsolutePc(pc)),
            Ok(None) => Ok(st),
            Err(e) => Err(e),
        }
    } else if cmd == LC_SYMTAB {
        if st.symtab is Some {
            Err(LoadError::DuplicateSymtab)
        } else if at + 16 > b.len() {
            Err(LoadError::Truncated)
        } else {
            Ok(
                CommandsModel {
                    symtab: Some(
                        (le_u32(b, at), le_u32(b, at + 4), le_u32(b, at + 8), le_u32(b, at + 12)),
                    ),
                    ..st
                },
            )
        }
    } else if cmd == LC_LOAD_DYLIB {
        match spec_dylib_name(b, cmd_start, next) {
            Ok(name) => Ok(CommandsModel { dylibs: st.dylibs.push(name), ..st }),
            Err(e) => Err(e),
        }
    } else {
        Ok(st)
    }
}

/// The load command at `cmd_start`: where the next one starts, and what
/// this one adds to `st`. Each command is skipped by its own `cmdsize`,
/// which must stay within the `sizeofcmds` region ending at `cmds_end`.
pub open spec fn spec_command(b: Seq<u8>, cmds_end: int, cmd_start: int, st: CommandsModel) -> Result<
    (int, CommandsModel),
    LoadError,
> {
    if cmd_start >= cmds_end {
        Err(LoadError::Malformed)
    } else if cmd_start + 8 > b.len() {
        Err(LoadError::Truncated)
    } else {
        let cmd = le_u32(b, cmd_start);
        let cmdsize = le_u32(b, cmd_start + 4);
        if cmdsize < 8 {
            Err(LoadError::BadCmdSize { cmd, cmdsize })
        } else if cmd_start + cmdsize > usize::MAX {
            Err(LoadError::Malformed)
        } else if cmd_start + cmdsize > cmds_end {
            Err(LoadError::BadCmdSize { cmd, cmdsize })
        } else {
            match spec_command_body(b, cmd, cmd_start, cmd_start + cmdsize, st) {
                Ok(st2) => Ok((cmd_start + cmdsize, st2)),
                Err(e) => Err(e),
            }
        }
    }
}

/// The `n` load commands starting at `cmd_start`, added to `st` in file
/// order.
pub open spec fn spec_commands(
    b: Seq<u8>,
    cmds_end: int,
    cmd_start: int,
    n: nat,
    st: CommandsModel,
) -> Result<CommandsModel, LoadError>
    decreases n,
{
    if n == 0 {
        Ok(st)
    } else {
        match spec_command(b, cmds_end, cmd_start, st) {
            Ok((next, st2)) => spec_commands(b, cmds_end, next, (n - 1) as nat, st2),
            Err(e) => Err(e),
        }
    }
}

/// Imports and exports so far.
pub type SymbolsModel = (Seq<Seq<char>>, Seq<(Seq<char>, u64)>);

/// The `n` `nlist_64` entries starting at `at`, names taken from the
/// string table `[str_start, str_end)`, split into imports (undefined
/// external symbols) and exports (defined external symbols); debugging
/// entries, local symbols and empty names are skipped.
pub open spec fn spec_symbols(
    b: Seq<u8>,
    at: int,
    n: nat,
    str_start: int,
    str_end: int,
    acc: SymbolsModel,
) -> Result<SymbolsModel, LoadError>
    decreases n,
{
    if n == 0 {
        Ok(acc)
    } else if at + 16 > b.len() {
        Err(LoadError::Truncated)
    } else {
        let n_strx = le_u32(b, at);
        let n_type = b[at + 4];
        let n_value = le_u64(b, at + 8);
        let rest = (n - 1) as nat;
        if n_type & N_STAB != 0 || n_type & N_EXT == 0 {
            spec_symbols(b, at + 16, rest, str_start, str_end, acc)
        } else if str_start + n_strx > usize::MAX {
            Err(LoadError::Malformed)
        } else {
            match c_string_at(b, str_start + n_strx, str_end) {
                None => Err(LoadError::Truncated),
                Some(name) => if !valid_utf8(name) {
                    Err(LoadError::Malformed)
                } else if name.len() == 0 {
                    spec_symbols(b, at + 16, rest, str_start, str_end, acc)
                } else if n_type & N_TYPE == N_UNDF {
                    spec_symbols(
                        b,
                        at + 16,
                        rest,
                        str_start,
                        str_end,
                        (acc.0.push(decode_utf8(name)), acc.1),
                    )
                } else {
                    spec_symbols(
                        b,
                        at + 16,
                        rest,
                        str_start,
                        str_end,
                        (acc.0, acc.1.push((decode_utf8(name), n_value))),
                    )
                },
            }
        }
    }
}

/// The classic symbol table: `nsyms` entries at file offset `symoff`,
/// names in the `strsize` bytes at file offset `stroff`.
pub open spec fn spec_symtab(b: Seq<u8>, symoff: u32, nsyms: u32, stroff: u32, strsize: u32) -> Result<
    SymbolsModel,
    LoadError,
> {
    if stroff + strsize > usize::MAX {
        Err(LoadError::Malformed)
    } else if stroff + strsize > b.len() {
        Err(LoadError::Truncated)
    } else if symoff > b.len() {
        Err(LoadError::Truncated)
    } else {
        spec_symbols(
            b,
            symoff as int,
            nsyms as nat,
            stroff as int,
            stroff + strsize,
            (seq![], seq![]),
        )
    }
}

/// The Mach-O64 ARM64 executable that `b` holds, or the first thing wrong
/// with it.
pub open spec fn spec_parse(b: Seq<u8>) -> Result<ImageModel, LoadError> {
    if b.len() < 4 {
        Err(LoadError::Truncated)
    } else if le_u32(b, 0) != MH_MAGIC_64 {
        Err(LoadError::BadMagic(le_u32(b, 0)))
    } else if b.len() < 8 {
        Err(LoadError::Truncated)
    } else if le_u32(b, 4) != CPU_TYPE_ARM64 {
        Err(LoadError::UnsupportedCpuType(le_u32(b, 4)))
    } else if b.len() < 16 {
        Err(LoadError::Truncated)
    } else if le_u32(b, 12) != MH_EXECUTE {
        Err(LoadError::UnsupportedFileType(le_u32(b, 12)))
    } else if b.len() < 32 {
        Err(LoadError::Truncated)
    } else {
        let cmds_end = 32 + le_u32(b, 20);
        if cmds_end > usize::MAX {
            Err(LoadError::Malformed)
        } else if cmds_end > b.len() {
            Err(LoadError::Truncated)
        } else {
            match spec_commands(b, cmds_end, 32, le_u32(b, 16) as nat, no_commands()) {
                Err(e) => Err(e),
                Ok(st) => {
                    let symbols = match st.symtab {
                        Some((symoff, nsyms, stroff, strsize)) => spec_symtab(
                            b,
                            symoff,
                            nsyms,
                            stroff,
                            strsize,
                        ),
                        None => Ok((seq![], seq![])),
                    };
                    match symbols {
                        Err(e) => Err(e),
                        Ok((imports, exports)) => match st.entry {
                            None => Err(LoadError::MissingEntryPoint),
                            Some(entry) => Ok(
                                ImageModel {
                                    cputype: le_u32(b, 4),
                                    filetype: le_u32(b, 12),
                                    segments: st.segments,
                                    entry,
                                    dylibs: st.dylibs,
                                    imports,
                                    exports,
                                },
                            ),
                        },
                    }
                },
            }
        }
    }
}

/// The index of the first segment named `__TEXT` at or after `from`.
pub open spec fn text_index_from(segs: Seq<SegmentModel>, from: int) -> Option<int>
    decreases segs.len() - from,
{
    if from < 0 || from >= segs.len() {
        None
    } else if segs[from].name == "__TEXT"@ {
        Some(from)
    } else {
        text_index_from(segs, from + 1)
    }
}

/// The absolute entry address of `img` in its own (unslid) address space.
pub open spec fn spec_entry_vmaddr(img: ImageModel) -> Result<u64, LoadError> {
    match img.entry {
        Entry::AbsolutePc(pc) => Ok(pc),
        Entry::TextOffset(off) => match text_index_from(img.segments, 0) {
            None => Err(LoadError::MissingTextSegment),
            Some(i) => if img.segments[i].vmaddr + off > u64::MAX {
                Err(LoadError::Malformed)
            } else {
                Ok((img.segments[i].vmaddr + off) as u64)
            },
        },
    }
}


// ---------------------------------------------------------------------
// Reading it
// ---------------------------------------------------------------------
fn read_u8(c: &mut Cursor) -> (r: Result<u8, LoadError>)
    ensures
        final(c).data() == old(c).data(),
        r is Ok <==> old(c).position() + 1 <= old(c).data().len(),
        r matches Ok(v) ==> v == old(c).data()[old(c).position()] && final(c).position()
            == old(c).position() + 1,
        r is Err ==> r == Err::<u8, LoadError>(LoadError::Truncated),
{
    match c.u8() {
        Ok(v) => Ok(v),
        Err(e) => Err(LoadError::from(e)),
    }
}

fn read_u16(c: &mut Cursor) -> (r: Result<u16, LoadError>)
    ensures
        final(c).data() == old(c).data(),
        r is Ok <==> old(c).position() + 2 <= old(c).data().len(),
        r matches Ok(v) ==> v == le_u16(old(c).data(), old(c).position()) && final(c).position()
            == old(c).position() + 2,
        r is Err ==> r == Err::<u16, LoadError>(LoadError::Truncated),
{
    match c.u16() {
        Ok(v) => Ok(v),
        Err(e) => Err(LoadError::from(e)),
    }
}

fn read_u32(c: &mut Cursor) -> (r: Result<u32, LoadError>)
    ensures
        final(c).data() == old(c).data(),
        r is Ok <==> old(c).position() + 4 <= old(c).data().len(),
        r matches Ok(v) ==> v == le_u32(old(c).data(), old(c).position()) && final(c).position()
            == old(c).position() + 4,
        r is Err ==> r == Err::<u32, LoadError>(LoadError::Truncated),
{
    match c.u32() {
        Ok(v) => Ok(v),
        Err(e) => Err(LoadError::from(e)),
    }
}

fn read_u64(c: &mut Cursor) -> (r: Result<u64, LoadError>)
    ensures
        final(c).data() == old(c).data(),
        r is Ok <==> old(c).position() + 8 <= old(c).data().len(),
        r matches Ok(v) ==> v == le_u64(old(c).data(), old(c).position()) && final(c).position()
            == old(c).position() + 8,
        r is Err ==> r == Err::<u64, LoadError>(LoadError::Truncated),
{
    match c.u64() {
        Ok(v) => Ok(v),
        Err(e) => Err(LoadError::from(e)),
    }
}

fn set_entry(slot: &mut Option<Entry>, value: Entry) -> (r: Result<(), LoadError>)
    ensures
        old(slot).is_some() ==> r == Err::<(), LoadError>(LoadError::DuplicateEntryPoint)
            && *final(slot) == *old(slot),
        old(slot).is_none() ==> r is Ok && *final(slot) == Some(value),
{
    if slot.is_some() {
        return Err(LoadError::DuplicateEntryPoint);
    }
    *slot = Some(value);
    Ok(())
}

fn parse_segment(c: &mut Cursor) -> (r: Result<Segment, LoadError>)
    ensures
        final(c).data() == old(c).data(),
        match spec_segment(old(c).data(), old(c).position()) {
            Ok(m) => r matches Ok(s) && s@ == m && final(c).position() == old(c).position() + 64,
            Err(e) => r == Err::<Segment, LoadError>(e),
        },
{
    let ghost b = c.data();
    let ghost at = c.position();
    let segname_raw = match c.bytes(16) {
        Ok(s) => s,
        Err(e) => return Err(LoadError::from(e)),
    };
    assert(at + 16 <= b.len());
    assert(segname_raw@ == b.subrange(at, at + 16));
    let mut nul: usize = 0;
    while nul < 16 && segname_raw[nul] != 0
        invariant
            segname_raw@.len() == 16,
            nul <= 16,
            no_nul_in(segname_raw@, 0, nul as int),
        decreases 16 - nul,
    {
        nul = nul + 1;
    }
    proof {
        lemma_first_nul_skip(segname_raw@, 0, nul as int, 16);
        assert(segname_raw@ == b.subrange(at, at + 16));
        if nul == 16 {
            assert(segname_raw@.subrange(0, 16) =~= segname_raw@);
        }
    }
    let trimmed = slice_subrange(segname_raw, 0, nul);
    assert(trimmed@ == trim_at_nul(b.subrange(at, at + 16)));
    let name = match string_from_utf8(trimmed) {
        Some(s) => s,
        None => return Err(LoadError::BadSegname),
    };
    let vmaddr = read_u64(c)?;
    let vmsize = read_u64(c)?;
    let fileoff = read_u64(c)?;
    let filesize = read_u64(c)?;
    let maxprot = Prot::from(read_u32(c)?);
    let initprot = Prot::from(read_u32(c)?);
    let _nsects = read_u32(c)?;
    let _flags = read_u32(c)?;
    Ok(Segment { name, vmaddr, vmsize, fileoff, filesize, maxprot, initprot })
}


/// The classic (non-pointer-authentication) ARM64 thread state: x0..x28,
/// fp, lr, sp, pc.
const CLASSIC_WORDS: usize = 33;

/// Extracts the initial PC from an `LC_UNIXTHREAD`'s `ARM_THREAD_STATE64`
/// blob; newer layouts are reported as
/// [`LoadError::UnsupportedThreadFlavor`] rather than misread.
fn parse_unixthread(c: &mut Cursor, cmd_start: usize, next_cmd: usize) -> (r: Result<
    Option<u64>,
    LoadError,
>)
    requires
        old(c).position() == cmd_start + 8,
        next_cmd <= old(c).data().len(),
    ensures
        final(c).data() == old(c).data(),
        r == spec_unixthread_pc(old(c).data(), cmd_start as int, next_cmd as int),
{
    let ghost b = c.data();
    let flavor = read_u32(c)?;
    let count = read_u32(c)?;
    let state_len = match (count as usize).checked_mul(4) {
        Some(n) => n,
        None => return Err(LoadError::Malformed),
    };
    let state_start = c.pos();
    let state_end = match state_start.checked_add(state_len) {
        Some(e) => e,
        None => return Err(LoadError::Malformed),
    };
    if state_end > next_cmd || cmd_start >= state_start {
        return Err(LoadError::Malformed);
    }
    if flavor != ARM_THREAD_STATE64 {
        return Ok(None);
    }
    if state_len != CLASSIC_WORDS * 8 {
        return Err(LoadError::UnsupportedThreadFlavor(flavor));
    }
    let pc_offset = (CLASSIC_WORDS - 1) * 8;
    let save = c.pos();
    match c.seek(state_start + pc_offset) {
        Ok(()) => {},
        Err(e) => return Err(LoadError::from(e)),
    }
    let pc = read_u64(c)?;
    match c.seek(save) {
        Ok(()) => {},
        Err(e) => return Err(LoadError::from(e)),
    }
    Ok(Some(pc))
}

/// `LC_LOAD_DYLIB`'s `dylib_command`: after `cmd`/`cmdsize`, the name's
/// byte offset from `cmd_start`, then `timestamp`, `current_version` and
/// `compatibility_version`; the NUL-terminated name itself lies at
/// `cmd_start + name_offset`.
fn parse_dylib_name(c: &Cursor, cmd_start: usize, next_cmd: usize) -> (r: Result<
    String,
    LoadError,
>)
    requires
        c.position() == cmd_start + 8,
        next_cmd <= c.data().len(),
    ensures
        match spec_dylib_name(c.data(), cmd_start as int, next_cmd as int) {
            Ok(name) => r matches Ok(s) && s@ == name,
            Err(e) => r == Err::<String, LoadError>(e),
        },
{
    let mut c = *c;
    let name_offset = read_u32(&mut c)?;
    let _timestamp = read_u32(&mut c)?;
    let _current_version = read_u32(&mut c)?;
    let _compat_version = read_u32(&mut c)?;
    let name_start = match cmd_start.checked_add(name_offset as usize) {
        Some(s) => s,
        None => return Err(LoadError::Malformed),
    };
    let name_bytes = match c.cstr_bytes_at(name_start, next_cmd) {
        Ok(n) => n,
        Err(e) => return Err(LoadError::from(e)),
    };
    match string_from_utf8(name_bytes) {
        Some(s) => Ok(s),
        None => Err(LoadError::Malformed),
    }
}

/// The load commands read so far.
struct Commands {
    segments: Vec<Segment>,
    entry: Option<Entry>,
    dylibs: Vec<String>,
    symtab: Option<(u32, u32, u32, u32)>,
}

impl View for Commands {
    type V = CommandsModel;

    closed spec fn view(&self) -> CommandsModel {
        CommandsModel {
            segments: segments_model(self.segments@),
            entry: self.entry,
            dylibs: strings_model(self.dylibs@),
            symtab: self.symtab,
        }
    }
}

/// Reads the load command at the cursor and adds it to `st`, leaving the
/// cursor at the next command.
fn parse_load_command(c: &mut Cursor, cmds_end: usize, st: &mut Commands) -> (r: Result<
    (),
    LoadError,
>)
    requires
        cmds_end <= old(c).data().len(),
    ensures
        final(c).data() == old(c).data(),
        match spec_command(old(c).data(), cmds_end as int, old(c).position(), old(st)@) {
            Ok((next, st2)) => r is Ok && final(c).position() == next && final(st)@ == st2,
            Err(e) => r == Err::<(), LoadError>(e),
        },
        r is Ok ==> final(c).position() == old(c).position() + le_u32(
            old(c).data(),
            old(c).position() + 4,
        ),
{
    proof {
        law_commands_are_skipped_by_cmdsize(c.data(), cmds_end as int, c.position(), st@);
    }
    let ghost b = c.data();
    let cmd_start = c.pos();
    if cmd_start >= cmds_end {
        return Err(LoadError::Malformed);
    }
    let cmd = read_u32(c)?;
    let cmdsize = read_u32(c)?;
    if cmdsize < 8 {
        return Err(LoadError::BadCmdSize { cmd, cmdsize });
    }
    let next_cmd = match cmd_start.checked_add(cmdsize as usize) {
        Some(n) => n,
        None => return Err(LoadError::Malformed),
    };
    if next_cmd > cmds_end {
        return Err(LoadError::BadCmdSize { cmd, cmdsize });
    }
    let ghost st0 = st@;
    if cmd == LC_SEGMENT_64 {
        let seg = parse_segment(c)?;
        st.segments.push(seg);
        assert(segments_model(st.segments@) =~= st0.segments.push(seg@));
    } else if cmd == LC_MAIN {
        let entryoff = read_u64(c)?;
        let _stacksize = read_u64(c)?;
        set_entry(&mut st.entry, Entry::TextOffset(entryoff))?;
    } else if cmd == LC_UNIXTHREAD {
        if let Some(pc) = parse_unixthread(c, cmd_start, next_cmd)? {
            set_entry(&mut st.entry, Entry::AbsolutePc(pc))?;
        }
    } else if cmd == LC_SYMTAB {
        if st.symtab.is_some() {
            return Err(LoadError::DuplicateSymtab);
        }
        let symoff = read_u32(c)?;
        let nsyms = read_u32(c)?;
        let stroff = read_u32(c)?;
        let strsize = read_u32(c)?;
        st.symtab = Some((symoff, nsyms, stroff, strsize));
    } else if cmd == LC_LOAD_DYLIB {
        let name = parse_dylib_name(c, cmd_start, next_cmd)?;
        st.dylibs.push(name);
        assert(strings_model(st.dylibs@) =~= st0.dylibs.push(name@));
    }
    match c.seek(next_cmd) {
        Ok(()) => Ok(()),
        Err(e) => Err(LoadError::from(e)),
    }
}


/// Reads the classic `nlist_64` symbol table at absolute file offsets
/// `symoff`/`stroff`, splitting entries into imports (undefined external
/// symbols) and exports (defined external, non-debug symbols) by their
/// `n_type` bits.
fn parse_symtab(bytes: &[u8], symoff: u32, nsyms: u32, stroff: u32, strsize: u32) -> (r: Result<
    (Vec<Import>, Vec<Export>),
    LoadError,
>)
    ensures
        match spec_symtab(bytes@, symoff, nsyms, stroff, strsize) {
            Ok((imports, exports)) => r matches Ok((iv, ev)) && imports_model(iv@) == imports
                && exports_model(ev@) == exports,
            Err(e) => r matches Err(x) && x == e,
        },
{
    let str_start = stroff as usize;
    let str_end = match str_start.checked_add(strsize as usize) {
        Some(e) => e,
        None => return Err(LoadError::Malformed),
    };
    if str_end > bytes.len() {
        return Err(LoadError::Truncated);
    }
    let mut c = Cursor::new(bytes);
    match c.seek(symoff as usize) {
        Ok(()) => {},
        Err(e) => return Err(LoadError::from(e)),
    }
    let mut imports: Vec<Import> = Vec::new();
    let mut exports: Vec<Export> = Vec::new();
    let ghost whole = spec_symbols(
        bytes@,
        symoff as int,
        nsyms as nat,
        str_start as int,
        str_end as int,
        (seq![], seq![]),
    );
    assert(imports_model(imports@) =~= seq![]);
    assert(exports_model(exports@) =~= seq![]);
    let mut k: u32 = 0;
    while k < nsyms
        invariant
            c.data() == bytes@,
            str_end <= bytes@.len(),
            str_start == stroff,
            str_end == stroff + strsize,
            spec_symtab(bytes@, symoff, nsyms, stroff, strsize) == whole,
            k <= nsyms,
            spec_symbols(
                bytes@,
                c.position(),
                (nsyms - k) as nat,
                str_start as int,
                str_end as int,
                (imports_model(imports@), exports_model(exports@)),
            ) == whole,
        decreases nsyms - k,
    {
        let ghost at = c.position();
        let ghost acc = (imports_model(imports@), exports_model(exports@));
        let n_strx = read_u32(&mut c)?;
        let n_type = read_u8(&mut c)?;
        let _n_sect = read_u8(&mut c)?;
        let _n_desc = read_u16(&mut c)?;
        let n_value = read_u64(&mut c)?;
        k = k + 1;
        assert(n_type == bytes@[at + 4]);
        if n_type & N_STAB != 0 {
            continue;  // debug symbol table entry, not a real symbol
        }
        if n_type & N_EXT == 0 {
            continue;  // private/local symbol, nothing external depends on it
        }
        let name_start = match str_start.checked_add(n_strx as usize) {
            Some(s) => s,
            None => return Err(LoadError::Malformed),
        };
        let name_bytes = match c.cstr_bytes_at(name_start, str_end) {
            Ok(n) => n,
            Err(e) => return Err(LoadError::from(e)),
        };
        let name = match string_from_utf8(name_bytes) {
            Some(s) => s,
            None => return Err(LoadError::Malformed),
        };
        if name_bytes.len() == 0 {
            continue;
        }
        if n_type & N_TYPE == N_UNDF {
            imports.push(Import { name });
            assert(imports_model(imports@) =~= acc.0.push(name@));
        } else {
            exports.push(Export { name, value: n_value });
            assert(exports_model(exports@) =~= acc.1.push((name@, n_value)));
        }
    }
    Ok((imports, exports))
}

/// Parse a Mach-O64 ARM64 executable from `bytes`.
///
/// Understands the header, `LC_SEGMENT_64`, `LC_MAIN`, `LC_UNIXTHREAD`
/// (ARM64 flavor), `LC_SYMTAB` (classic `nlist_64` symbol table) and
/// `LC_LOAD_DYLIB`. Any other load command is skipped via its own
/// `cmdsize`.
pub fn parse(bytes: &[u8]) -> (r: Result<MachOImage, LoadError>)
    ensures
        match r {
            Ok(img) => spec_parse(bytes@) == Ok::<ImageModel, LoadError>(img@),
            Err(e) => spec_parse(bytes@) == Err::<ImageModel, LoadError>(e),
        },
{
    let mut c = Cursor::new(bytes);
    let magic = read_u32(&mut c)?;
    if magic != MH_MAGIC_64 {
        return Err(LoadError::BadMagic(magic));
    }
    let cputype = read_u32(&mut c)?;
    if cputype != CPU_TYPE_ARM64 {
        return Err(LoadError::UnsupportedCpuType(cputype));
    }
    let _cpusubtype = read_u32(&mut c)?;
    let filetype = read_u32(&mut c)?;
    if filetype != MH_EXECUTE {
        return Err(LoadError::UnsupportedFileType(filetype));
    }
    let ncmds = read_u32(&mut c)?;
    let sizeofcmds = read_u32(&mut c)?;
    let _flags = read_u32(&mut c)?;
    let _reserved = read_u32(&mut c)?;

    let cmds_start = c.pos();
    let cmds_end = match cmds_start.checked_add(sizeofcmds as usize) {
        Some(e) => e,
        None => return Err(LoadError::Malformed),
    };
    if cmds_end > bytes.len() {
        return Err(LoadError::Truncated);
    }

    let mut st = Commands { segments: Vec::new(), entry: None, dylibs: Vec::new(), symtab: None };
    assert(st@ =~= no_commands()) by {
        assert(segments_model(st.segments@) =~= seq![]);
        assert(strings_model(st.dylibs@) =~= seq![]);
    }
    let ghost whole = spec_commands(bytes@, cmds_end as int, 32, ncmds as nat, no_commands());
    let mut i: u32 = 0;
    while i < ncmds
        invariant
            c.data() == bytes@,
            cmds_end <= bytes@.len(),
            whole matches Err(e) ==> spec_parse(bytes@) == Err::<ImageModel, LoadError>(e),
            i <= ncmds,
            spec_commands(bytes@, cmds_end as int, c.position(), (ncmds - i) as nat, st@)
                == whole,
        decreases ncmds - i,
    {
        parse_load_command(&mut c, cmds_end, &mut st)?;
        i = i + 1;
    }

    let (imports, exports) = match st.symtab {
        Some((symoff, nsyms, stroff, strsize)) => parse_symtab(
            bytes,
            symoff,
            nsyms,
            stroff,
            strsize,
        )?,
        None => (Vec::new(), Vec::new()),
    };
    assert(imports_model(imports@) =~= seq![] || st.symtab is Some);
    let entry = match st.entry {
        Some(e) => e,
        None => return Err(LoadError::MissingEntryPoint),
    };
    let img = MachOImage {
        cputype,
        filetype,
        segments: st.segments,
        entry,
        dylibs: st.dylibs,
        imports,
        exports,
    };
    assert(st.symtab is None ==> imports_model(img.imports@) =~= seq![] && exports_model(
        img.exports@,
    ) =~= seq![]);
    Ok(img)
}

impl MachOImage {
    /// The first segment named `__TEXT`, if any.
    pub fn text_segment(&self) -> (r: Option<&Segment>)
        ensures
            match text_index_from(self@.segments, 0) {
                Some(i) => r matches Some(s) && s@ == self@.segments[i],
                None => r is None,
            },
    {
        let mut i: usize = 0;
        while i < self.segments.len()
            invariant
                i <= self.segments@.len(),
                text_index_from(self@.segments, 0) == text_index_from(self@.segments, i as int),
            decreases self.segments@.len() - i,
        {
            if str_eq(self.segments[i].name.as_str(), "__TEXT") {
                return Some(&self.segments[i]);
            }
            i = i + 1;
        }
        None
    }

    /// Absolute entry address in the file's own (unslid) address space.
    /// Applying an ASLR slide is the runtime loader's job, not this
    /// crate's.
    pub fn entry_vmaddr(&self) -> (r: Result<u64, LoadError>)
        ensures
            r == spec_entry_vmaddr(self@),
    {
        match self.entry {
            Entry::AbsolutePc(pc) => Ok(pc),
            Entry::TextOffset(off) => {
                let text = match self.text_segment() {
                    Some(t) => t,
                    None => return Err(LoadError::MissingTextSegment),
                };
                match text.vmaddr.checked_add(off) {
                    Some(a) => Ok(a),
                    None => Err(LoadError::Malformed),
                }
            },
        }
    }
}


// ---------------------------------------------------------------------
// Trailing data
// ---------------------------------------------------------------------
/// `b2` begins with `b`.
pub open spec fn extends(b: Seq<u8>, b2: Seq<u8>) -> bool {
    &&& b.len() <= b2.len()
    &&& forall|i: int| 0 <= i < b.len() ==> #[trigger] b2[i] == b[i]
}

proof fn lemma_extends_reads(b: Seq<u8>, b2: Seq<u8>, at: int)
    requires
        extends(b, b2),
        0 <= at,
    ensures
        at + 4 <= b.len() ==> le_u32(b2, at) == le_u32(b, at),
        at + 8 <= b.len() ==> le_u64(b2, at) == le_u64(b, at),
        at + 16 <= b.len() ==> b2.subrange(at, at + 16) == b.subrange(at, at + 16),
{
    if at + 4 <= b.len() {
        assert(b2[at] == b[at] && b2[at + 1] == b[at + 1] && b2[at + 2] == b[at + 2] && b2[at + 3]
            == b[at + 3]);
    }
    if at + 8 <= b.len() {
        assert(b2[at + 4] == b[at + 4] && b2[at + 5] == b[at + 5] && b2[at + 6] == b[at + 6]
            && b2[at + 7] == b[at + 7]);
    }
    if at + 16 <= b.len() {
        assert(b2.subrange(at, at + 16) =~= b.subrange(at, at + 16));
    }
}

proof fn lemma_extends_first_nul(b: Seq<u8>, b2: Seq<u8>, from: int, limit: int)
    requires
        extends(b, b2),
        limit <= b.len(),
    ensures
        first_nul_in(b2, from, limit) == first_nul_in(b, from, limit),
    decreases limit - from,
{
    if from < limit && 0 <= from {
        lemma_extends_first_nul(b, b2, from + 1, limit);
    }
}

proof fn lemma_extends_c_string(b: Seq<u8>, b2: Seq<u8>, start: int, limit: int)
    requires
        extends(b, b2),
        limit <= b.len(),
    ensures
        c_string_at(b2, start, limit) == c_string_at(b, start, limit),
{
    lemma_extends_first_nul(b, b2, start, limit);
    if let Some(nul) = first_nul_in(b, start, limit) {
        if 0 <= start <= limit {
            lemma_first_nul_bounds(b, start, limit);
            assert(b2.subrange(start, nul) =~= b.subrange(start, nul));
        }
    }
}

proof fn lemma_first_nul_bounds(b: Seq<u8>, from: int, limit: int)
    ensures
        first_nul_in(b, from, limit) matches Some(k) ==> from <= k < limit && 0 <= k < b.len(),
    decreases limit - from,
{
    if from < limit && 0 <= from && from < b.len() {
        lemma_first_nul_bounds(b, from + 1, limit);
    }
}

proof fn lemma_extends_command(b: Seq<u8>, b2: Seq<u8>, cmds_end: int, cmd_start: int, st: CommandsModel)
    requires
        extends(b, b2),
        cmds_end <= b.len(),
        0 <= cmd_start,
        spec_command(b, cmds_end, cmd_start, st) is Ok,
    ensures
        spec_command(b2, cmds_end, cmd_start, st) == spec_command(b, cmds_end, cmd_start, st),
{
    lemma_extends_reads(b, b2, cmd_start);
    let cmdsize = le_u32(b, cmd_start + 4);
    let next = cmd_start + cmdsize;
    let at = cmd_start + 8;
    lemma_extends_reads(b, b2, cmd_start + 4);
    lemma_extends_reads(b, b2, at);
    lemma_extends_reads(b, b2, at + 4);
    lemma_extends_reads(b, b2, at + 8);
    lemma_extends_reads(b, b2, at + 12);
    lemma_extends_reads(b, b2, at + 16);
    lemma_extends_reads(b, b2, at + 24);
    lemma_extends_reads(b, b2, at + 32);
    lemma_extends_reads(b, b2, at + 40);
    lemma_extends_reads(b, b2, at + 48);
    lemma_extends_reads(b, b2, at + 52);
    lemma_extends_reads(b, b2, at + 8 + 32 * 8);
    lemma_extends_c_string(b, b2, cmd_start + le_u32(b, at), next);
}

proof fn lemma_extends_commands(
    b: Seq<u8>,
    b2: Seq<u8>,
    cmds_end: int,
    cmd_start: int,
    n: nat,
    st: CommandsModel,
)
    requires
        extends(b, b2),
        cmds_end <= b.len(),
        0 <= cmd_start,
        spec_commands(b, cmds_end, cmd_start, n, st) is Ok,
    ensures
        spec_commands(b2, cmds_end, cmd_start, n, st) == spec_commands(b, cmds_end, cmd_start, n, st),
    decreases n,
{
    if n > 0 {
        lemma_extends_command(b, b2, cmds_end, cmd_start, st);
        if let Ok((next, st2)) = spec_command(b, cmds_end, cmd_start, st) {
            lemma_extends_commands(b, b2, cmds_end, next, (n - 1) as nat, st2);
        }
    }
}

proof fn lemma_extends_symbols(
    b: Seq<u8>,
    b2: Seq<u8>,
    at: int,
    n: nat,
    str_start: int,
    str_end: int,
    acc: SymbolsModel,
)
    requires
        extends(b, b2),
        str_end <= b.len(),
        0 <= at,
        spec_symbols(b, at, n, str_start, str_end, acc) is Ok,
    ensures
        spec_symbols(b2, at, n, str_start, str_end, acc) == spec_symbols(
            b,
            at,
            n,
            str_start,
            str_end,
            acc,
        ),
    decreases n,
{
    if n > 0 {
        lemma_extends_reads(b, b2, at);
        lemma_extends_reads(b, b2, at + 8);
        assert(at + 16 <= b.len() ==> b2[at + 4] == b[at + 4]);
        lemma_extends_c_string(b, b2, str_start + le_u32(b, at), str_end);
        let rest = (n - 1) as nat;
        let next_acc = if b[at + 4] & N_STAB != 0 || b[at + 4] & N_EXT == 0 {
            acc
        } else {
            match c_string_at(b, str_start + le_u32(b, at), str_end) {
                Some(name) => if name.len() == 0 {
                    acc
                } else if b[at + 4] & N_TYPE == N_UNDF {
                    (acc.0.push(decode_utf8(name)), acc.1)
                } else {
                    (acc.0, acc.1.push((decode_utf8(name), le_u64(b, at + 8))))
                },
                None => acc,
            }
        };
        if at + 16 <= b.len() {
            lemma_extends_symbols(b, b2, at + 16, rest, str_start, str_end, next_acc);
        }
    }
}

/// Parsing reads nothing beyond what the file describes: bytes appended
/// after a well-formed image do not change what it parses to.
pub proof fn law_trailing_bytes_do_not_change_an_image(b: Seq<u8>, extra: Seq<u8>)
    requires
        spec_parse(b) is Ok,
    ensures
        spec_parse(b + extra) == spec_parse(b),
{
    let b2 = b + extra;
    assert(extends(b, b2));
    lemma_extends_reads(b, b2, 0);
    lemma_extends_reads(b, b2, 4);
    lemma_extends_reads(b, b2, 12);
    lemma_extends_reads(b, b2, 16);
    lemma_extends_reads(b, b2, 20);
    let cmds_end = 32 + le_u32(b, 20);
    lemma_extends_commands(b, b2, cmds_end, 32, le_u32(b, 16) as nat, no_commands());
    if let Ok(st) = spec_commands(b, cmds_end, 32, le_u32(b, 16) as nat, no_commands()) {
        if let Some((symoff, nsyms, stroff, strsize)) = st.symtab {
            lemma_extends_symbols(
                b,
                b2,
                symoff as int,
                nsyms as nat,
                stroff as int,
                stroff + strsize,
                (seq![], seq![]),
            );
        }
    }
}

/// Every load command is skipped by its own `cmdsize`, whatever its kind
/// and whatever it holds past the fields that are read (such as a
/// segment's section headers): when a command parses, the next one starts
/// exactly `cmdsize` bytes after it, and still inside the `sizeofcmds`
/// region.
pub proof fn law_commands_are_skipped_by_cmdsize(
    b: Seq<u8>,
    cmds_end: int,
    cmd_start: int,
    st: CommandsModel,
)
    ensures
        spec_command(b, cmds_end, cmd_start, st) matches Ok((next, _)) ==> {
            &&& cmd_start + 8 <= b.len()
            &&& le_u32(b, cmd_start + 4) >= 8
            &&& next == cmd_start + le_u32(b, cmd_start + 4)
            &&& next <= cmds_end
        },
{
}

} // verus!
