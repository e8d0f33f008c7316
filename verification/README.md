# iosonandroid

Pieces of a userspace binary-compatibility layer for running ARM64 iOS
programs on Android, written in Verus and proved against their contracts.

- `src/` — the verified library:
  - `cursor`, `format`, `parse`: the Mach-O64 parser. `parse::spec_parse`
    states what a file holds, header field by header field and load command
    by load command, with the first error when something is wrong;
    `parse::parse` is proved to compute exactly it.
  - `darwin`, `translate`, `ptrace`: Darwin-to-Linux syscall translation,
    the carry-flag return convention, and the register rewriting a tracer
    does at syscall entry and exit.
  - `registry`, `libsystem`, `objc`, `arc`, `sync`: symbol resolution, the
    libSystem registrations, the Objective-C class/method/ivar model and
    `objc_msgSend` dispatch (nil messaging included), reference counting,
    and the atomic steps of the futex mutex protocol. Each atomic step hands
    the value it observed to an exact function (`release_outcome_of`,
    `retained_count`, `progress_of`, `must_wake`) that decides what it
    reports.
  - `memory`: Metal storage modes as Vulkan memory properties, the
    memory-type lookup and the choice of a compute queue family.
  - `fixture`: a hand-assembled minimal ARM64 executable, byte for byte,
    proved to be an image that `parse` accepts with its entry at `0x1_0080`.
- `tests/` — tests of the library on concrete inputs.
- `app/` — the host side: the fixture-writing command, the futex calls,
  the ptrace loop, the `extern "C"` libSystem shims and the Vulkan backend.
