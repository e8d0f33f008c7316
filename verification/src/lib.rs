//! A userspace binary-compatibility layer for running ARM64 iOS programs on
//! Android, verified with Verus.
//!
//! - [`cursor`], [`format`], [`parse`]: the Mach-O64 container parser.
//! - [`darwin`], [`translate`], [`ptrace`]: Darwin-to-Linux syscall
//!   translation and the register rewriting that the tracer applies around
//!   each syscall.
//! - [`registry`], [`objc`], [`arc`], [`sync`], [`libsystem`]: the runtime
//!   shim (symbol resolution, the Objective-C object model, reference
//!   counting, the futex mutex protocol, the libSystem subset).
//! - [`memory`]: Metal storage modes translated to Vulkan memory properties.
//! - [`fixture`]: a hand-assembled minimal Mach-O executable.

pub mod cursor;
pub mod format;
pub(crate) mod text;
pub mod parse;
pub mod darwin;
pub mod translate;
pub mod ptrace;
pub mod registry;
pub mod objc;
pub mod arc;
pub mod sync;
pub mod libsystem;
pub mod memory;
pub mod fixture;
