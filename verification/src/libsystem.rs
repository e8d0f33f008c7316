//! The `libSystem` subset: this library registers the Darwin symbol names
//! (`_malloc`, `_free`, `_memcpy`, `_strlen`) of the shims that forward to
//! bionic. The shims themselves are `extern "C"` functions of the host
//! program; their addresses are the host's to hand in.
use vstd::prelude::*;
use crate::registry::Registry;

verus! {

/// The addresses of the four `libSystem` shims in the running process.
#[derive(Debug, Clone, Copy, PartialEq, Eq)]
pub struct ShimAddresses {
    pub malloc: u64,
    pub free: u64,
    pub memcpy: u64,
    pub strlen: u64,
}

/// Registers the shims into `registry` under their Darwin symbol names
/// (underscore-prefixed, as Mach-O symbol names are), so that
/// [`Registry::resolve`] can satisfy a binary's imports of them.
pub fn register(registry: &mut Registry, shims: &ShimAddresses)
    ensures
        final(registry)@ == old(registry)@.insert("_malloc"@, shims.malloc).insert(
            "_free"@,
            shims.free,
        ).insert("_memcpy"@, shims.memcpy).insert("_strlen"@, shims.strlen),
{
    registry.define("_malloc", shims.malloc);
    registry.define("_free", shims.free);
    registry.define("_memcpy", shims.memcpy);
    registry.define("_strlen", shims.strlen);
}

} // verus!
