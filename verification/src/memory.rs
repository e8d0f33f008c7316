//! Metal storage modes translated to Vulkan memory property flags, the
//! lookup of a memory type that can hold a resource, and the choice of a
//! compute-capable queue family.
//!
//! The flags are Vulkan's `VkMemoryPropertyFlags` bits, taken from `ash`;
//! a device's memory types are given by the property flags of each, in
//! index order, as `VkPhysicalDeviceMemoryProperties` lists them.
use ash::vk;
use vstd::prelude::*;

verus! {

/// A simplified stand-in for Metal's `MTLStorageMode`: the two modes that
/// matter for getting data on and off the GPU on iOS.
#[derive(Debug, Clone, Copy, PartialEq, Eq, Structural)]
pub enum StorageMode {
    /// CPU and GPU see the same coherent memory.
    Shared,
    /// GPU-only memory: fastest for the GPU, not CPU-accessible at all.
    Private,
}

/// `vk::MemoryPropertyFlags::DEVICE_LOCAL` (`0b1` in `ash`).
#[verifier::external_body]
fn vk_device_local() -> (r: u32)
    ensures
        r == 0x1,
{
    vk::MemoryPropertyFlags::DEVICE_LOCAL.as_raw()
}

/// `vk::MemoryPropertyFlags::HOST_VISIBLE` (`0b10` in `ash`).
#[verifier::external_body]
fn vk_host_visible() -> (r: u32)
    ensures
        r == 0x2,
{
    vk::MemoryPropertyFlags::HOST_VISIBLE.as_raw()
}

/// `vk::MemoryPropertyFlags::HOST_COHERENT` (`0b100` in `ash`).
#[verifier::external_body]
fn vk_host_coherent() -> (r: u32)
    ensures
        r == 0x4,
{
    vk::MemoryPropertyFlags::HOST_COHERENT.as_raw()
}

/// A set of `VkMemoryPropertyFlagBits`.
#[derive(Debug, Clone, Copy, PartialEq, Eq, Structural)]
pub struct MemoryPropertyFlags {
    pub bits: u32,
}

/// `VK_MEMORY_PROPERTY_DEVICE_LOCAL_BIT`.
pub const DEVICE_LOCAL: u32 = 0x1;

/// `VK_MEMORY_PROPERTY_HOST_VISIBLE_BIT`.
pub const HOST_VISIBLE: u32 = 0x2;

/// `VK_MEMORY_PROPERTY_HOST_COHERENT_BIT`.
pub const HOST_COHERENT: u32 = 0x4;

impl MemoryPropertyFlags {
    pub fn from_raw(bits: u32) -> (f: Self)
        ensures
            f.bits == bits,
    {
        MemoryPropertyFlags { bits }
    }

    pub fn as_raw(&self) -> (r: u32)
        ensures
            r == self.bits,
    {
        self.bits
    }

    /// Whether every flag of `other` is set in `self`.
    pub fn contains(&self, other: MemoryPropertyFlags) -> (r: bool)
        ensures
            r == (self.bits & other.bits == other.bits),
    {
        self.bits & other.bits == other.bits
    }

    /// `HOST_VISIBLE`: memory the host can map.
    pub fn host_visible() -> (f: Self)
        ensures
            f.bits == HOST_VISIBLE,
    {
        MemoryPropertyFlags { bits: vk_host_visible() }
    }
}

/// The memory properties that Metal's storage mode `mode` asks of Vulkan:
/// host-visible and host-coherent memory for `Shared`, device-local memory
/// for `Private`.
pub open spec fn spec_storage_mode_bits(mode: StorageMode) -> u32 {
    match mode {
        StorageMode::Shared => HOST_VISIBLE | HOST_COHERENT,
        StorageMode::Private => DEVICE_LOCAL,
    }
}

pub fn storage_mode_to_memory_properties(mode: StorageMode) -> (f: MemoryPropertyFlags)
    ensures
        f.bits == spec_storage_mode_bits(mode),
{
    match mode {
        StorageMode::Shared => MemoryPropertyFlags { bits: vk_host_visible() | vk_host_coherent() },
        StorageMode::Private => MemoryPropertyFlags { bits: vk_device_local() },
    }
}

/// A device's memory types, in index order, by their property flags: the
/// first `memoryTypeCount` entries of
/// `VkPhysicalDeviceMemoryProperties::memoryTypes`.
#[derive(Debug, Clone, PartialEq, Eq)]
pub struct PhysicalDeviceMemoryProperties {
    pub memory_types: Vec<MemoryPropertyFlags>,
}

/// Memory type `i` of `types` is allowed by `type_bits` and has every
/// property of `required`.
pub open spec fn type_qualifies(
    types: Seq<MemoryPropertyFlags>,
    type_bits: u32,
    required: u32,
    i: int,
) -> bool {
    &&& type_bits & (1u32 << (i as u32)) != 0
    &&& types[i].bits & required == required
}

/// A memory type that `type_bits` allows qualifies whenever its flags
/// hold every required flag, whatever other flags it has besides.
pub proof fn law_memory_type_with_required_flags_qualifies(
    types: Seq<MemoryPropertyFlags>,
    type_bits: u32,
    required: u32,
    more: u32,
    i: int,
)
    requires
        0 <= i < types.len(),
        i < 32,
        (type_bits >> (i as u32)) & 1 == 1,
    ensures
        type_qualifies(
            types.update(i, MemoryPropertyFlags { bits: required | more }),
            type_bits,
            required,
            i,
        ),
{
    let k = i as u32;
    assert(k < 32 && (type_bits >> k) & 1 == 1 ==> type_bits & (1u32 << k) != 0) by (bit_vector);
    assert((required | more) & required == required) by (bit_vector);
}

/// A qualifying memory type is one that `type_bits` allows and whose flags
/// hold every required flag: adding the required flags to it changes
/// nothing.
pub proof fn law_qualifying_memory_type_has_required_flags(
    types: Seq<MemoryPropertyFlags>,
    type_bits: u32,
    required: u32,
    i: int,
)
    requires
        0 <= i < types.len(),
        i < 32,
        type_qualifies(types, type_bits, required, i),
    ensures
        (type_bits >> (i as u32)) & 1 == 1,
        types[i].bits | required == types[i].bits,
{
    let k = i as u32;
    let b = types[i].bits;
    assert(k < 32 && type_bits & (1u32 << k) != 0 ==> (type_bits >> k) & 1 == 1) by (bit_vector);
    assert(b & required == required ==> b | required == b) by (bit_vector);
}

/// The lowest index at or after `from` of a qualifying memory type.
pub open spec fn first_qualifying(
    types: Seq<MemoryPropertyFlags>,
    type_bits: u32,
    required: u32,
    from: int,
) -> Option<int>
    decreases types.len() - from,
{
    if from < 0 || from >= types.len() {
        None
    } else if type_qualifies(types, type_bits, required, from) {
        Some(from)
    } else {
        first_qualifying(types, type_bits, required, from + 1)
    }
}

/// Memory-type lookup finds the lowest-index type that qualifies: the
/// type it finds qualifies, and no type before it does.
pub proof fn law_found_memory_type_is_lowest_qualifying(
    types: Seq<MemoryPropertyFlags>,
    type_bits: u32,
    required: u32,
    from: int,
)
    requires
        0 <= from,
    ensures
        first_qualifying(types, type_bits, required, from) matches Some(i) ==> {
            &&& from <= i < types.len()
            &&& type_qualifies(types, type_bits, required, i)
            &&& forall|j: int| from <= j < i ==> !type_qualifies(types, type_bits, required, j)
        },
        first_qualifying(types, type_bits, required, from) is None ==> forall|j: int|
            from <= j < types.len() ==> !type_qualifies(types, type_bits, required, j),
    decreases types.len() - from,
{
    if from < types.len() {
        law_found_memory_type_is_lowest_qualifying(types, type_bits, required, from + 1);
    }
}

/// Shared and private storage ask for different memory: host-visible,
/// host-coherent and not device-local memory for shared storage;
/// device-local memory only for private storage.
pub proof fn law_storage_modes_differ()
    ensures
        spec_storage_mode_bits(StorageMode::Shared) & HOST_VISIBLE != 0,
        spec_storage_mode_bits(StorageMode::Shared) & HOST_COHERENT != 0,
        spec_storage_mode_bits(StorageMode::Shared) & DEVICE_LOCAL == 0,
        spec_storage_mode_bits(StorageMode::Private) == DEVICE_LOCAL,
        spec_storage_mode_bits(StorageMode::Shared) != spec_storage_mode_bits(StorageMode::Private),
{
    assert((0x2u32 | 0x4u32) & 0x2u32 != 0) by (bit_vector);
    assert((0x2u32 | 0x4u32) & 0x4u32 != 0) by (bit_vector);
    assert((0x2u32 | 0x4u32) & 0x1u32 == 0) by (bit_vector);
    assert((0x2u32 | 0x4u32) != 0x1u32) by (bit_vector);
}

/// Finds the lowest-index memory type that `type_bits` (from
/// `VkMemoryRequirements::memoryTypeBits`) allows and that has all of
/// `required_properties`.
pub fn find_memory_type(
    memory_properties: &PhysicalDeviceMemoryProperties,
    type_bits: u32,
    required_properties: MemoryPropertyFlags,
) -> (r: Option<u32>)
    requires
        memory_properties.memory_types@.len() <= 32,
    ensures
        match first_qualifying(
            memory_properties.memory_types@,
            type_bits,
            required_properties.bits,
            0,
        ) {
            Some(i) => r == Some(i as u32),
            None => r is None,
        },
{
    let ghost types = memory_properties.memory_types@;
    let count = memory_properties.memory_types.len();
    let mut i: usize = 0;
    while i < count
        invariant
            count == types.len(),
            types == memory_properties.memory_types@,
            count <= 32,
            i <= count,
            first_qualifying(types, type_bits, required_properties.bits, 0) == first_qualifying(
                types,
                type_bits,
                required_properties.bits,
                i as int,
            ),
        decreases count - i,
    {
        let type_supported = type_bits & (1u32 << (i as u32)) != 0;
        let properties_supported = memory_properties.memory_types[i].contains(required_properties);
        if type_supported && properties_supported {
            return Some(i as u32);
        }
        i = i + 1;
    }
    None
}

/// `vk::QueueFlags::COMPUTE` (`0b10` in `ash`).
#[verifier::external_body]
fn vk_queue_compute() -> (r: u32)
    ensures
        r == 0x2,
{
    vk::QueueFlags::COMPUTE.as_raw()
}

/// `VK_QUEUE_COMPUTE_BIT`.
pub const QUEUE_COMPUTE: u32 = 0x2;

/// The lowest index at or after `from` of a queue family, given by its
/// `VkQueueFlags`, that supports compute work.
pub open spec fn first_compute_family(queue_flags: Seq<u32>, from: int) -> Option<int>
    decreases queue_flags.len() - from,
{
    if from < 0 || from >= queue_flags.len() {
        None
    } else if queue_flags[from] & QUEUE_COMPUTE != 0 {
        Some(from)
    } else {
        first_compute_family(queue_flags, from + 1)
    }
}

/// The compute queue family chosen is the first that supports compute:
/// the family found supports it, and no family before it does.
pub proof fn law_compute_family_is_first(queue_flags: Seq<u32>, from: int)
    requires
        0 <= from,
    ensures
        first_compute_family(queue_flags, from) matches Some(i) ==> {
            &&& from <= i < queue_flags.len()
            &&& queue_flags[i] & QUEUE_COMPUTE != 0
            &&& forall|j: int| from <= j < i ==> queue_flags[j] & QUEUE_COMPUTE == 0
        },
        first_compute_family(queue_flags, from) is None ==> forall|j: int|
            from <= j < queue_flags.len() ==> queue_flags[j] & QUEUE_COMPUTE == 0,
    decreases queue_flags.len() - from,
{
    if from < queue_flags.len() {
        law_compute_family_is_first(queue_flags, from + 1);
    }
}

/// The queue family that a device's compute work goes to: the first of
/// its families, given in index order by their `VkQueueFlags`, that
/// supports compute; `None` when none does.
pub fn compute_queue_family(queue_flags: &[u32]) -> (r: Option<u32>)
    requires
        queue_flags@.len() <= u32::MAX,
    ensures
        match first_compute_family(queue_flags@, 0) {
            Some(i) => r == Some(i as u32),
            None => r is None,
        },
        r matches Some(i) ==> {
            &&& i < queue_flags@.len()
            &&& queue_flags@[i as int] & QUEUE_COMPUTE != 0
            &&& forall|j: int| 0 <= j < i ==> queue_flags@[j] & QUEUE_COMPUTE == 0
        },
        r is None ==> forall|j: int|
            0 <= j < queue_flags@.len() ==> queue_flags@[j] & QUEUE_COMPUTE == 0,
{

    let compute = vk_queue_compute();
    let mut i: usize = 0;
    while i < queue_flags.len()
        invariant
            i <= queue_flags@.len(),
            queue_flags@.len() <= u32::MAX,
            compute == QUEUE_COMPUTE,
            first_compute_family(queue_flags@, 0) == first_compute_family(queue_flags@, i as int),
        decreases queue_flags@.len() - i,
    {
        if queue_flags[i] & compute != 0 {
            proof {
                law_compute_family_is_first(queue_flags@, 0);
            }
            return Some(i as u32);
        }
        i = i + 1;
    }
    proof {
        law_compute_family_is_first(queue_flags@, 0);
    }
    None
}

/// The first device at or after `from`, each given by the `VkQueueFlags`
/// of its queue families, that has a compute queue family; with that
/// family.
pub open spec fn first_compute_device(devices: Seq<Seq<u32>>, from: int) -> Option<(int, int)>
    decreases devices.len() - from,
{
    if from < 0 || from >= devices.len() {
        None
    } else {
        match first_compute_family(devices[from], 0) {
            Some(family) => Some((from, family)),
            None => first_compute_device(devices, from + 1),
        }
    }
}

/// The compute device chosen is the first, in the order given, that has a
/// compute-capable queue family, together with its first such family: no
/// device before it has one, and `None` comes only when no device has any.
pub proof fn law_compute_device_is_first(devices: Seq<Seq<u32>>, from: int)
    requires
        0 <= from,
    ensures
        first_compute_device(devices, from) matches Some((d, family)) ==> {
            &&& from <= d < devices.len()
            &&& 0 <= family < devices[d].len()
            &&& devices[d][family] & QUEUE_COMPUTE != 0
            &&& forall|j: int| 0 <= j < family ==> devices[d][j] & QUEUE_COMPUTE == 0
            &&& forall|k: int, j: int|
                from <= k < d && 0 <= j < devices[k].len() ==> devices[k][j] & QUEUE_COMPUTE == 0
        },
        first_compute_device(devices, from) is None ==> forall|k: int, j: int|
            from <= k < devices.len() && 0 <= j < devices[k].len() ==> devices[k][j]
                & QUEUE_COMPUTE == 0,
    decreases devices.len() - from,
{
    if from < devices.len() {
        law_compute_family_is_first(devices[from], 0);
        law_compute_device_is_first(devices, from + 1);
    }
}

/// The device that compute work goes to, and its compute queue family:
/// the first device, in the order given, that has a compute-capable queue
/// family, with the first such family; `None` when no device has one.
pub fn compute_device(devices: &[Vec<u32>]) -> (r: Option<(usize, u32)>)
    requires
        forall|d: int| 0 <= d < devices@.len() ==> devices@[d]@.len() <= u32::MAX,
    ensures
        match first_compute_device(devices@.map_values(|f: Vec<u32>| f@), 0) {
            Some((d, family)) => r == Some((d as usize, family as u32)),
            None => r is None,
        },
        r matches Some((d, family)) ==> {
            &&& d < devices@.len()
            &&& family < devices@[d as int]@.len()
            &&& devices@[d as int]@[family as int] & QUEUE_COMPUTE != 0
            &&& forall|j: int| 0 <= j < family ==> devices@[d as int]@[j] & QUEUE_COMPUTE == 0
            &&& forall|k: int, j: int|
                0 <= k < d && 0 <= j < devices@[k]@.len() ==> devices@[k]@[j] & QUEUE_COMPUTE == 0
        },
        r is None ==> forall|k: int, j: int|
            0 <= k < devices@.len() && 0 <= j < devices@[k]@.len() ==> devices@[k]@[j]
                & QUEUE_COMPUTE == 0,
{
    let ghost model = devices@.map_values(|f: Vec<u32>| f@);
    let mut d: usize = 0;
    while d < devices.len()
        invariant
            d <= devices@.len(),
            model == devices@.map_values(|f: Vec<u32>| f@),
            forall|k: int| 0 <= k < devices@.len() ==> devices@[k]@.len() <= u32::MAX,
            first_compute_device(model, 0) == first_compute_device(model, d as int),
        decreases devices@.len() - d,
    {
        assert(model[d as int] == devices@[d as int]@);
        if let Some(family) = compute_queue_family(devices[d].as_slice()) {
            proof {
                law_compute_device_is_first(model, 0);
                assert forall|k: int| 0 <= k < devices@.len() implies model[k]
                    == #[trigger] devices@[k]@ by {}
            }
            return Some((d, family));
        }
        d = d + 1;
    }
    proof {
        law_compute_device_is_first(model, 0);
        assert forall|k: int| 0 <= k < devices@.len() implies model[k] == #[trigger] devices@[k]@ by {}
    }
    None
}

} // verus!
